//! The files of the Cargo package in which a match is played.

use vstd::prelude::*;

use crate::duel::model::{
    RduelSession, RduelSessionModel, ServerProblem, ServerProblemModel, ServerSampleModel,
};
use crate::duel::wording;
use crate::seqs;
use crate::text;

verus! {

/// The code that a match starts with.
pub fn starter_code() -> (r: String)
    ensures
        r@ == "fn main() {}\n"@,
{
    "fn main() {}\n".to_owned()
}

/// The manifest that a match starts with.
pub open spec fn starter_manifest() -> Seq<char> {
    "[package]\nname = \"rduel\"\nversion = \"0.1.0\"\nedition = \"2024\"\n\n[package.metadata.acr]\nproblem_url = \"https://atcoder.jp/contests/abc001/tasks/abc001_1\"\n\n[dependencies]\nnum = \"0.4.3\"\nproconio = { version = \"0.5.0\", features = [\"derive\"] }\n"@
}

/// The manifest that a match starts with.
pub fn starter_cargo_toml() -> (r: String)
    ensures
        r@ == starter_manifest(),
{
    "[package]\nname = \"rduel\"\nversion = \"0.1.0\"\nedition = \"2024\"\n\n[package.metadata.acr]\nproblem_url = \"https://atcoder.jp/contests/abc001/tasks/abc001_1\"\n\n[dependencies]\nnum = \"0.4.3\"\nproconio = { version = \"0.5.0\", features = [\"derive\"] }\n".to_owned()
}

/// The configuration of Cargo that puts what it builds below `target_path`.
pub fn cargo_config_toml(target_path: &str) -> (r: String)
    ensures
        r@ == "[build]\ntarget-dir = \""@ + seqs::replace(target_path@, "\\"@, "\\\\"@) + "\"\n"@,
{
    proof {
        reveal_strlit("\\");
    }
    let chars = text::chars_of(target_path);
    let escaped = text::replace(&chars, "\\", "\\\\");
    let escaped = text::string_of(&escaped);
    "[build]\ntarget-dir = \"".to_owned().concat(escaped.as_str()).concat("\"\n")
}

/// The line of a manifest that names the problem.
pub open spec fn url_line(url: Seq<char>) -> Seq<char> {
    "problem_url = \""@ + url + "\""@
}

/// Whether a line of a manifest is taken for the one that names the problem.
pub open spec fn is_url_line(line: Seq<char>) -> bool {
    seqs::starts_with(seqs::trim_start(line), "problem_url"@)
}

/// The lines, with each that is taken for the one that names the problem in its new form.
pub open spec fn with_url_lines(lines: Seq<Seq<char>>, url: Seq<char>) -> Seq<Seq<char>> {
    Seq::new(
        lines.len(),
        |i: int|
            if is_url_line(lines[i]) {
                url_line(url)
            } else {
                lines[i]
            },
    )
}

/// Whether one of the lines is taken for the one that names the problem.
pub open spec fn has_url_line(lines: Seq<Seq<char>>) -> bool {
    exists|i: int| 0 <= i < lines.len() && is_url_line(#[trigger] lines[i])
}

/// The manifest with `url` as its problem; if it named none, in a section of its own at the end.
pub open spec fn with_problem_url(cargo_toml: Seq<char>, url: Seq<char>) -> Seq<char> {
    let lines = seqs::lines(cargo_toml);
    let body = seqs::terminated(with_url_lines(lines, url));
    if has_url_line(lines) {
        body
    } else {
        body + "\n[package.metadata.acr]\n"@ + url_line(url) + "\n"@
    }
}

/// The problem that a line of a manifest names.
pub open spec fn url_in_line(line: Seq<char>) -> Option<Seq<char>> {
    let line = seqs::trim(line);
    if !seqs::starts_with(line, "problem_url"@) {
        None
    } else {
        let value = seqs::trim(line.skip(11));
        if !seqs::starts_with(value, "="@) {
            None
        } else {
            let value = seqs::trim(value.skip(1));
            if !seqs::starts_with(value, "\""@) {
                None
            } else {
                let value = value.skip(1);
                if seqs::ends_with(value, "\""@) {
                    Some(value.take(value.len() - 1))
                } else {
                    None
                }
            }
        }
    }
}

/// The problem that the first of the lines that names one names.
pub open spec fn url_in_lines(lines: Seq<Seq<char>>) -> Option<Seq<char>>
    decreases lines.len(),
{
    if lines.len() == 0 {
        None
    } else {
        match url_in_line(lines[0]) {
            Some(url) => Some(url),
            None => url_in_lines(lines.skip(1)),
        }
    }
}

/// The problem that a manifest names.
pub open spec fn problem_url_in(cargo_toml: Seq<char>) -> Option<Seq<char>> {
    url_in_lines(seqs::lines(cargo_toml))
}

/// The manifest with `problem_url` as its problem.
pub fn replace_problem_url(cargo_toml: &str, problem_url: &str) -> (r: String)
    ensures
        r@ == with_problem_url(cargo_toml@, problem_url@),
{
    let chars = text::chars_of(cargo_toml);
    let lines = text::lines(&chars);
    let ghost all = seqs::lines(cargo_toml@);
    let ghost changed = with_url_lines(all, problem_url@);
    let new_line = "problem_url = \"".to_owned().concat(problem_url).concat("\"");
    let mut out: Vec<char> = Vec::new();
    let mut replaced: bool = false;
    let mut i: usize = 0;
    while i < lines.len()
        invariant
            all == seqs::views(lines@),
            changed == with_url_lines(all, problem_url@),
            new_line@ == url_line(problem_url@),
            i <= lines@.len(),
            out@ == seqs::terminated(changed.take(i as int)),
            replaced == exists|k: int| 0 <= k < i && is_url_line(#[trigger] all[k]),
        decreases lines@.len() - i,
    {
        let ghost before = out@;
        assert(all[i as int] == lines@[i as int]@);
        assert(changed.take(i + 1).drop_last() =~= changed.take(i as int));
        assert(changed.take(i + 1).last() == changed[i as int]);
        if text::starts_with(text::trim_start(lines[i].as_slice()), "problem_url") {
            text::push_str(&mut out, new_line.as_str());
            replaced = true;
        } else {
            text::push_chars(&mut out, lines[i].as_slice());
        }
        out.push('\n');
        assert(out@ =~= before + changed[i as int].push('\n'));
        i += 1;
    }
    assert(changed.take(i as int) =~= changed);
    assert(replaced == has_url_line(all));
    let body = text::string_of(&out);
    if replaced {
        body
    } else {
        body.concat("\n[package.metadata.acr]\n").concat(new_line.as_str()).concat("\n")
    }
}

fn url_of_line(line: &[char]) -> (r: Option<String>)
    ensures
        r.deep_view() == url_in_line(line@),
{
    proof {
        reveal_strlit("problem_url");
        reveal_strlit("=");
        reveal_strlit("\"");
    }
    let line = text::trim(line);
    let value = match text::strip_prefix(line, "problem_url") {
        None => {
            return None;
        },
        Some(rest) => text::trim(rest),
    };
    let value = match text::strip_prefix(value, "=") {
        None => {
            return None;
        },
        Some(rest) => text::trim(rest),
    };
    let value = match text::strip_prefix(value, "\"") {
        None => {
            return None;
        },
        Some(rest) => rest,
    };
    match text::strip_suffix(value, "\"") {
        None => None,
        Some(url) => Some(text::string_of(url)),
    }
}

/// The problem that a manifest names.
pub fn read_problem_url(cargo_toml: &str) -> (r: Option<String>)
    ensures
        r.deep_view() == problem_url_in(cargo_toml@),
{
    let chars = text::chars_of(cargo_toml);
    let lines = text::lines(&chars);
    let ghost all = seqs::lines(cargo_toml@);
    let mut i: usize = 0;
    assert(all.skip(0) =~= all);
    while i < lines.len()
        invariant
            all == seqs::views(lines@),
            problem_url_in(cargo_toml@) == url_in_lines(all),
            i <= lines@.len(),
            url_in_lines(all) == url_in_lines(all.skip(i as int)),
        decreases lines@.len() - i,
    {
        assert(all.skip(i as int)[0] == lines@[i as int]@);
        assert(all.skip(i as int).skip(1) =~= all.skip(i + 1));
        if let Some(url) = url_of_line(lines[i].as_slice()) {
            return Some(url);
        }
        i += 1;
    }
    None
}

proof fn url_line_names_url(url: Seq<char>)
    ensures
        url_in_line(url_line(url)) == Some(url),
{
    reveal_strlit("problem_url = \"");
    reveal_strlit("problem_url");
    reveal_strlit("=");
    reveal_strlit("\"");
    let line = url_line(url);
    let n = line.len();
    assert(line[0] == 'p' && line.last() == '"');
    seqs::trim_keeps(line);
    assert(line.subrange(0, 11) =~= "problem_url"@);
    let rest = line.skip(11);
    assert(rest[0] == ' ' && rest[1] == '=' && rest.last() == '"');
    let value = rest.skip(1);
    assert(value[0] == '=' && value.last() == '"');
    assert(seqs::trim_start(rest) == seqs::trim_start(value));
    seqs::trim_keeps(value);
    assert(seqs::trim(rest) == value);
    assert(value.subrange(0, 1) =~= "="@);
    let rest = value.skip(1);
    assert(rest[0] == ' ' && rest[1] == '"' && rest.last() == '"');
    let value = rest.skip(1);
    assert(value[0] == '"' && value.last() == '"');
    assert(seqs::trim_start(rest) == seqs::trim_start(value));
    seqs::trim_keeps(value);
    assert(seqs::trim(rest) == value);
    assert(value.subrange(0, 1) =~= "\""@);
    let last = value.skip(1);
    assert(last.subrange(last.len() - 1, last.len() as int) =~= "\""@);
    assert(last.take(last.len() - 1) =~= url);
}

proof fn other_lines_name_nothing(line: Seq<char>)
    requires
        !is_url_line(line),
    ensures
        url_in_line(line) is None,
{
    reveal_strlit("problem_url");
    let start = seqs::trim_start(line);
    let end = seqs::trim_end_cuts(start);
    let whole = seqs::trim(line);
    if seqs::starts_with(whole, "problem_url"@) {
        assert(start.subrange(0, 11) =~= whole.subrange(0, 11));
        assert(seqs::starts_with(start, "problem_url"@));
    }
}

proof fn first_url_line_counts(lines: Seq<Seq<char>>, url: Seq<char>)
    requires
        has_url_line(lines),
    ensures
        url_in_lines(
            Seq::new(lines.len(), |i: int| seqs::strip_cr(with_url_lines(lines, url)[i])),
        ) == Some(url),
    decreases lines.len(),
{
    let changed = with_url_lines(lines, url);
    let stripped = Seq::new(lines.len(), |i: int| seqs::strip_cr(changed[i]));
    seqs::trim_strips_cr(changed[0]);
    assert(url_in_line(stripped[0]) == url_in_line(changed[0]));
    if is_url_line(lines[0]) {
        url_line_names_url(url);
    } else {
        other_lines_name_nothing(lines[0]);
        let rest = lines.skip(1);
        let i = choose|i: int| 0 <= i < lines.len() && is_url_line(#[trigger] lines[i]);
        assert(is_url_line(rest[i - 1]));
        first_url_line_counts(rest, url);
        assert(stripped.skip(1) =~= Seq::new(
            rest.len(),
            |i: int| seqs::strip_cr(with_url_lines(rest, url)[i]),
        ));
    }
}

proof fn appended_section(lines: Seq<Seq<char>>, url: Seq<char>)
    ensures
        seqs::terminated(
            lines.push(Seq::empty()).push("[package.metadata.acr]"@).push(url_line(url)),
        ) == seqs::terminated(lines) + "\n[package.metadata.acr]\n"@ + url_line(url) + "\n"@,
{
    let header = "[package.metadata.acr]"@;
    let one = lines.push(Seq::empty());
    let two = one.push(header);
    let three = two.push(url_line(url));
    assert(one.drop_last() =~= lines);
    assert(two.drop_last() =~= one);
    assert(three.drop_last() =~= two);
    assert(seqs::terminated(one) == seqs::terminated(lines) + Seq::empty().push('\n'));
    assert(seqs::terminated(two) == seqs::terminated(one) + header.push('\n'));
    assert(seqs::terminated(three) == seqs::terminated(two) + url_line(url).push('\n'));
    assert("\n[package.metadata.acr]\n"@ =~= Seq::empty().push('\n') + header.push('\n')) by {
        reveal_strlit("\n[package.metadata.acr]\n");
        reveal_strlit("[package.metadata.acr]");
    }
    assert("\n"@ =~= seq!['\n']) by {
        reveal_strlit("\n");
    }
    assert(seqs::terminated(three) =~= seqs::terminated(lines) + (Seq::empty().push('\n')
        + header.push('\n')) + url_line(url) + seq!['\n']);
}

proof fn url_line_is_one()
    ensures
        forall|url: Seq<char>| is_url_line(#[trigger] url_line(url)),
        forall|url: Seq<char>|
            seqs::is_one_line(url) ==> seqs::is_one_line(#[trigger] url_line(url)),
        seqs::is_one_line("[package.metadata.acr]"@),
        !is_url_line("[package.metadata.acr]"@),
        !is_url_line(Seq::empty()),
{
    reveal_strlit("problem_url");
    assert forall|url: Seq<char>| is_url_line(#[trigger] url_line(url)) by {
        reveal_strlit("problem_url = \"");
        reveal_strlit("\"");
        let line = url_line(url);
        assert(line[0] == 'p' && line.last() == '"');
        seqs::trim_keeps(line);
        assert(line.subrange(0, 11) =~= "problem_url"@);
    }
    assert forall|url: Seq<char>| seqs::is_one_line(url) implies seqs::is_one_line(
        #[trigger] url_line(url),
    ) by {
        reveal_strlit("problem_url = \"");
        reveal_strlit("\"");
    }
    reveal_strlit("[package.metadata.acr]");
    let header = "[package.metadata.acr]"@;
    assert(seqs::trim_start(header) == header);
    assert(header.subrange(0, 11)[0] == '[');
}

proof fn changed_lines_are_lines(lines: Seq<Seq<char>>, url: Seq<char>)
    requires
        seqs::is_one_line(url),
        forall|i: int| 0 <= i < lines.len() ==> seqs::is_one_line(#[trigger] lines[i]),
    ensures
        forall|i: int|
            0 <= i < lines.len() ==> seqs::is_one_line(#[trigger] with_url_lines(lines, url)[i]),
{
    url_line_is_one();
    assert forall|i: int| 0 <= i < lines.len() implies seqs::is_one_line(
        #[trigger] with_url_lines(lines, url)[i],
    ) by {
        assert(seqs::is_one_line(lines[i]));
    }
}

proof fn changed_lines_are_read(lines: Seq<Seq<char>>, url: Seq<char>)
    requires
        seqs::is_one_line(url),
        forall|i: int| 0 <= i < lines.len() ==> seqs::is_one_line(#[trigger] lines[i]),
        has_url_line(lines),
    ensures
        problem_url_in(seqs::terminated(with_url_lines(lines, url))) == Some(url),
{
    let changed = with_url_lines(lines, url);
    changed_lines_are_lines(lines, url);
    seqs::lines_of_terminated(changed);
    first_url_line_counts(lines, url);
    assert(seqs::lines(seqs::terminated(changed)) =~= Seq::new(
        lines.len(),
        |i: int| seqs::strip_cr(with_url_lines(lines, url)[i]),
    ));
}

/// Reading a manifest into which a problem was written gives that problem back, whatever the
/// manifest was before. The address of the problem is on one line.
pub proof fn written_url_is_read_back(cargo_toml: Seq<char>, url: Seq<char>)
    requires
        seqs::is_one_line(url),
    ensures
        problem_url_in(with_problem_url(cargo_toml, url)) == Some(url),
{
    let lines = seqs::lines(cargo_toml);
    seqs::lines_are_lines(cargo_toml);
    if has_url_line(lines) {
        changed_lines_are_read(lines, url);
    } else {
        let shape = lines.push(Seq::empty()).push("[package.metadata.acr]"@).push(url_line(url));
        url_line_is_one();
        assert(is_url_line(shape[shape.len() - 1]));
        assert forall|i: int| 0 <= i < shape.len() implies seqs::is_one_line(
            #[trigger] shape[i],
        ) by {
            if i < lines.len() {
                assert(seqs::is_one_line(lines[i]));
            }
        }
        assert(with_url_lines(lines, url) =~= lines) by {
            assert forall|i: int| 0 <= i < lines.len() implies with_url_lines(lines, url)[i]
                == lines[i] by {
                assert(!is_url_line(lines[i]));
            }
        }
        assert(with_url_lines(shape, url) =~= shape) by {
            assert forall|i: int| 0 <= i < shape.len() implies with_url_lines(shape, url)[i]
                == shape[i] by {
                if i < lines.len() {
                    assert(!is_url_line(lines[i]));
                }
            }
        }
        appended_section(lines, url);
        changed_lines_are_read(shape, url);
    }
}

/// A file of the package.
pub enum ProjectFile {
    MainRs,
    CargoToml,
    ProblemMarkdown,
    /// A file with the given name in the directory of the tests.
    Test(String),
}

/// A file of the package, and its new content.
pub struct FileWrite {
    pub file: ProjectFile,
    pub content: String,
}

/// A file of the package.
#[verifier::ext_equal]
pub enum ProjectFileModel {
    MainRs,
    CargoToml,
    ProblemMarkdown,
    Test(Seq<char>),
}

impl DeepView for ProjectFile {
    type V = ProjectFileModel;

    open spec fn deep_view(&self) -> ProjectFileModel {
        match self {
            ProjectFile::MainRs => ProjectFileModel::MainRs,
            ProjectFile::CargoToml => ProjectFileModel::CargoToml,
            ProjectFile::ProblemMarkdown => ProjectFileModel::ProblemMarkdown,
            ProjectFile::Test(name) => ProjectFileModel::Test(name@),
        }
    }
}

impl DeepView for FileWrite {
    type V = (ProjectFileModel, Seq<char>);

    open spec fn deep_view(&self) -> (ProjectFileModel, Seq<char>) {
        (self.file.deep_view(), self.content@)
    }
}

/// The name of a file with the input of a test.
pub open spec fn input_name(index: nat) -> Seq<char> {
    seqs::decimal(index) + ".in"@
}

/// The name of a file with the expected output of a test.
pub open spec fn output_name(index: nat) -> Seq<char> {
    seqs::decimal(index) + ".out"@
}

/// The files with the inputs and outputs of tests, numbered from zero.
pub open spec fn test_writes(cases: Seq<(Seq<char>, Seq<char>)>) -> Seq<
    (ProjectFileModel, Seq<char>),
>
    decreases cases.len(),
{
    if cases.len() == 0 {
        seq![]
    } else {
        let index = (cases.len() - 1) as nat;
        test_writes(cases.drop_last()) + seq![
            (ProjectFileModel::Test(input_name(index)), cases.last().0),
            (ProjectFileModel::Test(output_name(index)), cases.last().1),
        ]
    }
}

/// Inputs and outputs of samples.
pub open spec fn sample_pairs(samples: Seq<ServerSampleModel>) -> Seq<(Seq<char>, Seq<char>)> {
    Seq::new(samples.len(), |i: int| (samples[i].input, samples[i].output))
}

/// The name of a file with the input of a test.
pub fn test_input_name(index: usize) -> (r: String)
    ensures
        r@ == input_name(index as nat),
{
    wording::number(index as u64).concat(".in")
}

/// The name of a file with the expected output of a test.
pub fn test_output_name(index: usize) -> (r: String)
    ensures
        r@ == output_name(index as nat),
{
    wording::number(index as u64).concat(".out")
}

/// Whether a file in the directory of the tests belongs to a test, so that it goes before new ones
/// are written.
pub fn is_test_file(name: &str) -> (r: bool)
    ensures
        r == match seqs::rsplit_once(name@, '.') {
            Some((stem, extension)) => stem.len() > 0 && (extension == "in"@ || extension
                == "out"@),
            None => false,
        },
{
    let chars = text::chars_of(name);
    match text::rsplit_once(&chars, '.') {
        None => false,
        Some((stem, extension)) => {
            let input = text::chars_of("in");
            let output = text::chars_of("out");
            stem.len() > 0 && (text::eq(extension, &input) || text::eq(extension, &output))
        },
    }
}

/// The files with the inputs and outputs of tests, numbered from zero without a gap.
pub fn write_test_case_files(cases: &Vec<(String, String)>) -> (r: Vec<FileWrite>)
    ensures
        r.deep_view() == test_writes(cases.deep_view()),
{
    let ghost all = cases.deep_view();
    let mut out: Vec<FileWrite> = Vec::new();
    let mut i: usize = 0;
    assert(out.deep_view() =~= test_writes(all.take(0)));
    while i < cases.len()
        invariant
            i <= cases@.len(),
            all == cases.deep_view(),
            out.deep_view() == test_writes(all.take(i as int)),
        decreases cases@.len() - i,
    {
        let ghost before = out.deep_view();
        assert(all.take(i + 1).drop_last() =~= all.take(i as int));
        assert(all.take(i + 1).last() == cases@[i as int].deep_view());
        out.push(
            FileWrite {
                file: ProjectFile::Test(test_input_name(i)),
                content: cases[i].0.clone(),
            },
        );
        out.push(
            FileWrite {
                file: ProjectFile::Test(test_output_name(i)),
                content: cases[i].1.clone(),
            },
        );
        i += 1;
        assert(out.deep_view() =~= test_writes(all.take(i as int)));
    }
    assert(all.take(i as int) =~= all);
    out
}

/// The files that change when the problem of a match is put into the package: the statement, the
/// samples as tests, and the manifest, which was `cargo_toml`.
pub open spec fn problem_writes(problem: ServerProblemModel, cargo_toml: Seq<char>) -> Seq<
    (ProjectFileModel, Seq<char>),
> {
    seq![(ProjectFileModel::ProblemMarkdown, problem.statement_markdown)] + test_writes(
        sample_pairs(problem.samples),
    ) + seq![(ProjectFileModel::CargoToml, with_problem_url(cargo_toml, problem.url))]
}

/// The files that change when the problem of a match is put into the package.
pub fn write_server_problem_to_project(problem: &ServerProblem, cargo_toml: &str) -> (r: Vec<
    FileWrite,
>)
    ensures
        r.deep_view() == problem_writes(problem.deep_view(), cargo_toml@),
{
    let mut cases: Vec<(String, String)> = Vec::new();
    let mut i: usize = 0;
    let ghost pairs = sample_pairs(problem.deep_view().samples);
    while i < problem.samples.len()
        invariant
            i <= problem.samples@.len(),
            pairs == sample_pairs(problem.deep_view().samples),
            cases.deep_view() == pairs.take(i as int),
        decreases problem.samples@.len() - i,
    {
        let ghost before = cases.deep_view();
        cases.push((problem.samples[i].input.clone(), problem.samples[i].output.clone()));
        assert(cases.deep_view() =~= before.push(pairs[i as int]));
        i += 1;
    }
    assert(cases.deep_view() =~= pairs);
    let mut tests = write_test_case_files(&cases);
    let mut out: Vec<FileWrite> = Vec::new();
    out.push(
        FileWrite {
            file: ProjectFile::ProblemMarkdown,
            content: problem.statement_markdown.clone(),
        },
    );
    assert(out.deep_view() =~= seq![
        (ProjectFileModel::ProblemMarkdown, problem.deep_view().statement_markdown),
    ]);
    let ghost first = out.deep_view();
    let ghost middle = tests.deep_view();
    out.append(&mut tests);
    assert(out.deep_view() =~= first + middle);
    out.push(
        FileWrite {
            file: ProjectFile::CargoToml,
            content: replace_problem_url(cargo_toml, problem.url.as_str()),
        },
    );
    assert(out.deep_view() =~= problem_writes(problem.deep_view(), cargo_toml@));
    out
}

/// The files that change when the code of a session is put into the package: what the session
/// brings, the manifest with the problem of its match.
pub open spec fn restored_writes(session: RduelSessionModel) -> Seq<(ProjectFileModel, Seq<char>)> {
    (match session.initial_main_rs {
        Some(main_rs) => seq![(ProjectFileModel::MainRs, main_rs)],
        None => seq![],
    }) + (match session.initial_cargo_toml {
        Some(cargo_toml) => seq![
            (
                ProjectFileModel::CargoToml,
                match session.room {
                    Some(room) => with_problem_url(cargo_toml, room.problem.url),
                    None => cargo_toml,
                },
            ),
        ],
        None => seq![],
    })
}

/// The files that change when the code of a session is put into the package.
pub fn restore_session_files(session: &RduelSession) -> (r: Vec<FileWrite>)
    ensures
        r.deep_view() == restored_writes(session.deep_view()),
{
    let mut out: Vec<FileWrite> = Vec::new();
    if let Some(main_rs) = &session.initial_main_rs {
        out.push(FileWrite { file: ProjectFile::MainRs, content: main_rs.clone() });
    }
    if let Some(cargo_toml) = &session.initial_cargo_toml {
        let content = match &session.room {
            Some(room) => replace_problem_url(cargo_toml.as_str(), room.problem.url.as_str()),
            None => cargo_toml.clone(),
        };
        out.push(FileWrite { file: ProjectFile::CargoToml, content });
    }
    assert(out.deep_view() =~= restored_writes(session.deep_view()));
    out
}

/// What is written to the package when a session is opened: first the problem of its match, then
/// the code that it brings. `cargo_toml` is the manifest before.
pub open spec fn session_writes(session: RduelSessionModel, cargo_toml: Seq<char>) -> Seq<
    (ProjectFileModel, Seq<char>),
> {
    (match session.room {
        Some(room) => problem_writes(room.problem, cargo_toml),
        None => seq![],
    }) + restored_writes(session)
}

/// What is written to the package when a session is opened.
pub fn open_rduel_session(session: &RduelSession, cargo_toml: &str) -> (r: Vec<FileWrite>)
    ensures
        r.deep_view() == session_writes(session.deep_view(), cargo_toml@),
{
    let mut out = match &session.room {
        Some(room) => write_server_problem_to_project(&room.problem, cargo_toml),
        None => Vec::new(),
    };
    let ghost first = out.deep_view();
    let mut restored = restore_session_files(session);
    let ghost second = restored.deep_view();
    out.append(&mut restored);
    assert(out.deep_view() =~= first + second);
    assert(out.deep_view() =~= session_writes(session.deep_view(), cargo_toml@));
    out
}

/// The places of the files of the package, each as the parts of a path below the home directory.
pub struct ProjectPlaces {
    pub root: Vec<String>,
    pub problem_rs: Vec<String>,
    pub problem_markdown: Vec<String>,
    pub cargo_toml: Vec<String>,
    pub tests: Vec<String>,
    pub cargo_config: Vec<String>,
    pub target: Vec<String>,
}

/// A file that is written when the package is prepared.
pub struct PreparedFile {
    /// Where it is, as the parts of a path below the package.
    pub place: Vec<String>,
    pub content: String,
    /// Whether it is left alone, if it is there.
    pub only_if_missing: bool,
}

impl DeepView for PreparedFile {
    type V = (Seq<Seq<char>>, Seq<char>, bool);

    open spec fn deep_view(&self) -> (Seq<Seq<char>>, Seq<char>, bool) {
        (self.place.deep_view(), self.content@, self.only_if_missing)
    }
}

/// The places of the files of the package: all but the target directory are in the directory of one
/// problem, as the sample runner expects it.
pub fn project_places() -> (r: ProjectPlaces)
    ensures
        r.root.deep_view() == seq![".rduel"@, "abc001"@, "a"@],
        r.problem_rs.deep_view() == r.root.deep_view() + seq!["src"@, "main.rs"@],
        r.problem_markdown.deep_view() == r.root.deep_view() + seq!["problem.md"@],
        r.cargo_toml.deep_view() == r.root.deep_view() + seq!["Cargo.toml"@],
        r.tests.deep_view() == r.root.deep_view() + seq!["tests"@],
        r.cargo_config.deep_view() == r.root.deep_view() + seq![".cargo"@, "config.toml"@],
        r.target.deep_view() == seq![".cache"@, "rduel"@, "target"@],
{
    let r = ProjectPlaces {
        root: text::strings_of(&[".rduel", "abc001", "a"]),
        problem_rs: text::strings_of(&[".rduel", "abc001", "a", "src", "main.rs"]),
        problem_markdown: text::strings_of(&[".rduel", "abc001", "a", "problem.md"]),
        cargo_toml: text::strings_of(&[".rduel", "abc001", "a", "Cargo.toml"]),
        tests: text::strings_of(&[".rduel", "abc001", "a", "tests"]),
        cargo_config: text::strings_of(&[".rduel", "abc001", "a", ".cargo", "config.toml"]),
        target: text::strings_of(&[".cache", "rduel", "target"]),
    };
    let ghost root = seq![".rduel"@, "abc001"@, "a"@];
    assert(r.root.deep_view() =~= root);
    assert(r.problem_rs.deep_view() =~= root + seq!["src"@, "main.rs"@]);
    assert(r.problem_markdown.deep_view() =~= root + seq!["problem.md"@]);
    assert(r.cargo_toml.deep_view() =~= root + seq!["Cargo.toml"@]);
    assert(r.tests.deep_view() =~= root + seq!["tests"@]);
    assert(r.cargo_config.deep_view() =~= root + seq![".cargo"@, "config.toml"@]);
    assert(r.target.deep_view() =~= seq![".cache"@, "rduel"@, "target"@]);
    r
}

/// The directories below the package that are made when it is prepared.
pub fn project_directories() -> (r: Vec<String>)
    ensures
        r.deep_view() == seq!["src"@, ".cargo"@, "tests"@],
{
    let r = text::strings_of(&["src", ".cargo", "tests"]);
    assert(r.deep_view() =~= seq!["src"@, ".cargo"@, "tests"@]);
    r
}

/// What is written when the package is prepared: the code is always that of a new match, but the
/// manifest of an earlier one is kept.
pub fn prepare_rduel_project(target_path: &str) -> (r: Vec<PreparedFile>)
    ensures
        r.deep_view() == seq![
            (seq![".acr"@], Seq::<char>::empty(), true),
            (seq!["Cargo.toml"@], starter_manifest(), true),
            (
                seq![".cargo"@, "config.toml"@],
                "[build]\ntarget-dir = \""@ + seqs::replace(target_path@, "\\"@, "\\\\"@)
                    + "\"\n"@,
                false,
            ),
            (seq!["src"@, "main.rs"@], "fn main() {}\n"@, false),
        ],
{
    let marker = text::strings_of(&[".acr"]);
    let manifest = text::strings_of(&["Cargo.toml"]);
    let config = text::strings_of(&[".cargo", "config.toml"]);
    let code = text::strings_of(&["src", "main.rs"]);
    assert(marker.deep_view() =~= seq![".acr"@]);
    assert(manifest.deep_view() =~= seq!["Cargo.toml"@]);
    assert(config.deep_view() =~= seq![".cargo"@, "config.toml"@]);
    assert(code.deep_view() =~= seq!["src"@, "main.rs"@]);
    let empty = String::new();
    assert(empty@ =~= Seq::<char>::empty());
    let mut out: Vec<PreparedFile> = Vec::new();
    out.push(PreparedFile { place: marker, content: empty, only_if_missing: true });
    out.push(
        PreparedFile { place: manifest, content: starter_cargo_toml(), only_if_missing: true },
    );
    out.push(
        PreparedFile {
            place: config,
            content: cargo_config_toml(target_path),
            only_if_missing: false,
        },
    );
    out.push(PreparedFile { place: code, content: starter_code(), only_if_missing: false });
    out
}

/// Writing a problem into a manifest changes the lines that name a problem, and no other line; if
/// there is none, a section that names it is added at the end.
pub proof fn only_url_lines_are_changed(cargo_toml: Seq<char>, url: Seq<char>) -> (lines: Seq<Seq<char>>)
    ensures
        lines.len() == seqs::lines(cargo_toml).len(),
        forall|i: int|
            0 <= i < lines.len() ==> #[trigger] lines[i] == if seqs::starts_with(
                seqs::trim_start(seqs::lines(cargo_toml)[i]),
                "problem_url"@,
            ) {
                "problem_url = \""@ + url + "\""@
            } else {
                seqs::lines(cargo_toml)[i]
            },
        (exists|i: int|
            0 <= i < lines.len() && seqs::starts_with(
                seqs::trim_start(#[trigger] seqs::lines(cargo_toml)[i]),
                "problem_url"@,
            )) ==> with_problem_url(cargo_toml, url) == seqs::terminated(lines),
        (forall|i: int|
            0 <= i < lines.len() ==> !seqs::starts_with(
                seqs::trim_start(#[trigger] seqs::lines(cargo_toml)[i]),
                "problem_url"@,
            )) ==> with_problem_url(cargo_toml, url) == seqs::terminated(seqs::lines(cargo_toml))
            + "\n[package.metadata.acr]\n"@ + ("problem_url = \""@ + url + "\""@) + "\n"@,
{
    let before = seqs::lines(cargo_toml);
    let lines = with_url_lines(before, url);
    if exists|i: int|
        0 <= i < lines.len() && seqs::starts_with(
            seqs::trim_start(#[trigger] seqs::lines(cargo_toml)[i]),
            "problem_url"@,
        ) {
        let i = choose|i: int|
            0 <= i < lines.len() && seqs::starts_with(
                seqs::trim_start(#[trigger] seqs::lines(cargo_toml)[i]),
                "problem_url"@,
            );
        assert(is_url_line(before[i]));
    } else {
        assert(lines =~= before);
    }
    lines
}

/// The files of the tests come in pairs, each with its number: the input and then what is expected
/// of it.
pub proof fn tests_are_numbered(cases: Seq<(Seq<char>, Seq<char>)>, i: int)
    requires
        0 <= i < cases.len(),
    ensures
        test_writes(cases).len() == 2 * cases.len(),
        test_writes(cases)[2 * i].0 == ProjectFileModel::Test(seqs::decimal(i as nat) + ".in"@),
        test_writes(cases)[2 * i].1 == cases[i].0,
        test_writes(cases)[2 * i + 1].0 == ProjectFileModel::Test(
            seqs::decimal(i as nat) + ".out"@,
        ),
        test_writes(cases)[2 * i + 1].1 == cases[i].1,
    decreases cases.len(),
{
    if cases.len() > 1 {
        tests_are_numbered(
            cases.drop_last(),
            if i < cases.len() - 1 {
                i
            } else {
                0
            },
        );
    } else {
        assert(test_writes(cases.drop_last()).len() == 0);
    }
}

/// A problem is written as its statement, its samples as tests, and its address in the manifest.
pub proof fn problem_is_written(problem: ServerProblemModel, cargo_toml: Seq<char>, i: int)
    ensures
        ({
            let writes = problem_writes(problem, cargo_toml);
            let n = problem.samples.len() as int;
            &&& writes.len() == 2 * n + 2
            &&& writes[0].0 == ProjectFileModel::ProblemMarkdown
            &&& writes[0].1 == problem.statement_markdown
            &&& 0 <= i < n ==> {
                &&& writes[2 * i + 1].0 == ProjectFileModel::Test(
                    seqs::decimal(i as nat) + ".in"@,
                )
                &&& writes[2 * i + 1].1 == problem.samples[i].input
                &&& writes[2 * i + 2].0 == ProjectFileModel::Test(
                    seqs::decimal(i as nat) + ".out"@,
                )
                &&& writes[2 * i + 2].1 == problem.samples[i].output
            }
            &&& writes[2 * n + 1].0 == ProjectFileModel::CargoToml
            &&& writes[2 * n + 1].1 == with_problem_url(cargo_toml, problem.url)
        }),
{
    let pairs = sample_pairs(problem.samples);
    if pairs.len() > 0 {
        tests_are_numbered(
            pairs,
            if 0 <= i < pairs.len() {
                i
            } else {
                0
            },
        );
    }
}

/// A session puts back the code that it brings, and the manifest that it brings with the problem of
/// its match; what it does not bring stays.
pub proof fn session_puts_back_its_code(session: RduelSessionModel, cargo_toml: Seq<char>)
    ensures
        ({
            let restored = restored_writes(session);
            let manifest: int = if session.initial_main_rs is Some {
                1
            } else {
                0
            };
            &&& session.initial_main_rs is Some ==> restored.len() > 0 && restored[0].0
                == ProjectFileModel::MainRs && restored[0].1 == session.initial_main_rs->0
            &&& session.initial_cargo_toml is None ==> restored.len() == manifest
            &&& session.initial_cargo_toml is Some ==> restored.len() == manifest + 1
                && restored[manifest].0 == ProjectFileModel::CargoToml && restored[manifest].1
                == if session.room is Some {
                with_problem_url(session.initial_cargo_toml->0, session.room->0.problem.url)
            } else {
                session.initial_cargo_toml->0
            }
            &&& session.room is None ==> session_writes(session, cargo_toml) == restored
            &&& session.room is Some ==> session_writes(session, cargo_toml) == problem_writes(
                session.room->0.problem,
                cargo_toml,
            ) + restored
        }),
{
    assert(Seq::<(ProjectFileModel, Seq<char>)>::empty() + restored_writes(session)
        =~= restored_writes(session));
}

/// A line names a problem if it sets its address in quotes, with any white space around its parts;
/// the first line of a manifest that does counts.
pub proof fn first_named_problem_counts(line: Seq<char>, rest: Seq<Seq<char>>)
    ensures
        url_in_lines(seq![]) is None,
        url_in_line(line) is Some ==> url_in_lines(seq![line] + rest) == url_in_line(line),
        url_in_line(line) is None ==> url_in_lines(seq![line] + rest) == url_in_lines(rest),
        !seqs::starts_with(seqs::trim(line), "problem_url"@) ==> url_in_line(line) is None,
{
    assert((seq![line] + rest).skip(1) =~= rest);
    assert((seq![line] + rest)[0] == line);
}
/// The models hold what the values hold, each part under its own name.
pub proof fn models_hold_their_parts(
    project_file: ProjectFile,
    file_write: FileWrite,
    prepared_file: PreparedFile,
)
    ensures
        project_file.deep_view() == match project_file {
            ProjectFile::MainRs => ProjectFileModel::MainRs,
            ProjectFile::CargoToml => ProjectFileModel::CargoToml,
            ProjectFile::ProblemMarkdown => ProjectFileModel::ProblemMarkdown,
            ProjectFile::Test(name) => ProjectFileModel::Test(name@),
        },
        file_write.deep_view() == ((file_write.file.deep_view(), file_write.content@)
),
        prepared_file.deep_view() == ((prepared_file.place.deep_view(), prepared_file.content@, prepared_file.only_if_missing)
),
{
}
/// A file belongs to a test exactly if its name has `in` or `out` behind its last dot and something
/// before it.
pub proof fn test_files_are_known(stem: Seq<char>, extension: Seq<char>, name: &str, is_test: bool)
    requires
        call_ensures(is_test_file, (name,), is_test),
    ensures
        !name@.contains('.') ==> !is_test,
        name@ == stem + seq!['.'] + extension && !extension.contains('.') ==> (is_test
            <==> stem.len() > 0 && (extension == "in"@ || extension == "out"@)),
{
    seqs::cut_at_last(name@, '.');
    if name@ == stem + seq!['.'] + extension && !extension.contains('.') {
        let whole = name@;
        assert(whole[stem.len() as int] == '.');
        assert(whole.contains('.'));
        let (before, after) = seqs::rsplit_once(whole, '.')->0;
        assert(whole == before + seq!['.'] + after);
        if before.len() < stem.len() {
            let k: int = stem.len() - before.len() - 1;
            assert(whole[stem.len() as int] == after[k]);
            assert(after.contains('.'));
        } else if before.len() > stem.len() {
            let k: int = before.len() - stem.len() - 1;
            assert(whole[before.len() as int] == extension[k]);
            assert(whole[before.len() as int] == '.');
            assert(extension.contains('.'));
        }
        assert(before.len() == stem.len());
        assert forall|i: int| 0 <= i < stem.len() implies before[i] == stem[i] by {
            assert(whole[i] == before[i]);
            assert(whole[i] == stem[i]);
        }
        assert(after.len() == extension.len());
        assert forall|i: int| 0 <= i < after.len() implies after[i] == extension[i] by {
            assert(whole[stem.len() + 1 + i] == after[i]);
            assert(whole[stem.len() + 1 + i] == extension[i]);
        }
        assert(before =~= stem);
        assert(after =~= extension);
    }
}

/// The code, the manifest, the statement, the tests and the configuration of a package stand in its
/// directory; what is built stands elsewhere.
pub proof fn files_stand_in_package(places: ProjectPlaces)
    requires
        call_ensures(project_places, (), places),
    ensures
        places.root.deep_view() == seq![".rduel"@, "abc001"@, "a"@],
        places.problem_rs.deep_view() == seq![".rduel"@, "abc001"@, "a"@, "src"@, "main.rs"@],
        places.problem_markdown.deep_view() == seq![".rduel"@, "abc001"@, "a"@, "problem.md"@],
        places.cargo_toml.deep_view() == seq![".rduel"@, "abc001"@, "a"@, "Cargo.toml"@],
        places.tests.deep_view() == seq![".rduel"@, "abc001"@, "a"@, "tests"@],
        places.cargo_config.deep_view() == seq![
            ".rduel"@,
            "abc001"@,
            "a"@,
            ".cargo"@,
            "config.toml"@,
        ],
        places.target.deep_view() == seq![".cache"@, "rduel"@, "target"@],
{
}

/// A new match starts with new code, and keeps a manifest that is there.
pub proof fn manifest_is_kept_and_code_is_new(target: &str, files: Vec<PreparedFile>)
    requires
        call_ensures(prepare_rduel_project, (target,), files),
    ensures
        files@.len() == 4,
        files@[0].place.deep_view() == seq![".acr"@] && files@[0].only_if_missing,
        files@[1].place.deep_view() == seq!["Cargo.toml"@] && files@[1].only_if_missing,
        files@[2].place.deep_view() == seq![".cargo"@, "config.toml"@] && !files@[2].only_if_missing,
        files@[3].place.deep_view() == seq!["src"@, "main.rs"@] && !files@[3].only_if_missing,
        files@[3].content@ == "fn main() {}\n"@,
        files@[2].content@ == "[build]\ntarget-dir = \""@ + seqs::replace(
            target@,
            "\\"@,
            "\\\\"@,
        ) + "\"\n"@,
{
    assert(files.deep_view().len() == files@.len());
    assert(files.deep_view()[0] == files@[0].deep_view());
    assert(files.deep_view()[1] == files@[1].deep_view());
    assert(files.deep_view()[2] == files@[2].deep_view());
    assert(files.deep_view()[3] == files@[3].deep_view());
}
} // verus!
