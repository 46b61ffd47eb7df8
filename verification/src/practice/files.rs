//! The Cargo package of a contest in which its problems are practised on.

use vstd::prelude::*;

use crate::duel::project;
use crate::outside;
use crate::problems::{Problem, ProblemModel};
use crate::seqs;
use crate::text;

verus! {

/// Whether a character may stand in the name of a file.
pub open spec fn is_plain(c: char) -> bool {
    seqs::is_ascii_letter(c) || seqs::is_digit(c) || c == '_' || c == '-'
}

/// A name in lower case without white space around it, and with an underscore for every character
/// that may not stand in the name of a file.
pub open spec fn plain_name(value: Seq<char>) -> Seq<char> {
    let lower = seqs::ascii_lower(seqs::trim(value));
    Seq::new(
        lower.len(),
        |i: int|
            if is_plain(lower[i]) {
                lower[i]
            } else {
                '_'
            },
    )
}

/// A name for a file, or another one, if nothing is left of it.
pub open spec fn plain_name_or(value: Seq<char>, other: Seq<char>) -> Seq<char> {
    if plain_name(value).len() == 0 {
        other
    } else {
        plain_name(value)
    }
}

fn plain_char(c: char) -> (r: bool)
    ensures
        r == is_plain(c),
{
    ('a' <= c && c <= 'z') || ('A' <= c && c <= 'Z') || ('0' <= c && c <= '9') || c == '_' || c
        == '-'
}

fn sanitized(value: &str, other: &str) -> (r: String)
    ensures
        r@ == plain_name_or(value@, other@),
{
    let chars = text::chars_of(value);
    let lower = text::ascii_lower(text::trim(&chars));
    let ghost expected = plain_name(value@);
    let mut out: Vec<char> = Vec::new();
    let mut i: usize = 0;
    while i < lower.len()
        invariant
            i <= lower@.len(),
            lower@ == seqs::ascii_lower(seqs::trim(value@)),
            expected == plain_name(value@),
            out@ == expected.take(i as int),
        decreases lower@.len() - i,
    {
        let ghost before = out@;
        if plain_char(lower[i]) {
            out.push(lower[i]);
        } else {
            out.push('_');
        }
        assert(out@ =~= before.push(expected[i as int]));
        i += 1;
    }
    assert(out@ =~= expected);
    if out.len() == 0 {
        other.to_owned()
    } else {
        text::string_of(&out)
    }
}

/// The name of the binary for a task.
pub fn sanitize_task_slug(task_index: &str) -> (r: String)
    ensures
        r@ == plain_name_or(task_index@, "main"@),
{
    sanitized(task_index, "main")
}

/// The name of a directory.
pub fn sanitize_path_component(value: &str) -> (r: String)
    ensures
        r@ == plain_name_or(value@, "contest"@),
{
    sanitized(value, "contest")
}

/// A text with one dash for each run of characters that are neither letters nor digits, and none at
/// its beginning.
pub open spec fn dashed(s: Seq<char>) -> Seq<char>
    decreases s.len(),
{
    if s.len() == 0 {
        seq![]
    } else {
        let before = dashed(s.drop_last());
        let c = s.last();
        if seqs::is_ascii_letter(c) || seqs::is_digit(c) {
            before.push(c)
        } else if before.len() > 0 && before.last() != '-' {
            before.push('-')
        } else {
            before
        }
    }
}

/// The name of a package: in lower case, with dashes between its parts only.
pub open spec fn package_name(value: Seq<char>) -> Seq<char> {
    seqs::trim_char_end(
        seqs::trim_char_start(dashed(seqs::ascii_lower(seqs::trim(value))), '-'),
        '-',
    )
}

/// The name of a package.
pub fn sanitize_package_name(value: &str) -> (r: String)
    ensures
        r@ == package_name(value@),
{
    let chars = text::chars_of(value);
    let lower = text::ascii_lower(text::trim(&chars));
    let ghost all = lower@;
    let mut out: Vec<char> = Vec::new();
    let mut i: usize = 0;
    assert(out@ =~= dashed(all.take(0)));
    while i < lower.len()
        invariant
            i <= lower@.len(),
            all == lower@,
            out@ == dashed(all.take(i as int)),
        decreases lower@.len() - i,
    {
        assert(all.take(i + 1).drop_last() =~= all.take(i as int));
        assert(all.take(i + 1).last() == all[i as int]);
        let c = lower[i];
        if ('a' <= c && c <= 'z') || ('A' <= c && c <= 'Z') || ('0' <= c && c <= '9') {
            out.push(c);
        } else if out.len() > 0 && out[out.len() - 1] != '-' {
            out.push('-');
        }
        i += 1;
    }
    assert(all.take(i as int) =~= all);
    text::string_of(text::trim_char_end(text::trim_char_start(&out, '-'), '-'))
}

/// The section of a manifest for a binary.
pub open spec fn bin_section(bin_name: Seq<char>, source_file_name: Seq<char>) -> Seq<char> {
    "[[bin]]\nname = \""@ + bin_name + "\"\npath = \""@ + source_file_name + "\"\n"@
}

/// The manifest of a new package with one binary.
pub open spec fn new_manifest(
    group: Seq<char>,
    segment: Seq<char>,
    bin_name: Seq<char>,
    source_file_name: Seq<char>,
) -> Seq<char> {
    "[package]\nname = \""@ + package_name("rpractice-"@ + group + "-"@ + segment)
        + "\"\nversion = \"0.1.0\"\nedition = \"2024\"\n\n[dependencies]\nnum = \"0.4.3\"\nproconio = { version = \"0.5.0\", features = [\"derive\"] }\n\n\n"@
        + bin_section(bin_name, source_file_name)
}

/// A manifest with one more binary.
pub open spec fn with_bin(
    manifest: Seq<char>,
    bin_name: Seq<char>,
    source_file_name: Seq<char>,
) -> Seq<char> {
    (if seqs::ends_with(manifest, "\n"@) {
        manifest
    } else {
        manifest + "\n"@
    }) + "\n"@ + bin_section(bin_name, source_file_name)
}

/// Whether a manifest lists a binary. `names` are the names that it lists; where it cannot be read,
/// the line with the name is looked for.
pub open spec fn has_bin(
    manifest: Seq<char>,
    bin_name: Seq<char>,
    names: Option<Seq<Option<Seq<char>>>>,
) -> bool {
    match names {
        Some(names) => names.contains(Some(bin_name)),
        None => seqs::contains(manifest, "name = \""@ + bin_name + "\""@),
    }
}

/// Whether a manifest in which `names` were read lists a binary.
pub fn manifest_has_bin(cargo_toml: &str, bin_name: &str, names: &Option<Vec<Option<String>>>) -> (r:
    bool)
    ensures
        r == has_bin(cargo_toml@, bin_name@, names.deep_view()),
{
    match names {
        None => {
            let line = "name = \"".to_owned().concat(bin_name).concat("\"");
            text::contains_str(cargo_toml, line.as_str())
        },
        Some(listed) => {
            let ghost all = listed.deep_view();
            let mut i: usize = 0;
            while i < listed.len()
                invariant
                    i <= listed@.len(),
                    all == listed.deep_view(),
                    names.deep_view() == Some(all),
                    forall|k: int| 0 <= k < i ==> #[trigger] all[k] != Some(bin_name@),
                decreases listed@.len() - i,
            {
                assert(all[i as int] == listed@[i as int].deep_view());
                if let Some(name) = &listed[i] {
                    if text::same(name.as_str(), bin_name) {
                        assert(all[i as int] == Some(bin_name@));
                        assert(all.contains(Some(bin_name@)));
                        return true;
                    }
                }
                i += 1;
            }
            false
        },
    }
}

/// The names of the binaries that a manifest lists, as far as it can be read.
pub open spec fn bin_names(cargo_toml: Seq<char>) -> Option<Seq<Option<Seq<char>>>> {
    outside::toml_strings(cargo_toml, "bin"@, "name"@)
}

/// Whether a manifest lists a binary.
pub fn cargo_toml_has_bin(cargo_toml: &str, bin_name: &str) -> (r: bool)
    ensures
        r == has_bin(cargo_toml@, bin_name@, bin_names(cargo_toml@)),
{
    let names = outside::read_toml_strings(cargo_toml, "bin", "name");
    manifest_has_bin(cargo_toml, bin_name, &names)
}

fn bin_section_text(bin_name: &str, source_file_name: &str) -> (r: String)
    ensures
        r@ == bin_section(bin_name@, source_file_name@),
{
    "[[bin]]\nname = \"".to_owned().concat(bin_name).concat("\"\npath = \"").concat(
        source_file_name,
    ).concat("\"\n")
}

/// The manifest with one more binary.
pub fn add_bin(cargo_toml: &str, bin_name: &str, source_file_name: &str) -> (r: String)
    ensures
        r@ == with_bin(cargo_toml@, bin_name@, source_file_name@),
{
    let section = bin_section_text(bin_name, source_file_name);
    let chars = text::chars_of(cargo_toml);
    if text::ends_with(&chars, "\n") {
        cargo_toml.to_owned().concat("\n").concat(section.as_str())
    } else {
        cargo_toml.to_owned().concat("\n").concat("\n").concat(section.as_str())
    }
}

/// What is written to the manifest so that it lists a binary; nothing, if it does. `existing` is the
/// manifest before.
pub fn ensure_cargo_toml_bin(
    existing: &Option<String>,
    group: &str,
    segment: &str,
    bin_name: &str,
    source_file_name: &str,
) -> (r: Option<String>)
    ensures
        r.deep_view() == match existing.deep_view() {
            None => Some(new_manifest(group@, segment@, bin_name@, source_file_name@)),
            Some(manifest) => if has_bin(
                manifest,
                bin_name@,
                bin_names(manifest),
            ) {
                None
            } else {
                Some(with_bin(manifest, bin_name@, source_file_name@))
            },
        },
{
    match existing {
        None => {
            let wanted = "rpractice-".to_owned().concat(group).concat("-").concat(segment);
            let name = sanitize_package_name(wanted.as_str());
            let section = bin_section_text(bin_name, source_file_name);
            Some(
                "[package]\nname = \"".to_owned().concat(name.as_str()).concat(
                    "\"\nversion = \"0.1.0\"\nedition = \"2024\"\n\n[dependencies]\nnum = \"0.4.3\"\nproconio = { version = \"0.5.0\", features = [\"derive\"] }\n\n\n",
                ).concat(section.as_str()),
            )
        },
        Some(manifest) => {
            if cargo_toml_has_bin(manifest.as_str(), bin_name) {
                None
            } else {
                Some(add_bin(manifest.as_str(), bin_name, source_file_name))
            }
        },
    }
}

/// The places of the files for a problem, each as the parts of a path below the home directory, and
/// the name of its binary.
pub struct RpracticeProblemFiles {
    pub root_path: Vec<String>,
    pub source_path: Vec<String>,
    pub source_file_name: String,
    pub cargo_toml_path: Vec<String>,
    pub cargo_config_path: Vec<String>,
    pub target_path: Vec<String>,
    pub bin_name: String,
}

/// What an `RpracticeProblemFiles` holds.
#[verifier::ext_equal]
pub struct RpracticeProblemFilesModel {
    pub root_path: Seq<Seq<char>>,
    pub source_path: Seq<Seq<char>>,
    pub source_file_name: Seq<char>,
    pub cargo_toml_path: Seq<Seq<char>>,
    pub cargo_config_path: Seq<Seq<char>>,
    pub target_path: Seq<Seq<char>>,
    pub bin_name: Seq<char>,
}

impl DeepView for RpracticeProblemFiles {
    type V = RpracticeProblemFilesModel;

    open spec fn deep_view(&self) -> RpracticeProblemFilesModel {
        RpracticeProblemFilesModel {
            root_path: self.root_path.deep_view(),
            source_path: self.source_path.deep_view(),
            source_file_name: self.source_file_name@,
            cargo_toml_path: self.cargo_toml_path.deep_view(),
            cargo_config_path: self.cargo_config_path.deep_view(),
            target_path: self.target_path.deep_view(),
            bin_name: self.bin_name@,
        }
    }
}

/// The files for a problem: a package for each contest, with a binary for each of its tasks.
pub open spec fn files_for(problem: ProblemModel) -> RpracticeProblemFilesModel {
    let slug = plain_name_or(problem.task_index, "main"@);
    let root = seq![
        ".rpractice"@,
        plain_name_or(problem.contest_group, "contest"@),
        plain_name_or(problem.contest_segment, "contest"@),
    ];
    RpracticeProblemFilesModel {
        root_path: root,
        source_path: root.push(slug + ".rs"@),
        source_file_name: slug + ".rs"@,
        cargo_toml_path: root.push("Cargo.toml"@),
        cargo_config_path: root.push(".cargo"@).push("config.toml"@),
        target_path: seq![".cache"@, "rpractice"@, "target"@],
        bin_name: slug,
    }
}

/// The files for a problem.
pub fn problem_files(problem: &Problem) -> (r: RpracticeProblemFiles)
    ensures
        r.deep_view() == files_for(problem.deep_view()),
{
    let group = sanitize_path_component(problem.contest_group.as_str());
    let segment = sanitize_path_component(problem.contest_segment.as_str());
    let slug = sanitize_task_slug(problem.task_index.as_str());
    let source_file_name = slug.clone().concat(".rs");
    let (g, s) = (group.as_str(), segment.as_str());
    let r = RpracticeProblemFiles {
        root_path: text::strings_of(&[".rpractice", g, s]),
        source_path: text::strings_of(&[".rpractice", g, s, source_file_name.as_str()]),
        source_file_name: source_file_name.clone(),
        cargo_toml_path: text::strings_of(&[".rpractice", g, s, "Cargo.toml"]),
        cargo_config_path: text::strings_of(&[".rpractice", g, s, ".cargo", "config.toml"]),
        target_path: text::strings_of(&[".cache", "rpractice", "target"]),
        bin_name: slug,
    };
    proof {
        let expected = files_for(problem.deep_view());
        assert(r.deep_view().root_path =~= expected.root_path);
        assert(r.deep_view().source_path =~= expected.source_path);
        assert(r.deep_view().cargo_toml_path =~= expected.cargo_toml_path);
        assert(r.deep_view().cargo_config_path =~= expected.cargo_config_path);
        assert(r.deep_view().target_path =~= expected.target_path);
    }
    r
}

/// What is written before a problem is worked on.
pub struct ProblemFileWrites {
    /// The code, if there is none yet.
    pub source_if_missing: String,
    /// The manifest, if it has to change.
    pub cargo_toml: Option<String>,
    pub cargo_config: String,
}

/// What is written before a problem is worked on. `cargo_toml` is the manifest before, and
/// `target_path` the path of the directory for what is built.
pub fn prepare_problem_files(problem: &Problem, cargo_toml: &Option<String>, target_path: &str) -> (r:
    ProblemFileWrites)
    ensures
        r.source_if_missing@ == "fn main() {\n}\n"@,
        r.cargo_config@ == "[build]\ntarget-dir = \""@ + seqs::replace(
            target_path@,
            "\\"@,
            "\\\\"@,
        ) + "\"\n"@,
        ({
            let files = files_for(problem.deep_view());
            r.cargo_toml.deep_view() == match cargo_toml.deep_view() {
                None => Some(
                    new_manifest(
                        plain_name_or(problem.contest_group@, "contest"@),
                        plain_name_or(problem.contest_segment@, "contest"@),
                        files.bin_name,
                        files.source_file_name,
                    ),
                ),
                Some(manifest) => if has_bin(
                    manifest,
                    files.bin_name,
                    bin_names(manifest),
                ) {
                    None
                } else {
                    Some(with_bin(manifest, files.bin_name, files.source_file_name))
                },
            }
        }),
{
    let files = problem_files(problem);
    let group = sanitize_path_component(problem.contest_group.as_str());
    let segment = sanitize_path_component(problem.contest_segment.as_str());
    ProblemFileWrites {
        source_if_missing: "fn main() {\n}\n".to_owned(),
        cargo_toml: ensure_cargo_toml_bin(
            cargo_toml,
            group.as_str(),
            segment.as_str(),
            files.bin_name.as_str(),
            files.source_file_name.as_str(),
        ),
        cargo_config: project::cargo_config_toml(target_path),
    }
}

/// A name for a file is never empty, and holds only letters in lower case, digits, underscores and
/// dashes: it names a file in its directory and nothing else.
pub proof fn file_names_are_plain(value: Seq<char>)
    ensures
        ({
            let slug = plain_name_or(value, "main"@);
            let component = plain_name_or(value, "contest"@);
            &&& slug.len() > 0
            &&& component.len() > 0
            &&& forall|i: int|
                0 <= i < slug.len() ==> is_plain(#[trigger] slug[i]) && !seqs::is_ascii_upper(
                    slug[i],
                )
            &&& forall|i: int|
                0 <= i < component.len() ==> is_plain(#[trigger] component[i])
                    && !seqs::is_ascii_upper(component[i])
        }),
{
    reveal_strlit("main");
    reveal_strlit("contest");
    let lower = seqs::ascii_lower(seqs::trim(value));
    assert forall|i: int| 0 <= i < lower.len() implies !seqs::is_ascii_upper(
        #[trigger] lower[i],
    ) by {
        assert(lower[i] == seqs::lower_char(seqs::trim(value)[i]));
    }
}

/// Naming a file after a name for a file changes nothing.
pub proof fn file_names_are_kept(value: Seq<char>)
    ensures
        plain_name(plain_name(value)) == plain_name(value),
{
    let name = plain_name(value);
    let lower = seqs::ascii_lower(seqs::trim(value));
    assert forall|i: int| 0 <= i < name.len() implies is_plain(#[trigger] name[i])
        && !seqs::is_ascii_upper(name[i]) && !seqs::is_white(name[i]) by {
        assert(lower[i] == seqs::lower_char(seqs::trim(value)[i]));
    }
    if name.len() > 0 {
        assert(!seqs::is_white(name[0]) && !seqs::is_white(name.last()));
        seqs::trim_keeps(name);
    }
    assert(seqs::trim(name) =~= name);
    assert(seqs::ascii_lower(name) =~= name);
    assert(plain_name(name) =~= name);
}

proof fn dashed_has_single_dashes(s: Seq<char>)
    ensures
        forall|i: int|
            0 <= i < dashed(s).len() ==> seqs::is_ascii_letter(#[trigger] dashed(s)[i])
                || seqs::is_digit(dashed(s)[i]) || dashed(s)[i] == '-',
        forall|i: int|
            0 <= i < dashed(s).len() - 1 && #[trigger] dashed(s)[i] == '-' ==> dashed(s)[i + 1]
                != '-',
        dashed(s).len() > 0 ==> dashed(s)[0] != '-',
    decreases s.len(),
{
    if s.len() > 0 {
        dashed_has_single_dashes(s.drop_last());
    }
}

proof fn trimmed_end_is_part(s: Seq<char>, c: char) -> (n: int)
    ensures
        0 <= n <= s.len(),
        seqs::trim_char_end(s, c) == s.take(n),
        n > 0 ==> s[n - 1] != c,
    decreases s.len(),
{
    if s.len() > 0 && s.last() == c {
        let n = trimmed_end_is_part(s.drop_last(), c);
        assert(s.drop_last().take(n) =~= s.take(n));
        n
    } else {
        assert(s.take(s.len() as int) =~= s);
        s.len() as int
    }
}

/// The name of a package holds only letters, digits and dashes, and a dash only between two of the
/// others.
pub proof fn package_names_are_valid(value: Seq<char>)
    ensures
        ({
            let name = package_name(value);
            &&& forall|i: int|
                0 <= i < name.len() ==> seqs::is_ascii_letter(#[trigger] name[i]) || seqs::is_digit(
                    name[i],
                ) || name[i] == '-'
            &&& forall|i: int|
                0 <= i < name.len() && #[trigger] name[i] == '-' ==> 0 < i < name.len() - 1
                    && name[i - 1] != '-' && name[i + 1] != '-'
        }),
{
    let whole = dashed(seqs::ascii_lower(seqs::trim(value)));
    dashed_has_single_dashes(seqs::ascii_lower(seqs::trim(value)));
    assert(seqs::trim_char_start(whole, '-') == whole);
    let n = trimmed_end_is_part(whole, '-');
    let name = package_name(value);
    assert(name == whole.take(n));
    assert forall|i: int| 0 <= i < name.len() && #[trigger] name[i] == '-' implies 0 < i < name.len()
        - 1 && name[i - 1] != '-' && name[i + 1] != '-' by {
        assert(whole[i] == '-');
        assert(whole[i - 1] == name[i - 1]);
        if i < name.len() - 1 {
            assert(whole[i + 1] == name[i + 1]);
        }
    }
}

/// A name for a file has one character for each of the name without the white space around it: its
/// letters in lower case, digits, underscores and dashes as they are, and an underscore for all
/// others. Another name takes the place of a blank one.
pub proof fn names_keep_plain_characters(value: Seq<char>, other: Seq<char>, i: int)
    ensures
        ({
            let name = plain_name_or(value, other);
            let kept = seqs::trim(value);
            &&& seqs::is_blank(value) ==> name == other
            &&& !seqs::is_blank(value) ==> name.len() == kept.len()
            &&& !seqs::is_blank(value) && 0 <= i < kept.len() ==> {
                &&& ('a' <= kept[i] <= 'z' || '0' <= kept[i] <= '9' || kept[i] == '_' || kept[i]
                    == '-') ==> name[i] == kept[i]
                &&& 'A' <= kept[i] <= 'Z' ==> name[i] as u32 == kept[i] as u32 + 32
                &&& !('a' <= kept[i] <= 'z' || '0' <= kept[i] <= '9' || kept[i] == '_' || kept[i]
                    == '-' || 'A' <= kept[i] <= 'Z') ==> name[i] == '_'
            }
        }),
{
    let kept = seqs::trim(value);
    if 0 <= i < kept.len() {
        seqs::capitals_become_small(kept, i);
    }
}

/// Words of letters and digits are kept, and one dash stands for whatever is between two of them.
pub proof fn words_are_joined_by_dashes(
    first: Seq<char>,
    gap: Seq<char>,
    word: Seq<char>,
)
    requires
        forall|i: int|
            0 <= i < gap.len() ==> !(seqs::is_ascii_letter(#[trigger] gap[i]) || seqs::is_digit(
                gap[i],
            )),
        forall|i: int|
            0 <= i < word.len() ==> seqs::is_ascii_letter(#[trigger] word[i]) || seqs::is_digit(
                word[i],
            ),
        first.len() == 0 || seqs::is_ascii_letter(first.last()) || seqs::is_digit(first.last()),
    ensures
        dashed(word) == word,
        first.len() > 0 && gap.len() > 0 ==> dashed(first + gap + word) == dashed(first) + seq!['-']
            + word,
        first.len() == 0 ==> dashed(gap + word) == word,
    decreases word.len(), gap.len(),
{
    let s = first + gap + word;
    if word.len() > 0 {
        words_are_joined_by_dashes(first, gap, word.drop_last());
        assert(s.drop_last() =~= first + gap + word.drop_last());
        assert(s.last() == word.last());
        assert((gap + word).drop_last() =~= gap + word.drop_last());
        assert(dashed(first) + seq!['-'] + word.drop_last().push(word.last()) =~= (dashed(first)
            + seq!['-'] + word.drop_last()).push(word.last()));
        assert(word.drop_last().push(word.last()) =~= word);
        assert(dashed(word) =~= word);
    } else {
        assert(s =~= first + gap);
        assert(gap + word =~= gap);
        assert(dashed(word) =~= word);
        if gap.len() > 0 {
            words_are_joined_by_dashes(first, gap.drop_last(), word);
            let shorter = first + gap.drop_last();
            assert(s.drop_last() =~= shorter);
            assert(shorter + word =~= shorter);
            assert(gap.drop_last() + word =~= gap.drop_last());
            assert(dashed(first) + seq!['-'] + word =~= dashed(first) + seq!['-']);
            if gap.len() == 1 {
                assert(shorter =~= first);
                if first.len() > 0 {
                    assert(dashed(first).last() == first.last());
                }
            }
            assert(s.last() == gap.last());
            assert(gap.drop_last() + gap.skip(gap.len() - 1) =~= gap);
        }
    }
}

/// The name of a package is made of the words of a name in lower case, without dashes at its ends.
pub proof fn package_is_named_by_words(value: Seq<char>, words: Seq<char>)
    requires
        words == dashed(seqs::ascii_lower(seqs::trim(value))),
    ensures
        words.len() > 0 && words.last() != '-' ==> package_name(value) == words,
        words.len() > 0 && words.last() == '-' ==> package_name(value) == words.drop_last(),
        words.len() == 0 ==> package_name(value).len() == 0,
{
    dashed_has_single_dashes(seqs::ascii_lower(seqs::trim(value)));
    reveal_with_fuel(seqs::trim_char_end, 3);
    reveal_with_fuel(seqs::trim_char_start, 2);
    assert(seqs::trim_char_start(words, '-') == words);
    if words.len() > 1 && words.last() == '-' {
        assert(words.drop_last().last() == words[words.len() - 2]);
    }
}

proof fn section_holds_line(bin_name: Seq<char>, source: Seq<char>)
    ensures
        bin_section(bin_name, source) == "[[bin]]\n"@ + ("name = \""@ + bin_name + "\""@) + (
        "\npath = \""@ + source + "\"\n"@),
{
    reveal_strlit("[[bin]]\nname = \"");
    reveal_strlit("[[bin]]\n");
    reveal_strlit("name = \"");
    reveal_strlit("\"\npath = \"");
    reveal_strlit("\npath = \"");
    reveal_strlit("\"");
}

proof fn section_follows_blank_line(bin_name: Seq<char>, source: Seq<char>)
    ensures
        "\n\n[[bin]]\nname = \""@ + bin_name + "\"\npath = \""@ + source + "\"\n"@ == seq![
            '\n',
            '\n',
        ] + bin_section(bin_name, source),
        "\n"@ == seq!['\n'],
{
    reveal_strlit("\n\n[[bin]]\nname = \"");
    reveal_strlit("[[bin]]\nname = \"");
    reveal_strlit("\n");
    let rest = bin_name + "\"\npath = \""@ + source + "\"\n"@;
    assert("\n\n[[bin]]\nname = \""@ =~= seq!['\n', '\n'] + "[[bin]]\nname = \""@);
}

proof fn found_between(before: Seq<char>, p: Seq<char>, after: Seq<char>)
    ensures
        seqs::contains(before + p + after, p),
        seqs::ends_with(before + p, p),
        seqs::starts_with(p + after, p),
{
    seqs::found_text_stands_inside(p, p, before, after);
}

/// A binary that was added to a manifest is found in it by its name; everything that stood in the
/// manifest before still stands at its beginning, and the section of the binary stands at its end,
/// after a blank line.
pub proof fn added_binary_is_found(manifest: Seq<char>, bin_name: Seq<char>, source: Seq<char>)
    ensures
        seqs::starts_with(with_bin(manifest, bin_name, source), manifest),
        has_bin(with_bin(manifest, bin_name, source), bin_name, None),
        seqs::ends_with(
            with_bin(manifest, bin_name, source),
            "\n\n[[bin]]\nname = \""@ + bin_name + "\"\npath = \""@ + source + "\"\n"@,
        ),
{
    let line = "name = \""@ + bin_name + "\""@;
    let rest = "\npath = \""@ + source + "\"\n"@;
    let section = bin_section(bin_name, source);
    section_holds_line(bin_name, source);
    section_follows_blank_line(bin_name, source);
    let feed = seq!['\n'];
    let lead = if seqs::ends_with(manifest, "\n"@) {
        manifest
    } else {
        manifest + feed
    };
    let whole = with_bin(manifest, bin_name, source);
    assert(whole == lead + feed + section);
    let before = lead + feed + "[[bin]]\n"@;
    assert(whole =~= before + line + rest);
    found_between(before, line, rest);
    if seqs::ends_with(manifest, "\n"@) {
        assert(manifest.subrange(manifest.len() - 1, manifest.len() as int)[0] == '\n');
        assert(whole =~= manifest + (feed + section));
        found_between(seq![], manifest, feed + section);
    } else {
        assert(whole =~= manifest + (feed + feed + section));
        found_between(seq![], manifest, feed + feed + section);
    }
    assert(lead.last() == '\n');
    assert(whole =~= lead.drop_last() + (seq!['\n', '\n'] + section));
    found_between(lead.drop_last(), seq!['\n', '\n'] + section, seq![]);
}

/// A new manifest names the package after the contest, and holds its binary.
pub proof fn new_manifest_holds_binary(
    group: Seq<char>,
    segment: Seq<char>,
    bin_name: Seq<char>,
    source: Seq<char>,
)
    ensures
        has_bin(new_manifest(group, segment, bin_name, source), bin_name, None),
        seqs::ends_with(
            new_manifest(group, segment, bin_name, source),
            "\n\n[[bin]]\nname = \""@ + bin_name + "\"\npath = \""@ + source + "\"\n"@,
        ),
        seqs::starts_with(
            new_manifest(group, segment, bin_name, source),
            "[package]\nname = \""@ + package_name("rpractice-"@ + group + "-"@ + segment),
        ),
{
    let line = "name = \""@ + bin_name + "\""@;
    let rest = "\npath = \""@ + source + "\"\n"@;
    let section = bin_section(bin_name, source);
    section_holds_line(bin_name, source);
    section_follows_blank_line(bin_name, source);
    let fresh = new_manifest(group, segment, bin_name, source);
    let middle =
        "\"\nversion = \"0.1.0\"\nedition = \"2024\"\n\n[dependencies]\nnum = \"0.4.3\"\nproconio = { version = \"0.5.0\", features = [\"derive\"] }\n\n\n"@;
    let short =
        "\"\nversion = \"0.1.0\"\nedition = \"2024\"\n\n[dependencies]\nnum = \"0.4.3\"\nproconio = { version = \"0.5.0\", features = [\"derive\"] }\n"@;
    let start = "[package]\nname = \""@ + package_name("rpractice-"@ + group + "-"@ + segment);
    assert(fresh == start + middle + section);
    let before = start + middle + "[[bin]]\n"@;
    assert(fresh =~= before + line + rest);
    found_between(before, line, rest);
    assert(fresh =~= start + (middle + section));
    found_between(seq![], start, middle + section);
    middle_ends_with_blank_lines();
    let feed = seq!['\n'];
    assert(middle == short + feed + feed);
    let ending = seq!['\n', '\n'] + section;
    assert(fresh =~= (start + short) + ending);
    found_between(start + short, ending, seq![]);
}

#[verifier::rlimit(60)]
proof fn middle_ends_with_blank_lines()
    ensures
        "\"\nversion = \"0.1.0\"\nedition = \"2024\"\n\n[dependencies]\nnum = \"0.4.3\"\nproconio = { version = \"0.5.0\", features = [\"derive\"] }\n\n\n"@
            == "\"\nversion = \"0.1.0\"\nedition = \"2024\"\n\n[dependencies]\nnum = \"0.4.3\"\nproconio = { version = \"0.5.0\", features = [\"derive\"] }\n"@
            + "\n"@ + "\n"@,
{
    reveal_strlit(
        "\"\nversion = \"0.1.0\"\nedition = \"2024\"\n\n[dependencies]\nnum = \"0.4.3\"\nproconio = { version = \"0.5.0\", features = [\"derive\"] }\n\n\n",
    );
    reveal_strlit(
        "\"\nversion = \"0.1.0\"\nedition = \"2024\"\n\n[dependencies]\nnum = \"0.4.3\"\nproconio = { version = \"0.5.0\", features = [\"derive\"] }\n",
    );
    reveal_strlit("\n");
}

/// A manifest that was read lists exactly the binaries that were read in it.
pub proof fn read_names_are_listed(
    manifest: Seq<char>,
    bin_name: Seq<char>,
    names: Seq<Option<Seq<char>>>,
)
    ensures
        has_bin(manifest, bin_name, Some(names)) <==> exists|i: int|
            0 <= i < names.len() && #[trigger] names[i] == Some(bin_name),
        has_bin(manifest, bin_name, None) <==> seqs::contains(
            manifest,
            "name = \""@ + bin_name + "\""@,
        ),
{
}

/// The files of a problem stand in a directory for its contest in one for its group: the manifest,
/// and a source file that is named after the task as its binary is. What is built stands in one
/// place for all problems.
pub proof fn files_stand_in_directory_of_contest(problem: ProblemModel)
    ensures
        ({
            let files = files_for(problem);
            let root = files.root_path;
            &&& root.len() == 3
            &&& root[0] == ".rpractice"@
            &&& root[1] == plain_name_or(problem.contest_group, "contest"@)
            &&& root[2] == plain_name_or(problem.contest_segment, "contest"@)
            &&& files.bin_name == plain_name_or(problem.task_index, "main"@)
            &&& files.source_file_name == files.bin_name + ".rs"@
            &&& files.source_path == root + seq![files.source_file_name]
            &&& files.cargo_toml_path == root + seq!["Cargo.toml"@]
            &&& files.cargo_config_path == root + seq![".cargo"@, "config.toml"@]
            &&& files.target_path == seq![".cache"@, "rpractice"@, "target"@]
        }),
{
}
/// The models hold what the values hold, each part under its own name.
pub proof fn models_hold_their_parts(rpractice_problem_files: RpracticeProblemFiles)
    ensures
        rpractice_problem_files.deep_view() == (RpracticeProblemFilesModel {
            root_path: rpractice_problem_files.root_path.deep_view(),
            source_path: rpractice_problem_files.source_path.deep_view(),
            source_file_name: rpractice_problem_files.source_file_name@,
            cargo_toml_path: rpractice_problem_files.cargo_toml_path.deep_view(),
            cargo_config_path: rpractice_problem_files.cargo_config_path.deep_view(),
            target_path: rpractice_problem_files.target_path.deep_view(),
            bin_name: rpractice_problem_files.bin_name@,
        }),
{
}
/// The binaries of a manifest are named in its list of them.
pub proof fn binaries_are_named_in_list(manifest: Seq<char>, bin_name: Seq<char>)
    ensures
        match outside::toml_strings(manifest, "bin"@, "name"@) {
            Some(names) => has_bin(manifest, bin_name, bin_names(manifest)) <==> names.contains(
                Some(bin_name),
            ),
            None => has_bin(manifest, bin_name, bin_names(manifest)) <==> seqs::contains(
                manifest,
                "name = \""@ + bin_name + "\""@,
            ),
        },
{
}
/// A manifest that lists the binary is left alone, another one gets it added, and without a manifest
/// a new one is written.
pub proof fn manifest_gets_binary_once(
    existing: Option<String>,
    group: &str,
    segment: &str,
    bin_name: &str,
    source: &str,
    written: Option<String>,
)
    requires
        call_ensures(
            ensure_cargo_toml_bin,
            (&existing, group, segment, bin_name, source),
            written,
        ),
    ensures
        existing is None ==> written is Some && written->0@ == new_manifest(
            group@,
            segment@,
            bin_name@,
            source@,
        ),
        existing matches Some(manifest) ==> {
            let listed = has_bin(
                manifest@,
                bin_name@,
                outside::toml_strings(manifest@, "bin"@, "name"@),
            );
            &&& written is None <==> listed
            &&& written is Some ==> written->0@ == with_bin(manifest@, bin_name@, source@)
        },
{
}
} // verus!
