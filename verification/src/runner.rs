//! Running a solution on the samples of its problem.

use vstd::prelude::*;

use std::path::PathBuf;

use crate::copying::Duplicate;
use crate::seqs;
use crate::text;

verus! {

/// `std::path::PathBuf`, which is carried along and not looked into.
#[verifier::external_type_specification]
#[verifier::external_body]
pub struct ExPathBuf(std::path::PathBuf);

/// A Cargo package with a solution in it.
pub struct RustSolution {
    pub root_path: PathBuf,
    pub target_path: PathBuf,
    pub bin_name: Option<String>,
}

/// How a process ended.
#[derive(Clone, Copy, Debug, PartialEq, Eq, Structural)]
pub struct ProcessStatus {
    pub success: bool,
    pub code: Option<i32>,
}

/// A process that has ended, and what it wrote.
pub struct ProcessOutput {
    pub label: &'static str,
    pub executable: PathBuf,
    pub args: Vec<String>,
    pub status: ProcessStatus,
    pub stdout: String,
    pub stderr: String,
}

/// What became of the process that runs a solution on a sample.
pub enum SampleProcess {
    /// It could not be started, or its output could not be read, for this reason.
    Failed(String),
    /// It did not end in time.
    TimedOut,
    /// It ended, and wrote this.
    Finished { status: ProcessStatus, stdout: String, stderr: String },
}

/// A sample that a solution is tried on.
pub struct SampleCase {
    pub input: String,
    pub expected: String,
}

/// What a `SampleCase` holds.
#[verifier::ext_equal]
pub struct SampleCaseModel {
    pub input: Seq<char>,
    pub expected: Seq<char>,
}

impl DeepView for SampleCase {
    type V = SampleCaseModel;

    open spec fn deep_view(&self) -> SampleCaseModel {
        SampleCaseModel {
            input: self.input@,
            expected: self.expected@,
        }
    }
}

impl Duplicate for SampleCase {
    fn duplicate(&self) -> (r: Self) {
        SampleCase {
            input: self.input.clone(),
            expected: self.expected.clone(),
        }
    }
}

/// What became of a solution on a sample: accepted, wrong answer, runtime error, or time limit
/// exceeded.
pub enum SampleResult {
    Ac { actual: String, stderr: String },
    Wa { actual: String, expected: String, stderr: String },
    Re { stderr: String },
    Tle,
}

/// What a `SampleResult` holds.
#[verifier::ext_equal]
pub enum SampleResultModel {
    Ac { actual: Seq<char>, stderr: Seq<char> },
    Wa { actual: Seq<char>, expected: Seq<char>, stderr: Seq<char> },
    Re { stderr: Seq<char> },
    Tle,
}

impl DeepView for SampleResult {
    type V = SampleResultModel;

    open spec fn deep_view(&self) -> SampleResultModel {
        match self {
            SampleResult::Ac { actual, stderr } => SampleResultModel::Ac {
                actual: actual@,
                stderr: stderr@,
            },
            SampleResult::Wa { actual, expected, stderr } => SampleResultModel::Wa {
                actual: actual@,
                expected: expected@,
                stderr: stderr@,
            },
            SampleResult::Re { stderr } => SampleResultModel::Re { stderr: stderr@ },
            SampleResult::Tle => SampleResultModel::Tle,
        }
    }
}

impl Duplicate for SampleResult {
    fn duplicate(&self) -> (r: Self) {
        match self {
            SampleResult::Ac { actual, stderr } => SampleResult::Ac {
                actual: actual.clone(),
                stderr: stderr.clone(),
            },
            SampleResult::Wa { actual, expected, stderr } => SampleResult::Wa {
                actual: actual.clone(),
                expected: expected.clone(),
                stderr: stderr.clone(),
            },
            SampleResult::Re { stderr } => SampleResult::Re { stderr: stderr.clone() },
            SampleResult::Tle => SampleResult::Tle,
        }
    }
}

/// A build of a solution and what became of it on each sample, with the number of the sample.
pub struct SampleTestReport {
    pub build: ProcessOutput,
    pub cases: Vec<(usize, SampleResult)>,
}

/// What a Cargo command is given to choose the binary of a solution.
pub open spec fn bin_args(bin_name: Option<Seq<char>>) -> Seq<Seq<char>> {
    match bin_name {
        Some(name) => seq!["--bin"@, name],
        None => seq![],
    }
}

fn push_bin_args(args: &mut Vec<String>, bin_name: &Option<String>)
    ensures
        final(args).deep_view() == old(args).deep_view() + bin_args(bin_name.deep_view()),
{
    let ghost before = args.deep_view();
    if let Some(bin_name) = bin_name {
        args.push("--bin".to_owned());
        args.push(bin_name.clone());
    }
    assert(args.deep_view() =~= before + bin_args(bin_name.deep_view()));
}

/// The arguments of Cargo for building a solution.
pub fn cargo_build_args(solution: &RustSolution) -> (r: Vec<String>)
    ensures
        r.deep_view() == seq!["build"@, "--release"@] + bin_args(solution.bin_name.deep_view()),
{
    let mut args: Vec<String> = Vec::new();
    args.push("build".to_owned());
    args.push("--release".to_owned());
    assert(args.deep_view() =~= seq!["build"@, "--release"@]);
    push_bin_args(&mut args, &solution.bin_name);
    args
}

/// The arguments of Cargo for running a solution.
pub fn cargo_run_args(solution: &RustSolution) -> (r: Vec<String>)
    ensures
        r.deep_view() == seq!["run"@, "--release"@, "-q"@] + bin_args(
            solution.bin_name.deep_view(),
        ),
{
    let mut args: Vec<String> = Vec::new();
    args.push("run".to_owned());
    args.push("--release".to_owned());
    args.push("-q".to_owned());
    assert(args.deep_view() =~= seq!["run"@, "--release"@, "-q"@]);
    push_bin_args(&mut args, &solution.bin_name);
    args
}

/// What becomes of a solution on a sample whose process went as `process`: white space at the end
/// of the output does not count.
pub open spec fn judged(expected: Seq<char>, process: SampleProcess) -> SampleResultModel {
    match process {
        SampleProcess::Failed(reason) => SampleResultModel::Re { stderr: reason@ },
        SampleProcess::TimedOut => SampleResultModel::Tle,
        SampleProcess::Finished { status, stdout, stderr } => if !status.success {
            SampleResultModel::Re { stderr: stderr@ }
        } else if seqs::trim_end(stdout@) == seqs::trim_end(expected) {
            SampleResultModel::Ac { actual: stdout@, stderr: stderr@ }
        } else {
            SampleResultModel::Wa { actual: stdout@, expected, stderr: stderr@ }
        },
    }
}

/// What becomes of a solution on a sample whose process went as `process`.
pub fn judge_sample(expected: &str, process: SampleProcess) -> (r: SampleResult)
    ensures
        r.deep_view() == judged(expected@, process),
{
    match process {
        SampleProcess::Failed(reason) => SampleResult::Re { stderr: reason },
        SampleProcess::TimedOut => SampleResult::Tle,
        SampleProcess::Finished { status, stdout, stderr } => {
            if !status.success {
                return SampleResult::Re { stderr };
            }
            let actual_chars = text::chars_of(stdout.as_str());
            let expected_chars = text::chars_of(expected);
            if text::eq(text::trim_end(&actual_chars), text::trim_end(&expected_chars)) {
                SampleResult::Ac { actual: stdout, stderr }
            } else {
                SampleResult::Wa { actual: stdout, expected: expected.to_owned(), stderr }
            }
        },
    }
}

/// The results with the numbers of their samples, counted from zero.
pub open spec fn numbered(results: Seq<SampleResultModel>) -> Seq<(usize, SampleResultModel)> {
    Seq::new(results.len(), |i: int| (i as usize, results[i]))
}

/// A report on a build and on the results of the samples. No sample is run after a build that
/// failed, so that then there are none.
pub fn sample_test_report(build: ProcessOutput, results: Vec<SampleResult>) -> (r:
    SampleTestReport)
    ensures
        r.build == build,
        r.cases.deep_view() == if build.status.success {
            numbered(results.deep_view())
        } else {
            seq![]
        },
{
    let mut cases: Vec<(usize, SampleResult)> = Vec::new();
    if build.status.success {
        let mut i: usize = 0;
        while i < results.len()
            invariant
                i <= results@.len(),
                cases.deep_view() == numbered(results.deep_view()).take(i as int),
            decreases results@.len() - i,
        {
            let ghost before = cases.deep_view();
            cases.push((i, results[i].duplicate()));
            assert(cases.deep_view() =~= before.push(numbered(results.deep_view())[i as int]));
            i += 1;
        }
        assert(cases.deep_view() =~= numbered(results.deep_view()));
    } else {
        assert(cases.deep_view() =~= seq![]);
    }
    SampleTestReport { build, cases }
}

/// Where programs are looked for: in `path`, then below the home directory, then in the usual
/// places. Each directory is given by the parts of its path.
pub open spec fn search_directories(path: Seq<Seq<char>>, home: Option<Seq<char>>) -> Seq<
    Seq<Seq<char>>,
> {
    Seq::new(path.len(), |i: int| seq![path[i]]) + (match home {
        Some(home) => seq![seq![home, ".cargo"@, "bin"@], seq![home, ".local"@, "bin"@]],
        None => seq![],
    }) + seq![seq!["/usr/local/bin"@], seq!["/usr/bin"@]]
}

/// Where programs are looked for, given the directories of `PATH` and the home directory.
pub fn executable_search_directories(path: &Vec<String>, home: Option<String>) -> (r: Vec<
    Vec<String>,
>)
    ensures
        r.deep_view() == search_directories(path.deep_view(), home.deep_view()),
{
    let ghost listed = Seq::new(path@.len(), |i: int| seq![path.deep_view()[i]]);
    let mut out: Vec<Vec<String>> = Vec::new();
    let mut i: usize = 0;
    while i < path.len()
        invariant
            i <= path@.len(),
            listed == Seq::new(path@.len(), |k: int| seq![path.deep_view()[k]]),
            out.deep_view() == listed.take(i as int),
        decreases path@.len() - i,
    {
        let ghost before = out.deep_view();
        let entry = text::strings_of(&[path[i].as_str()]);
        assert(entry.deep_view() =~= seq![path.deep_view()[i as int]]);
        out.push(entry);
        assert(out.deep_view() =~= before.push(listed[i as int]));
        i += 1;
    }
    assert(out.deep_view() =~= listed);
    let ghost mut expected = listed;
    if let Some(home) = &home {
        let cargo = text::strings_of(&[home.as_str(), ".cargo", "bin"]);
        assert(cargo.deep_view() =~= seq![home@, ".cargo"@, "bin"@]);
        out.push(cargo);
        let local = text::strings_of(&[home.as_str(), ".local", "bin"]);
        assert(local.deep_view() =~= seq![home@, ".local"@, "bin"@]);
        out.push(local);
        proof {
            expected = listed + seq![
                seq![home@, ".cargo"@, "bin"@],
                seq![home@, ".local"@, "bin"@],
            ];
        }
        assert(out.deep_view() =~= expected);
    }
    let usual = text::strings_of(&["/usr/local/bin"]);
    assert(usual.deep_view() =~= seq!["/usr/local/bin"@]);
    out.push(usual);
    let system = text::strings_of(&["/usr/bin"]);
    assert(system.deep_view() =~= seq!["/usr/bin"@]);
    out.push(system);
    assert(out.deep_view() =~= search_directories(path.deep_view(), home.deep_view()));
    out
}

/// A sample is passed exactly when the process ended well and in time and wrote what is expected,
/// up to white space at the end.
pub proof fn accepted_means_expected_output(expected: Seq<char>, process: SampleProcess)
    ensures
        judged(expected, process) is Ac <==> (process is Finished
            && process->Finished_status.success && seqs::trim_end(process->Finished_stdout@)
            == seqs::trim_end(expected)),
{
}

/// What becomes of a solution tells what it wrote: a wrong answer shows the output and what was
/// expected, a run that ended badly or not at all shows why, and one that ended too late is told
/// from both.
pub proof fn verdict_tells_output(expected: Seq<char>, process: SampleProcess)
    ensures
        judged(expected, process) is Tle <==> process is TimedOut,
        process matches SampleProcess::Failed(reason) ==> judged(expected, process)
            matches SampleResultModel::Re { stderr } && stderr == reason@,
        process matches SampleProcess::Finished { status, stdout, stderr } ==> {
            &&& !status.success ==> (judged(expected, process) matches SampleResultModel::Re {
                stderr: shown,
            } && shown == stderr@)
            &&& status.success && seqs::trim_end(stdout@) == seqs::trim_end(expected) ==> (judged(
                expected,
                process,
            ) matches SampleResultModel::Ac { actual, stderr: shown } && actual == stdout@ && shown
                == stderr@)
            &&& status.success && seqs::trim_end(stdout@) != seqs::trim_end(expected) ==> (judged(
                expected,
                process,
            ) matches SampleResultModel::Wa { actual, expected: due, stderr: shown } && actual
                == stdout@ && due == expected && shown == stderr@)
        },
{
}

/// Each result keeps its place as its number.
pub proof fn results_are_numbered_from_zero(results: Seq<SampleResultModel>, i: int)
    requires
        0 <= i < results.len() <= usize::MAX,
    ensures
        numbered(results).len() == results.len(),
        numbered(results)[i].0 == i,
        numbered(results)[i].1 == results[i],
{
}

/// The binary of a solution is chosen by its name, and without a name nothing is chosen.
pub proof fn binary_is_named(name: Seq<char>)
    ensures
        bin_args(Some(name)).len() == 2,
        bin_args(Some(name))[0] == "--bin"@,
        bin_args(Some(name))[1] == name,
        bin_args(None).len() == 0,
{
}

/// The directories of `PATH` are searched first and in their order, then those below the home
/// directory, if there is one, and the usual places last.
pub proof fn path_is_searched_first(path: Seq<Seq<char>>, home: Seq<char>, i: int)
    requires
        0 <= i < path.len(),
    ensures
        search_directories(path, None)[i] == seq![path[i]],
        search_directories(path, Some(home))[i] == seq![path[i]],
        search_directories(path, Some(home)).skip(path.len() as int) == seq![
            seq![home, ".cargo"@, "bin"@],
            seq![home, ".local"@, "bin"@],
            seq!["/usr/local/bin"@],
            seq!["/usr/bin"@],
        ],
        search_directories(path, None).skip(path.len() as int) == seq![
            seq!["/usr/local/bin"@],
            seq!["/usr/bin"@],
        ],
{
}
/// The models hold what the values hold, each part under its own name.
pub proof fn models_hold_their_parts(sample_case: SampleCase, sample_result: SampleResult)
    ensures
        sample_case.deep_view() == (SampleCaseModel {
            input: sample_case.input@,
            expected: sample_case.expected@,
        }),
        sample_result.deep_view() == match sample_result {
            SampleResult::Ac { actual, stderr } => SampleResultModel::Ac {
                actual: actual@,
                stderr: stderr@,
            },
            SampleResult::Wa { actual, expected, stderr } => SampleResultModel::Wa {
                actual: actual@,
                expected: expected@,
                stderr: stderr@,
            },
            SampleResult::Re { stderr } => SampleResultModel::Re { stderr: stderr@ },
            SampleResult::Tle => SampleResultModel::Tle,
        },
{
}
/// Cargo builds the solution for release, and runs it quietly, each with the binary that was chosen.
pub proof fn cargo_is_told_what_to_do(
    solution: RustSolution,
    build: Vec<String>,
    run: Vec<String>,
)
    requires
        call_ensures(cargo_build_args, (&solution,), build),
        call_ensures(cargo_run_args, (&solution,), run),
    ensures
        solution.bin_name is None ==> build.deep_view() == seq!["build"@, "--release"@]
            && run.deep_view() == seq!["run"@, "--release"@, "-q"@],
        solution.bin_name matches Some(name) ==> build.deep_view() == seq![
            "build"@,
            "--release"@,
            "--bin"@,
            name@,
        ] && run.deep_view() == seq!["run"@, "--release"@, "-q"@, "--bin"@, name@],
{
}

/// A report holds the build and, if that succeeded, each result under its number, counted from zero.
pub proof fn report_holds_build_and_results(
    build: ProcessOutput,
    results: Vec<SampleResult>,
    report: SampleTestReport,
    i: int,
)
    requires
        call_ensures(sample_test_report, (build, results), report),
    ensures
        report.build == build,
        !build.status.success ==> report.cases@.len() == 0,
        build.status.success ==> report.cases@.len() == results@.len(),
        build.status.success && 0 <= i < results@.len() <= usize::MAX ==> report.cases@[i].0 == i
            && report.cases@[i].1.deep_view() == results@[i].deep_view(),
{
    assert(report.cases.deep_view().len() == report.cases@.len());
    assert(results.deep_view().len() == results@.len());
    if build.status.success && 0 <= i < results@.len() {
        assert(report.cases.deep_view()[i] == report.cases@[i].deep_view());
        assert(results.deep_view()[i] == results@[i].deep_view());
    }
}
} // verus!
