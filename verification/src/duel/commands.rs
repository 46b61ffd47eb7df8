//! Testing and submitting a solution in a match.

use vstd::prelude::*;

use crate::duel::model::{ServerPlayerSubmissionRecord, ServerPlayerSubmissionRecordModel};
use crate::duel::project;
use crate::duel::wording;
use crate::outside;
use crate::output;
use crate::output::{
    CaseResult, CaseResultModel, CommandOutputDetail, CommandOutputDetailModel,
    CommandOutputDetailSection, CommandOutputDetailSectionModel, CommandOutputItem,
    CommandOutputItemModel, CommandOutputItemStatus,
};
use crate::problems;
use crate::runner::{ProcessStatus, SampleProcess};
use crate::seqs;
use crate::text;

verus! {

/// What became of a solution on a sample: accepted, wrong answer, runtime error, or time limit
/// exceeded.
pub enum EmbeddedAcrTestResult {
    Ac { actual: String },
    Wa { actual: String, expected: String },
    Re { stderr: String },
    Tle,
}

/// What a `EmbeddedAcrTestResult` holds.
#[verifier::ext_equal]
pub enum EmbeddedAcrTestResultModel {
    Ac { actual: Seq<char> },
    Wa { actual: Seq<char>, expected: Seq<char> },
    Re { stderr: Seq<char> },
    Tle,
}

impl DeepView for EmbeddedAcrTestResult {
    type V = EmbeddedAcrTestResultModel;

    open spec fn deep_view(&self) -> EmbeddedAcrTestResultModel {
        match self {
            EmbeddedAcrTestResult::Ac { actual } => EmbeddedAcrTestResultModel::Ac {
                actual: actual@,
            },
            EmbeddedAcrTestResult::Wa { actual, expected } => EmbeddedAcrTestResultModel::Wa {
                actual: actual@,
                expected: expected@,
            },
            EmbeddedAcrTestResult::Re { stderr } => EmbeddedAcrTestResultModel::Re {
                stderr: stderr@,
            },
            EmbeddedAcrTestResult::Tle => EmbeddedAcrTestResultModel::Tle,
        }
    }
}

/// A process that has ended, and what it wrote. `executable` is the path of its program.
pub struct RduelProcessOutput {
    pub label: &'static str,
    pub executable: String,
    pub args: Vec<String>,
    pub status: ProcessStatus,
    pub stdout: String,
    pub stderr: String,
}

/// What a `RduelProcessOutput` holds.
#[verifier::ext_equal]
pub struct RduelProcessOutputModel {
    pub label: Seq<char>,
    pub executable: Seq<char>,
    pub args: Seq<Seq<char>>,
    pub status: ProcessStatus,
    pub stdout: Seq<char>,
    pub stderr: Seq<char>,
}

impl DeepView for RduelProcessOutput {
    type V = RduelProcessOutputModel;

    open spec fn deep_view(&self) -> RduelProcessOutputModel {
        RduelProcessOutputModel {
            label: self.label@,
            executable: self.executable@,
            args: self.args.deep_view(),
            status: self.status,
            stdout: self.stdout@,
            stderr: self.stderr@,
        }
    }
}

/// A solution that is ready to be submitted, and where.
pub struct RduelSubmitReady {
    pub source_code: String,
    pub source_path: String,
    pub submit_url: String,
}

/// What a `RduelSubmitReady` holds.
#[verifier::ext_equal]
pub struct RduelSubmitReadyModel {
    pub source_code: Seq<char>,
    pub source_path: Seq<char>,
    pub submit_url: Seq<char>,
}

impl DeepView for RduelSubmitReady {
    type V = RduelSubmitReadyModel;

    open spec fn deep_view(&self) -> RduelSubmitReadyModel {
        RduelSubmitReadyModel {
            source_code: self.source_code@,
            source_path: self.source_path@,
            submit_url: self.submit_url@,
        }
    }
}

/// What came of a command.
pub struct RduelCommandOutput {
    pub success: bool,
    pub rendered: String,
    pub items: Vec<CommandOutputItem>,
    pub case_results: Vec<(usize, CaseResult)>,
    pub submit_ready: Option<RduelSubmitReady>,
}

/// What a `RduelCommandOutput` holds.
#[verifier::ext_equal]
pub struct RduelCommandOutputModel {
    pub success: bool,
    pub rendered: Seq<char>,
    pub items: Seq<CommandOutputItemModel>,
    pub case_results: Seq<(usize, CaseResultModel)>,
    pub submit_ready: Option<RduelSubmitReadyModel>,
}

impl DeepView for RduelCommandOutput {
    type V = RduelCommandOutputModel;

    open spec fn deep_view(&self) -> RduelCommandOutputModel {
        RduelCommandOutputModel {
            success: self.success,
            rendered: self.rendered@,
            items: self.items.deep_view(),
            case_results: self.case_results.deep_view(),
            submit_ready: self.submit_ready.deep_view(),
        }
    }
}

/// What becomes of a solution on a sample whose process went as `process`: white space at the end
/// of the output does not count.
pub open spec fn judged(expected: Seq<char>, process: SampleProcess) -> EmbeddedAcrTestResultModel {
    match process {
        SampleProcess::Failed(reason) => EmbeddedAcrTestResultModel::Re { stderr: reason@ },
        SampleProcess::TimedOut => EmbeddedAcrTestResultModel::Tle,
        SampleProcess::Finished { status, stdout, stderr } => if !status.success {
            EmbeddedAcrTestResultModel::Re { stderr: stderr@ }
        } else if seqs::trim_end(stdout@) == seqs::trim_end(expected) {
            EmbeddedAcrTestResultModel::Ac { actual: stdout@ }
        } else {
            EmbeddedAcrTestResultModel::Wa { actual: stdout@, expected }
        },
    }
}

/// What becomes of a solution on a sample whose process went as `process`.
pub fn judge_embedded_sample_test(expected: &str, process: SampleProcess) -> (r:
    EmbeddedAcrTestResult)
    ensures
        r.deep_view() == judged(expected@, process),
{
    match process {
        SampleProcess::Failed(reason) => EmbeddedAcrTestResult::Re { stderr: reason },
        SampleProcess::TimedOut => EmbeddedAcrTestResult::Tle,
        SampleProcess::Finished { status, stdout, stderr } => {
            if !status.success {
                return EmbeddedAcrTestResult::Re { stderr };
            }
            let actual_chars = text::chars_of(stdout.as_str());
            let expected_chars = text::chars_of(expected);
            if text::eq(text::trim_end(&actual_chars), text::trim_end(&expected_chars)) {
                EmbeddedAcrTestResult::Ac { actual: stdout }
            } else {
                EmbeddedAcrTestResult::Wa { actual: stdout, expected: expected.to_owned() }
            }
        },
    }
}

/// The files of a sample, as they were found.
pub enum SampleFiles {
    /// One of the two files is not there.
    Missing,
    /// The file with this path cannot be read, for this reason.
    Unreadable { path: String, reason: String },
    /// Both are there, and the solution was run on the input, which went as `process`.
    Run { expected: String, process: SampleProcess },
}

/// What becomes of a solution on a sample whose files were found so.
pub open spec fn result_for(files: SampleFiles) -> Option<EmbeddedAcrTestResultModel> {
    match files {
        SampleFiles::Missing => None,
        SampleFiles::Unreadable { path, reason } => Some(
            EmbeddedAcrTestResultModel::Re {
                stderr: "Failed to read "@ + path@ + ": "@ + reason@,
            },
        ),
        SampleFiles::Run { expected, process } => Some(judged(expected@, process)),
    }
}

/// What becomes of a solution on a sample whose files were found so; nothing, if the samples are at
/// an end.
pub fn embedded_sample_result(files: SampleFiles) -> (r: Option<EmbeddedAcrTestResult>)
    ensures
        r.deep_view() == result_for(files),
{
    match files {
        SampleFiles::Missing => None,
        SampleFiles::Unreadable { path, reason } => {
            let stderr = "Failed to read ".to_owned().concat(path.as_str()).concat(": ").concat(
                reason.as_str(),
            );
            Some(EmbeddedAcrTestResult::Re { stderr })
        },
        SampleFiles::Run { expected, process } => Some(
            judge_embedded_sample_test(expected.as_str(), process),
        ),
    }
}

/// How a process ended, for the user.
pub open spec fn exit_code(status: ProcessStatus) -> Seq<char> {
    match status.code {
        Some(code) => seqs::signed_decimal(code as int),
        None => "signal"@,
    }
}

fn exit_code_text(status: ProcessStatus) -> (r: String)
    ensures
        r@ == exit_code(status),
{
    match status.code {
        Some(code) => wording::signed_number(code as i64),
        None => "signal".to_owned(),
    }
}

/// What is shown of a process that has ended.
pub open spec fn step_item(step: RduelProcessOutputModel) -> CommandOutputItemModel {
    CommandOutputItemModel {
        label: step.label,
        status: if step.status.success {
            CommandOutputItemStatus::Passed
        } else {
            CommandOutputItemStatus::Failed
        },
        detail: Some(
            CommandOutputDetailModel {
                heading: if step.status.success {
                    step.label + " succeeded"@
                } else {
                    step.label + " failed (exit "@ + exit_code(step.status) + ")"@
                },
                diff: None,
                sections: output::section_for("stdout"@, step.stdout) + output::section_for(
                    "stderr"@,
                    step.stderr,
                ),
            },
        ),
    }
}

/// What is shown of a process that has ended.
pub fn process_output_item(step: &RduelProcessOutput) -> (r: CommandOutputItem)
    ensures
        r.deep_view() == step_item(step.deep_view()),
{
    let code = exit_code_text(step.status);
    let mut sections: Vec<CommandOutputDetailSection> = Vec::new();
    output::push_section(&mut sections, "stdout", step.stdout.as_str());
    output::push_section(&mut sections, "stderr", step.stderr.as_str());
    assert(sections.deep_view() =~= output::section_for("stdout"@, step.stdout@)
        + output::section_for("stderr"@, step.stderr@));
    let heading = if step.status.success {
        step.label.to_owned().concat(" succeeded")
    } else {
        step.label.to_owned().concat(" failed (exit ").concat(code.as_str()).concat(")")
    };
    CommandOutputItem {
        label: step.label.to_owned(),
        status: if step.status.success {
            CommandOutputItemStatus::Passed
        } else {
            CommandOutputItemStatus::Failed
        },
        detail: Some(CommandOutputDetail::with_sections(heading, sections)),
    }
}

/// What a process wrote to one of its outputs, under a title; nothing, if it wrote nothing.
pub open spec fn stream_text(title: Seq<char>, stream: Seq<char>) -> Seq<char> {
    if stream.len() == 0 {
        seq![]
    } else {
        "\n["@ + title + "]\n"@ + seqs::trim_end(stream) + "\n"@
    }
}

/// A process that has ended, as text.
pub open spec fn step_text(step: RduelProcessOutputModel) -> Seq<char> {
    "$ "@ + step.label + " (exit "@ + exit_code(step.status) + ")\n"@ + step.executable + " "@
        + seqs::join(step.args, " "@) + "\n"@ + stream_text("stdout"@, step.stdout) + stream_text(
        "stderr"@,
        step.stderr,
    )
}

fn stream_block(title: &str, stream: &str) -> (r: String)
    ensures
        r@ == stream_text(title@, stream@),
{
    let chars = text::chars_of(stream);
    if chars.len() == 0 {
        let r = String::new();
        assert(r@ =~= stream_text(title@, stream@));
        r
    } else {
        let trimmed = text::string_of(text::trim_end(&chars));
        "\n[".to_owned().concat(title).concat("]\n").concat(trimmed.as_str()).concat("\n")
    }
}

fn step_block(step: &RduelProcessOutput) -> (r: String)
    ensures
        r@ == step_text(step.deep_view()),
{
    let code = exit_code_text(step.status);
    let args = text::join_strings(&step.args, " ");
    assert(seqs::strs(step.args@) =~= step.args.deep_view());
    let stdout = stream_block("stdout", step.stdout.as_str());
    let stderr = stream_block("stderr", step.stderr.as_str());
    "$ ".to_owned().concat(step.label).concat(" (exit ").concat(code.as_str()).concat(
        ")\n",
    ).concat(step.executable.as_str()).concat(" ").concat(args.as_str()).concat("\n").concat(
        stdout.as_str(),
    ).concat(stderr.as_str())
}

/// Whether all of the processes succeeded.
pub open spec fn all_succeeded(steps: Seq<RduelProcessOutputModel>) -> bool {
    forall|i: int| 0 <= i < steps.len() ==> (#[trigger] steps[i]).status.success
}

/// The outcome of processes of which nothing more is known.
pub open spec fn plain_outcome(steps: Seq<RduelProcessOutputModel>) -> RduelCommandOutputModel {
    RduelCommandOutputModel {
        success: all_succeeded(steps),
        rendered: if steps.len() == 0 {
            "No command was run."@
        } else {
            seqs::join(Seq::new(steps.len(), |i: int| step_text(steps[i])), "\n\n"@)
        },
        items: Seq::new(steps.len(), |i: int| step_item(steps[i])),
        case_results: seq![],
        submit_ready: None,
    }
}

/// The outcome of processes of which nothing more is known.
pub fn render_command_steps(steps: &Vec<RduelProcessOutput>) -> (r: RduelCommandOutput)
    ensures
        r.deep_view() == plain_outcome(steps.deep_view()),
{
    let ghost all = steps.deep_view();
    let ghost texts = Seq::new(all.len(), |i: int| step_text(all[i]));
    let ghost shown = Seq::new(all.len(), |i: int| step_item(all[i]));
    let mut success = true;
    let mut blocks: Vec<String> = Vec::new();
    let mut items: Vec<CommandOutputItem> = Vec::new();
    let mut i: usize = 0;
    while i < steps.len()
        invariant
            i <= steps@.len(),
            all == steps.deep_view(),
            texts == Seq::new(all.len(), |k: int| step_text(all[k])),
            shown == Seq::new(all.len(), |k: int| step_item(all[k])),
            success == forall|k: int| 0 <= k < i ==> (#[trigger] all[k]).status.success,
            seqs::strs(blocks@) == texts.take(i as int),
            items.deep_view() == shown.take(i as int),
        decreases steps@.len() - i,
    {
        let ghost before_blocks = seqs::strs(blocks@);
        let ghost before_items = items.deep_view();
        assert(all[i as int] == steps@[i as int].deep_view());
        if !steps[i].status.success {
            success = false;
        }
        blocks.push(step_block(&steps[i]));
        items.push(process_output_item(&steps[i]));
        assert(seqs::strs(blocks@) =~= before_blocks.push(texts[i as int]));
        assert(items.deep_view() =~= before_items.push(shown[i as int]));
        i += 1;
    }
    assert(texts.take(i as int) =~= texts);
    assert(shown.take(i as int) =~= shown);
    let rendered = if steps.len() == 0 {
        "No command was run.".to_owned()
    } else {
        text::join_strings(&blocks, "\n\n")
    };
    let r = RduelCommandOutput {
        success,
        rendered,
        items,
        case_results: Vec::new(),
        submit_ready: None,
    };
    assert(r.deep_view().case_results =~= seq![]);
    r
}

/// What is shown of a test case for a result.
pub open spec fn case_of(result: EmbeddedAcrTestResultModel) -> CaseResultModel {
    match result {
        EmbeddedAcrTestResultModel::Ac { actual } => CaseResultModel {
            status: CommandOutputItemStatus::Passed,
            heading: "Accepted"@,
            actual: Some(actual),
            stderr: None,
        },
        EmbeddedAcrTestResultModel::Wa { actual, expected } => CaseResultModel {
            status: CommandOutputItemStatus::Failed,
            heading: "Wrong Answer"@,
            actual: Some(actual),
            stderr: None,
        },
        EmbeddedAcrTestResultModel::Re { stderr } => CaseResultModel {
            status: CommandOutputItemStatus::Failed,
            heading: "Runtime Error"@,
            actual: None,
            stderr: Some(stderr),
        },
        EmbeddedAcrTestResultModel::Tle => CaseResultModel {
            status: CommandOutputItemStatus::Failed,
            heading: "Time Limit Exceeded"@,
            actual: None,
            stderr: None,
        },
    }
}

/// What is shown of the test cases for numbered results.
pub open spec fn cases_of(results: Seq<(usize, EmbeddedAcrTestResultModel)>) -> Seq<
    (usize, CaseResultModel),
> {
    Seq::new(results.len(), |i: int| (results[i].0, case_of(results[i].1)))
}

fn embedded_case_result(result: &EmbeddedAcrTestResult) -> (r: CaseResult)
    ensures
        r.deep_view() == case_of(result.deep_view()),
{
    match result {
        EmbeddedAcrTestResult::Ac { actual } => CaseResult {
            status: CommandOutputItemStatus::Passed,
            heading: "Accepted".to_owned(),
            actual: Some(actual.clone()),
            stderr: None,
        },
        EmbeddedAcrTestResult::Wa { actual, expected: _ } => CaseResult {
            status: CommandOutputItemStatus::Failed,
            heading: "Wrong Answer".to_owned(),
            actual: Some(actual.clone()),
            stderr: None,
        },
        EmbeddedAcrTestResult::Re { stderr } => CaseResult {
            status: CommandOutputItemStatus::Failed,
            heading: "Runtime Error".to_owned(),
            actual: None,
            stderr: Some(stderr.clone()),
        },
        EmbeddedAcrTestResult::Tle => CaseResult {
            status: CommandOutputItemStatus::Failed,
            heading: "Time Limit Exceeded".to_owned(),
            actual: None,
            stderr: None,
        },
    }
}

/// What is shown of the test cases for numbered results.
pub fn embedded_case_results(results: &Vec<(usize, EmbeddedAcrTestResult)>) -> (r: Vec<
    (usize, CaseResult),
>)
    ensures
        r.deep_view() == cases_of(results.deep_view()),
{
    let mut out: Vec<(usize, CaseResult)> = Vec::new();
    let mut i: usize = 0;
    while i < results.len()
        invariant
            i <= results@.len(),
            out.deep_view() == cases_of(results.deep_view()).take(i as int),
        decreases results@.len() - i,
    {
        let ghost before = out.deep_view();
        out.push((results[i].0, embedded_case_result(&results[i].1)));
        assert(out.deep_view() =~= before.push(cases_of(results.deep_view())[i as int]));
        i += 1;
    }
    assert(out.deep_view() =~= cases_of(results.deep_view()));
    out
}

/// How many of the results are accepted.
pub open spec fn accepted_count(results: Seq<(usize, EmbeddedAcrTestResultModel)>) -> nat
    decreases results.len(),
{
    if results.len() == 0 {
        0
    } else {
        accepted_count(results.drop_last()) + if results.last().1 is Ac {
            1nat
        } else {
            0nat
        }
    }
}

/// A case that is not accepted, as text.
pub open spec fn failure_text(index: usize, result: EmbeddedAcrTestResultModel) -> Seq<char> {
    let case = "\nCase "@ + seqs::decimal(index as nat);
    match result {
        EmbeddedAcrTestResultModel::Ac { actual } => seq![],
        EmbeddedAcrTestResultModel::Wa { actual, expected } => case + ": WA\nExpected:\n"@
            + seqs::trim_end(expected) + "\n\nActual:\n"@ + seqs::trim_end(actual) + "\n"@,
        EmbeddedAcrTestResultModel::Re { stderr } => case + ": RE\n"@ + seqs::trim_end(stderr)
            + "\n"@,
        EmbeddedAcrTestResultModel::Tle => case + ": TLE\n"@,
    }
}

/// The cases that are not accepted, as text.
pub open spec fn failures_text(results: Seq<(usize, EmbeddedAcrTestResultModel)>) -> Seq<char>
    decreases results.len(),
{
    if results.len() == 0 {
        seq![]
    } else {
        failures_text(results.drop_last()) + failure_text(results.last().0, results.last().1)
    }
}

fn failure_block(index: usize, result: &EmbeddedAcrTestResult) -> (r: String)
    ensures
        r@ == failure_text(index, result.deep_view()),
{
    let number = wording::number(index as u64);
    let case = "\nCase ".to_owned().concat(number.as_str());
    match result {
        EmbeddedAcrTestResult::Ac { .. } => {
            let r = String::new();
            assert(r@ =~= seq![]);
            r
        },
        EmbeddedAcrTestResult::Wa { actual, expected } => {
            let expected_chars = text::chars_of(expected.as_str());
            let expected = text::string_of(text::trim_end(&expected_chars));
            let actual_chars = text::chars_of(actual.as_str());
            let actual = text::string_of(text::trim_end(&actual_chars));
            case.concat(": WA\nExpected:\n").concat(expected.as_str()).concat(
                "\n\nActual:\n",
            ).concat(actual.as_str()).concat("\n")
        },
        EmbeddedAcrTestResult::Re { stderr } => {
            let chars = text::chars_of(stderr.as_str());
            let stderr = text::string_of(text::trim_end(&chars));
            case.concat(": RE\n").concat(stderr.as_str()).concat("\n")
        },
        EmbeddedAcrTestResult::Tle => case.concat(": TLE\n"),
    }
}

/// The first of the processes that built the solution.
pub open spec fn build_step(steps: Seq<RduelProcessOutputModel>) -> Option<RduelProcessOutputModel>
    decreases steps.len(),
{
    if steps.len() == 0 {
        None
    } else if steps[0].label == "cargo build"@ {
        Some(steps[0])
    } else {
        build_step(steps.skip(1))
    }
}

/// What is shown of the build: a warning, where it succeeded with one.
pub open spec fn build_item(build: RduelProcessOutputModel) -> CommandOutputItemModel {
    if build.status.success && seqs::contains(build.stderr, "warning"@) {
        CommandOutputItemModel { status: CommandOutputItemStatus::Warning, ..step_item(build) }
    } else {
        step_item(build)
    }
}

/// A build that failed, as text.
pub open spec fn failed_build_text(build: RduelProcessOutputModel) -> Seq<char> {
    let text = "Build failed.\n\n"@ + seqs::trim(build.stderr);
    if seqs::is_blank(build.stdout) {
        text
    } else {
        text + "\n\n[stdout]\n"@ + seqs::trim(build.stdout)
    }
}

/// The results of the samples, as text.
pub open spec fn results_text(
    results: Seq<(usize, EmbeddedAcrTestResultModel)>,
    success: bool,
) -> Seq<char> {
    let passed = seqs::decimal(accepted_count(results));
    if results.len() == 0 {
        "Build: OK\nTest: no sample cases."@
    } else if success {
        "Build: OK\nTest: AC ("@ + passed + " cases)"@
    } else {
        "Build: OK\nTest: Failed\n"@ + passed + "/"@ + seqs::decimal(results.len())
            + " cases passed\n"@ + failures_text(results)
    }
}

/// The outcome of a test: of the build, and of the samples, if the build succeeded.
pub open spec fn test_outcome(
    steps: Seq<RduelProcessOutputModel>,
    results: Seq<(usize, EmbeddedAcrTestResultModel)>,
) -> RduelCommandOutputModel {
    match build_step(steps) {
        None => plain_outcome(steps),
        Some(build) => if !build.status.success {
            RduelCommandOutputModel {
                success: all_succeeded(steps),
                rendered: failed_build_text(build),
                items: seq![build_item(build)],
                case_results: seq![],
                submit_ready: None,
            }
        } else {
            let success = all_succeeded(steps) && accepted_count(results) == results.len();
            RduelCommandOutputModel {
                success,
                rendered: results_text(results, success),
                items: seq![build_item(build)],
                case_results: cases_of(results),
                submit_ready: None,
            }
        },
    }
}

fn find_build_step(steps: &Vec<RduelProcessOutput>) -> (r: Option<usize>)
    ensures
        match r {
            Some(i) => i < steps@.len() && build_step(steps.deep_view()) == Some(
                steps@[i as int].deep_view(),
            ),
            None => build_step(steps.deep_view()) is None,
        },
{
    let ghost all = steps.deep_view();
    let mut i: usize = 0;
    assert(all.skip(0) =~= all);
    while i < steps.len()
        invariant
            i <= steps@.len(),
            all == steps.deep_view(),
            build_step(all) == build_step(all.skip(i as int)),
        decreases steps@.len() - i,
    {
        assert(all.skip(i as int)[0] == steps@[i as int].deep_view());
        assert(all.skip(i as int).skip(1) =~= all.skip(i + 1));
        if text::same(steps[i].label, "cargo build") {
            return Some(i);
        }
        i += 1;
    }
    None
}

fn steps_succeeded(steps: &Vec<RduelProcessOutput>) -> (r: bool)
    ensures
        r == all_succeeded(steps.deep_view()),
{
    let ghost all = steps.deep_view();
    let mut i: usize = 0;
    while i < steps.len()
        invariant
            i <= steps@.len(),
            all == steps.deep_view(),
            forall|k: int| 0 <= k < i ==> (#[trigger] all[k]).status.success,
        decreases steps@.len() - i,
    {
        assert(all[i as int] == steps@[i as int].deep_view());
        if !steps[i].status.success {
            return false;
        }
        i += 1;
    }
    true
}

fn count_accepted(results: &Vec<(usize, EmbeddedAcrTestResult)>) -> (r: usize)
    ensures
        r == accepted_count(results.deep_view()),
{
    let ghost all = results.deep_view();
    let length: usize = results.len();
    let mut passed: usize = 0;
    let mut i: usize = 0;
    while i < length
        invariant
            i <= length == results@.len(),
            all == results.deep_view(),
            passed == accepted_count(all.take(i as int)),
            passed <= i,
        decreases length - i,
    {
        assert(all.take(i + 1).drop_last() =~= all.take(i as int));
        assert(all.take(i + 1).last() == results@[i as int].deep_view());
        if let EmbeddedAcrTestResult::Ac { .. } = &results[i].1 {
            passed += 1;
        }
        i += 1;
    }
    assert(all.take(i as int) =~= all);
    passed
}

fn failures_block(results: &Vec<(usize, EmbeddedAcrTestResult)>) -> (r: String)
    ensures
        r@ == failures_text(results.deep_view()),
{
    let ghost all = results.deep_view();
    let mut out = String::new();
    let mut i: usize = 0;
    assert(out@ =~= failures_text(all.take(0)));
    while i < results.len()
        invariant
            i <= results@.len(),
            all == results.deep_view(),
            out@ == failures_text(all.take(i as int)),
        decreases results@.len() - i,
    {
        assert(all.take(i + 1).drop_last() =~= all.take(i as int));
        assert(all.take(i + 1).last() == results@[i as int].deep_view());
        let block = failure_block(results[i].0, &results[i].1);
        out = out.concat(block.as_str());
        i += 1;
    }
    assert(all.take(i as int) =~= all);
    out
}

/// The outcome of a test: of the build, and of the samples, if the build succeeded.
pub fn render_embedded_test_steps(
    steps: &Vec<RduelProcessOutput>,
    results: &Vec<(usize, EmbeddedAcrTestResult)>,
) -> (r: RduelCommandOutput)
    ensures
        r.deep_view() == test_outcome(steps.deep_view(), results.deep_view()),
{
    let build_index: usize = match find_build_step(steps) {
        None => {
            return render_command_steps(steps);
        },
        Some(i) => i,
    };
    let success = steps_succeeded(steps);
    let build = &steps[build_index];
    let mut item = process_output_item(build);
    if build.status.success && text::contains_str(build.stderr.as_str(), "warning") {
        item.status = CommandOutputItemStatus::Warning;
    }
    let mut items: Vec<CommandOutputItem> = Vec::new();
    items.push(item);
    assert(items.deep_view() =~= seq![build_item(build.deep_view())]);
    if !build.status.success {
        let stderr = text::trim_str(build.stderr.as_str());
        let mut rendered = "Build failed.\n\n".to_owned().concat(stderr.as_str());
        if !text::is_blank_str(build.stdout.as_str()) {
            let stdout = text::trim_str(build.stdout.as_str());
            rendered = rendered.concat("\n\n[stdout]\n").concat(stdout.as_str());
        }
        let r = RduelCommandOutput {
            success,
            rendered,
            items,
            case_results: Vec::new(),
            submit_ready: None,
        };
        assert(r.deep_view().case_results =~= seq![]);
        return r;
    }
    let passed: usize = count_accepted(results);
    let success = success && passed == results.len();
    let passed_text = wording::number(passed as u64);
    let rendered = if results.len() == 0 {
        "Build: OK\nTest: no sample cases.".to_owned()
    } else if success {
        "Build: OK\nTest: AC (".to_owned().concat(passed_text.as_str()).concat(" cases)")
    } else {
        let total = wording::number(results.len() as u64);
        let failures = failures_block(results);
        "Build: OK\nTest: Failed\n".to_owned().concat(passed_text.as_str()).concat("/").concat(
            total.as_str(),
        ).concat(" cases passed\n").concat(failures.as_str())
    };
    RduelCommandOutput {
        success,
        rendered,
        items,
        case_results: embedded_case_results(results),
        submit_ready: None,
    }
}

/// The outcome of a test whose build went as `build`, and whose samples as `results`. No sample is
/// run after a build that failed.
pub fn run_rduel_test(build: RduelProcessOutput, results: &Vec<(usize, EmbeddedAcrTestResult)>) -> (r:
    RduelCommandOutput)
    ensures
        r.deep_view() == test_outcome(
            seq![build.deep_view()],
            if build.status.success {
                results.deep_view()
            } else {
                seq![]
            },
        ),
{
    let success = build.status.success;
    let mut steps: Vec<RduelProcessOutput> = Vec::new();
    steps.push(build);
    assert(steps.deep_view() =~= seq![build.deep_view()]);
    if !success {
        let none: Vec<(usize, EmbeddedAcrTestResult)> = Vec::new();
        assert(none.deep_view() =~= seq![]);
        return render_embedded_test_steps(&steps, &none);
    }
    render_embedded_test_steps(&steps, results)
}

/// What keeps a solution from being submitted.
#[derive(Clone, Copy, Debug, PartialEq, Eq, Structural)]
pub enum SubmitError {
    /// The manifest names no problem.
    NoProblemUrl,
}

impl SubmitError {
    pub open spec fn text(self) -> Seq<char> {
        "problem_url was not found in Cargo.toml"@
    }

    /// The error for the user.
    pub fn message(&self) -> (r: String)
        ensures
            r@ == self.text(),
    {
        "problem_url was not found in Cargo.toml".to_owned()
    }
}

/// Where the solution of a problem is submitted: on the page for it, or else on that of the problem.
pub open spec fn submit_address(problem_url: Seq<char>) -> Seq<char> {
    match problems::submit_url(problem_url) {
        Some(url) => url,
        None => problem_url,
    }
}

/// The outcome of submitting: only a solution that passes its tests becomes ready.
pub open spec fn submit_outcome(
    test: RduelCommandOutputModel,
    source_path: Seq<char>,
    source_code: Seq<char>,
    cargo_toml: Seq<char>,
) -> Result<RduelCommandOutputModel, SubmitError> {
    if !test.success {
        Ok(
            RduelCommandOutputModel {
                rendered: if seqs::starts_with(test.rendered, "Build failed."@) {
                    test.rendered + "\n\nSubmit was stopped because the solution did not build."@
                } else {
                    test.rendered
                },
                submit_ready: None,
                ..test
            },
        )
    } else {
        match project::problem_url_in(cargo_toml) {
            None => Err(SubmitError::NoProblemUrl),
            Some(url) => Ok(
                RduelCommandOutputModel {
                    submit_ready: Some(
                        RduelSubmitReadyModel {
                            source_code,
                            source_path,
                            submit_url: submit_address(url),
                        },
                    ),
                    ..test
                },
            ),
        }
    }
}

/// The outcome of submitting a solution whose test came out as `test`.
pub fn run_rduel_submit(
    test: RduelCommandOutput,
    source_path: String,
    source_code: String,
    cargo_toml: &str,
) -> (r: Result<RduelCommandOutput, SubmitError>)
    ensures
        match r {
            Ok(outcome) => submit_outcome(
                test.deep_view(),
                source_path@,
                source_code@,
                cargo_toml@,
            ) == Ok::<RduelCommandOutputModel, SubmitError>(outcome.deep_view()),
            Err(error) => submit_outcome(
                test.deep_view(),
                source_path@,
                source_code@,
                cargo_toml@,
            ) == Err::<RduelCommandOutputModel, SubmitError>(error),
        },
{
    if !test.success {
        let chars = text::chars_of(test.rendered.as_str());
        let rendered = if text::starts_with(&chars, "Build failed.") {
            test.rendered.concat("\n\nSubmit was stopped because the solution did not build.")
        } else {
            test.rendered
        };
        return Ok(
            RduelCommandOutput {
                success: false,
                rendered,
                items: test.items,
                case_results: test.case_results,
                submit_ready: None,
            },
        );
    }
    let problem_url = match project::read_problem_url(cargo_toml) {
        None => {
            return Err(SubmitError::NoProblemUrl);
        },
        Some(url) => url,
    };
    let submit_url = match problems::atcoder_submit_url(problem_url.as_str()) {
        Some(url) => url,
        None => problem_url,
    };
    Ok(
        RduelCommandOutput {
            success: true,
            rendered: test.rendered,
            items: test.items,
            case_results: test.case_results,
            submit_ready: Some(RduelSubmitReady { source_code, source_path, submit_url }),
        },
    )
}

/// The verdict of a submission, or a word for that it has none.
pub open spec fn shown_verdict(verdict: Seq<char>) -> Seq<char> {
    if seqs::is_blank(verdict) {
        "Unknown"@
    } else {
        seqs::trim(verdict)
    }
}

/// What is shown of a submission that was seen.
pub open spec fn submission_item(now: i64, submission: ServerPlayerSubmissionRecordModel)
    -> CommandOutputItemModel {
    let verdict = shown_verdict(submission.verdict);
    CommandOutputItemModel {
        label: "Submission"@,
        status: if verdict == "AC"@ {
            CommandOutputItemStatus::Passed
        } else {
            CommandOutputItemStatus::Warning
        },
        detail: Some(
            CommandOutputDetailModel {
                heading: "Detected AtCoder submission: "@ + verdict,
                diff: None,
                sections: seq![
                    CommandOutputDetailSectionModel {
                        title: "Submission"@,
                        body: seqs::pad_right(verdict, ' ', 8) + " "@ + wording::ago(
                            wording::seconds_since(now, submission.epoch_second),
                        ) + "  #"@ + seqs::signed_decimal(submission.id as int),
                    },
                ],
            },
        ),
    }
}

/// What is shown at `now` of a submission that was seen.
pub fn submission_output_item_at(now: i64, submission: &ServerPlayerSubmissionRecord) -> (r:
    CommandOutputItem)
    ensures
        r.deep_view() == submission_item(now, submission.deep_view()),
{
    let verdict = if text::is_blank_str(submission.verdict.as_str()) {
        "Unknown".to_owned()
    } else {
        text::trim_str(submission.verdict.as_str())
    };
    let status = if text::same(verdict.as_str(), "AC") {
        CommandOutputItemStatus::Passed
    } else {
        CommandOutputItemStatus::Warning
    };
    let chars = text::chars_of(verdict.as_str());
    let padded = text::pad_right(&chars, ' ', 8);
    let padded = text::string_of(&padded);
    let when = wording::format_relative_at(now, submission.epoch_second);
    let id = wording::signed_number(submission.id);
    let body = padded.concat(" ").concat(when.as_str()).concat("  #").concat(id.as_str());
    let mut sections: Vec<CommandOutputDetailSection> = Vec::new();
    sections.push(CommandOutputDetailSection { title: "Submission".to_owned(), body });
    let heading = "Detected AtCoder submission: ".to_owned().concat(verdict.as_str());
    let r = CommandOutputItem {
        label: "Submission".to_owned(),
        status,
        detail: Some(CommandOutputDetail::with_sections(heading, sections)),
    };
    assert(sections.deep_view() =~= submission_item(
        now,
        submission.deep_view(),
    ).detail->0.sections);
    r
}

/// What is shown of a submission that was seen.
pub fn submission_output_item(submission: &ServerPlayerSubmissionRecord) -> (r: CommandOutputItem)
    ensures
        exists|now: i64| r.deep_view() == #[trigger] submission_item(now, submission.deep_view()),
{
    let now: i64 = outside::current_second();
    submission_output_item_at(now, submission)
}

proof fn accepted_count_bound(results: Seq<(usize, EmbeddedAcrTestResultModel)>)
    ensures
        accepted_count(results) <= results.len(),
        accepted_count(results) == results.len() <==> forall|i: int|
            0 <= i < results.len() ==> (#[trigger] results[i]).1 is Ac,
    decreases results.len(),
{
    if results.len() > 0 {
        let rest = results.drop_last();
        accepted_count_bound(rest);
        assert(forall|i: int| 0 <= i < rest.len() ==> rest[i] == results[i]);
        if accepted_count(results) == results.len() {
            assert forall|i: int| 0 <= i < results.len() implies (#[trigger] results[i]).1 is Ac by {
                if i < rest.len() {
                    assert(rest[i].1 is Ac);
                }
            }
        } else {
            assert(results[results.len() - 1] == results.last());
        }
    }
}

/// A test succeeds exactly when its build succeeded and every sample is accepted.
pub proof fn test_succeeds_when_all_accepted(
    build: RduelProcessOutputModel,
    results: Seq<(usize, EmbeddedAcrTestResultModel)>,
)
    requires
        build.label == "cargo build"@,
    ensures
        test_outcome(seq![build], results).success <==> (build.status.success && forall|i: int|
            0 <= i < results.len() ==> (#[trigger] results[i]).1 is Ac),
{
    accepted_count_bound(results);
    let steps = seq![build];
    assert(steps[0] == build);
    if build.status.success {
        assert(all_succeeded(steps));
    }
}

/// A solution becomes ready to be submitted exactly when its test succeeded and its manifest names
/// a problem.
pub proof fn only_passing_solutions_are_submitted(
    test: RduelCommandOutputModel,
    source_path: Seq<char>,
    source_code: Seq<char>,
    cargo_toml: Seq<char>,
)
    ensures
        (submit_outcome(test, source_path, source_code, cargo_toml) matches Ok(outcome)
            && outcome.submit_ready is Some) <==> (test.success && project::problem_url_in(
            cargo_toml,
        ) is Some),
{
}

/// What becomes of a solution on a sample tells what it wrote, as expected or not, or why it did not
/// end well; one that ended too late is told from both.
pub proof fn verdict_tells_output(expected: Seq<char>, process: SampleProcess)
    ensures
        judged(expected, process) is Tle <==> process is TimedOut,
        process matches SampleProcess::Failed(reason) ==> judged(expected, process)
            matches EmbeddedAcrTestResultModel::Re { stderr } && stderr == reason@,
        process matches SampleProcess::Finished { status, stdout, stderr } ==> {
            &&& !status.success ==> (judged(
                expected,
                process,
            ) matches EmbeddedAcrTestResultModel::Re { stderr: shown } && shown == stderr@)
            &&& status.success && seqs::trim_end(stdout@) == seqs::trim_end(expected) ==> (judged(
                expected,
                process,
            ) matches EmbeddedAcrTestResultModel::Ac { actual } && actual == stdout@)
            &&& status.success && seqs::trim_end(stdout@) != seqs::trim_end(expected) ==> (judged(
                expected,
                process,
            ) matches EmbeddedAcrTestResultModel::Wa { actual, expected: due } && actual == stdout@
                && due == expected)
        },
{
}

/// A sample whose files are not there has no result, one that cannot be read has an error that says
/// which file it is and why, and every other one is judged.
pub proof fn sample_without_files_has_no_result(files: SampleFiles)
    ensures
        result_for(files) is None <==> files is Missing,
        files matches SampleFiles::Unreadable { path, reason } ==> result_for(files) == Some(
            EmbeddedAcrTestResultModel::Re {
                stderr: "Failed to read "@ + path@ + ": "@ + reason@,
            },
        ),
        files matches SampleFiles::Run { expected, process } ==> result_for(files) == Some(
            judged(expected@, process),
        ),
{
}

/// A step is shown under its label, as passed exactly if it succeeded, with what it wrote to its
/// output and then with what it wrote to its error output, each only if it is not blank.
pub proof fn step_shows_its_output(step: RduelProcessOutputModel)
    ensures
        ({
            let item = step_item(step);
            let written = !seqs::is_blank(step.stdout);
            let complained = !seqs::is_blank(step.stderr);
            &&& item.label == step.label
            &&& item.status == CommandOutputItemStatus::Passed <==> step.status.success
            &&& item.status == CommandOutputItemStatus::Failed <==> !step.status.success
            &&& item.detail is Some
            &&& item.detail->0.diff is None
            &&& step.status.success ==> item.detail->0.heading == step.label + " succeeded"@
            &&& !step.status.success && step.status.code is Some ==> item.detail->0.heading
                == step.label + " failed (exit "@ + seqs::signed_decimal(
                step.status.code->0 as int,
            ) + ")"@
            &&& !step.status.success && step.status.code is None ==> item.detail->0.heading
                == step.label + " failed (exit "@ + "signal"@ + ")"@
            &&& item.detail->0.sections.len() == (if written {
                1int
            } else {
                0int
            }) + (if complained {
                1int
            } else {
                0int
            })
            &&& written ==> item.detail->0.sections[0].title == "stdout"@
                && item.detail->0.sections[0].body == seqs::trim_end(step.stdout)
            &&& complained ==> item.detail->0.sections.last().title == "stderr"@
                && item.detail->0.sections.last().body == seqs::trim_end(step.stderr)
        }),
{
}

/// A step as text is the command with how it ended, and then each of its outputs under its name,
/// without the white space at its end; an empty one is left out.
pub proof fn step_is_told(step: RduelProcessOutputModel)
    ensures
        ({
            let head = "$ "@ + step.label + " (exit "@ + (if step.status.code is Some {
                seqs::signed_decimal(step.status.code->0 as int)
            } else {
                "signal"@
            }) + ")\n"@ + step.executable + " "@ + seqs::join(step.args, " "@) + "\n"@;
            let written = "\n["@ + "stdout"@ + "]\n"@ + seqs::trim_end(step.stdout) + "\n"@;
            let complained = "\n["@ + "stderr"@ + "]\n"@ + seqs::trim_end(step.stderr) + "\n"@;
            &&& step.stdout.len() > 0 && step.stderr.len() > 0 ==> step_text(step) == head + written
                + complained
            &&& step.stdout.len() > 0 && step.stderr.len() == 0 ==> step_text(step) == head
                + written
            &&& step.stdout.len() == 0 && step.stderr.len() > 0 ==> step_text(step) == head
                + complained
            &&& step.stdout.len() == 0 && step.stderr.len() == 0 ==> step_text(step) == head
        }),
{
}

/// Steps without a build succeed exactly if each of them does; each is shown, and they are told one
/// after another with a blank line between.
pub proof fn steps_are_shown(steps: Seq<RduelProcessOutputModel>, i: int)
    requires
        0 <= i < steps.len(),
    ensures
        ({
            let outcome = plain_outcome(steps);
            &&& outcome.success <==> forall|k: int|
                0 <= k < steps.len() ==> (#[trigger] steps[k]).status.success
            &&& outcome.items.len() == steps.len()
            &&& outcome.items[i] == step_item(steps[i])
            &&& outcome.rendered == seqs::join(
                Seq::new(steps.len(), |k: int| step_text(steps[k])),
                "\n\n"@,
            )
            &&& outcome.case_results.len() == 0
            &&& outcome.submit_ready is None
        }),
        plain_outcome(seq![]).rendered == "No command was run."@,
        plain_outcome(seq![]).success,
{
}

/// A case is shown as passed exactly if it was accepted, with the output of the solution if there
/// was one, and with the error of one that did not end well.
pub proof fn case_shows_verdict(result: EmbeddedAcrTestResultModel)
    ensures
        case_of(result).status == CommandOutputItemStatus::Passed <==> result is Ac,
        case_of(result).status == CommandOutputItemStatus::Failed <==> !(result is Ac),
        result matches EmbeddedAcrTestResultModel::Ac { actual } ==> case_of(result).heading
            == "Accepted"@ && case_of(result).actual == Some(actual) && case_of(
            result,
        ).stderr is None,
        result matches EmbeddedAcrTestResultModel::Wa { actual, expected } ==> case_of(
            result,
        ).heading == "Wrong Answer"@ && case_of(result).actual == Some(actual) && case_of(
            result,
        ).stderr is None,
        result matches EmbeddedAcrTestResultModel::Re { stderr } ==> case_of(result).heading
            == "Runtime Error"@ && case_of(result).actual is None && case_of(result).stderr == Some(
            stderr,
        ),
        result is Tle ==> case_of(result).heading == "Time Limit Exceeded"@ && case_of(
            result,
        ).actual is None && case_of(result).stderr is None,
{
}

/// Each result is shown under its own number, and each accepted one is counted.
pub proof fn results_are_shown_and_counted(
    results: Seq<(usize, EmbeddedAcrTestResultModel)>,
    result: (usize, EmbeddedAcrTestResultModel),
)
    ensures
        cases_of(seq![]).len() == 0,
        cases_of(results.push(result)) == cases_of(results).push((result.0, case_of(result.1))),
        accepted_count(seq![]) == 0,
        accepted_count(results.push(result)) == accepted_count(results) + if result.1 is Ac {
            1int
        } else {
            0int
        },
{
    assert(results.push(result).drop_last() =~= results);
    assert(cases_of(results.push(result)) =~= cases_of(results).push(
        (result.0, case_of(result.1)),
    ));
}

/// The failures are told in their order, each with its number: a wrong answer with what was expected
/// and what came, an error with what it says, and a late end by its name; nothing is told of what
/// was accepted.
pub proof fn failures_are_told(
    results: Seq<(usize, EmbeddedAcrTestResultModel)>,
    index: usize,
    actual: Seq<char>,
    expected: Seq<char>,
    stderr: Seq<char>,
)
    ensures
        failures_text(seq![]).len() == 0,
        failures_text(results.push((index, EmbeddedAcrTestResultModel::Ac { actual })))
            == failures_text(results),
        failures_text(results.push((index, EmbeddedAcrTestResultModel::Wa { actual, expected })))
            == failures_text(results) + ("\nCase "@ + seqs::decimal(index as nat)
            + ": WA\nExpected:\n"@ + seqs::trim_end(expected) + "\n\nActual:\n"@ + seqs::trim_end(
            actual,
        ) + "\n"@),
        failures_text(results.push((index, EmbeddedAcrTestResultModel::Re { stderr })))
            == failures_text(results) + ("\nCase "@ + seqs::decimal(index as nat) + ": RE\n"@
            + seqs::trim_end(stderr) + "\n"@),
        failures_text(results.push((index, EmbeddedAcrTestResultModel::Tle))) == failures_text(
            results,
        ) + ("\nCase "@ + seqs::decimal(index as nat) + ": TLE\n"@),
{
    let accepted = (index, EmbeddedAcrTestResultModel::Ac { actual });
    assert(results.push(accepted).drop_last() =~= results);
    assert(results.push((index, EmbeddedAcrTestResultModel::Wa { actual, expected })).drop_last()
        =~= results);
    assert(results.push((index, EmbeddedAcrTestResultModel::Re { stderr })).drop_last()
        =~= results);
    assert(results.push((index, EmbeddedAcrTestResultModel::Tle)).drop_last() =~= results);
    assert(failures_text(results) + Seq::<char>::empty() =~= failures_text(results));
}

/// The outcome of a test shows its build, as a warning where it succeeded with one. After a build
/// that failed it tells what the build wrote and nothing of the samples; otherwise it tells how many
/// samples were accepted, and of each that was not.
pub proof fn outcome_tells_of_build_and_samples(
    build: RduelProcessOutputModel,
    results: Seq<(usize, EmbeddedAcrTestResultModel)>,
)
    requires
        build.label == "cargo build"@,
    ensures
        ({
            let outcome = test_outcome(seq![build], results);
            let failed = "Build failed.\n\n"@ + seqs::trim(build.stderr);
            let count = accepted_count(results);
            &&& outcome.submit_ready is None
            &&& outcome.items.len() == 1
            &&& outcome.items[0].label == build.label
            &&& outcome.items[0].detail == step_item(build).detail
            &&& outcome.items[0].status == CommandOutputItemStatus::Failed
                <==> !build.status.success
            &&& outcome.items[0].status == CommandOutputItemStatus::Warning
                <==> build.status.success && seqs::contains(build.stderr, "warning"@)
            &&& !build.status.success ==> {
                &&& !outcome.success
                &&& outcome.case_results.len() == 0
                &&& seqs::is_blank(build.stdout) ==> outcome.rendered == failed
                &&& !seqs::is_blank(build.stdout) ==> outcome.rendered == failed
                    + "\n\n[stdout]\n"@ + seqs::trim(build.stdout)
            }
            &&& build.status.success ==> {
                &&& outcome.success <==> count == results.len()
                &&& outcome.case_results == cases_of(results)
                &&& results.len() == 0 ==> outcome.rendered
                    == "Build: OK\nTest: no sample cases."@
                &&& results.len() > 0 && count == results.len() ==> outcome.rendered
                    == "Build: OK\nTest: AC ("@ + seqs::decimal(results.len()) + " cases)"@
                &&& results.len() > 0 && count != results.len() ==> outcome.rendered
                    == "Build: OK\nTest: Failed\n"@ + seqs::decimal(count) + "/"@ + seqs::decimal(
                    results.len(),
                ) + " cases passed\n"@ + failures_text(results)
            }
        }),
{
    let steps = seq![build];
    assert(steps[0] == build);
    assert(build_step(steps) == Some(build));
    assert(all_succeeded(steps) == build.status.success);
}

/// The first step that is a build is the build; a test without one is shown by its steps.
pub proof fn first_build_counts(
    step: RduelProcessOutputModel,
    rest: Seq<RduelProcessOutputModel>,
    results: Seq<(usize, EmbeddedAcrTestResultModel)>,
)
    ensures
        step.label == "cargo build"@ ==> build_step(seq![step] + rest) == Some(step),
        step.label != "cargo build"@ ==> build_step(seq![step] + rest) == build_step(rest),
        build_step(seq![]) is None,
        build_step(rest) is None ==> test_outcome(rest, results) == plain_outcome(rest),
{
    assert((seq![step] + rest)[0] == step);
    assert((seq![step] + rest).skip(1) =~= rest);
}

/// A solution that is ready to be submitted comes with its code and its path, and with the page to
/// submit it on, or without one that of its problem. One that failed its test is not submitted, and
/// is told so if it did not build.
pub proof fn ready_solution_comes_with_code(
    test: RduelCommandOutputModel,
    source_path: Seq<char>,
    source_code: Seq<char>,
    cargo_toml: Seq<char>,
    url: Seq<char>,
)
    ensures
        ({
            let outcome = submit_outcome(test, source_path, source_code, cargo_toml);
            &&& test.success && project::problem_url_in(cargo_toml) == Some(url) ==> {
                &&& outcome == Ok::<RduelCommandOutputModel, SubmitError>(
                    RduelCommandOutputModel {
                        submit_ready: Some(
                            RduelSubmitReadyModel {
                                source_code,
                                source_path,
                                submit_url: if problems::submit_url(url) is Some {
                                    problems::submit_url(url)->0
                                } else {
                                    url
                                },
                            },
                        ),
                        ..test
                    },
                )
            }
            &&& test.success && project::problem_url_in(cargo_toml) is None ==> outcome == Err::<
                RduelCommandOutputModel,
                SubmitError,
            >(SubmitError::NoProblemUrl)
            &&& !test.success ==> outcome == Ok::<RduelCommandOutputModel, SubmitError>(
                RduelCommandOutputModel {
                    rendered: if seqs::starts_with(test.rendered, "Build failed."@) {
                        test.rendered
                            + "\n\nSubmit was stopped because the solution did not build."@
                    } else {
                        test.rendered
                    },
                    submit_ready: None,
                    ..test
                },
            )
        }),
{
}

/// A submission that was seen is shown with its verdict, when it was made and its number, and as
/// passed exactly if it was accepted.
pub proof fn seen_submission_shows_verdict(now: i64, submission: ServerPlayerSubmissionRecordModel)
    ensures
        ({
            let item = submission_item(now, submission);
            let verdict = if seqs::is_blank(submission.verdict) {
                "Unknown"@
            } else {
                seqs::trim(submission.verdict)
            };
            &&& item.label == "Submission"@
            &&& item.status == CommandOutputItemStatus::Passed <==> verdict == "AC"@
            &&& item.status == CommandOutputItemStatus::Warning <==> verdict != "AC"@
            &&& item.detail is Some
            &&& item.detail->0.heading == "Detected AtCoder submission: "@ + verdict
            &&& item.detail->0.diff is None
            &&& item.detail->0.sections.len() == 1
            &&& item.detail->0.sections[0].title == "Submission"@
            &&& item.detail->0.sections[0].body == seqs::pad_right(verdict, ' ', 8) + " "@
                + wording::ago(
                if now > submission.epoch_second {
                    (now - submission.epoch_second) as nat
                } else {
                    0
                },
            ) + "  #"@ + seqs::signed_decimal(submission.id as int)
        }),
{
}
/// The models hold what the values hold, each part under its own name.
pub proof fn models_hold_their_parts(
    embedded_acr_test_result: EmbeddedAcrTestResult,
    rduel_process_output: RduelProcessOutput,
    rduel_submit_ready: RduelSubmitReady,
    rduel_command_output: RduelCommandOutput,
)
    ensures
        embedded_acr_test_result.deep_view() == match embedded_acr_test_result {
            EmbeddedAcrTestResult::Ac { actual } => EmbeddedAcrTestResultModel::Ac {
                actual: actual@,
            },
            EmbeddedAcrTestResult::Wa { actual, expected } => EmbeddedAcrTestResultModel::Wa {
                actual: actual@,
                expected: expected@,
            },
            EmbeddedAcrTestResult::Re { stderr } => EmbeddedAcrTestResultModel::Re {
                stderr: stderr@,
            },
            EmbeddedAcrTestResult::Tle => EmbeddedAcrTestResultModel::Tle,
        },
        rduel_process_output.deep_view() == (RduelProcessOutputModel {
            label: rduel_process_output.label@,
            executable: rduel_process_output.executable@,
            args: rduel_process_output.args.deep_view(),
            status: rduel_process_output.status,
            stdout: rduel_process_output.stdout@,
            stderr: rduel_process_output.stderr@,
        }),
        rduel_submit_ready.deep_view() == (RduelSubmitReadyModel {
            source_code: rduel_submit_ready.source_code@,
            source_path: rduel_submit_ready.source_path@,
            submit_url: rduel_submit_ready.submit_url@,
        }),
        rduel_command_output.deep_view() == (RduelCommandOutputModel {
            success: rduel_command_output.success,
            rendered: rduel_command_output.rendered@,
            items: rduel_command_output.items.deep_view(),
            case_results: rduel_command_output.case_results.deep_view(),
            submit_ready: rduel_command_output.submit_ready.deep_view(),
        }),
{
}
} // verus!
