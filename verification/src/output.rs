//! What is shown of commands and test runs.

use vstd::prelude::*;

use crate::copying::Duplicate;
use crate::runner::{ProcessOutput, SampleResult, SampleResultModel, SampleTestReport};
use crate::seqs;
use crate::text;

verus! {

/// How a step of a command went.
#[derive(Clone, Copy, Debug, PartialEq, Eq, Structural)]
pub enum CommandOutputItemStatus {
    Pending,
    Passed,
    Warning,
    Failed,
}

impl DeepView for CommandOutputItemStatus {
    type V = CommandOutputItemStatus;

    open spec fn deep_view(&self) -> CommandOutputItemStatus {
        *self
    }
}

/// An expected and an actual output.
pub struct OutputDiff {
    pub expected: String,
    pub actual: String,
}

/// What a `OutputDiff` holds.
#[verifier::ext_equal]
pub struct OutputDiffModel {
    pub expected: Seq<char>,
    pub actual: Seq<char>,
}

impl DeepView for OutputDiff {
    type V = OutputDiffModel;

    open spec fn deep_view(&self) -> OutputDiffModel {
        OutputDiffModel {
            expected: self.expected@,
            actual: self.actual@,
        }
    }
}

impl Duplicate for OutputDiff {
    fn duplicate(&self) -> (r: Self) {
        OutputDiff {
            expected: self.expected.clone(),
            actual: self.actual.clone(),
        }
    }
}

/// A part of the output of a command.
pub struct CommandOutputDetailSection {
    pub title: String,
    pub body: String,
}

/// What a `CommandOutputDetailSection` holds.
#[verifier::ext_equal]
pub struct CommandOutputDetailSectionModel {
    pub title: Seq<char>,
    pub body: Seq<char>,
}

impl DeepView for CommandOutputDetailSection {
    type V = CommandOutputDetailSectionModel;

    open spec fn deep_view(&self) -> CommandOutputDetailSectionModel {
        CommandOutputDetailSectionModel {
            title: self.title@,
            body: self.body@,
        }
    }
}

impl Duplicate for CommandOutputDetailSection {
    fn duplicate(&self) -> (r: Self) {
        CommandOutputDetailSection {
            title: self.title.clone(),
            body: self.body.clone(),
        }
    }
}

/// The details of a step of a command.
pub struct CommandOutputDetail {
    pub heading: String,
    pub diff: Option<OutputDiff>,
    pub sections: Vec<CommandOutputDetailSection>,
}

/// What a `CommandOutputDetail` holds.
#[verifier::ext_equal]
pub struct CommandOutputDetailModel {
    pub heading: Seq<char>,
    pub diff: Option<OutputDiffModel>,
    pub sections: Seq<CommandOutputDetailSectionModel>,
}

impl DeepView for CommandOutputDetail {
    type V = CommandOutputDetailModel;

    open spec fn deep_view(&self) -> CommandOutputDetailModel {
        CommandOutputDetailModel {
            heading: self.heading@,
            diff: self.diff.deep_view(),
            sections: self.sections.deep_view(),
        }
    }
}

/// A step of a command.
pub struct CommandOutputItem {
    pub label: String,
    pub status: CommandOutputItemStatus,
    pub detail: Option<CommandOutputDetail>,
}

/// What a `CommandOutputItem` holds.
#[verifier::ext_equal]
pub struct CommandOutputItemModel {
    pub label: Seq<char>,
    pub status: CommandOutputItemStatus,
    pub detail: Option<CommandOutputDetailModel>,
}

impl DeepView for CommandOutputItem {
    type V = CommandOutputItemModel;

    open spec fn deep_view(&self) -> CommandOutputItemModel {
        CommandOutputItemModel {
            label: self.label@,
            status: self.status,
            detail: self.detail.deep_view(),
        }
    }
}

/// The steps of a command.
pub struct CommandOutputState {
    pub items: Vec<CommandOutputItem>,
}

/// What a `CommandOutputState` holds.
#[verifier::ext_equal]
pub struct CommandOutputStateModel {
    pub items: Seq<CommandOutputItemModel>,
}

impl DeepView for CommandOutputState {
    type V = CommandOutputStateModel;

    open spec fn deep_view(&self) -> CommandOutputStateModel {
        CommandOutputStateModel {
            items: self.items.deep_view(),
        }
    }
}

/// What is shown of a test case after a run.
pub struct CaseResult {
    pub status: CommandOutputItemStatus,
    pub heading: String,
    pub actual: Option<String>,
    pub stderr: Option<String>,
}

/// What a `CaseResult` holds.
#[verifier::ext_equal]
pub struct CaseResultModel {
    pub status: CommandOutputItemStatus,
    pub heading: Seq<char>,
    pub actual: Option<Seq<char>>,
    pub stderr: Option<Seq<char>>,
}

impl DeepView for CaseResult {
    type V = CaseResultModel;

    open spec fn deep_view(&self) -> CaseResultModel {
        CaseResultModel {
            status: self.status,
            heading: self.heading@,
            actual: self.actual.deep_view(),
            stderr: self.stderr.deep_view(),
        }
    }
}

impl Duplicate for CaseResult {
    fn duplicate(&self) -> (r: Self) {
        CaseResult {
            status: self.status,
            heading: self.heading.clone(),
            actual: self.actual.duplicate(),
            stderr: self.stderr.duplicate(),
        }
    }
}

/// A run of a solution on its samples.
pub struct SampleTestSummary {
    pub build_item: CommandOutputItem,
    pub build_succeeded: bool,
    pub total_cases: usize,
    pub passed_cases: usize,
    pub case_results: Vec<(usize, CaseResult)>,
}

/// What a `SampleTestSummary` holds.
#[verifier::ext_equal]
pub struct SampleTestSummaryModel {
    pub build_item: CommandOutputItemModel,
    pub build_succeeded: bool,
    pub total_cases: usize,
    pub passed_cases: usize,
    pub case_results: Seq<(usize, CaseResultModel)>,
}

impl DeepView for SampleTestSummary {
    type V = SampleTestSummaryModel;

    open spec fn deep_view(&self) -> SampleTestSummaryModel {
        SampleTestSummaryModel {
            build_item: self.build_item.deep_view(),
            build_succeeded: self.build_succeeded,
            total_cases: self.total_cases,
            passed_cases: self.passed_cases,
            case_results: self.case_results.deep_view(),
        }
    }
}

/// What of the output is selected.
#[derive(Clone, Copy, Debug, PartialEq, Eq, Structural)]
pub enum OutputSelection {
    Step(usize),
    Case(usize),
}

/// The colour of the dot that stands for a status.
#[derive(Clone, Copy, Debug, PartialEq, Eq, Structural)]
pub enum DotColor {
    BorderVariant,
    Success,
    Warning,
    Error,
}

pub open spec fn plain_detail(heading: Seq<char>) -> CommandOutputDetailModel {
    CommandOutputDetailModel { heading, diff: None, sections: seq![] }
}

/// A step of which only a heading is shown.
pub open spec fn single_item(
    label: Seq<char>,
    status: CommandOutputItemStatus,
    detail: Seq<char>,
) -> CommandOutputItemModel {
    CommandOutputItemModel { label, status, detail: Some(plain_detail(detail)) }
}

impl CommandOutputDetail {
    /// Details with nothing but a heading.
    pub fn new(heading: String) -> (r: Self)
        ensures
            r.deep_view() == plain_detail(heading@),
    {
        let r = CommandOutputDetail { heading, diff: None, sections: Vec::new() };
        assert(r.deep_view() =~= plain_detail(heading@));
        r
    }

    /// Details with a heading and sections.
    pub fn with_sections(heading: String, sections: Vec<CommandOutputDetailSection>) -> (r: Self)
        ensures
            r.deep_view() == (CommandOutputDetailModel {
                heading: heading@,
                diff: None,
                sections: sections.deep_view(),
            }),
    {
        CommandOutputDetail { heading, diff: None, sections }
    }
}

/// A step of which only a heading is shown.
pub fn plain_item(label: &str, status: CommandOutputItemStatus, heading: String) -> (r:
    CommandOutputItem)
    ensures
        r.deep_view() == single_item(label@, status, heading@),
{
    CommandOutputItem {
        label: label.to_owned(),
        status,
        detail: Some(CommandOutputDetail::new(heading)),
    }
}

/// A command of one step.
pub fn single_command_output_state(label: String, status: CommandOutputItemStatus, detail: String)
    -> (r: CommandOutputState)
    ensures
        r.deep_view().items == seq![single_item(label@, status, detail@)],
{
    let mut items: Vec<CommandOutputItem> = Vec::new();
    items.push(CommandOutputItem { label, status, detail: Some(CommandOutputDetail::new(detail)) });
    assert(items.deep_view() =~= seq![single_item(label@, status, detail@)]);
    CommandOutputState { items }
}

impl CommandOutputState {
    /// No step.
    pub fn empty() -> (r: Self)
        ensures
            r.deep_view().items == Seq::<CommandOutputItemModel>::empty(),
    {
        let items: Vec<CommandOutputItem> = Vec::new();
        assert(items.deep_view() =~= Seq::<CommandOutputItemModel>::empty());
        CommandOutputState { items }
    }

    /// A command of one step that is not done.
    pub fn running(label: &str) -> (r: Self)
        ensures
            r.deep_view().items == seq![
                single_item(
                    label@,
                    CommandOutputItemStatus::Pending,
                    "Waiting for command output..."@,
                ),
            ],
    {
        single_command_output_state(
            label.to_owned(),
            CommandOutputItemStatus::Pending,
            "Waiting for command output...".to_owned(),
        )
    }
}

/// A text, unless it is blank.
pub open spec fn unless_blank(text: Seq<char>) -> Option<Seq<char>> {
    if seqs::is_blank(text) {
        None
    } else {
        Some(text)
    }
}

/// What is shown of a test case for a result.
pub open spec fn case_of(result: SampleResultModel) -> CaseResultModel {
    match result {
        SampleResultModel::Ac { actual, stderr } => CaseResultModel {
            status: CommandOutputItemStatus::Passed,
            heading: "Accepted"@,
            actual: Some(actual),
            stderr: unless_blank(stderr),
        },
        SampleResultModel::Wa { actual, expected, stderr } => CaseResultModel {
            status: CommandOutputItemStatus::Failed,
            heading: "Wrong Answer"@,
            actual: Some(actual),
            stderr: unless_blank(stderr),
        },
        SampleResultModel::Re { stderr } => CaseResultModel {
            status: CommandOutputItemStatus::Failed,
            heading: "Runtime Error"@,
            actual: None,
            stderr: Some(stderr),
        },
        SampleResultModel::Tle => CaseResultModel {
            status: CommandOutputItemStatus::Failed,
            heading: "Time Limit Exceeded"@,
            actual: None,
            stderr: None,
        },
    }
}

/// What is shown of the test cases for numbered results.
pub open spec fn cases_of(results: Seq<(usize, SampleResultModel)>) -> Seq<
    (usize, CaseResultModel),
> {
    Seq::new(results.len(), |i: int| (results[i].0, case_of(results[i].1)))
}

fn filled(content: &String) -> (r: Option<String>)
    ensures
        r.deep_view() == unless_blank(content@),
{
    if text::is_blank_str(content.as_str()) {
        None
    } else {
        Some(content.clone())
    }
}

/// What is shown of a test case for a result.
pub fn case_result(result: &SampleResult) -> (r: CaseResult)
    ensures
        r.deep_view() == case_of(result.deep_view()),
{
    match result {
        SampleResult::Ac { actual, stderr } => CaseResult {
            status: CommandOutputItemStatus::Passed,
            heading: "Accepted".to_owned(),
            actual: Some(actual.clone()),
            stderr: filled(stderr),
        },
        SampleResult::Wa { actual, expected: _, stderr } => CaseResult {
            status: CommandOutputItemStatus::Failed,
            heading: "Wrong Answer".to_owned(),
            actual: Some(actual.clone()),
            stderr: filled(stderr),
        },
        SampleResult::Re { stderr } => CaseResult {
            status: CommandOutputItemStatus::Failed,
            heading: "Runtime Error".to_owned(),
            actual: None,
            stderr: Some(stderr.clone()),
        },
        SampleResult::Tle => CaseResult {
            status: CommandOutputItemStatus::Failed,
            heading: "Time Limit Exceeded".to_owned(),
            actual: None,
            stderr: None,
        },
    }
}

/// What is shown of the test cases for numbered results.
pub fn sample_case_results(results: &[(usize, SampleResult)]) -> (r: Vec<(usize, CaseResult)>)
    ensures
        r.deep_view() == cases_of(results.deep_view()),
{
    let mut out: Vec<(usize, CaseResult)> = Vec::new();
    let mut i: usize = 0;
    while i < results.len()
        invariant
            i <= results@.len(),
            out.deep_view() == cases_of(results.deep_view()).take(i as int),
        decreases results@.len() - i,
    {
        let ghost before = out.deep_view();
        out.push((results[i].0, case_result(&results[i].1)));
        assert(out.deep_view() =~= before.push(cases_of(results.deep_view())[i as int]));
        i += 1;
    }
    assert(out.deep_view() =~= cases_of(results.deep_view()));
    out
}

/// A section with a text, without white space at its end, unless the text is blank.
pub open spec fn section_for(title: Seq<char>, text: Seq<char>) -> Seq<
    CommandOutputDetailSectionModel,
> {
    if seqs::is_blank(text) {
        seq![]
    } else {
        seq![CommandOutputDetailSectionModel { title, body: seqs::trim_end(text) }]
    }
}

/// What is shown of a process that has ended.
pub open spec fn process_item(step: ProcessOutput, heading: Seq<char>) -> CommandOutputItemModel {
    CommandOutputItemModel {
        label: step.label@,
        status: if step.status.success {
            CommandOutputItemStatus::Passed
        } else {
            CommandOutputItemStatus::Failed
        },
        detail: Some(
            CommandOutputDetailModel {
                heading,
                diff: None,
                sections: section_for("stdout"@, step.stdout@) + section_for(
                    "stderr"@,
                    step.stderr@,
                ),
            },
        ),
    }
}

/// Adds a section with a text, unless the text is blank.
pub fn push_section(sections: &mut Vec<CommandOutputDetailSection>, title: &str, body: &str)
    ensures
        final(sections).deep_view() == old(sections).deep_view() + section_for(title@, body@),
{
    let ghost before = sections.deep_view();
    if !text::is_blank_str(body) {
        let chars = text::chars_of(body);
        let body = text::string_of(text::trim_end(&chars));
        sections.push(CommandOutputDetailSection { title: title.to_owned(), body });
    }
    assert(sections.deep_view() =~= before + section_for(title@, body@));
}

/// What is shown of a process that has ended.
pub fn process_output_item(step: &ProcessOutput, heading: String) -> (r: CommandOutputItem)
    ensures
        r.deep_view() == process_item(*step, heading@),
{
    let mut sections: Vec<CommandOutputDetailSection> = Vec::new();
    push_section(&mut sections, "stdout", step.stdout.as_str());
    push_section(&mut sections, "stderr", step.stderr.as_str());
    assert(sections.deep_view() =~= section_for("stdout"@, step.stdout@) + section_for(
        "stderr"@,
        step.stderr@,
    ));
    CommandOutputItem {
        label: step.label.to_owned(),
        status: if step.status.success {
            CommandOutputItemStatus::Passed
        } else {
            CommandOutputItemStatus::Failed
        },
        detail: Some(CommandOutputDetail::with_sections(heading, sections)),
    }
}

/// How many of `results` are accepted.
pub open spec fn accepted_count(results: Seq<(usize, SampleResultModel)>) -> nat
    decreases results.len(),
{
    if results.len() == 0 {
        0
    } else {
        accepted_count(results.drop_last()) + if results.last().1 is Ac {
            1nat
        } else {
            0nat
        }
    }
}

/// What is shown of a report: the build, with a warning where it succeeded with one, and the test
/// cases, if the build succeeded.
pub open spec fn summary_of(
    build: ProcessOutput,
    cases: Seq<(usize, SampleResultModel)>,
    build_heading: Seq<char>,
) -> SampleTestSummaryModel {
    let item = process_item(build, build_heading);
    SampleTestSummaryModel {
        build_item: if build.status.success && seqs::contains(build.stderr@, "warning"@) {
            CommandOutputItemModel { status: CommandOutputItemStatus::Warning, ..item }
        } else {
            item
        },
        build_succeeded: build.status.success,
        total_cases: cases.len() as usize,
        passed_cases: accepted_count(cases) as usize,
        case_results: if build.status.success {
            cases_of(cases)
        } else {
            seq![]
        },
    }
}

/// What is shown of a report.
pub fn sample_test_summary(report: SampleTestReport, build_heading: String) -> (r:
    SampleTestSummary)
    ensures
        r.deep_view() == summary_of(report.build, report.cases.deep_view(), build_heading@),
{
    let build_succeeded = report.build.status.success;
    let mut build_item = process_output_item(&report.build, build_heading);
    if build_succeeded && text::contains_str(report.build.stderr.as_str(), "warning") {
        build_item.status = CommandOutputItemStatus::Warning;
    }
    let ghost all = report.cases.deep_view();
    let total_cases: usize = report.cases.len();
    let mut passed_cases: usize = 0;
    let mut i: usize = 0;
    while i < total_cases
        invariant
            i <= total_cases == report.cases@.len(),
            all == report.cases.deep_view(),
            passed_cases == accepted_count(all.take(i as int)),
            passed_cases <= i,
        decreases total_cases - i,
    {
        assert(all.take(i + 1).drop_last() =~= all.take(i as int));
        assert(all.take(i + 1).last() == report.cases@[i as int].deep_view());
        if let SampleResult::Ac { .. } = &report.cases[i].1 {
            passed_cases += 1;
        }
        i += 1;
    }
    assert(all.take(i as int) =~= all);
    let case_results = if build_succeeded {
        let cases = report.cases.as_slice();
        assert(cases.deep_view() =~= all);
        sample_case_results(cases)
    } else {
        Vec::new()
    };
    let r = SampleTestSummary {
        build_item,
        build_succeeded,
        total_cases,
        passed_cases,
        case_results,
    };
    proof {
        let expected = summary_of(report.build, all, build_heading@);
        assert(r.deep_view().case_results =~= expected.case_results);
        assert(r.deep_view().build_item =~= expected.build_item);
    }
    r
}

/// The colour of the dot that stands for a status.
pub fn status_dot_color(status: CommandOutputItemStatus) -> (r: DotColor)
    ensures
        r == match status {
            CommandOutputItemStatus::Pending => DotColor::BorderVariant,
            CommandOutputItemStatus::Passed => DotColor::Success,
            CommandOutputItemStatus::Warning => DotColor::Warning,
            CommandOutputItemStatus::Failed => DotColor::Error,
        },
{
    match status {
        CommandOutputItemStatus::Pending => DotColor::BorderVariant,
        CommandOutputItemStatus::Passed => DotColor::Success,
        CommandOutputItemStatus::Warning => DotColor::Warning,
        CommandOutputItemStatus::Failed => DotColor::Error,
    }
}

/// A case is shown as passed exactly if it was accepted, with the output of the solution if there
/// was one, and with what it wrote to its error output.
pub proof fn case_shows_verdict(result: SampleResultModel)
    ensures
        case_of(result).status == CommandOutputItemStatus::Passed <==> result is Ac,
        case_of(result).status == CommandOutputItemStatus::Failed <==> !(result is Ac),
        result matches SampleResultModel::Ac { actual, stderr } ==> {
            &&& case_of(result).heading == "Accepted"@
            &&& case_of(result).actual == Some(actual)
            &&& seqs::is_blank(stderr) ==> case_of(result).stderr is None
            &&& !seqs::is_blank(stderr) ==> case_of(result).stderr == Some(stderr)
        },
        result matches SampleResultModel::Wa { actual, expected, stderr } ==> {
            &&& case_of(result).heading == "Wrong Answer"@
            &&& case_of(result).actual == Some(actual)
            &&& seqs::is_blank(stderr) ==> case_of(result).stderr is None
            &&& !seqs::is_blank(stderr) ==> case_of(result).stderr == Some(stderr)
        },
        result matches SampleResultModel::Re { stderr } ==> {
            &&& case_of(result).heading == "Runtime Error"@
            &&& case_of(result).actual is None
            &&& case_of(result).stderr == Some(stderr)
        },
        result is Tle ==> {
            &&& case_of(result).heading == "Time Limit Exceeded"@
            &&& case_of(result).actual is None
            &&& case_of(result).stderr is None
        },
{
}

/// Each result is shown under its own number.
pub proof fn cases_keep_their_numbers(results: Seq<(usize, SampleResultModel)>, i: int)
    requires
        0 <= i < results.len(),
    ensures
        cases_of(results).len() == results.len(),
        cases_of(results)[i].0 == results[i].0,
        cases_of(results)[i].1 == case_of(results[i].1),
{
}

/// A process is shown under its label, as passed exactly if it succeeded, with what it wrote to its
/// output and then with what it wrote to its error output, each without the white space at its end
/// and only if it is not blank.
pub proof fn process_shows_its_output(step: ProcessOutput, heading: Seq<char>)
    ensures
        ({
            let item = process_item(step, heading);
            let written = !seqs::is_blank(step.stdout@);
            let complained = !seqs::is_blank(step.stderr@);
            &&& item.label == step.label@
            &&& item.status == CommandOutputItemStatus::Passed <==> step.status.success
            &&& item.status == CommandOutputItemStatus::Failed <==> !step.status.success
            &&& item.detail matches Some(detail) && {
                &&& detail.heading == heading
                &&& detail.diff is None
                &&& detail.sections.len() == (if written {
                    1int
                } else {
                    0int
                }) + (if complained {
                    1int
                } else {
                    0int
                })
                &&& written ==> detail.sections[0].title == "stdout"@ && detail.sections[0].body
                    == seqs::trim_end(step.stdout@)
                &&& complained ==> detail.sections.last().title == "stderr"@
                    && detail.sections.last().body == seqs::trim_end(step.stderr@)
            }
        }),
{
}

/// Each accepted result counts as one, and no other result counts.
pub proof fn accepted_results_are_counted(
    first: Seq<(usize, SampleResultModel)>,
    second: Seq<(usize, SampleResultModel)>,
    result: (usize, SampleResultModel),
)
    ensures
        accepted_count(seq![]) == 0,
        accepted_count(seq![result]) == if result.1 is Ac {
            1int
        } else {
            0int
        },
        accepted_count(first + second) == accepted_count(first) + accepted_count(second),
        accepted_count(first) <= first.len(),
    decreases first.len() + second.len(),
{
    reveal_with_fuel(accepted_count, 2);
    if second.len() > 0 {
        accepted_results_are_counted(first, second.drop_last(), result);
        assert((first + second).drop_last() =~= first + second.drop_last());
    } else {
        assert(first + second =~= first);
        if first.len() > 0 {
            accepted_results_are_counted(first.drop_last(), second, result);
        }
    }
}

/// A summary tells of the build, as a warning exactly if it succeeded and warned, and of the cases:
/// how many there are, how many were accepted, and what became of each, unless the build failed.
pub proof fn summary_tells_of_build_and_cases(
    build: ProcessOutput,
    cases: Seq<(usize, SampleResultModel)>,
    heading: Seq<char>,
)
    requires
        cases.len() <= usize::MAX,
    ensures
        ({
            let summary = summary_of(build, cases, heading);
            let item = process_item(build, heading);
            &&& summary.build_succeeded == build.status.success
            &&& summary.total_cases == cases.len()
            &&& summary.passed_cases == accepted_count(cases)
            &&& summary.build_item.label == build.label@
            &&& summary.build_item.detail == item.detail
            &&& !build.status.success ==> summary.build_item.status
                == CommandOutputItemStatus::Failed && summary.case_results.len() == 0
            &&& build.status.success && seqs::contains(build.stderr@, "warning"@)
                ==> summary.build_item.status == CommandOutputItemStatus::Warning
            &&& build.status.success && !seqs::contains(build.stderr@, "warning"@)
                ==> summary.build_item.status == CommandOutputItemStatus::Passed
            &&& build.status.success ==> summary.case_results == cases_of(cases)
        }),
{
    accepted_results_are_counted(cases, seq![], cases[0]);
}

/// A step with nothing but a heading shows that heading under its label and status.
pub proof fn plain_step_shows_heading(
    label: Seq<char>,
    status: CommandOutputItemStatus,
    heading: Seq<char>,
)
    ensures
        ({
            let item = single_item(label, status, heading);
            &&& item.label == label
            &&& item.status == status
            &&& item.detail matches Some(detail) && detail.heading == heading && detail.diff is None
                && detail.sections.len() == 0
        }),
{
}
/// The models hold what the values hold, each part under its own name.
pub proof fn models_hold_their_parts(
    output_diff: OutputDiff,
    command_output_detail_section: CommandOutputDetailSection,
    command_output_detail: CommandOutputDetail,
    command_output_item: CommandOutputItem,
    command_output_state: CommandOutputState,
    case_result: CaseResult,
    sample_test_summary: SampleTestSummary,
)
    ensures
        output_diff.deep_view() == (OutputDiffModel {
            expected: output_diff.expected@,
            actual: output_diff.actual@,
        }),
        command_output_detail_section.deep_view() == (CommandOutputDetailSectionModel {
            title: command_output_detail_section.title@,
            body: command_output_detail_section.body@,
        }),
        command_output_detail.deep_view() == (CommandOutputDetailModel {
            heading: command_output_detail.heading@,
            diff: command_output_detail.diff.deep_view(),
            sections: command_output_detail.sections.deep_view(),
        }),
        command_output_item.deep_view() == (CommandOutputItemModel {
            label: command_output_item.label@,
            status: command_output_item.status,
            detail: command_output_item.detail.deep_view(),
        }),
        command_output_state.deep_view() == (CommandOutputStateModel {
            items: command_output_state.items.deep_view(),
        }),
        case_result.deep_view() == (CaseResultModel {
            status: case_result.status,
            heading: case_result.heading@,
            actual: case_result.actual.deep_view(),
            stderr: case_result.stderr.deep_view(),
        }),
        sample_test_summary.deep_view() == (SampleTestSummaryModel {
            build_item: sample_test_summary.build_item.deep_view(),
            build_succeeded: sample_test_summary.build_succeeded,
            total_cases: sample_test_summary.total_cases,
            passed_cases: sample_test_summary.passed_cases,
            case_results: sample_test_summary.case_results.deep_view(),
        }),
{
}
/// What passed is marked in the colour of success, what failed in that of errors, what warns in that
/// of warnings, and what is not done in that of borders.
pub proof fn dots_tell_status(status: CommandOutputItemStatus, color: DotColor)
    requires
        call_ensures(status_dot_color, (status,), color),
    ensures
        color == DotColor::Success <==> status == CommandOutputItemStatus::Passed,
        color == DotColor::Error <==> status == CommandOutputItemStatus::Failed,
        color == DotColor::Warning <==> status == CommandOutputItemStatus::Warning,
        color == DotColor::BorderVariant <==> status == CommandOutputItemStatus::Pending,
{
}

/// A command that runs is shown by one step that is not done.
pub proof fn running_command_is_not_done(label: &str, shown: CommandOutputState)
    requires
        call_ensures(CommandOutputState::running, (label,), shown),
    ensures
        shown.items@.len() == 1,
        shown.items@[0].label@ == label@,
        shown.items@[0].status == CommandOutputItemStatus::Pending,
{
    assert(shown.deep_view().items.len() == shown.items@.len());
    assert(shown.deep_view().items[0] == shown.items@[0].deep_view());
}
} // verus!
