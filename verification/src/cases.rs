//! The test cases that a user can edit, and what is shown of their runs.

use vstd::prelude::*;

use crate::copying::Duplicate;
use crate::output::{
    status_dot_color, CaseResult, CaseResultModel, CommandOutputDetailSection,
    CommandOutputDetailSectionModel, CommandOutputItem, CommandOutputItemModel,
    CommandOutputItemStatus, CommandOutputState, CommandOutputStateModel, DotColor, OutputDiff,
    OutputDiffModel, OutputSelection,
};
use crate::seqs;
use crate::statement::{Sample, SampleModel};
use crate::text;

verus! {

/// A test case that the user can edit.
pub struct TestCase {
    pub input: String,
    pub expected: String,
    /// What the problem provides, for a case that is not the user's own.
    pub default: Option<Sample>,
    /// What became of the last run.
    pub result: Option<CaseResult>,
}

/// What a `TestCase` holds.
#[verifier::ext_equal]
pub struct TestCaseModel {
    pub input: Seq<char>,
    pub expected: Seq<char>,
    pub default: Option<SampleModel>,
    pub result: Option<CaseResultModel>,
}

impl DeepView for TestCase {
    type V = TestCaseModel;

    open spec fn deep_view(&self) -> TestCaseModel {
        TestCaseModel {
            input: self.input@,
            expected: self.expected@,
            default: self.default.deep_view(),
            result: self.result.deep_view(),
        }
    }
}

/// The test cases, the steps of the last command, and what of both is selected.
pub struct OutputBoard {
    pub test_cases: Vec<TestCase>,
    pub command_output: CommandOutputState,
    pub output_selection: OutputSelection,
}

/// What a `OutputBoard` holds.
#[verifier::ext_equal]
pub struct OutputBoardModel {
    pub test_cases: Seq<TestCaseModel>,
    pub command_output: CommandOutputStateModel,
    pub output_selection: OutputSelection,
}

impl DeepView for OutputBoard {
    type V = OutputBoardModel;

    open spec fn deep_view(&self) -> OutputBoardModel {
        OutputBoardModel {
            test_cases: self.test_cases.deep_view(),
            command_output: self.command_output.deep_view(),
            output_selection: self.output_selection,
        }
    }
}

/// What a row of a comparison stands for: a line of both outputs, or of one of them.
#[derive(Clone, Copy, Debug, PartialEq, Eq, Structural)]
pub enum DiffKind {
    Same,
    Expected,
    Actual,
}

/// The colour of the heading of a result.
#[derive(Clone, Copy, Debug, PartialEq, Eq, Structural)]
pub enum HeadingColor {
    Success,
    Warning,
    Error,
}

/// A row of a comparison of outputs.
pub struct DiffRow {
    pub kind: DiffKind,
    pub text: String,
}

/// What a `DiffRow` holds.
#[verifier::ext_equal]
pub struct DiffRowModel {
    pub kind: DiffKind,
    pub text: Seq<char>,
}

impl DeepView for DiffRow {
    type V = DiffRowModel;

    open spec fn deep_view(&self) -> DiffRowModel {
        DiffRowModel {
            kind: self.kind,
            text: self.text@,
        }
    }
}

/// What is shown of a step or a case in the list of them.
pub struct Chip {
    pub label: String,
    pub color: DotColor,
    pub selected: bool,
}

/// What a `Chip` holds.
#[verifier::ext_equal]
pub struct ChipModel {
    pub label: Seq<char>,
    pub color: DotColor,
    pub selected: bool,
}

impl DeepView for Chip {
    type V = ChipModel;

    open spec fn deep_view(&self) -> ChipModel {
        ChipModel {
            label: self.label@,
            color: self.color,
            selected: self.selected,
        }
    }
}

/// A button for an action of the user.
pub struct ActionButton {
    pub label: String,
    pub disabled: bool,
}

/// What an `ActionButton` holds.
#[verifier::ext_equal]
pub struct ActionButtonModel {
    pub label: Seq<char>,
    pub disabled: bool,
}

impl DeepView for ActionButton {
    type V = ActionButtonModel;

    open spec fn deep_view(&self) -> ActionButtonModel {
        ActionButtonModel {
            label: self.label@,
            disabled: self.disabled,
        }
    }
}

/// The button with a label.
pub fn action_button(label: &str, disabled: bool) -> (r: ActionButton)
    ensures
        r.deep_view() == (ActionButtonModel { label: label@, disabled }),
{
    ActionButton { label: label.to_owned(), disabled }
}

/// What is shown of the steps and the cases: the list of them, the actions of the user, and what is
/// selected.
pub struct CommandPanel {
    pub chips: Vec<Chip>,
    pub actions: Vec<ActionButton>,
    pub detail: SelectedDetail,
}

/// What a `CommandPanel` holds.
#[verifier::ext_equal]
pub struct CommandPanelModel {
    pub chips: Seq<ChipModel>,
    pub actions: Seq<ActionButtonModel>,
    pub detail: SelectedDetailModel,
}

impl DeepView for CommandPanel {
    type V = CommandPanelModel;

    open spec fn deep_view(&self) -> CommandPanelModel {
        CommandPanelModel {
            chips: self.chips.deep_view(),
            actions: self.actions.deep_view(),
            detail: self.detail.deep_view(),
        }
    }
}

/// What is shown of the selected step.
pub struct StepDetail {
    pub heading: Option<String>,
    pub diff: Option<Vec<DiffRow>>,
    pub sections: Vec<CommandOutputDetailSection>,
}

/// What a `StepDetail` holds.
#[verifier::ext_equal]
pub struct StepDetailModel {
    pub heading: Option<Seq<char>>,
    pub diff: Option<Seq<DiffRowModel>>,
    pub sections: Seq<CommandOutputDetailSectionModel>,
}

impl DeepView for StepDetail {
    type V = StepDetailModel;

    open spec fn deep_view(&self) -> StepDetailModel {
        StepDetailModel {
            heading: self.heading.deep_view(),
            diff: self.diff.deep_view(),
            sections: self.sections.deep_view(),
        }
    }
}

/// The heading of a result.
pub struct CaseHeading {
    pub text: String,
    pub color: HeadingColor,
}

/// What a `CaseHeading` holds.
#[verifier::ext_equal]
pub struct CaseHeadingModel {
    pub text: Seq<char>,
    pub color: HeadingColor,
}

impl DeepView for CaseHeading {
    type V = CaseHeadingModel;

    open spec fn deep_view(&self) -> CaseHeadingModel {
        CaseHeadingModel {
            text: self.text@,
            color: self.color,
        }
    }
}

/// What is shown of the selected case.
pub struct CaseDetail {
    pub input: String,
    pub expected: String,
    /// Whether the problem provides the case.
    pub is_default: bool,
    /// Whether the case differs from what the problem provides.
    pub can_restore: bool,
    pub heading: Option<CaseHeading>,
    pub diff: Option<Vec<DiffRow>>,
    pub stderr: Option<CommandOutputDetailSection>,
}

/// What a `CaseDetail` holds.
#[verifier::ext_equal]
pub struct CaseDetailModel {
    pub input: Seq<char>,
    pub expected: Seq<char>,
    pub is_default: bool,
    pub can_restore: bool,
    pub heading: Option<CaseHeadingModel>,
    pub diff: Option<Seq<DiffRowModel>>,
    pub stderr: Option<CommandOutputDetailSectionModel>,
}

impl DeepView for CaseDetail {
    type V = CaseDetailModel;

    open spec fn deep_view(&self) -> CaseDetailModel {
        CaseDetailModel {
            input: self.input@,
            expected: self.expected@,
            is_default: self.is_default,
            can_restore: self.can_restore,
            heading: self.heading.deep_view(),
            diff: self.diff.deep_view(),
            stderr: self.stderr.deep_view(),
        }
    }
}

/// What is shown of what is selected.
pub enum SelectedDetail {
    Nothing,
    Step(StepDetail),
    Case(CaseDetail),
}

/// What a `SelectedDetail` holds.
#[verifier::ext_equal]
pub enum SelectedDetailModel {
    Nothing,
    Step(StepDetailModel),
    Case(CaseDetailModel),
}

impl DeepView for SelectedDetail {
    type V = SelectedDetailModel;

    open spec fn deep_view(&self) -> SelectedDetailModel {
        match self {
            SelectedDetail::Nothing => SelectedDetailModel::Nothing,
            SelectedDetail::Step(value) => SelectedDetailModel::Step(value.deep_view()),
            SelectedDetail::Case(value) => SelectedDetailModel::Case(value.deep_view()),
        }
    }
}

/// The lines of an output; none, if it is empty.
pub open spec fn output_lines(text: Seq<char>) -> Seq<Seq<char>> {
    if text.len() == 0 {
        seq![]
    } else {
        seqs::split_char(text, '\n')
    }
}

/// The rows for the lines at a place: one, if they are the same, or else one for each that is there.
pub open spec fn rows_at(expected: Seq<Seq<char>>, actual: Seq<Seq<char>>, i: int) -> Seq<
    DiffRowModel,
> {
    if i < expected.len() && i < actual.len() && expected[i] == actual[i] {
        seq![DiffRowModel { kind: DiffKind::Same, text: expected[i] }]
    } else {
        (if i < expected.len() {
            seq![DiffRowModel { kind: DiffKind::Expected, text: expected[i] }]
        } else {
            seq![]
        }) + (if i < actual.len() {
            seq![DiffRowModel { kind: DiffKind::Actual, text: actual[i] }]
        } else {
            seq![]
        })
    }
}

/// The rows for the first `n` places.
pub open spec fn rows_before(expected: Seq<Seq<char>>, actual: Seq<Seq<char>>, n: nat) -> Seq<
    DiffRowModel,
>
    decreases n,
{
    if n == 0 {
        seq![]
    } else {
        rows_before(expected, actual, (n - 1) as nat) + rows_at(expected, actual, n - 1)
    }
}

/// The rows of a comparison of outputs, line by line.
pub open spec fn diff_rows(diff: OutputDiffModel) -> Seq<DiffRowModel> {
    let expected = output_lines(diff.expected);
    let actual = output_lines(diff.actual);
    rows_before(
        expected,
        actual,
        if expected.len() >= actual.len() {
            expected.len()
        } else {
            actual.len()
        },
    )
}

fn lines_of(content: &str) -> (r: Vec<Vec<char>>)
    ensures
        seqs::views(r@) == output_lines(content@),
{
    let chars = text::chars_of(content);
    if chars.len() == 0 {
        let none: Vec<Vec<char>> = Vec::new();
        assert(seqs::views(none@) =~= output_lines(content@));
        none
    } else {
        text::split_char(&chars, '\n')
    }
}

/// The rows of a comparison of outputs, line by line.
pub fn render_output_diff(diff: &OutputDiff) -> (r: Vec<DiffRow>)
    ensures
        r.deep_view() == diff_rows(diff.deep_view()),
{
    let expected_lines = lines_of(diff.expected.as_str());
    let actual_lines = lines_of(diff.actual.as_str());
    let ghost expected = output_lines(diff.expected@);
    let ghost actual = output_lines(diff.actual@);
    let line_count: usize = if expected_lines.len() >= actual_lines.len() {
        expected_lines.len()
    } else {
        actual_lines.len()
    };
    let mut rows: Vec<DiffRow> = Vec::new();
    let mut i: usize = 0;
    assert(rows.deep_view() =~= rows_before(expected, actual, 0));
    while i < line_count
        invariant
            expected == seqs::views(expected_lines@),
            actual == seqs::views(actual_lines@),
            i <= line_count,
            rows.deep_view() == rows_before(expected, actual, i as nat),
        decreases line_count - i,
    {
        let ghost before = rows.deep_view();
        let has_expected = i < expected_lines.len();
        let has_actual = i < actual_lines.len();
        if has_expected && has_actual && text::eq(
            expected_lines[i].as_slice(),
            actual_lines[i].as_slice(),
        ) {
            rows.push(
                DiffRow {
                    kind: DiffKind::Same,
                    text: text::string_of(expected_lines[i].as_slice()),
                },
            );
        } else {
            if has_expected {
                rows.push(
                    DiffRow {
                        kind: DiffKind::Expected,
                        text: text::string_of(expected_lines[i].as_slice()),
                    },
                );
            }
            if has_actual {
                rows.push(
                    DiffRow {
                        kind: DiffKind::Actual,
                        text: text::string_of(actual_lines[i].as_slice()),
                    },
                );
            }
        }
        assert(rows.deep_view() =~= before + rows_at(expected, actual, i as int));
        i += 1;
    }
    rows
}

impl DiffRow {
    /// The row with the sign for what it stands for.
    pub fn label(&self) -> (r: String)
        ensures
            r@ == (match self.kind {
                DiffKind::Same => "  "@,
                DiffKind::Expected => "- "@,
                DiffKind::Actual => "+ "@,
            }) + self.text@,
    {
        match self.kind {
            DiffKind::Same => "  ".to_owned().concat(self.text.as_str()),
            DiffKind::Expected => "- ".to_owned().concat(self.text.as_str()),
            DiffKind::Actual => "+ ".to_owned().concat(self.text.as_str()),
        }
    }
}

/// The lines of one side of a comparison.
pub open spec fn side(rows: Seq<DiffRowModel>, left_out: DiffKind) -> Seq<Seq<char>>
    decreases rows.len(),
{
    if rows.len() == 0 {
        seq![]
    } else if rows.last().kind == left_out {
        side(rows.drop_last(), left_out)
    } else {
        side(rows.drop_last(), left_out).push(rows.last().text)
    }
}

proof fn side_of_sum(first: Seq<DiffRowModel>, second: Seq<DiffRowModel>, left_out: DiffKind)
    ensures
        side(first + second, left_out) == side(first, left_out) + side(second, left_out),
    decreases second.len(),
{
    if second.len() == 0 {
        assert(first + second =~= first);
        assert(side(first, left_out) + side(second, left_out) =~= side(first, left_out));
    } else {
        assert((first + second).drop_last() =~= first + second.drop_last());
        assert((first + second).last() == second.last());
        side_of_sum(first, second.drop_last(), left_out);
        assert(side(first + second, left_out) =~= side(first, left_out) + side(second, left_out));
    }
}

proof fn sides_at(expected: Seq<Seq<char>>, actual: Seq<Seq<char>>, i: int)
    requires
        0 <= i,
    ensures
        side(rows_at(expected, actual, i), DiffKind::Actual) == if i < expected.len() {
            seq![expected[i]]
        } else {
            seq![]
        },
        side(rows_at(expected, actual, i), DiffKind::Expected) == if i < actual.len() {
            seq![actual[i]]
        } else {
            seq![]
        },
{
    reveal_with_fuel(side, 3);
    let rows = rows_at(expected, actual, i);
    if rows.len() == 1 {
        assert(rows.drop_last() =~= Seq::<DiffRowModel>::empty());
    } else if rows.len() == 2 {
        assert(rows.drop_last() =~= seq![rows[0]]);
        assert(rows.drop_last().drop_last() =~= Seq::<DiffRowModel>::empty());
    }
    assert(side(rows, DiffKind::Actual) =~= if i < expected.len() {
        seq![expected[i]]
    } else {
        seq![]
    });
    assert(side(rows, DiffKind::Expected) =~= if i < actual.len() {
        seq![actual[i]]
    } else {
        seq![]
    });
}

proof fn sides_before(expected: Seq<Seq<char>>, actual: Seq<Seq<char>>, n: nat)
    ensures
        side(rows_before(expected, actual, n), DiffKind::Actual) == expected.take(
            if n <= expected.len() {
                n as int
            } else {
                expected.len() as int
            },
        ),
        side(rows_before(expected, actual, n), DiffKind::Expected) == actual.take(
            if n <= actual.len() {
                n as int
            } else {
                actual.len() as int
            },
        ),
    decreases n,
{
    let rows = rows_before(expected, actual, n);
    if n == 0 {
        assert(expected.take(0) =~= Seq::<Seq<char>>::empty());
        assert(actual.take(0) =~= Seq::<Seq<char>>::empty());
    } else {
        let m = (n - 1) as nat;
        sides_before(expected, actual, m);
        sides_at(expected, actual, m as int);
        side_of_sum(
            rows_before(expected, actual, m),
            rows_at(expected, actual, m as int),
            DiffKind::Actual,
        );
        side_of_sum(
            rows_before(expected, actual, m),
            rows_at(expected, actual, m as int),
            DiffKind::Expected,
        );
        assert(side(rows, DiffKind::Actual) =~= expected.take(
            if n <= expected.len() {
                n as int
            } else {
                expected.len() as int
            },
        ));
        assert(side(rows, DiffKind::Expected) =~= actual.take(
            if n <= actual.len() {
                n as int
            } else {
                actual.len() as int
            },
        ));
    }
}

/// A comparison loses nothing: without the rows of the actual output it is the expected output,
/// line by line, and without those of the expected output it is the actual one.
pub proof fn diff_shows_both_outputs(diff: OutputDiffModel)
    ensures
        side(diff_rows(diff), DiffKind::Actual) == output_lines(diff.expected),
        side(diff_rows(diff), DiffKind::Expected) == output_lines(diff.actual),
{
    let expected = output_lines(diff.expected);
    let actual = output_lines(diff.actual);
    let n = if expected.len() >= actual.len() {
        expected.len()
    } else {
        actual.len()
    };
    sides_before(expected, actual, n);
    assert(expected.take(expected.len() as int) =~= expected);
    assert(actual.take(actual.len() as int) =~= actual);
}

impl TestCaseModel {
    /// The case that a problem provides.
    pub open spec fn provided(sample: SampleModel) -> Self {
        TestCaseModel {
            input: sample.input,
            expected: sample.output,
            default: Some(sample),
            result: None,
        }
    }

    /// The case before any run.
    pub open spec fn not_run(self) -> Self {
        TestCaseModel { result: None, ..self }
    }

    /// Whether the last run failed.
    pub open spec fn has_failed(self) -> bool {
        self.result matches Some(result) && result.status == CommandOutputItemStatus::Failed
    }

    /// Whether the case differs from what the problem provides.
    pub open spec fn can_restore(self) -> bool {
        self.default matches Some(sample) && (sample.input != self.input || sample.output
            != self.expected)
    }

    /// The case as the problem provides it.
    pub open spec fn restored(self) -> Self {
        match self.default {
            Some(sample) => TestCaseModel {
                input: sample.input,
                expected: sample.output,
                ..self
            },
            None => self,
        }
    }

    /// The comparison of the expected output with that of a run that failed.
    pub open spec fn failed_diff(self) -> Option<OutputDiffModel> {
        match self.result {
            Some(result) => match result.actual {
                Some(actual) => if result.status == CommandOutputItemStatus::Failed {
                    Some(
                        OutputDiffModel {
                            expected: seqs::trim_end(self.expected),
                            actual: seqs::trim_end(actual),
                        },
                    )
                } else {
                    None
                },
                None => None,
            },
            None => None,
        }
    }

    /// What is shown of the case.
    pub open spec fn detail(self) -> CaseDetailModel {
        CaseDetailModel {
            input: self.input,
            expected: self.expected,
            is_default: self.default is Some,
            can_restore: self.can_restore(),
            heading: match self.result {
                Some(result) => Some(
                    CaseHeadingModel {
                        text: result.heading,
                        color: match result.status {
                            CommandOutputItemStatus::Passed => HeadingColor::Success,
                            CommandOutputItemStatus::Warning => HeadingColor::Warning,
                            _ => HeadingColor::Error,
                        },
                    },
                ),
                None => None,
            },
            diff: match self.failed_diff() {
                Some(diff) => Some(diff_rows(diff)),
                None => None,
            },
            stderr: match self.result {
                Some(result) => match result.stderr {
                    Some(stderr) => Some(
                        CommandOutputDetailSectionModel {
                            title: "Stderr"@,
                            body: seqs::trim_end(stderr),
                        },
                    ),
                    None => None,
                },
                None => None,
            },
        }
    }
}

/// The cases that a problem provides.
pub open spec fn provided_cases(samples: Seq<SampleModel>) -> Seq<TestCaseModel> {
    Seq::new(samples.len(), |i: int| TestCaseModel::provided(samples[i]))
}

/// The cases before any run.
pub open spec fn without_results(cases: Seq<TestCaseModel>) -> Seq<TestCaseModel> {
    Seq::new(cases.len(), |i: int| cases[i].not_run())
}

/// The cases with numbered results; results of cases that are no longer there do not count.
pub open spec fn with_results(
    cases: Seq<TestCaseModel>,
    results: Seq<(usize, CaseResultModel)>,
) -> Seq<TestCaseModel>
    decreases results.len(),
{
    if results.len() == 0 {
        cases
    } else {
        let before = with_results(cases, results.drop_last());
        let (index, result) = results.last();
        if index < before.len() {
            before.update(
                index as int,
                TestCaseModel { result: Some(result), ..before[index as int] },
            )
        } else {
            before
        }
    }
}

/// Inputs and expected outputs of cases.
pub open spec fn case_texts(cases: Seq<TestCaseModel>) -> Seq<(Seq<char>, Seq<char>)> {
    Seq::new(cases.len(), |i: int| (cases[i].input, cases[i].expected))
}

/// The place of the first case from `i` on that failed.
pub open spec fn failed_case_from(cases: Seq<TestCaseModel>, i: int) -> Option<int>
    decreases cases.len() - i,
{
    if i < 0 || i >= cases.len() {
        None
    } else if cases[i].has_failed() {
        Some(i)
    } else {
        failed_case_from(cases, i + 1)
    }
}

/// The place of the first step from `i` on that failed.
pub open spec fn failed_step_from(items: Seq<CommandOutputItemModel>, i: int) -> Option<int>
    decreases items.len() - i,
{
    if i < 0 || i >= items.len() {
        None
    } else if items[i].status == CommandOutputItemStatus::Failed {
        Some(i)
    } else {
        failed_step_from(items, i + 1)
    }
}

/// The place of the first step from `i` on with the given label.
pub open spec fn step_from(items: Seq<CommandOutputItemModel>, label: Seq<char>, i: int) -> Option<
    int,
>
    decreases items.len() - i,
{
    if i < 0 || i >= items.len() {
        None
    } else if items[i].label == label {
        Some(i)
    } else {
        step_from(items, label, i + 1)
    }
}

impl OutputBoardModel {
    /// What is selected after a run: the first case that failed, or the first step that failed, or
    /// the first case or step that there is.
    pub open spec fn selection_after_run(self) -> OutputSelection {
        match failed_case_from(self.test_cases, 0) {
            Some(i) => OutputSelection::Case(i as usize),
            None => match failed_step_from(self.command_output.items, 0) {
                Some(i) => OutputSelection::Step(i as usize),
                None => if self.test_cases.len() > 0 {
                    OutputSelection::Case(0)
                } else if self.command_output.items.len() > 0 {
                    OutputSelection::Step(0)
                } else {
                    self.output_selection
                },
            },
        }
    }

    /// The board after a run.
    pub open spec fn focused_after_run(self) -> Self {
        OutputBoardModel { output_selection: self.selection_after_run(), ..self }
    }

    /// The board with a step that replaces the one with the same label, or is added, and is
    /// selected.
    pub open spec fn with_step(self, label: Seq<char>, item: CommandOutputItemModel) -> Self {
        let items = self.command_output.items;
        match step_from(items, label, 0) {
            Some(i) => OutputBoardModel {
                command_output: CommandOutputStateModel { items: items.update(i, item) },
                output_selection: OutputSelection::Step(i as usize),
                ..self
            },
            None => OutputBoardModel {
                command_output: CommandOutputStateModel { items: items.push(item) },
                output_selection: OutputSelection::Step(items.len() as usize),
                ..self
            },
        }
    }

    /// The board with an empty case added, which is selected.
    pub open spec fn with_new_case(self) -> Self {
        OutputBoardModel {
            test_cases: self.test_cases.push(
                TestCaseModel { input: seq![], expected: seq![], default: None, result: None },
            ),
            output_selection: OutputSelection::Case(self.test_cases.len() as usize),
            ..self
        }
    }

    /// The board without a case; the one that takes its place is selected, or the last one.
    pub open spec fn without_case(self, index: usize) -> Self {
        if index >= self.test_cases.len() {
            self
        } else {
            let left = self.test_cases.remove(index as int);
            OutputBoardModel {
                test_cases: left,
                output_selection: if left.len() == 0 {
                    OutputSelection::Step(0)
                } else if index < left.len() {
                    OutputSelection::Case(index)
                } else {
                    OutputSelection::Case((left.len() - 1) as usize)
                },
                ..self
            }
        }
    }

    /// The board with a case as the problem provides it.
    pub open spec fn with_case_restored(self, index: usize) -> Self {
        if index >= self.test_cases.len() {
            self
        } else {
            OutputBoardModel {
                test_cases: self.test_cases.update(
                    index as int,
                    self.test_cases[index as int].restored(),
                ),
                ..self
            }
        }
    }

    /// The board for a command of one step.
    pub open spec fn with_command(
        self,
        label: Seq<char>,
        status: CommandOutputItemStatus,
        detail: Seq<char>,
    ) -> Self {
        OutputBoardModel {
            command_output: CommandOutputStateModel {
                items: seq![crate::output::single_item(label, status, detail)],
            },
            ..self
        }
    }

    /// Whether the case that is selected is there.
    pub open spec fn is_valid(self) -> bool {
        self.output_selection matches OutputSelection::Case(i) ==> i < self.test_cases.len()
    }

    /// What is shown of what is selected.
    pub open spec fn selected_detail(self) -> SelectedDetailModel {
        match self.output_selection {
            OutputSelection::Step(i) => if i < self.command_output.items.len() {
                match self.command_output.items[i as int].detail {
                    Some(detail) => SelectedDetailModel::Step(
                        StepDetailModel {
                            heading: if detail.heading.len() == 0 {
                                None
                            } else {
                                Some(detail.heading)
                            },
                            diff: match detail.diff {
                                Some(diff) => Some(diff_rows(diff)),
                                None => None,
                            },
                            sections: detail.sections,
                        },
                    ),
                    None => SelectedDetailModel::Nothing,
                }
            } else {
                SelectedDetailModel::Nothing
            },
            OutputSelection::Case(i) => if i < self.test_cases.len() {
                SelectedDetailModel::Case(self.test_cases[i as int].detail())
            } else {
                SelectedDetailModel::Nothing
            },
        }
    }

    /// What is shown of the step at a place in the list.
    pub open spec fn step_chip(self, i: int) -> ChipModel {
        let item = self.command_output.items[i];
        ChipModel {
            label: item.label,
            color: dot_color(item.status),
            selected: self.output_selection == OutputSelection::Step(i as usize),
        }
    }

    /// What is shown of the case at a place in the list.
    pub open spec fn case_chip(self, i: int) -> ChipModel {
        ChipModel {
            label: "Input "@ + seqs::decimal((i + 1) as nat),
            color: dot_color(
                match self.test_cases[i].result {
                    Some(result) => result.status,
                    None => CommandOutputItemStatus::Pending,
                },
            ),
            selected: self.output_selection == OutputSelection::Case(i as usize),
        }
    }

    /// The list of the steps and the cases.
    pub open spec fn chips(self) -> Seq<ChipModel> {
        Seq::new(self.command_output.items.len(), |i: int| self.step_chip(i)) + Seq::new(
            self.test_cases.len(),
            |i: int| self.case_chip(i),
        )
    }
}

/// The colour of the dot that stands for a status.
pub open spec fn dot_color(status: CommandOutputItemStatus) -> DotColor {
    match status {
        CommandOutputItemStatus::Pending => DotColor::BorderVariant,
        CommandOutputItemStatus::Passed => DotColor::Success,
        CommandOutputItemStatus::Warning => DotColor::Warning,
        CommandOutputItemStatus::Failed => DotColor::Error,
    }
}

impl TestCase {
    /// What is shown of the case.
    pub fn render_case_detail(&self) -> (r: CaseDetail)
        ensures
            r.deep_view() == self.deep_view().detail(),
    {
        let can_restore = match &self.default {
            Some(sample) => !text::same(sample.input.as_str(), self.input.as_str()) || !text::same(
                sample.output.as_str(),
                self.expected.as_str(),
            ),
            None => false,
        };
        let mut heading: Option<CaseHeading> = None;
        let mut diff: Option<Vec<DiffRow>> = None;
        let mut stderr: Option<CommandOutputDetailSection> = None;
        if let Some(result) = &self.result {
            let color = match result.status {
                CommandOutputItemStatus::Passed => HeadingColor::Success,
                CommandOutputItemStatus::Warning => HeadingColor::Warning,
                _ => HeadingColor::Error,
            };
            heading = Some(CaseHeading { text: result.heading.clone(), color });
            if result.status == CommandOutputItemStatus::Failed {
                if let Some(actual) = &result.actual {
                    let expected_chars = text::chars_of(self.expected.as_str());
                    let actual_chars = text::chars_of(actual.as_str());
                    let outputs = OutputDiff {
                        expected: text::string_of(text::trim_end(&expected_chars)),
                        actual: text::string_of(text::trim_end(&actual_chars)),
                    };
                    diff = Some(render_output_diff(&outputs));
                }
            }
            if let Some(content) = &result.stderr {
                let chars = text::chars_of(content.as_str());
                stderr =
                Some(
                    CommandOutputDetailSection {
                        title: "Stderr".to_owned(),
                        body: text::string_of(text::trim_end(&chars)),
                    },
                );
            }
        }
        CaseDetail {
            input: self.input.clone(),
            expected: self.expected.clone(),
            is_default: self.default.is_some(),
            can_restore,
            heading,
            diff,
            stderr,
        }
    }
}

/// The cases that a problem provides.
pub fn cases_for_samples(samples: &Vec<Sample>) -> (r: Vec<TestCase>)
    ensures
        r.deep_view() == provided_cases(samples.deep_view()),
{
    let ghost all = provided_cases(samples.deep_view());
    let mut out: Vec<TestCase> = Vec::new();
    let mut i: usize = 0;
    while i < samples.len()
        invariant
            i <= samples@.len(),
            all == provided_cases(samples.deep_view()),
            out.deep_view() == all.take(i as int),
        decreases samples@.len() - i,
    {
        let ghost before = out.deep_view();
        out.push(
            TestCase {
                input: samples[i].input.clone(),
                expected: samples[i].output.clone(),
                default: Some(samples[i].duplicate()),
                result: None,
            },
        );
        assert(out.deep_view() =~= before.push(all[i as int]));
        i += 1;
    }
    assert(out.deep_view() =~= all);
    out
}

impl OutputBoard {
    /// Inputs and expected outputs of the cases.
    pub fn test_case_texts(&self) -> (r: Vec<(String, String)>)
        ensures
            r.deep_view() == case_texts(self.deep_view().test_cases),
    {
        let ghost all = case_texts(self.deep_view().test_cases);
        let mut out: Vec<(String, String)> = Vec::new();
        let mut i: usize = 0;
        while i < self.test_cases.len()
            invariant
                i <= self.test_cases@.len(),
                all == case_texts(self.deep_view().test_cases),
                out.deep_view() == all.take(i as int),
            decreases self.test_cases@.len() - i,
        {
            let ghost before = out.deep_view();
            out.push((self.test_cases[i].input.clone(), self.test_cases[i].expected.clone()));
            assert(out.deep_view() =~= before.push(all[i as int]));
            i += 1;
        }
        assert(out.deep_view() =~= all);
        out
    }

    /// Forgets the results of earlier runs.
    pub fn clear_results(&mut self)
        ensures
            final(self).deep_view() == (OutputBoardModel {
                test_cases: without_results(old(self).deep_view().test_cases),
                ..old(self).deep_view()
            }),
    {
        let ghost cleared = without_results(self.deep_view().test_cases);
        let ghost before = self.deep_view();
        let mut i: usize = 0;
        while i < self.test_cases.len()
            invariant
                i <= self.test_cases@.len() == before.test_cases.len(),
                cleared == without_results(before.test_cases),
                self.command_output.deep_view() == before.command_output,
                self.output_selection == before.output_selection,
                forall|k: int|
                    0 <= k < i ==> (#[trigger] self.test_cases@[k]).deep_view() == cleared[k],
                forall|k: int|
                    i <= k < self.test_cases@.len() ==> (
                    #[trigger] self.test_cases@[k]).deep_view() == before.test_cases[k],
            decreases self.test_cases@.len() - i,
        {
            self.test_cases[i].result = None;
            i += 1;
        }
        assert(self.deep_view().test_cases =~= cleared);
    }

    /// Notes numbered results.
    pub fn set_results(&mut self, results: &Vec<(usize, CaseResult)>)
        ensures
            final(self).deep_view() == (OutputBoardModel {
                test_cases: with_results(
                    old(self).deep_view().test_cases,
                    results.deep_view(),
                ),
                ..old(self).deep_view()
            }),
    {
        let ghost before = self.deep_view();
        let ghost all = results.deep_view();
        let mut i: usize = 0;
        assert(all.take(0) =~= Seq::<(usize, CaseResultModel)>::empty());
        while i < results.len()
            invariant
                i <= results@.len(),
                all == results.deep_view(),
                self.command_output.deep_view() == before.command_output,
                self.output_selection == before.output_selection,
                self.deep_view().test_cases == with_results(
                    before.test_cases,
                    all.take(i as int),
                ),
            decreases results@.len() - i,
        {
            let ghost now = self.deep_view().test_cases;
            assert(all.take(i + 1).drop_last() =~= all.take(i as int));
            assert(all.take(i + 1).last() == results@[i as int].deep_view());
            let index: usize = results[i].0;
            if index < self.test_cases.len() {
                self.test_cases[index].result = Some(results[i].1.duplicate());
                assert(self.deep_view().test_cases =~= now.update(
                    index as int,
                    TestCaseModel {
                        result: Some(results@[i as int].1.deep_view()),
                        ..now[index as int]
                    },
                ));
            }
            i += 1;
        }
        assert(all.take(i as int) =~= all);
    }

    fn first_failed_case(&self) -> (r: Option<usize>)
        ensures
            match r {
                Some(i) => failed_case_from(self.deep_view().test_cases, 0) == Some(i as int)
                    && i < self.test_cases@.len(),
                None => failed_case_from(self.deep_view().test_cases, 0) is None,
            },
    {
        let ghost all = self.deep_view().test_cases;
        let mut i: usize = 0;
        while i < self.test_cases.len()
            invariant
                i <= self.test_cases@.len(),
                all == self.deep_view().test_cases,
                failed_case_from(all, 0) == failed_case_from(all, i as int),
            decreases self.test_cases@.len() - i,
        {
            assert(all[i as int] == self.test_cases@[i as int].deep_view());
            if let Some(result) = &self.test_cases[i].result {
                if result.status == CommandOutputItemStatus::Failed {
                    return Some(i);
                }
            }
            i += 1;
        }
        None
    }

    fn first_failed_step(&self) -> (r: Option<usize>)
        ensures
            match r {
                Some(i) => failed_step_from(self.deep_view().command_output.items, 0) == Some(
                    i as int,
                ),
                None => failed_step_from(self.deep_view().command_output.items, 0) is None,
            },
    {
        let ghost all = self.deep_view().command_output.items;
        let mut i: usize = 0;
        while i < self.command_output.items.len()
            invariant
                i <= self.command_output.items@.len(),
                all == self.deep_view().command_output.items,
                failed_step_from(all, 0) == failed_step_from(all, i as int),
            decreases self.command_output.items@.len() - i,
        {
            assert(all[i as int] == self.command_output.items@[i as int].deep_view());
            if self.command_output.items[i].status == CommandOutputItemStatus::Failed {
                return Some(i);
            }
            i += 1;
        }
        None
    }

    /// Selects the first case that failed after a run, or else the first step that failed (as when
    /// the solution does not compile), or else the first thing that there is.
    pub fn focus_after_run(&mut self)
        ensures
            final(self).deep_view() == old(self).deep_view().focused_after_run(),
    {
        if let Some(i) = self.first_failed_case() {
            self.output_selection = OutputSelection::Case(i);
        } else if let Some(i) = self.first_failed_step() {
            self.output_selection = OutputSelection::Step(i);
        } else if self.test_cases.len() > 0 {
            self.output_selection = OutputSelection::Case(0);
        } else if self.command_output.items.len() > 0 {
            self.output_selection = OutputSelection::Step(0);
        }
    }

    /// Puts a step in the place of the one with the same label, or at the end, and selects it.
    pub fn upsert_step(&mut self, label: &str, item: CommandOutputItem)
        ensures
            final(self).deep_view() == old(self).deep_view().with_step(label@, item.deep_view()),
    {
        let ghost before = self.deep_view();
        let ghost all = before.command_output.items;
        let mut i: usize = 0;
        while i < self.command_output.items.len()
            invariant
                i <= self.command_output.items@.len(),
                self.deep_view() == before,
                before == old(self).deep_view(),
                all == before.command_output.items,
                step_from(all, label@, 0) == step_from(all, label@, i as int),
            decreases self.command_output.items@.len() - i,
        {
            assert(all[i as int] == self.command_output.items@[i as int].deep_view());
            if text::same(self.command_output.items[i].label.as_str(), label) {
                self.command_output.items.set(i, item);
                self.output_selection = OutputSelection::Step(i);
                assert(self.deep_view().command_output.items =~= all.update(
                    i as int,
                    item.deep_view(),
                ));
                return;
            }
            i += 1;
        }
        self.command_output.items.push(item);
        self.output_selection = OutputSelection::Step(i);
        assert(self.deep_view().command_output.items =~= all.push(item.deep_view()));
    }

    /// Adds an empty case and selects it.
    pub fn add_test_case(&mut self)
        ensures
            final(self).deep_view() == old(self).deep_view().with_new_case(),
    {
        let ghost before = self.deep_view();
        let index: usize = self.test_cases.len();
        let case = TestCase {
            input: String::new(),
            expected: String::new(),
            default: None,
            result: None,
        };
        assert(case.input@ =~= seq![] && case.expected@ =~= seq![]);
        self.test_cases.push(case);
        self.output_selection = OutputSelection::Case(index);
        assert(self.deep_view().test_cases =~= before.with_new_case().test_cases);
    }

    /// Removes a case, if it is there.
    pub fn delete_test_case(&mut self, index: usize)
        ensures
            final(self).deep_view() == old(self).deep_view().without_case(index),
    {
        let ghost before = self.deep_view();
        if index >= self.test_cases.len() {
            return;
        }
        let _ = self.test_cases.remove(index);
        assert(self.deep_view().test_cases =~= before.test_cases.remove(index as int));
        let left: usize = self.test_cases.len();
        self.output_selection = if left == 0 {
            OutputSelection::Step(0)
        } else if index < left {
            OutputSelection::Case(index)
        } else {
            OutputSelection::Case(left - 1)
        };
    }

    /// Gives a case back what the problem provides.
    pub fn restore_test_case(&mut self, index: usize)
        ensures
            final(self).deep_view() == old(self).deep_view().with_case_restored(index),
    {
        let ghost before = self.deep_view();
        if index >= self.test_cases.len() {
            return;
        }
        let (input, expected) = match &self.test_cases[index].default {
            Some(sample) => (sample.input.clone(), sample.output.clone()),
            None => {
                assert(before.test_cases.update(
                    index as int,
                    before.test_cases[index as int].restored(),
                ) =~= before.test_cases);
                return;
            },
        };
        self.test_cases[index].input = input;
        self.test_cases[index].expected = expected;
        assert(self.deep_view().test_cases =~= before.with_case_restored(index).test_cases);
    }

    /// Selects a step or a case.
    pub fn select(&mut self, selection: OutputSelection)
        ensures
            final(self).deep_view() == (OutputBoardModel {
                output_selection: selection,
                ..old(self).deep_view()
            }),
    {
        self.output_selection = selection;
    }

    /// What is shown of what is selected.
    pub fn render_output_detail(&self) -> (r: SelectedDetail)
        ensures
            r.deep_view() == self.deep_view().selected_detail(),
    {
        match self.output_selection {
            OutputSelection::Step(i) => {
                if i >= self.command_output.items.len() {
                    return SelectedDetail::Nothing;
                }
                match &self.command_output.items[i].detail {
                    None => SelectedDetail::Nothing,
                    Some(detail) => {
                        let heading_chars = text::chars_of(detail.heading.as_str());
                        let heading = if heading_chars.len() == 0 {
                            None
                        } else {
                            Some(detail.heading.clone())
                        };
                        let diff = match &detail.diff {
                            Some(diff) => Some(render_output_diff(diff)),
                            None => None,
                        };
                        SelectedDetail::Step(
                            StepDetail { heading, diff, sections: detail.sections.duplicate() },
                        )
                    },
                }
            },
            OutputSelection::Case(i) => {
                if i >= self.test_cases.len() {
                    return SelectedDetail::Nothing;
                }
                SelectedDetail::Case(self.test_cases[i].render_case_detail())
            },
        }
    }

    /// The list of the steps and the cases.
    pub fn render_chips(&self) -> (r: Vec<Chip>)
        ensures
            r.deep_view() == self.deep_view().chips(),
    {
        let ghost model = self.deep_view();
        let ghost steps = Seq::new(model.command_output.items.len(), |i: int| model.step_chip(i));
        let ghost cases = Seq::new(model.test_cases.len(), |i: int| model.case_chip(i));
        let mut out: Vec<Chip> = Vec::new();
        let mut i: usize = 0;
        while i < self.command_output.items.len()
            invariant
                i <= self.command_output.items@.len(),
                model == self.deep_view(),
                steps == Seq::new(model.command_output.items.len(), |k: int| model.step_chip(k)),
                out.deep_view() == steps.take(i as int),
            decreases self.command_output.items@.len() - i,
        {
            let ghost before = out.deep_view();
            let item = &self.command_output.items[i];
            out.push(
                Chip {
                    label: item.label.clone(),
                    color: status_dot_color(item.status),
                    selected: self.output_selection == OutputSelection::Step(i),
                },
            );
            assert(out.deep_view() =~= before.push(steps[i as int]));
            i += 1;
        }
        assert(out.deep_view() =~= steps);
        let mut k: usize = 0;
        let length: usize = self.test_cases.len();
        assert(out.deep_view() =~= steps + cases.take(0));
        while k < length
            invariant
                k <= length == self.test_cases@.len(),
                model == self.deep_view(),
                cases == Seq::new(model.test_cases.len(), |j: int| model.case_chip(j)),
                out.deep_view() == steps + cases.take(k as int),
            decreases length - k,
        {
            let ghost before = out.deep_view();
            let status = match &self.test_cases[k].result {
                Some(result) => result.status,
                None => CommandOutputItemStatus::Pending,
            };
            let number = text::decimal((k + 1) as u64);
            let number = text::string_of(&number);
            out.push(
                Chip {
                    label: "Input ".to_owned().concat(number.as_str()),
                    color: status_dot_color(status),
                    selected: self.output_selection == OutputSelection::Case(k),
                },
            );
            assert(out.deep_view() =~= before.push(cases[k as int]));
            assert(steps + cases.take(k + 1) =~= (steps + cases.take(k as int)).push(
                cases[k as int],
            ));
            k += 1;
        }
        assert(cases.take(k as int) =~= cases);
        out
    }
}

/// A case that was restored is what the problem provides, so that there is nothing left to
/// restore.
pub proof fn restored_case_is_default(case: TestCaseModel)
    ensures
        !case.restored().can_restore(),
        case.default matches Some(sample) ==> case.restored().input == sample.input
            && case.restored().expected == sample.output,
        case.restored().restored() == case.restored(),
{
}

proof fn failed_case_is_there(cases: Seq<TestCaseModel>, i: int)
    requires
        0 <= i,
    ensures
        failed_case_from(cases, i) matches Some(k) ==> i <= k < cases.len()
            && cases[k].has_failed() && forall|j: int|
            i <= j < k ==> !(#[trigger] cases[j]).has_failed(),
        failed_case_from(cases, i) is None ==> forall|k: int|
            i <= k < cases.len() ==> !(#[trigger] cases[k]).has_failed(),
    decreases cases.len() - i,
{
    if i < cases.len() && !cases[i].has_failed() {
        failed_case_is_there(cases, i + 1);
    }
}

proof fn step_is_there(items: Seq<CommandOutputItemModel>, label: Seq<char>, i: int)
    requires
        0 <= i,
    ensures
        step_from(items, label, i) matches Some(k) ==> i <= k < items.len() && items[k].label
            == label,
    decreases items.len() - i,
{
    if i < items.len() && items[i].label != label {
        step_is_there(items, label, i + 1);
    }
}

/// The case that is selected is always there, whatever is done to a board.
pub proof fn selected_case_exists(
    board: OutputBoardModel,
    index: usize,
    label: Seq<char>,
    item: CommandOutputItemModel,
)
    requires
        board.is_valid(),
        board.test_cases.len() < usize::MAX,
    ensures
        board.focused_after_run().is_valid(),
        board.with_step(label, item).is_valid(),
        board.with_new_case().is_valid(),
        board.without_case(index).is_valid(),
        board.with_case_restored(index).is_valid(),
{
    failed_case_is_there(board.test_cases, 0);
}

/// Where the case with the number `i` is once the one with the number `index` is removed.
pub open spec fn number_without(i: usize, index: usize) -> Option<usize> {
    if i == index {
        None
    } else if i > index {
        Some((i - 1) as usize)
    } else {
        Some(i)
    }
}

/// Where the case with the number `i` is once the one with the number `index` is removed.
pub fn case_number_without(i: usize, index: usize) -> (r: Option<usize>)
    ensures
        r == number_without(i, index),
{
    if i == index {
        None
    } else if i > index {
        Some(i - 1)
    } else {
        Some(i)
    }
}

/// Every case but the one that is removed stays as it is, under the number that it then has.
pub proof fn other_cases_stay(board: OutputBoardModel, index: usize, i: usize)
    requires
        index < board.test_cases.len(),
        i < board.test_cases.len(),
        i != index,
    ensures
        number_without(i, index) matches Some(k) && k < board.without_case(index).test_cases.len()
            && board.without_case(index).test_cases[k as int] == board.test_cases[i as int],
{
}

/// After a run in which a case failed, the first one that failed is selected.
pub proof fn first_failure_is_selected(board: OutputBoardModel, i: int)
    requires
        board.test_cases.len() <= usize::MAX,
        0 <= i < board.test_cases.len(),
        board.test_cases[i].has_failed(),
        forall|k: int| 0 <= k < i ==> !(#[trigger] board.test_cases[k]).has_failed(),
    ensures
        board.focused_after_run().output_selection == OutputSelection::Case(i as usize),
{
    failed_case_is_there(board.test_cases, 0);
}

/// A second step with the same label takes the place of the first, so that the list does not grow.
pub proof fn later_step_replaces_earlier(
    board: OutputBoardModel,
    label: Seq<char>,
    first: CommandOutputItemModel,
    second: CommandOutputItemModel,
)
    requires
        first.label == label,
        board.command_output.items.len() < usize::MAX,
    ensures
        board.with_step(label, first).with_step(label, second) == board.with_step(label, second),
{
    let items = board.command_output.items;
    step_is_there(items, label, 0);
    let once = board.with_step(label, first).command_output.items;
    let place = match step_from(items, label, 0) {
        Some(i) => i,
        None => items.len() as int,
    };
    same_steps_before(items, once, label, place, 0);
    assert(step_from(once, label, 0) == Some(place));
    assert(board.with_step(label, first).with_step(label, second).command_output.items
        =~= board.with_step(label, second).command_output.items);
}

proof fn same_steps_before(
    items: Seq<CommandOutputItemModel>,
    changed: Seq<CommandOutputItemModel>,
    label: Seq<char>,
    place: int,
    i: int,
)
    requires
        0 <= i <= place < changed.len(),
        place <= items.len(),
        changed[place].label == label,
        step_from(items, label, i) == (if place < items.len() {
            Some(place)
        } else {
            None
        }),
        forall|k: int| 0 <= k < place ==> changed[k] == items[k],
    ensures
        step_from(changed, label, i) == Some(place),
    decreases place - i,
{
    if i < place {
        if items[i].label == label {
            assert(step_from(items, label, i) == Some(i));
        }
        same_steps_before(items, changed, label, place, i + 1);
    }
}

/// A comparison has one row for each line that both outputs have in the same place, and no row
/// shows a line as common that is not: equal outputs have only common rows, and where the outputs
/// differ in each place none is common.
pub proof fn common_lines_are_shown_once(expected: Seq<Seq<char>>, actual: Seq<Seq<char>>, n: nat)
    ensures
        rows_before(expected, actual, 0).len() == 0,
        n < expected.len() && n < actual.len() && expected[n as int] == actual[n as int]
            ==> rows_before(expected, actual, n + 1) == rows_before(expected, actual, n).push(
            DiffRowModel { kind: DiffKind::Same, text: expected[n as int] },
        ),
        n < expected.len() && n < actual.len() && expected[n as int] != actual[n as int]
            ==> rows_before(expected, actual, n + 1) == rows_before(expected, actual, n).push(
            DiffRowModel { kind: DiffKind::Expected, text: expected[n as int] },
        ).push(DiffRowModel { kind: DiffKind::Actual, text: actual[n as int] }),
        n < expected.len() && n >= actual.len() ==> rows_before(expected, actual, n + 1)
            == rows_before(expected, actual, n).push(
            DiffRowModel { kind: DiffKind::Expected, text: expected[n as int] },
        ),
        n >= expected.len() && n < actual.len() ==> rows_before(expected, actual, n + 1)
            == rows_before(expected, actual, n).push(
            DiffRowModel { kind: DiffKind::Actual, text: actual[n as int] },
        ),
{
}

/// Outputs that are equal have nothing but common rows, one for each line.
pub proof fn equal_outputs_have_no_differences(text: Seq<char>, i: int)
    ensures
        ({
            let rows = diff_rows(OutputDiffModel { expected: text, actual: text });
            &&& text.len() == 0 ==> rows.len() == 0
            &&& text.len() > 0 ==> rows.len() == seqs::split_char(text, '\n').len()
            &&& 0 <= i < rows.len() ==> rows[i].kind == DiffKind::Same && rows[i].text
                == seqs::split_char(text, '\n')[i]
        }),
{
    common_rows(output_lines(text), output_lines(text).len(), i);
}

proof fn common_rows(lines: Seq<Seq<char>>, n: nat, i: int)
    requires
        n <= lines.len(),
    ensures
        rows_before(lines, lines, n).len() == n,
        0 <= i < n ==> rows_before(lines, lines, n)[i].kind == DiffKind::Same && rows_before(
            lines,
            lines,
            n,
        )[i].text == lines[i],
    decreases n,
{
    if n > 0 {
        common_rows(lines, (n - 1) as nat, i);
        common_lines_are_shown_once(lines, lines, (n - 1) as nat);
    }
}

/// What a problem provides is a case with its input and output, which was not run and differs in
/// nothing from what the problem provides.
pub proof fn samples_are_provided(samples: Seq<SampleModel>, i: int)
    requires
        0 <= i < samples.len(),
    ensures
        provided_cases(samples).len() == samples.len(),
        provided_cases(samples)[i].input == samples[i].input,
        provided_cases(samples)[i].expected == samples[i].output,
        provided_cases(samples)[i].default == Some(samples[i]),
        provided_cases(samples)[i].result is None,
        !provided_cases(samples)[i].can_restore(),
{
}

/// Clearing the results leaves no case with a result, and everything else of the cases as it is.
pub proof fn results_are_forgotten(cases: Seq<TestCaseModel>, i: int)
    requires
        0 <= i < cases.len(),
    ensures
        without_results(cases).len() == cases.len(),
        without_results(cases)[i].result is None,
        without_results(cases)[i].input == cases[i].input,
        without_results(cases)[i].expected == cases[i].expected,
        without_results(cases)[i].default == cases[i].default,
{
}

/// A case has after a run the last of the results with its number, or without one the result that
/// it had; nothing else of any case is changed.
pub proof fn results_reach_their_cases(
    cases: Seq<TestCaseModel>,
    results: Seq<(usize, CaseResultModel)>,
    last: (usize, CaseResultModel),
    i: int,
)
    requires
        0 <= i < cases.len(),
    ensures
        with_results(cases, seq![]) == cases,
        with_results(cases, results).len() == cases.len(),
        with_results(cases, results)[i].input == cases[i].input,
        with_results(cases, results)[i].expected == cases[i].expected,
        with_results(cases, results)[i].default == cases[i].default,
        last.0 == i ==> with_results(cases, results.push(last))[i].result == Some(last.1),
        last.0 != i ==> with_results(cases, results.push(last))[i].result == with_results(
            cases,
            results,
        )[i].result,
    decreases results.len(),
{
    assert(results.push(last).drop_last() =~= results);
    if results.len() > 0 {
        results_reach_their_cases(cases, results.drop_last(), last, i);
    }
}

/// The texts of the cases are their inputs and what is expected of each, in their order.
pub proof fn texts_are_those_of_cases(cases: Seq<TestCaseModel>, i: int)
    requires
        0 <= i < cases.len(),
    ensures
        case_texts(cases).len() == cases.len(),
        case_texts(cases)[i].0 == cases[i].input,
        case_texts(cases)[i].1 == cases[i].expected,
{
}

/// After a run without a failed case the first failed step is selected, without a failed step the
/// first case, without cases the first step, and without either nothing else than before. Nothing
/// but the selection is changed.
pub proof fn selection_after_good_run(board: OutputBoardModel, i: int)
    requires
        board.command_output.items.len() <= usize::MAX,
        forall|k: int|
            0 <= k < board.test_cases.len() ==> !(#[trigger] board.test_cases[k]).has_failed(),
    ensures
        board.focused_after_run().test_cases == board.test_cases,
        board.focused_after_run().command_output == board.command_output,
        0 <= i < board.command_output.items.len() && board.command_output.items[i].status
            == CommandOutputItemStatus::Failed && (forall|k: int|
            0 <= k < i ==> (#[trigger] board.command_output.items[k]).status
                != CommandOutputItemStatus::Failed) ==> board.focused_after_run().output_selection
            == OutputSelection::Step(i as usize),
        (forall|k: int|
            0 <= k < board.command_output.items.len() ==> (
            #[trigger] board.command_output.items[k]).status != CommandOutputItemStatus::Failed)
            ==> board.focused_after_run().output_selection == if board.test_cases.len() > 0 {
            OutputSelection::Case(0)
        } else if board.command_output.items.len() > 0 {
            OutputSelection::Step(0)
        } else {
            board.output_selection
        },
{
    no_case_failed(board.test_cases, 0);
    let items = board.command_output.items;
    if forall|k: int|
        0 <= k < items.len() ==> (#[trigger] items[k]).status != CommandOutputItemStatus::Failed {
        no_step_failed(items, 0);
    }
    if 0 <= i < items.len() && items[i].status == CommandOutputItemStatus::Failed && (forall|k: int|
        0 <= k < i ==> (#[trigger] items[k]).status != CommandOutputItemStatus::Failed) {
        first_failed_step(items, 0, i);
    }
}

proof fn no_case_failed(cases: Seq<TestCaseModel>, from: int)
    requires
        0 <= from,
        forall|k: int| from <= k < cases.len() ==> !(#[trigger] cases[k]).has_failed(),
    ensures
        failed_case_from(cases, from) is None,
    decreases cases.len() - from,
{
    if from < cases.len() {
        no_case_failed(cases, from + 1);
    }
}

proof fn no_step_failed(items: Seq<CommandOutputItemModel>, from: int)
    requires
        0 <= from,
        forall|k: int|
            from <= k < items.len() ==> (#[trigger] items[k]).status
                != CommandOutputItemStatus::Failed,
    ensures
        failed_step_from(items, from) is None,
    decreases items.len() - from,
{
    if from < items.len() {
        no_step_failed(items, from + 1);
    }
}

proof fn first_failed_step(items: Seq<CommandOutputItemModel>, from: int, i: int)
    requires
        0 <= from <= i < items.len(),
        items[i].status == CommandOutputItemStatus::Failed,
        forall|k: int|
            from <= k < i ==> (#[trigger] items[k]).status != CommandOutputItemStatus::Failed,
    ensures
        failed_step_from(items, from) == Some(i),
    decreases i - from,
{
    if from < i {
        first_failed_step(items, from + 1, i);
    }
}

/// A case has failed exactly if its last run did.
pub proof fn failed_case_has_failed_result(case: TestCaseModel)
    ensures
        case.has_failed() <==> (case.result is Some && case.result->0.status
            == CommandOutputItemStatus::Failed),
{
}

/// A step is put in the place of the first one with its label, or at the end if there is none, and
/// is selected there. Every other step and all cases stay as they are.
pub proof fn step_takes_its_place(
    board: OutputBoardModel,
    label: Seq<char>,
    item: CommandOutputItemModel,
    i: int,
    k: int,
)
    requires
        board.command_output.items.len() < usize::MAX,
        0 <= i <= board.command_output.items.len(),
        forall|j: int| 0 <= j < i ==> (#[trigger] board.command_output.items[j]).label != label,
        i < board.command_output.items.len() ==> board.command_output.items[i].label == label,
        0 <= k < board.command_output.items.len(),
    ensures
        ({
            let after = board.with_step(label, item);
            let items = after.command_output.items;
            &&& after.test_cases == board.test_cases
            &&& after.output_selection == OutputSelection::Step(i as usize)
            &&& items.len() == if i < board.command_output.items.len() {
                board.command_output.items.len()
            } else {
                board.command_output.items.len() + 1
            }
            &&& items[i] == item
            &&& k != i ==> items[k] == board.command_output.items[k]
        }),
{
    first_step(board.command_output.items, label, 0, i);
}

proof fn first_step(items: Seq<CommandOutputItemModel>, label: Seq<char>, from: int, i: int)
    requires
        0 <= from <= i <= items.len(),
        forall|j: int| from <= j < i ==> (#[trigger] items[j]).label != label,
        i < items.len() ==> items[i].label == label,
    ensures
        i < items.len() ==> step_from(items, label, from) == Some(i),
        i == items.len() ==> step_from(items, label, from) is None,
    decreases items.len() - from,
{
    if from < i {
        first_step(items, label, from + 1, i);
    }
}

/// A new case is empty, stands behind all others, and is selected. Nothing else is changed.
pub proof fn new_case_is_empty(board: OutputBoardModel)
    requires
        board.test_cases.len() < usize::MAX,
    ensures
        ({
            let after = board.with_new_case();
            let n = board.test_cases.len() as int;
            &&& after.test_cases.len() == n + 1
            &&& after.test_cases.take(n) == board.test_cases
            &&& after.test_cases[n].input.len() == 0
            &&& after.test_cases[n].expected.len() == 0
            &&& after.test_cases[n].default is None
            &&& after.test_cases[n].result is None
            &&& after.output_selection == OutputSelection::Case(n as usize)
            &&& after.command_output == board.command_output
        }),
{
}

/// Once a case is removed, the one behind it is selected, or without one the one before it, or
/// without cases the first step; the steps stay as they are. A case that is not there is not
/// removed.
pub proof fn removing_selects_neighbour(board: OutputBoardModel, index: usize)
    requires
        board.test_cases.len() <= usize::MAX,
    ensures
        ({
            let after = board.without_case(index);
            let n = board.test_cases.len();
            &&& after.command_output == board.command_output
            &&& index >= n ==> after == board
            &&& index < n ==> after.test_cases.len() == n - 1
            &&& index < n && n == 1 ==> after.output_selection == OutputSelection::Step(0)
            &&& index < n - 1 ==> after.output_selection == OutputSelection::Case(index)
            &&& index == n - 1 && n > 1 ==> after.output_selection == OutputSelection::Case(
                (index - 1) as usize,
            )
        }),
{
}

/// Restoring a case gives it what the problem provides, keeps its result, and leaves every other
/// case, the steps and the selection as they are.
pub proof fn restoring_changes_one_case(board: OutputBoardModel, index: usize, k: int)
    requires
        0 <= k < board.test_cases.len(),
    ensures
        ({
            let after = board.with_case_restored(index);
            let case = board.test_cases[k];
            &&& after.command_output == board.command_output
            &&& after.output_selection == board.output_selection
            &&& after.test_cases.len() == board.test_cases.len()
            &&& k != index ==> after.test_cases[k] == case
            &&& after.test_cases[k].default == case.default
            &&& after.test_cases[k].result == case.result
            &&& k == index && case.default is Some ==> after.test_cases[k].input
                == case.default->0.input && after.test_cases[k].expected == case.default->0.output
            &&& case.default is None ==> after.test_cases[k] == case
        }),
{
}

/// A command of one step leaves that step alone on the board, and the cases and the selection as
/// they are.
pub proof fn command_shows_its_step(
    board: OutputBoardModel,
    label: Seq<char>,
    status: CommandOutputItemStatus,
    detail: Seq<char>,
)
    ensures
        ({
            let after = board.with_command(label, status, detail);
            &&& after.test_cases == board.test_cases
            &&& after.output_selection == board.output_selection
            &&& after.command_output.items.len() == 1
            &&& after.command_output.items[0].label == label
            &&& after.command_output.items[0].status == status
            &&& after.command_output.items[0].detail is Some
            &&& after.command_output.items[0].detail->0.heading == detail
        }),
{
}

/// The details of a case are its texts, whether the problem provides it and it can be restored, and
/// of its last run the heading in the colour of its status, the difference if it failed with an
/// output, and the error output.
pub proof fn case_details_are_shown(case: TestCaseModel)
    ensures
        ({
            let shown = case.detail();
            &&& shown.input == case.input
            &&& shown.expected == case.expected
            &&& shown.is_default <==> case.default is Some
            &&& shown.can_restore <==> case.default is Some && (case.default->0.input != case.input
                || case.default->0.output != case.expected)
            &&& case.result is None ==> shown.heading is None && shown.diff is None
                && shown.stderr is None
            &&& case.result matches Some(result) ==> {
                &&& shown.heading is Some
                &&& shown.heading->0.text == result.heading
                &&& result.status == CommandOutputItemStatus::Passed ==> shown.heading->0.color
                    == HeadingColor::Success
                &&& result.status == CommandOutputItemStatus::Warning ==> shown.heading->0.color
                    == HeadingColor::Warning
                &&& result.status == CommandOutputItemStatus::Failed || result.status
                    == CommandOutputItemStatus::Pending ==> shown.heading->0.color
                    == HeadingColor::Error
                &&& result.status == CommandOutputItemStatus::Failed && result.actual is Some
                    ==> shown.diff == Some(
                    diff_rows(
                        OutputDiffModel {
                            expected: seqs::trim_end(case.expected),
                            actual: seqs::trim_end(result.actual->0),
                        },
                    ),
                )
                &&& result.status != CommandOutputItemStatus::Failed || result.actual is None
                    ==> shown.diff is None
                &&& result.stderr is None ==> shown.stderr is None
                &&& result.stderr is Some ==> shown.stderr is Some && shown.stderr->0.title
                    == "Stderr"@ && shown.stderr->0.body == seqs::trim_end(result.stderr->0)
            }
        }),
{
}

/// What is shown of the selection is the details of the selected case, or of the selected step; a
/// selection of what is not there shows nothing.
pub proof fn selection_is_shown(board: OutputBoardModel, i: usize)
    ensures
        board.output_selection == OutputSelection::Case(i) && i < board.test_cases.len()
            ==> board.selected_detail() == SelectedDetailModel::Case(
            board.test_cases[i as int].detail(),
        ),
        board.output_selection == OutputSelection::Case(i) && i >= board.test_cases.len()
            ==> board.selected_detail() is Nothing,
        board.output_selection == OutputSelection::Step(i) && i >= board.command_output.items.len()
            ==> board.selected_detail() is Nothing,
        board.output_selection == OutputSelection::Step(i) && i < board.command_output.items.len()
            ==> match board.command_output.items[i as int].detail {
            None => board.selected_detail() is Nothing,
            Some(detail) => {
                &&& board.selected_detail() is Step
                &&& board.selected_detail()->Step_0.sections == detail.sections
                &&& detail.heading.len() == 0 ==> board.selected_detail()->Step_0.heading is None
                &&& detail.heading.len() > 0 ==> board.selected_detail()->Step_0.heading == Some(
                    detail.heading,
                )
                &&& detail.diff is None ==> board.selected_detail()->Step_0.diff is None
                &&& detail.diff is Some ==> board.selected_detail()->Step_0.diff == Some(
                    diff_rows(detail.diff->0),
                )
            },
        },
{
}

/// The list shows the steps under their labels and then the cases under their numbers, counted from
/// one, each in the colour of its status; exactly what is selected is marked.
pub proof fn list_shows_steps_and_cases(board: OutputBoardModel, i: int)
    requires
        board.command_output.items.len() <= usize::MAX,
        board.test_cases.len() <= usize::MAX,
    ensures
        ({
            let steps = board.command_output.items;
            let cases = board.test_cases;
            &&& board.chips().len() == steps.len() + cases.len()
            &&& 0 <= i < steps.len() ==> {
                let chip = board.chips()[i];
                &&& chip.label == steps[i].label
                &&& chip.color == dot_color(steps[i].status)
                &&& chip.selected <==> (board.output_selection is Step
                    && board.output_selection->Step_0 == i)
            }
            &&& 0 <= i < cases.len() ==> {
                let chip = board.chips()[steps.len() + i];
                &&& chip.label == "Input "@ + seqs::decimal((i + 1) as nat)
                &&& cases[i].result is Some ==> chip.color == dot_color(cases[i].result->0.status)
                &&& cases[i].result is None ==> chip.color == DotColor::BorderVariant
                &&& chip.selected <==> (board.output_selection is Case
                    && board.output_selection->Case_0 == i)
            }
        }),
{
}

/// What passed is shown in the colour of success, what failed in that of errors, what warns in that
/// of warnings, and what is not done in that of borders.
pub proof fn colours_tell_status(status: CommandOutputItemStatus)
    ensures
        dot_color(status) == DotColor::Success <==> status == CommandOutputItemStatus::Passed,
        dot_color(status) == DotColor::Error <==> status == CommandOutputItemStatus::Failed,
        dot_color(status) == DotColor::Warning <==> status == CommandOutputItemStatus::Warning,
        dot_color(status) == DotColor::BorderVariant <==> status
            == CommandOutputItemStatus::Pending,
{
}

/// The number of a case goes down by one exactly if a case before it is removed; the removed case
/// has none.
pub proof fn numbers_close_the_gap(i: usize, index: usize)
    ensures
        i == index ==> number_without(i, index) is None,
        i < index ==> number_without(i, index) == Some(i),
        i > index ==> number_without(i, index) == Some((i - 1) as usize),
{
}
/// The models hold what the values hold, each part under its own name.
pub proof fn models_hold_their_parts(
    test_case: TestCase,
    output_board: OutputBoard,
    diff_row: DiffRow,
    chip: Chip,
    action_button: ActionButton,
    command_panel: CommandPanel,
    step_detail: StepDetail,
    case_heading: CaseHeading,
    case_detail: CaseDetail,
    selected_detail: SelectedDetail,
)
    ensures
        test_case.deep_view() == (TestCaseModel {
            input: test_case.input@,
            expected: test_case.expected@,
            default: test_case.default.deep_view(),
            result: test_case.result.deep_view(),
        }),
        output_board.deep_view() == (OutputBoardModel {
            test_cases: output_board.test_cases.deep_view(),
            command_output: output_board.command_output.deep_view(),
            output_selection: output_board.output_selection,
        }),
        diff_row.deep_view() == (DiffRowModel {
            kind: diff_row.kind,
            text: diff_row.text@,
        }),
        chip.deep_view() == (ChipModel {
            label: chip.label@,
            color: chip.color,
            selected: chip.selected,
        }),
        action_button.deep_view() == (ActionButtonModel {
            label: action_button.label@,
            disabled: action_button.disabled,
        }),
        command_panel.deep_view() == (CommandPanelModel {
            chips: command_panel.chips.deep_view(),
            actions: command_panel.actions.deep_view(),
            detail: command_panel.detail.deep_view(),
        }),
        step_detail.deep_view() == (StepDetailModel {
            heading: step_detail.heading.deep_view(),
            diff: step_detail.diff.deep_view(),
            sections: step_detail.sections.deep_view(),
        }),
        case_heading.deep_view() == (CaseHeadingModel {
            text: case_heading.text@,
            color: case_heading.color,
        }),
        case_detail.deep_view() == (CaseDetailModel {
            input: case_detail.input@,
            expected: case_detail.expected@,
            is_default: case_detail.is_default,
            can_restore: case_detail.can_restore,
            heading: case_detail.heading.deep_view(),
            diff: case_detail.diff.deep_view(),
            stderr: case_detail.stderr.deep_view(),
        }),
        selected_detail.deep_view() == match selected_detail {
            SelectedDetail::Nothing => SelectedDetailModel::Nothing,
            SelectedDetail::Step(value) => SelectedDetailModel::Step(value.deep_view()),
            SelectedDetail::Case(value) => SelectedDetailModel::Case(value.deep_view()),
        },
{
}
/// A row is shown behind the sign for what it stands for: a minus for what was expected and is not
/// there, a plus for what is there and was not expected, and nothing for what is as expected.
pub proof fn rows_are_signed(row: DiffRow, label: String)
    requires
        call_ensures(DiffRow::label, (&row,), label),
    ensures
        row.kind == DiffKind::Same ==> label@ == "  "@ + row.text@,
        row.kind == DiffKind::Expected ==> label@ == "- "@ + row.text@,
        row.kind == DiffKind::Actual ==> label@ == "+ "@ + row.text@,
{
}

/// Selecting something changes nothing else.
pub proof fn selecting_changes_selection(board: &mut OutputBoard, selection: OutputSelection)
    requires
        call_ensures(OutputBoard::select, (board, selection), ()),
    ensures
        final(board).output_selection == selection,
        final(board).deep_view().test_cases == old(board).deep_view().test_cases,
        final(board).deep_view().command_output == old(board).deep_view().command_output,
{
}

/// After the results are cleared no case has one; nothing else of the cases, and nothing of the
/// steps and the selection, is changed.
pub proof fn cleared_board_has_no_results(board: &mut OutputBoard, i: int)
    requires
        call_ensures(OutputBoard::clear_results, (board,), ()),
        0 <= i < old(board).deep_view().test_cases.len(),
    ensures
        ({
            let before = old(board).deep_view();
            let after = final(board).deep_view();
            &&& after.command_output == before.command_output
            &&& after.output_selection == before.output_selection
            &&& after.test_cases.len() == before.test_cases.len()
            &&& after.test_cases[i].result is None
            &&& after.test_cases[i].input == before.test_cases[i].input
            &&& after.test_cases[i].expected == before.test_cases[i].expected
            &&& after.test_cases[i].default == before.test_cases[i].default
        }),
{
}

/// A result that is noted last for a case is the result of that case.
pub proof fn last_result_is_noted(
    board: &mut OutputBoard,
    results: Vec<(usize, CaseResult)>,
)
    requires
        call_ensures(OutputBoard::set_results, (board, &results), ()),
        results@.len() > 0,
        results@.last().0 < old(board).deep_view().test_cases.len(),
    ensures
        final(board).deep_view().test_cases[results@.last().0 as int].result == Some(
            results@.last().1.deep_view(),
        ),
        final(board).deep_view().command_output == old(board).deep_view().command_output,
        final(board).deep_view().output_selection == old(board).deep_view().output_selection,
{
    let noted = results.deep_view();
    let i: int = results@.last().0 as int;
    assert(noted.last() == results@.last().deep_view());
    assert(noted =~= noted.drop_last().push(noted.last()));
    results_reach_their_cases(
        old(board).deep_view().test_cases,
        noted.drop_last(),
        noted.last(),
        i,
    );
}
} // verus!
