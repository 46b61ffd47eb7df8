use rcontest::cases::{
    cases_for_samples, render_output_diff, DiffKind, HeadingColor, OutputBoard, SelectedDetail,
};
use rcontest::output::{
    plain_item, process_output_item, sample_case_results, sample_test_summary, status_dot_color,
    CaseResult, CommandOutputItemStatus, CommandOutputState, DotColor, OutputDiff, OutputSelection,
};
use rcontest::runner::{ProcessOutput, ProcessStatus, SampleResult, SampleTestReport};
use rcontest::statement::Sample;

#[test]
fn maps_sample_results_to_case_results() {
    let cases = sample_case_results(&[
        (
            0,
            SampleResult::Ac {
                actual: "ok".into(),
                stderr: "diagnostic".into(),
            },
        ),
        (
            1,
            SampleResult::Wa {
                actual: "actual".into(),
                expected: "expected".into(),
                stderr: String::new(),
            },
        ),
        (
            2,
            SampleResult::Re {
                stderr: "panic".into(),
            },
        ),
        (3, SampleResult::Tle),
    ]);

    assert_eq!(cases.len(), 4);
    assert_eq!(cases[0].1.status, CommandOutputItemStatus::Passed);
    assert_eq!(cases[0].1.heading, "Accepted");
    assert_eq!(cases[0].1.stderr.as_deref(), Some("diagnostic"));
    assert_eq!(cases[1].1.status, CommandOutputItemStatus::Failed);
    assert_eq!(cases[1].1.actual.as_deref(), Some("actual"));
    assert_eq!(cases[1].1.stderr, None);
    assert_eq!(cases[2].1.stderr.as_deref(), Some("panic"));
    assert_eq!(cases[3].1.heading, "Time Limit Exceeded");
}

#[test]
fn summarizes_build_and_case_results() {
    let report = SampleTestReport {
        build: ProcessOutput {
            label: "cargo build",
            executable: "cargo".into(),
            args: vec!["build".into()],
            status: ProcessStatus { success: true, code: Some(0) },
            stdout: String::new(),
            stderr: "warning: unused variable".into(),
        },
        cases: vec![
            (
                0,
                SampleResult::Ac {
                    actual: "ok".into(),
                    stderr: String::new(),
                },
            ),
            (
                1,
                SampleResult::Wa {
                    actual: "actual".into(),
                    expected: "expected".into(),
                    stderr: String::new(),
                },
            ),
        ],
    };

    let summary = sample_test_summary(report, "cargo build succeeded".to_string());

    assert!(summary.build_succeeded);
    assert_eq!(summary.build_item.status, CommandOutputItemStatus::Warning);
    assert_eq!(summary.total_cases, 2);
    assert_eq!(summary.passed_cases, 1);
    assert_eq!(summary.case_results.len(), 2);
}

fn board() -> OutputBoard {
    let sample = |input: &str, output: &str| Sample {
        input: input.to_string(),
        output: output.to_string(),
    };
    OutputBoard {
        test_cases: cases_for_samples(&vec![sample("1", "2"), sample("3", "4")]),
        command_output: CommandOutputState::empty(),
        output_selection: OutputSelection::Step(0),
    }
}

fn result(status: CommandOutputItemStatus, actual: &str) -> CaseResult {
    CaseResult {
        status,
        heading: "heading".to_string(),
        actual: Some(actual.to_string()),
        stderr: None,
    }
}

#[test]
fn failed_build_shows_no_cases() {
    let report = SampleTestReport {
        build: ProcessOutput {
            label: "cargo build",
            executable: "cargo".into(),
            args: vec![],
            status: ProcessStatus {
                success: false,
                code: Some(101),
            },
            stdout: " \n".to_string(),
            stderr: "error: warning\n\n".to_string(),
        },
        cases: vec![],
    };
    let item = process_output_item(&report.build, "heading".to_string());
    assert_eq!(item.label, "cargo build");
    let detail = item.detail.unwrap();
    assert_eq!(detail.heading, "heading");
    assert_eq!(detail.sections.len(), 1);
    assert_eq!(detail.sections[0].title, "stderr");
    assert_eq!(detail.sections[0].body, "error: warning");
    let summary = sample_test_summary(report, "failed".to_string());
    assert!(!summary.build_succeeded);
    assert_eq!(summary.build_item.status, CommandOutputItemStatus::Failed);
    assert_eq!(summary.total_cases, 0);
}

#[test]
fn running_command_waits_for_output() {
    let state = CommandOutputState::running("Test");
    assert_eq!(state.items.len(), 1);
    assert_eq!(state.items[0].label, "Test");
    assert_eq!(state.items[0].status, CommandOutputItemStatus::Pending);
    assert_eq!(
        state.items[0].detail.as_ref().unwrap().heading,
        "Waiting for command output..."
    );
    assert_eq!(status_dot_color(state.items[0].status), DotColor::BorderVariant);
    assert_eq!(
        status_dot_color(CommandOutputItemStatus::Warning),
        DotColor::Warning
    );
}

#[test]
fn comparison_shows_both_outputs() {
    let rows = render_output_diff(&OutputDiff {
        expected: "1\n2\n3".to_string(),
        actual: "1\n4".to_string(),
    });
    let labels: Vec<String> = rows.iter().map(|row| row.label()).collect();
    assert_eq!(labels, vec!["  1", "- 2", "+ 4", "- 3"]);
    assert_eq!(rows[0].kind, DiffKind::Same);
    let rows = render_output_diff(&OutputDiff {
        expected: String::new(),
        actual: "x".to_string(),
    });
    assert_eq!(rows.len(), 1);
    assert_eq!(rows[0].kind, DiffKind::Actual);
}

#[test]
fn first_failure_is_shown_after_a_run() {
    let mut board = board();
    board.set_results(&vec![
        (0, result(CommandOutputItemStatus::Passed, "2")),
        (1, result(CommandOutputItemStatus::Failed, "5\n")),
        (9, result(CommandOutputItemStatus::Failed, "")),
    ]);
    board.focus_after_run();
    assert_eq!(board.output_selection, OutputSelection::Case(1));
    let detail = match board.render_output_detail() {
        SelectedDetail::Case(detail) => detail,
        _ => panic!("a case is selected"),
    };
    assert_eq!(detail.input, "3");
    assert!(detail.is_default);
    assert!(!detail.can_restore);
    assert_eq!(detail.heading.unwrap().color, HeadingColor::Error);
    assert_eq!(detail.diff.unwrap().len(), 2);
    let chips = board.render_chips();
    assert_eq!(chips.len(), 2);
    assert_eq!(chips[0].label, "Input 1");
    assert_eq!(chips[0].color, DotColor::Success);
    assert!(chips[1].selected);

    board.clear_results();
    board.focus_after_run();
    assert_eq!(board.output_selection, OutputSelection::Case(0));
    assert_eq!(board.render_chips()[1].color, DotColor::BorderVariant);
}

#[test]
fn cases_can_be_added_changed_restored_and_deleted() {
    let mut board = board();
    board.add_test_case();
    assert_eq!(board.output_selection, OutputSelection::Case(2));
    assert_eq!(
        board.test_case_texts(),
        vec![
            ("1".to_string(), "2".to_string()),
            ("3".to_string(), "4".to_string()),
            (String::new(), String::new()),
        ]
    );
    board.test_cases[0].input = "7".to_string();
    assert!(board.test_cases[0].render_case_detail().can_restore);
    board.restore_test_case(0);
    assert_eq!(board.test_cases[0].input, "1");
    assert!(!board.test_cases[0].render_case_detail().can_restore);
    board.delete_test_case(2);
    assert_eq!(board.output_selection, OutputSelection::Case(1));
    board.delete_test_case(0);
    assert_eq!(board.output_selection, OutputSelection::Case(0));
    assert_eq!(board.test_cases[0].input, "3");
    board.delete_test_case(5);
    assert_eq!(board.test_cases.len(), 1);
    board.delete_test_case(0);
    assert_eq!(board.output_selection, OutputSelection::Step(0));
    assert!(matches!(board.render_output_detail(), SelectedDetail::Nothing));
}

#[test]
fn step_with_the_same_label_is_replaced() {
    let mut board = board();
    let item = |heading: &str| {
        plain_item("Submission", CommandOutputItemStatus::Pending, heading.to_string())
    };
    board.upsert_step("Submission", item("first"));
    board.upsert_step("Other", plain_item("Other", CommandOutputItemStatus::Passed, String::new()));
    board.upsert_step("Submission", item("second"));
    assert_eq!(board.command_output.items.len(), 2);
    assert_eq!(board.output_selection, OutputSelection::Step(0));
    let step = match board.render_output_detail() {
        SelectedDetail::Step(step) => step,
        _ => panic!("a step is selected"),
    };
    assert_eq!(step.heading, Some("second".to_string()));
    board.select(OutputSelection::Step(1));
    assert!(matches!(
        board.render_output_detail(),
        SelectedDetail::Step(step) if step.heading.is_none()
    ));
}
