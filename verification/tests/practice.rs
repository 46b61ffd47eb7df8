use rcontest::copying::Duplicate;
use rcontest::duel::matchmaking::CommandStatus;
use rcontest::output::{CommandOutputItemStatus, OutputSelection};
use rcontest::practice::files::{
    add_bin, cargo_toml_has_bin, ensure_cargo_toml_bin, manifest_has_bin, prepare_problem_files,
    problem_files, sanitize_package_name, sanitize_path_component, sanitize_task_slug,
};
use rcontest::practice::list::{refresh_filtered_problems, ExpandedRows};
use rcontest::practice::results::{
    configured_atcoder_user, detected_submission_output_item, detected_submission_output_item_at,
    first_submission_since, format_relative_at, format_submission_rows,
    problem_needs_list_refresh, render_practice_test_report, run_practice_submit,
    submissions_output_item, submissions_output_item_at, PracticeSubmitReady,
};
use rcontest::practice::storage::PracticeStorage;
use rcontest::practice::tree::{
    problem_list_entries, problem_list_entry_depths, problem_list_sticky_ancestors,
    problem_list_sticky_candidates, render_sidebar, ProblemListEntry,
};
use rcontest::practice::view::{PracticeEditor, RpracticeView};
use rcontest::problems::Problem;
use rcontest::runner::{ProcessOutput, ProcessStatus, SampleResult, SampleTestReport};
use rcontest::statement::{ProblemDetail, Sample};
use rcontest::submissions::ProblemSubmission;

fn problem(id: &str, group: &str, segment: &str, task: &str) -> Problem {
    Problem {
        id: id.to_string(),
        contest_id: format!("{group}{segment}"),
        contest_title: format!("Contest {segment}"),
        contest_group: group.to_string(),
        contest_segment: segment.to_string(),
        task_index: task.to_string(),
        title: format!("Title of {id}"),
        url: format!("https://atcoder.jp/contests/{group}{segment}/tasks/{id}"),
    }
}

fn problems() -> Vec<Problem> {
    vec![
        problem("abc002_b", "abc", "002", "B"),
        problem("arc001_a", "arc", "001", "A"),
        problem("abc002_a", "abc", "002", "A"),
        problem("abc001_a", "abc", "001", "A"),
    ]
}

fn submission(id: i64, epoch_second: i64, verdict: &str) -> ProblemSubmission {
    ProblemSubmission {
        id,
        epoch_second,
        verdict: verdict.to_string(),
        url: format!("https://s/{id}"),
    }
}

fn detail() -> ProblemDetail {
    ProblemDetail {
        title: Some("Page title".to_string()),
        statement_markdown: "# S".to_string(),
        samples: vec![Sample {
            input: "1".to_string(),
            output: "2".to_string(),
        }],
    }
}

fn me() -> Option<String> {
    Some("me".to_string())
}

/// A view with the problem "abc001_a" open since the second 1000.
fn open_view() -> RpracticeView {
    let mut view = RpracticeView::new();
    assert!(!view.load_problem_list(Ok(problems())));
    let problem = view.open_problem_at_index(3).unwrap();
    let files = problem_files(&problem);
    view.apply_opened_problem(problem, files, detail(), &None, 1000);
    view.note_session("session".to_string());
    view
}

fn report(success: bool, cases: Vec<(usize, SampleResult)>) -> SampleTestReport {
    SampleTestReport {
        build: ProcessOutput {
            label: "cargo build",
            executable: "cargo".into(),
            args: vec![],
            status: ProcessStatus {
                success,
                code: Some(if success { 0 } else { 101 }),
            },
            stdout: String::new(),
            stderr: String::new(),
        },
        cases,
    }
}

fn ready() -> PracticeSubmitReady {
    PracticeSubmitReady {
        source_code: "fn main() {}".to_string(),
        source_path: "a.rs".to_string(),
        submit_url: "https://submit".to_string(),
    }
}

#[test]
fn names_of_files_are_plain() {
    assert_eq!(sanitize_task_slug(" A/1 "), "a_1");
    assert_eq!(sanitize_task_slug("  "), "main");
    assert_eq!(sanitize_path_component("ABC-Like_x"), "abc-like_x");
    assert_eq!(sanitize_path_component(""), "contest");
    assert_eq!(sanitize_package_name("rpractice-ABC--_002-"), "rpractice-abc-002");
    let files = problem_files(&problem("abc002_b", "ABC", "002", "B"));
    assert_eq!(files.root_path, vec![".rpractice", "abc", "002"]);
    assert_eq!(files.source_path, vec![".rpractice", "abc", "002", "b.rs"]);
    assert_eq!(files.bin_name, "b");
}

#[test]
fn binary_is_added_once() {
    let manifest =
        ensure_cargo_toml_bin(&None, "abc", "002", "a", "a.rs").unwrap();
    assert!(manifest.starts_with("[package]\nname = \"rpractice-abc-002\"\n"));
    assert!(cargo_toml_has_bin(&manifest, "a"));
    assert!(!cargo_toml_has_bin(&manifest, "rpractice-abc-002"));
    assert!(ensure_cargo_toml_bin(&Some(manifest.clone()), "abc", "002", "a", "a.rs").is_none());
    let second =
        ensure_cargo_toml_bin(&Some(manifest.clone()), "abc", "002", "b", "b.rs").unwrap();
    assert_eq!(
        second,
        format!("{manifest}\n[[bin]]\nname = \"b\"\npath = \"b.rs\"\n")
    );
    assert_eq!(second, add_bin(&manifest, "b", "b.rs"));
    assert!(cargo_toml_has_bin(&second, "b"));
}

#[test]
fn manifest_that_cannot_be_read_is_searched() {
    assert!(cargo_toml_has_bin("[[bin\nname = \"a\"", "a"));
    assert!(!cargo_toml_has_bin("[[bin\nname = \"ab\"", "a"));
    assert!(!manifest_has_bin("name = \"a\"", "a", &Some(vec![None])));
    assert!(manifest_has_bin("", "a", &Some(vec![Some("a".to_string())])));
    let writes = prepare_problem_files(&problem("abc002_b", "abc", "002", "B"), &None, "/t");
    assert_eq!(writes.source_if_missing, "fn main() {\n}\n");
    assert!(cargo_toml_has_bin(&writes.cargo_toml.unwrap(), "b"));
    assert_eq!(writes.cargo_config, "[build]\ntarget-dir = \"/t\"\n");
}

#[test]
fn found_problems_are_sorted() {
    assert_eq!(refresh_filtered_problems(&problems(), ""), vec![3, 2, 0, 1]);
    assert_eq!(refresh_filtered_problems(&problems(), " TITLE OF ABC002 "), vec![2, 0]);
    assert_eq!(refresh_filtered_problems(&problems(), "nothing"), Vec::<usize>::new());
}

#[test]
fn rows_are_shown_below_expanded_rows() {
    let problems = problems();
    let places = refresh_filtered_problems(&problems, "");
    let mut expanded = ExpandedRows::new();
    assert_eq!(problem_list_entries(&problems, &places, &expanded, false).len(), 2);
    expanded.toggle_problem_group("abc");
    assert!(expanded.has_group("abc"));
    expanded.toggle_problem_contest("abc", "002");
    let entries = problem_list_entries(&problems, &places, &expanded, false);
    assert_eq!(
        problem_list_entry_depths(&entries, 0, 100),
        vec![0, 1, 1, 2, 2, 0]
    );
    assert!(matches!(
        &entries[3],
        ProblemListEntry::Problem { problem_index: 2 }
    ));
    assert_eq!(
        problem_list_sticky_candidates(&entries, 2, 4),
        vec![(2, 1), (3, 2)]
    );
    assert!(problem_list_sticky_candidates(&entries, 6, 9).is_empty());
    let above = problem_list_sticky_ancestors(&problems, &entries, 4);
    assert_eq!(above.len(), 2);
    assert!(matches!(&above[0], ProblemListEntry::Group { group, .. } if group == "abc"));
    assert!(matches!(&above[1], ProblemListEntry::Contest { segment, .. } if segment == "002"));
    assert_eq!(problem_list_entries(&problems, &places, &expanded, true).len(), 9);
    expanded.toggle_problem_group("abc");
    expanded.toggle_problem_contest("abc", "002");
    assert_eq!(problem_list_entries(&problems, &places, &expanded, false).len(), 2);
}

#[test]
fn sidebar_says_why_it_is_empty() {
    let expanded = ExpandedRows::new();
    let sidebar = render_sidebar(&vec![], &vec![], &expanded, "", &None, true, "busy");
    assert_eq!(sidebar.problem_count, "0 problems");
    assert_eq!(sidebar.placeholder, Some("Loading problems...".to_string()));
    let problems = problems();
    let places = refresh_filtered_problems(&problems, "arc");
    let selected = Some("arc001_a".to_string());
    let sidebar = render_sidebar(&problems, &places, &expanded, "arc", &selected, false, "");
    assert_eq!(sidebar.rows.len(), 3);
    assert!(sidebar.rows[2].is_selected);
    assert_eq!(sidebar.rows[2].text, "Title of arc001_a");
    assert!(sidebar.placeholder.is_none());
}

#[test]
fn times_are_worded_in_english() {
    assert_eq!(format_relative_at(1059, 1000), "59s ago");
    assert_eq!(format_relative_at(1000 + 3599, 1000), "59m ago");
    assert_eq!(format_relative_at(1000 + 86399, 1000), "23h ago");
    assert_eq!(format_relative_at(1000 + 86400 * 6, 1000), "6d ago");
    assert_eq!(format_relative_at(1000 + 86400 * 29, 1000), "4w ago");
    assert_eq!(format_relative_at(1000 + 86400 * 364, 1000), "12mo ago");
    assert_eq!(format_relative_at(1000 + 86400 * 365, 1000), "1y ago");
}

#[test]
fn submissions_are_listed() {
    let item = submissions_output_item_at(
        1060,
        "me",
        "abc001_a",
        Ok(vec![submission(5, 1000, " AC "), submission(4, 1050, "")]),
    );
    assert_eq!(item.status, CommandOutputItemStatus::Passed);
    let detail = item.detail.unwrap();
    assert_eq!(
        detail.heading,
        "Fetched 2 recent submissions for me on abc001_a."
    );
    assert_eq!(
        detail.sections[0].body,
        "AC       1m ago   #5  https://s/5\nUnknown  10s ago  #4  https://s/4"
    );
    let item = submissions_output_item_at(0, "me", "p", Ok(vec![]));
    assert_eq!(item.status, CommandOutputItemStatus::Warning);
    assert_eq!(
        item.detail.unwrap().heading,
        "No recent submissions found for me on p."
    );
    let item = submissions_output_item_at(0, "me", "p", Err("offline".to_string()));
    assert_eq!(
        item.detail.unwrap().heading,
        "Could not fetch submissions:\noffline"
    );
    let item = detected_submission_output_item_at(1060, &submission(5, 1000, "WA"));
    assert_eq!(item.status, CommandOutputItemStatus::Warning);
    assert_eq!(
        item.detail.unwrap().sections[0].body,
        "WA       1m ago  #5  https://s/5"
    );
}

#[test]
fn first_submission_is_the_earliest_one() {
    let all = vec![
        submission(9, 1300, "WA"),
        submission(8, 1200, "WA"),
        submission(7, 1200, "WA"),
        submission(6, 1100, "WA"),
    ];
    assert_eq!(first_submission_since(&all, 1150), Some(2));
    assert_eq!(first_submission_since(&all, 1301), None);
}

#[test]
fn environment_names_the_user_first() {
    let some = |name: &str| Some(name.to_string());
    assert_eq!(
        configured_atcoder_user(&some(" a "), &some("b"), &some("c")),
        some("a")
    );
    assert_eq!(
        configured_atcoder_user(&some(" "), &None, &some("c ")),
        some("c")
    );
    assert_eq!(configured_atcoder_user(&None, &some(""), &None), None);
}

#[test]
fn problem_without_a_place_is_fetched_again() {
    assert!(!problem_needs_list_refresh(&problems()[0]));
    let unplaced = Problem {
        contest_group: " ".to_string(),
        ..problems()[0].duplicate()
    };
    assert!(problem_needs_list_refresh(&unplaced));
    let mut view = RpracticeView::new();
    assert!(view.load_problem_list(Ok(vec![unplaced])));
    assert_eq!(view.status, "Fetching problem index...");
    assert!(view.has_storage);
}

#[test]
fn stored_statements_are_tidied() {
    let mut storage = PracticeStorage::new();
    let problem = &problems()[0];
    let page = |title: Option<&str>, statement: &str| ProblemDetail {
        title: title.map(str::to_string),
        statement_markdown: statement.to_string(),
        samples: detail().samples,
    };
    assert!(storage.load_problem_detail("abc002_b").is_none());
    storage.save_problem_list(&problems());
    assert!(storage.load_problem_detail("abc002_b").is_none());

    storage.save_problem_detail_at(problem, &page(Some("Page title"), "  a"), 7);
    let cached = storage.load_problem_detail("abc002_b").unwrap();
    assert!(cached.normalized);
    assert_eq!(cached.detail.statement_markdown, "a");
    assert_eq!(cached.detail.title, Some("Page title".to_string()));
    assert_eq!(cached.detail.samples[0].output, "2");
    assert_eq!(storage.problems.get("abc002_b").unwrap().fetched_at, 7);

    storage.normalize_cached_problem_detail("abc002_b", "a".to_string());
    storage.normalize_cached_problem_detail("unknown", "a".to_string());
    assert!(!storage.load_problem_detail("abc002_b").unwrap().normalized);
    assert!(storage.load_problem_detail("unknown").is_none());

    storage.save_problem_detail(problem, &page(None, "b"));
    let cached = storage.load_problem_detail("abc002_b").unwrap();
    assert_eq!(cached.detail.title, Some("Title of abc002_b".to_string()));
    assert!(storage.problems.get("abc002_b").unwrap().fetched_at > 7);
}

#[test]
fn stored_list_is_in_order_and_keeps_pages() {
    let mut storage = PracticeStorage::new();
    storage.save_problem_list(&problems());
    let ids = |storage: &PracticeStorage| {
        let list = storage.load_problem_list();
        list.iter().map(|problem| problem.id.clone()).collect::<Vec<_>>()
    };
    let in_order = vec!["abc001_a", "abc002_a", "abc002_b", "arc001_a"];
    assert_eq!(ids(&storage), in_order);
    storage.save_problem_detail_at(&problems()[0], &detail(), 7);
    assert_eq!(storage.load_problem_list()[2].title, "Page title");
    storage.save_problem_list(&problems());
    assert_eq!(ids(&storage), in_order);
    assert_eq!(storage.load_problem_list()[2].title, "Title of abc002_b");
    assert_eq!(
        storage.load_problem_detail("abc002_b").unwrap().detail.statement_markdown,
        "# S"
    );
}

#[test]
fn stored_session_is_finished() {
    let mut storage = PracticeStorage::new();
    assert_eq!(storage.start_session_at("abc001_a", 10, -5), "abc001_a-10--5");
    let session = storage.sessions.get("abc001_a-10--5").unwrap();
    assert_eq!(session.problem_id, "abc001_a");
    assert_eq!(session.started_at, 10);
    assert_eq!(session.finished_at, None);
    assert_eq!(session.duration_seconds, 0);
    storage.finish_session("abc001_a-10--5", 70, 60);
    storage.finish_session("unknown", 1, 1);
    let session = storage.sessions.get("abc001_a-10--5").unwrap();
    assert_eq!(session.finished_at, Some(70));
    assert_eq!(session.duration_seconds, 60);
    assert!(storage.sessions.get("unknown").is_none());
    assert!(storage.start_session("abc001_b", 11).starts_with("abc001_b-11-"));
}

#[test]
fn list_is_loaded_or_not() {
    let mut view = RpracticeView::new();
    assert_eq!(view.status, "Loading problem list...");
    view.load_problem_list(Err("locked".to_string()));
    assert_eq!(view.status, "Could not open Rpractice storage: locked");
    assert!(!view.finish_list_fetch(Ok(problems())));
    assert_eq!(view.status, "Loaded 4 problems.");
    assert_eq!(view.filtered_problem_indices, vec![3, 2, 0, 1]);
    view.finish_list_fetch(Err("offline".to_string()));
    assert_eq!(view.status, "Could not fetch problem list: offline");
    view.on_filter_editor_event("arc".to_string());
    assert_eq!(view.filtered_problem_indices, vec![1]);
    assert!(view.open_problem_at_index(4).is_none());
}

#[test]
fn opened_problem_shows_its_page() {
    let view = open_view();
    assert_eq!(view.problem_markdown, Some("# S".to_string()));
    assert_eq!(
        view.selected_problem.as_ref().unwrap().title,
        "Page title"
    );
    assert_eq!(view.problem_heading(), "abc001_a 「Page title」");
    assert_eq!(view.board.output_selection, OutputSelection::Step(0));
    assert_eq!(view.session_started_at, Some(1000));
    assert_eq!(view.render_source_tab(true), "a.rs *");
}

#[test]
fn answers_for_other_problems_are_not_shown() {
    let mut view = open_view();
    let query = view.fetch_submissions(&me()).unwrap();
    assert!(view.fetch_submissions(&me()).is_none());
    let other = view.open_problem_at_index(0).unwrap();
    let files = problem_files(&other);
    view.apply_opened_problem(other, files, detail(), &None, 1100);
    view.finish_submission_fetch(&query, Ok(vec![submission(5, 1, "AC")]), 1200);
    assert!(!view
        .board
        .command_output
        .items
        .iter()
        .any(|item| item.status == CommandOutputItemStatus::Passed));
}

#[test]
fn accepted_submission_ends_the_session() {
    let mut view = open_view();
    assert!(view.start_submission_watch(&None, 1500).is_none());
    view.start_submission_watch(&me(), 1500).unwrap();
    assert!(view.fetch_submissions(&me()).is_none());
    assert!(view.finish_submission_poll("abc001_a", 1500, Ok(None), 1510).again);
    let judging = Ok(Some((submission(5, 1505, "WJ"), false)));
    assert!(view.finish_submission_poll("abc001_a", 1500, judging, 1510).again);
    let other = Ok(Some((submission(5, 1505, "AC"), true)));
    assert!(view
        .finish_submission_poll("abc001_a", 1499, other, 1520)
        .finished
        .is_none());
    let accepted = Ok(Some((submission(5, 1505, "AC"), true)));
    let actions = view.finish_submission_poll("abc001_a", 1500, accepted, 1520);
    assert!(!actions.again);
    let finished = actions.finished.unwrap();
    assert_eq!(finished.session_id, "session");
    assert_eq!(finished.finished_at, 1520);
    assert_eq!(finished.duration_seconds, 520);
    assert!(view.finish_practice_session(1600).is_none());
}

#[test]
fn practice_commands_run_one_at_a_time() {
    let mut view = RpracticeView::new();
    assert!(!view.run_samples());
    assert_eq!(view.command_status, CommandStatus::Failed);
    let mut view = open_view();
    assert!(view.run_samples());
    assert!(!view.submit_solution());
    let passed = vec![(
        0,
        SampleResult::Ac {
            actual: "2".to_string(),
            stderr: String::new(),
        },
    )];
    let tested = render_practice_test_report(report(true, passed), "cargo");
    assert!(tested.success);
    let submitted = run_practice_submit(tested, ready());
    let actions = view.finish_practice_command(Ok(submitted), &me(), 2000);
    assert_eq!(actions.clipboard, Some("fn main() {}".to_string()));
    assert_eq!(actions.open_url, Some("https://submit".to_string()));
    assert_eq!(actions.watch.unwrap().atcoder_user, "me");
    assert_eq!(view.submission_watch_started_at, Some(2000));
    assert_eq!(view.command_status, CommandStatus::Succeeded);
}

#[test]
fn practice_is_submitted_whatever_the_test() {
    let tested = render_practice_test_report(report(true, vec![(0, SampleResult::Tle)]), "cargo");
    assert!(!tested.success);
    let submitted = run_practice_submit(tested, ready());
    assert!(!submitted.success);
    assert_eq!(submitted.submit_ready.unwrap().submit_url, "https://submit");
    let tested = render_practice_test_report(report(false, vec![]), "cargo");
    assert!(!tested.success);
    assert_eq!(tested.items.len(), 1);
    assert_eq!(
        tested.items[0].detail.as_ref().unwrap().heading,
        "cargo build finished with exit 101\ncargo "
    );
    let tested = render_practice_test_report(report(true, vec![]), "cargo");
    assert!(tested.success);
    assert_eq!(
        tested.items[1].detail.as_ref().unwrap().heading,
        "No sample cases are available."
    );
    let mut view = open_view();
    view.run_samples();
    view.finish_practice_command(Err("no cargo".to_string()), &me(), 2000);
    assert_eq!(
        view.board.command_output.items[0].detail.as_ref().unwrap().heading,
        "Failed before running command:\nno cargo"
    );
}

#[test]
fn sidebar_opens_and_closes() {
    let mut view = RpracticeView::new();
    assert!(view.sidebar_open());
    view.toggle_sidebar();
    assert!(!view.sidebar_open());
    view.toggle_sidebar_from_status_bar();
    assert!(view.sidebar_open());
}

#[test]
fn search_bar_follows_the_focus_while_practising() {
    let mut view = RpracticeView::new();
    assert!(view.focused_code_editor().is_none());
    assert!(view.rename_editor(true).is_none());
    assert!(view.focused_search_editor(Some(PracticeEditor::Source)).is_none());
    assert!(view.sync_search_target(None, Some(false)).is_none());

    let mut view = open_view();
    assert_eq!(view.focused_code_editor(), Some(PracticeEditor::Source));
    assert_eq!(view.rename_editor(true), Some(PracticeEditor::Source));
    assert_eq!(view.rename_editor(false), Some(PracticeEditor::Source));
    assert_eq!(view.search_target, Some(PracticeEditor::Source));
    assert!(view.sync_search_target(None, Some(false)).is_none());
    let input = Some(PracticeEditor::CaseInput(0));
    assert!(view.sync_search_target(input, None).is_none());
    assert_eq!(view.sync_search_target(input, Some(false)), input);
    assert!(view.sync_search_target(None, Some(false)).is_none());
    assert_eq!(view.sync_search_target(None, Some(true)), input);
    let missing = Some(PracticeEditor::CaseExpected(1));
    assert_eq!(view.focused_search_editor(missing), input);

    view.board.add_test_case();
    let expected = Some(PracticeEditor::CaseExpected(1));
    assert_eq!(view.sync_search_target(expected, Some(false)), expected);
    view.delete_test_case(0);
    assert_eq!(view.search_target, Some(PracticeEditor::CaseExpected(0)));
    view.delete_test_case(0);
    assert_eq!(view.search_target, Some(PracticeEditor::RemovedCase));
    assert!(view.sync_search_target(None, Some(false)).is_none());
    let source = Some(PracticeEditor::Source);
    assert_eq!(view.sync_search_target(source, Some(false)), source);
}

#[test]
fn no_command_starts_while_another_runs() {
    let labels = |view: &RpracticeView| {
        let panel = view.render_command_output();
        let enabled = panel.actions.into_iter().filter(|action| !action.disabled);
        enabled.map(|action| action.label).collect::<Vec<_>>()
    };
    let mut view = RpracticeView::new();
    assert_eq!(view.render_problem_panel().0, "Select a problem");
    assert_eq!(view.render_problem_panel().1, "Choose a problem from the list.");
    assert_eq!(labels(&view), vec!["Run", "Submit", "Submissions"]);
    view.is_fetching_submissions = true;
    assert_eq!(labels(&view), vec!["Run", "Submit"]);

    let mut view = open_view();
    assert_eq!(view.render_problem_panel().1, "# S");
    assert!(view.run_samples());
    assert!(labels(&view).is_empty());
    assert_eq!(view.render_command_output().chips.len(), 2);
}

#[test]
fn submissions_are_shown_by_the_clock() {
    let rows = format_submission_rows(&vec![submission(3, 0, "AC")]);
    assert!(rows.contains("AC"));
    assert!(rows.contains("#3"));
    let item = submissions_output_item("me", "abc001_a", Ok(vec![submission(3, 0, "AC")]));
    assert_eq!(item.label, "Submissions");
    assert_eq!(item.status, CommandOutputItemStatus::Passed);
    let item = detected_submission_output_item(&submission(4, 0, "WA"));
    assert_eq!(item.status, CommandOutputItemStatus::Warning);
}

#[test]
fn source_that_cannot_be_opened_is_reported() {
    let mut view = open_view();
    assert_eq!(view.tab_content_text(), "Rpractice abc001_a");
    view.is_loading_problem = true;
    view.fail_to_open_source();
    assert!(!view.is_loading_problem);
    assert_eq!(view.status, "Could not open the local source buffer.");
    view.fail_to_open("gone");
    assert_eq!(view.status, "Could not open problem: gone");
    assert_eq!(RpracticeView::new().tab_content_text(), "Rpractice");
}
