use rcontest::duel::commands::{RduelCommandOutput, RduelSubmitReady};
use rcontest::duel::matchmaking::{CommandStatus, RduelMatchCommand, RduelMatchOutput};
use rcontest::duel::model::{
    RduelSession, ServerPlayer, ServerPlayerActivity, ServerPlayerSubmissionRecord, ServerProblem,
    ServerRoom, ServerRoomFinishReason, ServerRoomStatus, ServerSample, ServerWinningSubmission,
};
use rcontest::duel::view::{
    active_project_path, is_remote_image, ActiveCodeTab, EditorId, LayoutOrder, RduelView,
    CODE_SNAPSHOT_INTERVAL, OPPONENT_FLASH_DURATION,
};
use rcontest::output::{CommandOutputItemStatus, OutputSelection};
use rcontest::strmap::StrMap;

fn room() -> ServerRoom {
    let player = |id: &str, name: &str| ServerPlayer {
        id: id.to_string(),
        name: name.to_string(),
    };
    ServerRoom {
        id: "room-1".to_string(),
        players: [player("p1", "me"), player("p2", "you")],
        problem: ServerProblem {
            id: "abc001_a".to_string(),
            title: "「First」".to_string(),
            url: "https://atcoder.jp/contests/abc001/tasks/abc001_a".to_string(),
            statement_markdown: "# Problem".to_string(),
            samples: vec![ServerSample {
                input: "1".to_string(),
                output: "2".to_string(),
            }],
        },
        status: ServerRoomStatus::Playing,
        winner_player_id: None,
        finish_reason: None,
        winning_submission: None,
        started_at_second: 1000,
        player_activity: StrMap::new(),
    }
}

fn finished_room(winner: &str, reason: ServerRoomFinishReason) -> ServerRoom {
    ServerRoom {
        status: ServerRoomStatus::Finished,
        winner_player_id: Some(winner.to_string()),
        finish_reason: Some(reason),
        ..room()
    }
}

fn session(room: Option<ServerRoom>) -> RduelSession {
    RduelSession {
        player_id: "p1".to_string(),
        token: "t".to_string(),
        room,
        server_url: "http://a".to_string(),
        initial_main_rs: None,
        initial_cargo_toml: None,
        opponent_main_rs: None,
        initial_command_output: None,
        is_history: false,
    }
}

fn view() -> RduelView {
    RduelView::new(session(Some(room())), " me ", Some("/project".to_string()))
}

fn outcome(success: bool, ready: bool) -> RduelCommandOutput {
    RduelCommandOutput {
        success,
        rendered: String::new(),
        items: vec![],
        case_results: vec![],
        submit_ready: if ready {
            Some(RduelSubmitReady {
                source_code: "fn main() {}".to_string(),
                source_path: "main.rs".to_string(),
                submit_url: "https://submit".to_string(),
            })
        } else {
            None
        },
    }
}

#[test]
fn view_opens_on_the_first_case() {
    let view = view();
    assert!(view.is_playing());
    assert_eq!(view.match_state.room_id, Some("room-1".to_string()));
    assert_eq!(view.match_state.local_atcoder_user, Some("me".to_string()));
    assert_eq!(view.board.output_selection, OutputSelection::Case(0));
    assert_eq!(view.problem_heading(), "abc001_a 「First」");
    assert!(view.is_dirty(false, false));
    assert_eq!(
        view.write_test_cases_to_disk(),
        Some(vec![("1".to_string(), "2".to_string())])
    );
}

#[test]
fn view_without_a_room_has_no_problem() {
    let view = RduelView::new(session(None), "", None);
    assert_eq!(view.problem.id, "Rduel");
    assert_eq!(view.board.output_selection, OutputSelection::Step(0));
    assert!(view.presence.is_none());
    assert!(view.poll_room_after_delay().is_none());
}

#[test]
fn outcome_of_a_match_is_told_once() {
    let mut view = view();
    let won = finished_room("p1", ServerRoomFinishReason::Accepted);
    let actions = view.handle_room_status(&won, 50, "main", "toml");
    assert!(!actions.again);
    assert_eq!(
        actions.message,
        Some("The match has finished. You won.".to_string())
    );
    assert!(matches!(
        actions.snapshot,
        Some(RduelMatchCommand::UploadCodeSnapshot { main_rs, .. }) if main_rs == "main"
    ));
    assert!(!view.is_playing());
    let again = view.handle_room_status(&won, 60, "main", "toml");
    assert!(again.message.is_none());
    assert!(again.snapshot.is_none());
}

#[test]
fn loser_sees_the_winning_code() {
    let mut view = view();
    let lost = ServerRoom {
        winning_submission: Some(ServerWinningSubmission {
            player_id: "p2".to_string(),
            atcoder_user: "you".to_string(),
            source_code: Some("// better".to_string()),
        }),
        ..finished_room("p2", ServerRoomFinishReason::Accepted)
    };
    view.select_opponent_main_rs();
    assert_eq!(view.active_code_tab, ActiveCodeTab::MainRs);
    assert_eq!(
        view.handle_room_status(&lost, 0, "a", "b").message,
        Some("The match has finished. you got AC first.".to_string())
    );
    let opponent = view.opponent.as_ref().unwrap();
    assert_eq!(opponent.title, "you/main.rs");
    assert_eq!(opponent.source_code, "// better");
    view.select_opponent_main_rs();
    assert_eq!(view.active_code_tab, ActiveCodeTab::OpponentMainRs);
    assert_eq!(view.active_code_editor(), Some(EditorId::OpponentMainRs));
    let tabs = view.render_code_tabs(true, false);
    assert_eq!(tabs.len(), 3);
    assert_eq!(tabs[0].label, "src/main.rs *");
    assert!(tabs[2].selected);
}

#[test]
fn messages_name_the_reason() {
    let message = |winner: &str, reason: ServerRoomFinishReason| {
        view().apply_room_status(&finished_room(winner, reason)).unwrap()
    };
    assert_eq!(
        message("p1", ServerRoomFinishReason::PlayerLeft),
        "The match has finished. You won because you left the match."
    );
    assert_eq!(
        message("p2", ServerRoomFinishReason::PlayerLeft),
        "The match has finished. you won because you left the match."
    );
    assert_eq!(
        message("p2", ServerRoomFinishReason::ManualComplete),
        "The match has finished. you completed first."
    );
}

#[test]
fn code_is_uploaded_now_and_then() {
    let mut view = view();
    assert!(view.upload_code_snapshot(10, "a", "b").is_some());
    assert!(view
        .upload_code_snapshot(10 + CODE_SNAPSHOT_INTERVAL - 1, "a", "b")
        .is_none());
    assert!(view
        .upload_code_snapshot(10 + CODE_SNAPSHOT_INTERVAL, "a", "b")
        .is_some());
}

#[test]
fn player_leaves_a_match_once() {
    let mut view = view();
    assert!(matches!(
        view.leave_active_match("a", "b"),
        Some(RduelMatchCommand::Leave { token, main_rs, .. })
            if token == "t" && main_rs == Some("a".to_string())
    ));
    assert!(view.leave_active_match("a", "b").is_none());
    assert!(view.upload_code_snapshot(0, "a", "b").is_none());
}

#[test]
fn history_asks_nothing_of_the_server() {
    let history = RduelSession {
        is_history: true,
        token: String::new(),
        opponent_main_rs: Some((" ".to_string(), "// code".to_string())),
        ..session(Some(finished_room("p1", ServerRoomFinishReason::Accepted)))
    };
    let mut view = RduelView::new(history, "somebody", None);
    assert!(!view.is_playing());
    assert_eq!(view.match_state.local_atcoder_user, Some("me".to_string()));
    assert_eq!(view.opponent.as_ref().unwrap().title, "opponent/main.rs");
    assert!(view.poll_room_after_delay().is_none());
    assert!(view.leave_active_match("a", "b").is_none());
    assert!(view.upload_code_snapshot(0, "a", "b").is_none());
    assert!(view.start_server_submission_watch(5).is_none());
    assert!(!view.is_dirty(false, false));
}

#[test]
fn commands_run_one_at_a_time() {
    let mut view = view();
    assert!(view.spawn_rduel_command(false, None));
    assert_eq!(view.command_status, CommandStatus::Running);
    assert!(!view.spawn_rduel_command(true, None));
    let actions = view.finish_rduel_command(Ok(outcome(true, false)), true, 1010, 0, "a", "b");
    assert!(actions.clipboard.is_none());
    assert_eq!(view.command_status, CommandStatus::Succeeded);
    assert!(!view.spawn_rduel_command(false, Some("denied".to_string())));
    assert_eq!(view.command_status, CommandStatus::Failed);
    assert_eq!(
        view.board.command_output.items[0].detail.as_ref().unwrap().heading,
        "Failed to write test cases:\ndenied"
    );
}

#[test]
fn ready_solution_is_copied_and_watched_for() {
    let earlier = view().start_server_submission_watch(900).unwrap();
    let mut view = view();
    let actions = view.finish_rduel_command(Ok(outcome(true, true)), true, 1010, 0, "a", "b");
    assert_eq!(actions.clipboard, Some("fn main() {}".to_string()));
    assert_eq!(actions.open_url, Some("https://submit".to_string()));
    assert!(actions.snapshot.is_some());
    let watch = actions.watch.unwrap();
    assert_eq!(watch.from_second, 1010);
    assert_eq!(view.submission_watch_started_at, Some(1010));

    let late = view.finish_submission_poll(earlier, Err("x".to_string()), 1020, 0, "a", "b");
    assert!(late.next.is_none());
    assert_eq!(view.submission_watch_started_at, Some(1010));
    let check = |detected: bool| RduelMatchOutput::SubmissionCheck {
        room: room(),
        detected_submission: if detected {
            Some(ServerPlayerSubmissionRecord {
                id: 7,
                epoch_second: 1015,
                verdict: "WA".to_string(),
            })
        } else {
            None
        },
    };
    let watch = view.finish_submission_poll(watch, Ok(check(false)), 1020, 0, "a", "b").next;
    let watch = watch.unwrap();
    assert_eq!(watch.room_id, "room-1");
    let actions = view.finish_submission_poll(watch, Ok(check(true)), 1020, 0, "a", "b");
    assert!(actions.next.is_none());
    assert_eq!(view.submission_watch_started_at, None);
    let items = &view.board.command_output.items;
    assert_eq!(items.len(), 1);
    assert_eq!(items[0].status, CommandOutputItemStatus::Warning);
    assert_eq!(
        items[0].detail.as_ref().unwrap().heading,
        "Detected AtCoder submission: WA"
    );
}

#[test]
fn missing_project_is_reported() {
    let mut view = view();
    assert!(view.check_project());
    view.finish_rduel_command(Err("no cargo".to_string()), false, 0, 0, "a", "b");
    let items = &view.board.command_output.items;
    assert_eq!(items.len(), 2);
    assert_eq!(
        items[0].detail.as_ref().unwrap().heading,
        "Failed before running command:\nno cargo"
    );
    assert_eq!(
        items[1].detail.as_ref().unwrap().heading,
        "Rduel project directory no longer exists: /project"
    );
    view.project_root = None;
    assert!(!view.check_project());
    assert_eq!(view.command_status, CommandStatus::Failed);
}

#[test]
fn submission_of_the_opponent_flashes() {
    let mut view = view();
    let mut active = room();
    active.player_activity.insert(
        "p2".to_string(),
        ServerPlayerActivity {
            attempt_count: 1,
            last_verdict: Some("WA".to_string()),
            last_submission_epoch: Some(1010),
        },
    );
    view.update_room_presence(&active, 100);
    let header = view.render_versus_header(1065, 100);
    assert_eq!(header.flash, Some("对手提交了：WA".to_string()));
    assert_eq!(header.elapsed, "01:05");
    assert_eq!(header.local.name, "me");
    assert_eq!(header.opponent.name, "you");
    assert!(!header.is_finished);
    view.tick_match_timer(101 + OPPONENT_FLASH_DURATION);
    assert!(view.opponent_flash.is_none());
}

#[test]
fn search_bar_follows_the_focus() {
    let mut view = view();
    assert_eq!(
        view.sync_search_target(Some(EditorId::CaseInput(0)), Some(false)),
        Some(EditorId::CaseInput(0))
    );
    assert_eq!(view.sync_search_target(Some(EditorId::CaseInput(0)), Some(false)), None);
    assert_eq!(
        view.sync_search_target(Some(EditorId::CaseInput(9)), Some(true)),
        Some(EditorId::CaseInput(0))
    );
    assert_eq!(view.sync_search_target(None, None), None);
    view.select_cargo_toml();
    assert_eq!(
        view.focused_search_editor(Some(EditorId::CargoToml)),
        Some(EditorId::CargoToml)
    );
    assert_eq!(
        view.focused_code_editor(Some(EditorId::MainRs)),
        Some(EditorId::MainRs)
    );
    assert_eq!(view.focused_code_editor(None), Some(EditorId::CargoToml));
}

#[test]
fn name_is_changed_where_the_change_began() {
    let mut view = view();
    let (main_rs, cargo_toml) = (Some(EditorId::MainRs), Some(EditorId::CargoToml));
    assert_eq!(view.rename_editor(true, true, cargo_toml), main_rs);
    assert_eq!(view.rename_editor(false, true, main_rs), cargo_toml);
    assert_eq!(view.rename_editor(false, false, cargo_toml), cargo_toml);
    assert_eq!(view.rename_editor(false, false, None), main_rs);
    view.select_cargo_toml();
    assert_eq!(view.rename_editor(false, false, None), cargo_toml);
}

#[test]
fn search_bar_stays_with_its_case() {
    let mut view = view();
    while view.board.test_cases.len() < 3 {
        view.board.add_test_case();
    }
    view.sync_search_target(Some(EditorId::CaseExpected(2)), Some(false));
    view.delete_test_case(9);
    assert_eq!(view.search_target, Some(EditorId::CaseExpected(2)));
    view.delete_test_case(0);
    assert_eq!(view.search_target, Some(EditorId::CaseExpected(1)));
    assert_eq!(view.board.test_cases.len(), 2);
    view.delete_test_case(1);
    assert_eq!(view.search_target, Some(EditorId::RemovedCase));
    assert_eq!(view.focused_search_editor(None), Some(EditorId::RemovedCase));
    view.delete_test_case(0);
    assert_eq!(view.search_target, Some(EditorId::RemovedCase));
    assert_eq!(
        view.sync_search_target(Some(EditorId::MainRs), Some(false)),
        Some(EditorId::MainRs)
    );
}

#[test]
fn layout_toggles_back_and_forth() {
    let mut view = view();
    view.toggle_layout();
    assert_eq!(view.layout_order, LayoutOrder::CodeLeft);
    view.toggle_layout();
    assert_eq!(view.layout_order, LayoutOrder::ProblemLeft);
    assert_eq!(active_project_path(false, true), Some(ActiveCodeTab::CargoToml));
    assert_eq!(active_project_path(false, false), None);
    assert!(is_remote_image("https://a"));
    assert!(!is_remote_image("/a"));
}

#[test]
fn failed_poll_is_made_again() {
    let mut view = view();
    assert!(matches!(
        view.poll_room_after_delay(),
        Some(RduelMatchCommand::PollRoom { room_id, .. }) if room_id == "room-1"
    ));
    assert!(view.finish_room_poll(None, 0, "a", "b").again);
    let status = RduelMatchOutput::RoomStatus {
        room: finished_room("p1", ServerRoomFinishReason::Accepted),
    };
    assert!(!view.finish_room_poll(Some(status), 0, "a", "b").again);
}

#[test]
fn code_is_handed_in_while_the_match_goes_on() {
    let mut playing = view();
    let command = playing.schedule_snapshot_upload(0, "fn main() {}", "[package]");
    assert!(matches!(
        command,
        Some(RduelMatchCommand::UploadCodeSnapshot { main_rs, .. }) if main_rs == "fn main() {}"
    ));
    assert!(playing.schedule_snapshot_upload(CODE_SNAPSHOT_INTERVAL - 1, "", "").is_none());
    let mut over = view();
    over.match_state.room_status = ServerRoomStatus::Finished;
    assert!(over.schedule_snapshot_upload(0, "", "").is_none());
    assert!(over.last_snapshot_upload.is_none());
}

#[test]
fn buttons_rest_while_a_command_runs() {
    let mut view = view();
    let panel = view.render_command_output();
    let labels: Vec<&str> = panel.actions.iter().map(|action| action.label.as_str()).collect();
    assert_eq!(labels, vec!["Run", "Submit"]);
    assert!(panel.actions.iter().all(|action| !action.disabled));
    assert!(view.spawn_rduel_command(false, None));
    let panel = view.render_command_output();
    assert!(panel.actions.iter().all(|action| action.disabled));
    view.select_cargo_toml();
    view.select_main_rs();
    assert_eq!(view.active_code_tab, ActiveCodeTab::MainRs);
}

#[test]
fn submissions_are_asked_about_in_a_room() {
    let mut view = view();
    let watch = view.start_server_submission_watch(9).unwrap();
    assert!(matches!(
        view.poll_submission_after_delay(&watch),
        RduelMatchCommand::WatchSubmissions { from_second: 9, room_id, .. } if room_id == "room-1"
    ));
    let mut outside = RduelView::new(session(None), "", None);
    assert!(outside.start_server_submission_watch(9).is_none());
}

#[test]
fn submissions_are_waited_for_after_leaving() {
    let mut view = view();
    let watch = view.start_server_submission_watch(9).unwrap();
    let player_id = watch.player_id.clone();
    assert!(view.leave_active_match("a", "b").is_some());
    assert!(view.match_state.room_id.is_none());
    let check = RduelMatchOutput::SubmissionCheck {
        room: room(),
        detected_submission: None,
    };
    let watch = view.finish_submission_poll(watch, Ok(check), 12, 0, "a", "b").next.unwrap();
    assert_eq!(watch.room_id, "room-1");
    assert_eq!(watch.player_id, player_id);
    assert!(matches!(
        view.poll_submission_after_delay(&watch),
        RduelMatchCommand::WatchSubmissions { from_second: 9, room_id, .. } if room_id == "room-1"
    ));
}
