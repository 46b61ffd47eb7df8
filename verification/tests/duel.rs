use std::time::{SystemTime, UNIX_EPOCH};

use rcontest::duel::commands::{
    embedded_sample_result, judge_embedded_sample_test, render_command_steps, run_rduel_submit,
    run_rduel_test, submission_output_item, submission_output_item_at, EmbeddedAcrTestResult,
    RduelProcessOutput, SampleFiles, SubmitError,
};
use rcontest::duel::history::{
    history_outcome, history_submission_output, history_submission_output_at,
    rduel_session_from_history_entry, rduel_session_from_history_entry_at, render_entry,
    RduelHistoryModal,
};
use rcontest::duel::http::{
    after_failed_request, http_request, parse_http_response, parse_local_http_endpoint,
    EndpointError, ResponseError, RetryStep,
};
use rcontest::duel::matchmaking::{
    JoinResponse, MatchHistoryResponse, MatchResponse, MatchStep, PlayerStateResponse,
    RduelMatchCommand, RduelMatchModal, RduelMatchOutput, RequestBody, ResponseKind,
};
use rcontest::duel::model::{
    MatchHistoryEntry, MatchHistoryPlayer, MatchHistorySubmission, RduelSession, ServerPlayer,
    ServerPlayerActivity, ServerPlayerSubmissionRecord, ServerProblem, ServerRoom,
    ServerRoomStatus, ServerSample,
};
use rcontest::duel::presence::{
    opponent_flash_message, render_player_presence, resolve_local_player_id, RoomPresence,
    VerdictColor,
};
use rcontest::duel::project::{
    cargo_config_toml, is_test_file, open_rduel_session, prepare_rduel_project, project_places,
    read_problem_url, replace_problem_url, starter_cargo_toml, starter_code,
    write_test_case_files, ProjectFile,
};
use rcontest::duel::settings::{
    LocalRduelConfig, RduelSettings, RduelSettingsContent, DEFAULT_RDUEL_SERVER_URL,
};
use rcontest::duel::view::RduelProblem;
use rcontest::duel::wording::{
    format_elapsed, format_elapsed_at, format_problem_heading, format_relative, format_relative_at,
};
use rcontest::output::CommandOutputItemStatus;
use rcontest::runner::{ProcessStatus, SampleProcess};
use rcontest::strmap::StrMap;

#[test]
fn parse_local_http_endpoint_with_ipv4() {
    let endpoint = parse_local_http_endpoint("http://127.0.0.1:8787", "/api/join").unwrap();
    assert_eq!(endpoint.host, "127.0.0.1");
    assert_eq!(endpoint.port, 8787);
    assert_eq!(endpoint.path, "/api/join");
    assert_eq!(endpoint.host_header, "127.0.0.1:8787");
}

#[test]
fn parse_local_http_endpoint_with_localhost() {
    let endpoint = parse_local_http_endpoint("http://localhost:8080", "/test").unwrap();
    assert_eq!(endpoint.host, "localhost");
    assert_eq!(endpoint.port, 8080);
    assert_eq!(endpoint.path, "/test");
}

#[test]
fn parse_local_http_endpoint_default_port() {
    let endpoint = parse_local_http_endpoint("http://example.com", "/api").unwrap();
    assert_eq!(endpoint.host, "example.com");
    assert_eq!(endpoint.port, 80);
}

#[test]
fn parse_local_http_endpoint_with_ipv6() {
    let endpoint = parse_local_http_endpoint("http://[::1]:8080", "/api").unwrap();
    assert_eq!(endpoint.host, "::1");
    assert_eq!(endpoint.port, 8080);
}

#[test]
fn parse_local_http_endpoint_rejects_non_http() {
    assert!(parse_local_http_endpoint("https://example.com", "/").is_err());
    assert!(parse_local_http_endpoint("ftp://example.com", "/").is_err());
}

#[test]
fn parse_local_http_endpoint_rejects_empty_host() {
    assert!(parse_local_http_endpoint("http://", "/").is_err());
}

#[test]
fn format_relative_time() {
    // Test recent times
    let now = SystemTime::now()
        .duration_since(UNIX_EPOCH)
        .unwrap()
        .as_secs() as i64;

    assert_eq!(format_relative(now), "0秒前");
    assert_eq!(format_relative(now - 30), "30秒前");
    assert_eq!(format_relative(now - 90), "1分钟前");
    assert_eq!(format_relative(now - 150), "2分钟前");
    assert_eq!(format_relative(now - 3600), "1小时前");
    assert_eq!(format_relative(now - 7200), "2小时前");
    assert_eq!(format_relative(now - 86400), "1天前");
    assert_eq!(format_relative(now - 86400 * 3), "3天前");
    assert_eq!(format_relative(now - 86400 * 7), "1周前");
    assert_eq!(format_relative(now - 86400 * 14), "2周前");
    assert_eq!(format_relative(now - 86400 * 30), "1月前");
    assert_eq!(format_relative(now - 86400 * 60), "2月前");
    assert_eq!(format_relative(now - 86400 * 365), "1年前");
    assert_eq!(format_relative(now - 86400 * 730), "2年前");
}

#[test]
fn history_outcome_shows_correct_status() {
    let server_problem = ServerProblem {
        id: "abc001_a".to_string(),
        title: "Test Problem".to_string(),
        url: "https://atcoder.jp/contests/abc001/tasks/abc001_a".to_string(),
        statement_markdown: "# Problem".to_string(),
        samples: vec![],
    };

    let entry_won = MatchHistoryEntry {
        room_id: "room1".to_string(),
        problem_id: "abc001_a".to_string(),
        problem_title: "Test Problem".to_string(),
        problem: server_problem,
        started_at_second: 0,
        finished_at_second: Some(100),
        finish_reason: Some("manual_complete".to_string()),
        winner_player_id: Some("player1".to_string()),
        players: [
            MatchHistoryPlayer {
                player_id: "player1".to_string(),
                atcoder_user: "user1".to_string(),
                attempt_count: 1,
                last_verdict: Some("AC".to_string()),
                last_submission_epoch: Some(100),
                submissions: vec![],
                main_rs: None,
                cargo_toml: None,
            },
            MatchHistoryPlayer {
                player_id: "player2".to_string(),
                atcoder_user: "user2".to_string(),
                attempt_count: 0,
                last_verdict: None,
                last_submission_epoch: None,
                submissions: vec![],
                main_rs: None,
                cargo_toml: None,
            },
        ],
    };

    assert_eq!(history_outcome(&entry_won, &Some("user1".to_string())), "Win");
    assert_eq!(history_outcome(&entry_won, &Some("user2".to_string())), "Loss");

    let entry_unfinished = MatchHistoryEntry {
        finished_at_second: None,
        winner_player_id: None,
        ..entry_won
    };
    assert_eq!(
        history_outcome(&entry_unfinished, &Some("user1".to_string())),
        "Finished"
    );
}

#[test]
fn rduel_problem_from_server_converts_correctly() {
    let server_problem = ServerProblem {
        id: "abc001_a".to_string(),
        title: "Test Problem".to_string(),
        url: "https://atcoder.jp/contests/abc001/tasks/abc001_a".to_string(),
        statement_markdown: "# Problem".to_string(),
        samples: vec![ServerSample {
            input: "1 2".to_string(),
            output: "3".to_string(),
        }],
    };

    let problem = RduelProblem::from_server(&server_problem);
    assert_eq!(problem.title, "Test Problem");
    assert_eq!(problem.markdown, "# Problem");
    assert_eq!(problem.samples.len(), 1);
    assert_eq!(problem.samples[0].input, "1 2");
    assert_eq!(problem.samples[0].output, "3");
}

fn server_problem() -> ServerProblem {
    ServerProblem {
        id: "abc001_a".to_string(),
        title: "First".to_string(),
        url: "https://atcoder.jp/contests/abc001/tasks/abc001_a".to_string(),
        statement_markdown: "# Problem".to_string(),
        samples: vec![ServerSample {
            input: "1".to_string(),
            output: "2".to_string(),
        }],
    }
}

fn server_room() -> ServerRoom {
    let player = |id: &str, name: &str| ServerPlayer {
        id: id.to_string(),
        name: name.to_string(),
    };
    ServerRoom {
        id: "room-1".to_string(),
        players: [player("p1", "me"), player("p2", "you")],
        problem: server_problem(),
        status: ServerRoomStatus::Playing,
        winner_player_id: None,
        finish_reason: None,
        winning_submission: None,
        started_at_second: 1000,
        player_activity: StrMap::new(),
    }
}

fn history_entry() -> MatchHistoryEntry {
    let player = |id: &str, user: &str| MatchHistoryPlayer {
        player_id: id.to_string(),
        atcoder_user: user.to_string(),
        attempt_count: 2,
        last_verdict: Some("AC".to_string()),
        last_submission_epoch: Some(1090),
        submissions: vec![],
        main_rs: Some(format!("// {user}")),
        cargo_toml: Some("[package]".to_string()),
    };
    MatchHistoryEntry {
        room_id: "room-1".to_string(),
        problem_id: "abc001_a".to_string(),
        problem_title: "First".to_string(),
        problem: server_problem(),
        started_at_second: 1000,
        finished_at_second: Some(1100),
        finish_reason: Some("accepted".to_string()),
        winner_player_id: Some("p2".to_string()),
        players: [player("p1", "me"), player("p2", "you")],
    }
}

fn step(label: &'static str, success: bool, stdout: &str, stderr: &str) -> RduelProcessOutput {
    RduelProcessOutput {
        label,
        executable: "/usr/bin/cargo".to_string(),
        args: vec!["build".to_string(), "--release".to_string()],
        status: ProcessStatus {
            success,
            code: if success { Some(0) } else { None },
        },
        stdout: stdout.to_string(),
        stderr: stderr.to_string(),
    }
}

#[test]
fn endpoint_errors_are_told_apart() {
    let error = |url: &str| parse_local_http_endpoint(url, "/").err();
    assert_eq!(error("https://a"), Some(EndpointError::NotHttp));
    assert_eq!(error("http:///path"), Some(EndpointError::MissingHost));
    assert_eq!(error("http://:80"), Some(EndpointError::MissingHost));
    assert_eq!(error("http://[::1"), Some(EndpointError::UnterminatedIpv6));
    assert_eq!(error("http://[::1]x"), Some(EndpointError::UnexpectedAfterIpv6));
    assert_eq!(error("http://a:65536"), Some(EndpointError::InvalidPort));
    assert_eq!(error("http://[::1]/x?y"), None);
}

#[test]
fn request_says_how_long_it_is() {
    let endpoint = parse_local_http_endpoint("http://[::1]/x", "join").unwrap();
    assert_eq!(endpoint.host_header, "[::1]:80");
    assert_eq!(
        http_request("POST", &endpoint, "é"),
        "POST /join HTTP/1.1\r\nHost: [::1]:80\r\nConnection: close\r\nContent-Type: application/json\r\nContent-Length: 2\r\n\r\né"
    );
}

#[test]
fn responses_of_failure_are_errors() {
    assert_eq!(
        parse_http_response("HTTP/1.1 204 No Content\r\nA: b\r\n\r\nbody").ok(),
        Some("body".to_string())
    );
    let error = parse_http_response("HTTP/1.1 404 Not Found\r\n\r\nno").err().unwrap();
    assert!(matches!(&error, ResponseError::Status { status: 404, body } if body == "no"));
    assert_eq!(error.message(), "Server returned HTTP 404: no");
    assert!(matches!(
        parse_http_response("HTTP/1.1 200"),
        Err(ResponseError::MissingSeparator)
    ));
    assert!(matches!(
        parse_http_response("HTTP/1.1 x\r\n\r\n"),
        Err(ResponseError::InvalidStatusLine)
    ));
    assert_eq!(
        ResponseError::InvalidStatusLine.message(),
        "Server returned invalid HTTP status line"
    );
}

#[test]
fn failures_of_the_client_are_not_retried() {
    assert_eq!(after_failed_request("timed out", 0), RetryStep::RetryAfter(100));
    assert_eq!(after_failed_request("timed out", 1), RetryStep::RetryAfter(200));
    assert_eq!(after_failed_request("timed out", 2), RetryStep::Fail);
    assert_eq!(
        after_failed_request("Server returned HTTP 404: no", 0),
        RetryStep::Fail
    );
    assert_eq!(after_failed_request("invalid JSON", 0), RetryStep::Fail);
}

#[test]
fn times_are_worded() {
    assert_eq!(format_elapsed_at(1059, 1000), "00:59");
    assert_eq!(format_elapsed_at(1000 + 3600 + 62, 1000), "1:01:02");
    assert_eq!(format_elapsed_at(0, 1000), "00:00");
    assert_eq!(format_relative_at(1000 + 604_799, 1000), "6天前");
    assert_eq!(format_problem_heading("abc001_a", " 「First」 "), "abc001_a 「First」");
    assert_eq!(format_problem_heading("abc001_a", "「」"), "abc001_a");
}

#[test]
fn written_problem_is_read_back() {
    let manifest = replace_problem_url(&starter_cargo_toml(), "https://a/tasks/b");
    assert_eq!(read_problem_url(&manifest), Some("https://a/tasks/b".to_string()));
    let manifest = replace_problem_url("[package]", "u");
    assert_eq!(
        manifest,
        "[package]\n\n[package.metadata.acr]\nproblem_url = \"u\"\n"
    );
    assert_eq!(read_problem_url(&manifest), Some("u".to_string()));
    assert_eq!(read_problem_url("problem_url = 3"), None);
}

#[test]
fn project_is_laid_out() {
    assert_eq!(
        cargo_config_toml("C:\\target"),
        "[build]\ntarget-dir = \"C:\\\\target\"\n"
    );
    assert!(is_test_file("0.in"));
    assert!(is_test_file("12.out"));
    assert!(!is_test_file("notes.txt"));
    let writes = write_test_case_files(&vec![("a".to_string(), "b".to_string())]);
    assert_eq!(writes.len(), 2);
    assert!(matches!(&writes[0].file, ProjectFile::Test(name) if name == "0.in"));
    assert!(matches!(&writes[1].file, ProjectFile::Test(name) if name == "0.out"));
    assert_eq!(writes[1].content, "b");
    let prepared = prepare_rduel_project("/target");
    assert_eq!(prepared.len(), 4);
    assert_eq!(prepared[1].content, starter_cargo_toml());
    assert!(prepared[1].only_if_missing);
    assert_eq!(prepared[2].place, vec![".cargo", "config.toml"]);
    assert_eq!(prepared[2].content, "[build]\ntarget-dir = \"/target\"\n");
    assert_eq!(prepared[3].content, starter_code());
    assert!(!prepared[3].only_if_missing);
    let places = project_places();
    assert_eq!(places.root, vec![".rduel", "abc001", "a"]);
    assert_eq!(places.problem_rs, vec![".rduel", "abc001", "a", "src", "main.rs"]);
    assert_eq!(places.problem_markdown, vec![".rduel", "abc001", "a", "problem.md"]);
    assert_eq!(places.cargo_toml, vec![".rduel", "abc001", "a", "Cargo.toml"]);
    assert_eq!(places.tests, vec![".rduel", "abc001", "a", "tests"]);
    assert_eq!(places.cargo_config, vec![".rduel", "abc001", "a", ".cargo", "config.toml"]);
    assert_eq!(places.target, vec![".cache", "rduel", "target"]);
}

#[test]
fn session_is_put_into_the_project() {
    let session = RduelSession {
        player_id: "p1".to_string(),
        token: String::new(),
        room: Some(server_room()),
        server_url: DEFAULT_RDUEL_SERVER_URL.to_string(),
        initial_main_rs: Some("fn main() {}".to_string()),
        initial_cargo_toml: None,
        opponent_main_rs: None,
        initial_command_output: None,
        is_history: false,
    };
    let writes = open_rduel_session(&session, "");
    assert_eq!(writes.len(), 5);
    assert!(matches!(writes[0].file, ProjectFile::ProblemMarkdown));
    assert_eq!(writes[0].content, "# Problem");
    assert!(matches!(writes[3].file, ProjectFile::CargoToml));
    assert_eq!(
        read_problem_url(&writes[3].content),
        Some(server_problem().url)
    );
    assert!(matches!(writes[4].file, ProjectFile::MainRs));
}

#[test]
fn saved_settings_are_used() {
    let settings = RduelSettings::from_settings(None, None);
    assert_eq!(settings.atcoder_user, "");
    assert_eq!(settings.server_url, "http://127.0.0.1:8787");
    let saved = || LocalRduelConfig::save_atcoder_user_and_server_url("me", "http://a");
    let settings = RduelSettings::from_settings(
        Some(RduelSettingsContent {
            atcoder_user: Some(" ".to_string()),
            server_url: Some("http://b".to_string()),
        }),
        Some(saved()),
    );
    assert_eq!(settings.atcoder_user, "me");
    assert_eq!(settings.server_url, "http://b");
}

#[test]
fn opponent_is_the_other_player() {
    let mut room = server_room();
    let presence = |room: &ServerRoom| {
        RoomPresence::from_room(room, &Some("p1".to_string()), &None)
    };
    let before = presence(&room);
    assert_eq!(before.local.as_ref().unwrap().name, "me");
    assert_eq!(before.opponent.as_ref().unwrap().name, "you");
    room.player_activity.insert(
        "p2".to_string(),
        ServerPlayerActivity {
            attempt_count: 1,
            last_verdict: Some("WA".to_string()),
            last_submission_epoch: Some(1010),
        },
    );
    let after = presence(&room);
    assert_eq!(
        opponent_flash_message(&Some(before), &after),
        Some("对手提交了：WA".to_string())
    );
    assert_eq!(opponent_flash_message(&None, &after), None);
    let line = render_player_presence("对手", &after.opponent, 1070);
    assert_eq!(line.attempts, Some("1 次提交".to_string()));
    assert_eq!(line.verdict, Some("WA".to_string()));
    assert_eq!(line.last_submission, Some("1分钟前".to_string()));
    assert_eq!(line.color, VerdictColor::Error);
    assert_eq!(render_player_presence("你", &None, 0).name, "—");
    assert_eq!(
        resolve_local_player_id(&room, "old".to_string(), &Some(" you ".to_string())),
        "p2"
    );
    assert_eq!(resolve_local_player_id(&room, "old".to_string(), &None), "old");
}

#[test]
fn solution_is_judged_on_its_output() {
    let finished = |stdout: &str| SampleProcess::Finished {
        status: ProcessStatus {
            success: true,
            code: Some(0),
        },
        stdout: stdout.to_string(),
        stderr: String::new(),
    };
    assert!(matches!(
        judge_embedded_sample_test("1\n", finished("1")),
        EmbeddedAcrTestResult::Ac { .. }
    ));
    assert!(matches!(
        judge_embedded_sample_test("1", finished("2")),
        EmbeddedAcrTestResult::Wa { actual, expected } if actual == "2" && expected == "1"
    ));
    assert!(matches!(
        embedded_sample_result(SampleFiles::Unreadable {
            path: "0.in".to_string(),
            reason: "denied".to_string()
        }),
        Some(EmbeddedAcrTestResult::Re { stderr }) if stderr == "Failed to read 0.in: denied"
    ));
    assert!(embedded_sample_result(SampleFiles::Missing).is_none());
}

#[test]
fn test_succeeds_when_every_case_is_accepted() {
    let accepted = || EmbeddedAcrTestResult::Ac {
        actual: "1".to_string(),
    };
    let passed = run_rduel_test(
        step("cargo build", true, "", "warning: x"),
        &vec![(0, accepted()), (1, accepted())],
    );
    assert!(passed.success);
    assert_eq!(passed.rendered, "Build: OK\nTest: AC (2 cases)");
    assert_eq!(passed.items[0].status, CommandOutputItemStatus::Warning);
    let failed = run_rduel_test(
        step("cargo build", true, "", ""),
        &vec![
            (0, accepted()),
            (
                1,
                EmbeddedAcrTestResult::Wa {
                    actual: "2\n".to_string(),
                    expected: "1\n".to_string(),
                },
            ),
            (2, EmbeddedAcrTestResult::Tle),
        ],
    );
    assert!(!failed.success);
    assert_eq!(
        failed.rendered,
        "Build: OK\nTest: Failed\n1/3 cases passed\n\nCase 1: WA\nExpected:\n1\n\nActual:\n2\n\nCase 2: TLE\n"
    );
    assert_eq!(failed.case_results.len(), 3);
}

#[test]
fn only_passing_solutions_become_ready() {
    let submit = |build: RduelProcessOutput, cargo_toml: &str| {
        run_rduel_submit(
            run_rduel_test(build, &vec![]),
            "main.rs".to_string(),
            "fn main() {}".to_string(),
            cargo_toml,
        )
    };
    let manifest = "problem_url = \"https://atcoder.jp/contests/c/tasks/t\"";
    let ready = submit(step("cargo build", true, "", ""), manifest)
        .unwrap_or_else(|_| panic!("the manifest names a problem"))
        .submit_ready
        .unwrap();
    assert_eq!(ready.source_code, "fn main() {}");
    assert_eq!(
        ready.submit_url,
        "https://atcoder.jp/contests/c/submit?taskScreenName=t"
    );
    let stopped = submit(step("cargo build", false, "out", "error"), manifest)
        .unwrap_or_else(|_| panic!("nothing is read"));
    assert!(stopped.submit_ready.is_none());
    assert_eq!(
        stopped.rendered,
        "Build failed.\n\nerror\n\n[stdout]\nout\n\nSubmit was stopped because the solution did not build."
    );
    let error = submit(step("cargo build", true, "", ""), "").err().unwrap();
    assert_eq!(error, SubmitError::NoProblemUrl);
    assert_eq!(error.message(), "problem_url was not found in Cargo.toml");
}

#[test]
fn steps_are_rendered() {
    let shown = render_command_steps(&vec![step("cargo run", false, "", "oops\n")]);
    assert!(!shown.success);
    assert_eq!(
        shown.rendered,
        "$ cargo run (exit signal)\n/usr/bin/cargo build --release\n\n[stderr]\noops\n"
    );
    assert_eq!(
        shown.items[0].detail.as_ref().unwrap().heading,
        "cargo run failed (exit signal)"
    );
    assert_eq!(render_command_steps(&vec![]).rendered, "No command was run.");
}

#[test]
fn detected_submission_is_shown() {
    let item = submission_output_item_at(
        1030,
        &ServerPlayerSubmissionRecord {
            id: 7,
            epoch_second: 1000,
            verdict: " AC ".to_string(),
        },
    );
    assert_eq!(item.status, CommandOutputItemStatus::Passed);
    let detail = item.detail.unwrap();
    assert_eq!(detail.heading, "Detected AtCoder submission: AC");
    assert_eq!(detail.sections[0].body, "AC       30秒前  #7");
}

#[test]
fn commands_become_requests() {
    let command = RduelMatchCommand::Leave {
        server_url: "http://a".to_string(),
        player_id: "p1".to_string(),
        token: "t".to_string(),
        main_rs: None,
        cargo_toml: None,
    };
    let request = command.request();
    assert_eq!(request.method, "POST");
    assert_eq!(request.path, "/players/p1/leave");
    assert!(matches!(
        request.body,
        RequestBody::Leave { token, .. } if token == "t"
    ));
    assert_eq!(command.response_kind(), ResponseKind::Left);
    assert!(matches!(
        command.run(MatchResponse::Left),
        RduelMatchOutput::Waiting { player_id, token: None } if player_id == "p1"
    ));
}

#[test]
fn first_token_is_kept_until_the_match() {
    let settings = RduelSettings {
        atcoder_user: "me".to_string(),
        server_url: "http://a".to_string(),
    };
    let (mut modal, entered) = RduelMatchModal::new(&settings);
    assert_eq!(entered, "me");
    assert!(modal.join("  ").is_none());
    let (saved, join) = modal.join(" me ").unwrap();
    assert_eq!(saved.atcoder_user, Some("me".to_string()));
    let waiting = join.run(MatchResponse::Join(JoinResponse::Waiting {
        player_id: "p1".to_string(),
        token: "t".to_string(),
    }));
    let MatchStep::Poll(poll) = modal.handle_match_result(Some(waiting)) else {
        panic!("the player waits");
    };
    assert_eq!(poll.request().path, "/players/p1");
    let matched = poll.run(MatchResponse::Player(PlayerStateResponse::Matched {
        player_id: "p1".to_string(),
        room: server_room(),
    }));
    let MatchStep::Open(session) = modal.handle_match_result(Some(matched)) else {
        panic!("the match is found");
    };
    assert_eq!(session.token, "t");
    assert!(!session.is_history);
    assert!(modal.leave_matchmaking().is_none());
}

#[test]
fn waiting_player_leaves_once() {
    let settings = RduelSettings {
        atcoder_user: String::new(),
        server_url: "http://a".to_string(),
    };
    let (mut modal, _) = RduelMatchModal::new(&settings);
    let (_, join) = modal.join("me").unwrap();
    let waiting = join.run(MatchResponse::Join(JoinResponse::Waiting {
        player_id: "p1".to_string(),
        token: "t".to_string(),
    }));
    modal.handle_match_result(Some(waiting));
    assert!(modal.poll().is_some());
    assert!(matches!(
        modal.leave_matchmaking(),
        Some(RduelMatchCommand::Leave { token, .. }) if token == "t"
    ));
    assert!(modal.leave_matchmaking().is_none());
    modal.handle_match_result(None);
    assert_eq!(modal.status, "连接失败，请确认 Rduel 服务器已启动后重试。");
}

#[test]
fn history_can_be_looked_at() {
    let settings = RduelSettings {
        atcoder_user: "me".to_string(),
        server_url: "http://a".to_string(),
    };
    let (mut modal, load) = RduelHistoryModal::new(&settings);
    assert!(modal.is_loading);
    assert!(modal.load().is_none());
    let loaded = load.run(MatchResponse::History(MatchHistoryResponse {
        matches: vec![history_entry()],
    }));
    modal.finish_loading(Some(loaded));
    assert_eq!(modal.status, "");
    let session = modal.open_history_match(0, 2000).unwrap();
    assert!(session.is_history);
    assert_eq!(session.token, "");
    assert_eq!(session.player_id, "p1");
    assert_eq!(session.initial_main_rs, Some("// me".to_string()));
    assert_eq!(
        session.opponent_main_rs,
        Some(("you".to_string(), "// you".to_string()))
    );
    assert!(modal.open_history_match(1, 2000).is_none());
    modal.finish_loading(None);
    assert_eq!(modal.status, "Could not load match history from the server.");
}

#[test]
fn history_row_is_worded() {
    let row = render_entry(1160, &history_entry(), &Some("me".to_string()));
    assert_eq!(row.title, "abc001_a First");
    assert_eq!(row.stats, "2次提交 · AC · 1:40");
    assert_eq!(row.time, "1分钟前");
    assert_eq!(row.outcome, "Loss");
    let session =
        rduel_session_from_history_entry_at(1160, &history_entry(), &Some("you".to_string()), "u")
            .unwrap();
    assert_eq!(session.player_id, "p2");
    assert_eq!(session.room.unwrap().status, ServerRoomStatus::Finished);
}

#[test]
fn recorded_submissions_are_listed() {
    let mut entry = history_entry();
    assert!(history_submission_output_at(1160, &entry).is_none());
    entry.players[1].submissions = vec![MatchHistorySubmission {
        id: 5,
        epoch_second: 1100,
        verdict: "AC".to_string(),
    }];
    let output = history_submission_output_at(1160, &entry).unwrap();
    let detail = output.items[0].detail.as_ref().unwrap();
    assert_eq!(detail.sections.len(), 1);
    assert_eq!(detail.sections[0].title, "you");
    assert_eq!(detail.sections[0].body, "#5 · AC · 1分钟前");
}

#[test]
fn times_go_by_the_clock() {
    let now = SystemTime::now().duration_since(UNIX_EPOCH).unwrap().as_secs() as i64;
    let elapsed = format_elapsed(now - 61);
    assert!(["01:01", "01:02", "01:03"].contains(&elapsed.as_str()));
    let record = ServerPlayerSubmissionRecord {
        id: 7,
        epoch_second: now - 7200,
        verdict: "WA".to_string(),
    };
    let item = submission_output_item(&record);
    let body = &item.detail.unwrap().sections[0].body;
    assert!(body.contains("2小时前"));

    let mut entry = history_entry();
    assert!(history_submission_output(&entry).is_none());
    entry.players[0].submissions.push(MatchHistorySubmission {
        id: 8,
        epoch_second: now - 7200,
        verdict: "AC".to_string(),
    });
    let output = history_submission_output(&entry).unwrap();
    assert_eq!(output.items.len(), 1);
    let session =
        rduel_session_from_history_entry(&entry, &Some("me".to_string()), "http://a").unwrap();
    assert!(session.is_history);
    assert_eq!(session.player_id, "p1");
    assert_eq!(session.initial_main_rs, Some("// me".to_string()));
    assert!(session.initial_command_output.is_some());
}
