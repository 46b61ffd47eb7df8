use rcontest::copying::Duplicate;
use rcontest::server::api;
use rcontest::server::api::{ApiError, LeaveRequest};
use rcontest::server::history::{
    history_entry_from_room, history_entry_from_stored, requested_history_limit, MatchHistoryStore,
};
use rcontest::server::model::{
    AtCoderSubmission, JoinDecision, JoinRequest, JoinResponse, LeaveOutcome, PlayerActivity,
    PlayerCodeSnapshot, PlayerStateResponse, Problem, Room, RoomFinishReason, RoomStatus,
};
use rcontest::server::polling::{
    begin_poll, finish_poll, finish_poll_at, poll_room_submission_state, with_winning_source, PollStep,
    RateLimiter,
};
use rcontest::server::pool::{
    fallback_statement_markdown, fetch_problem, fill_problem, load_problem_pool, ProblemConfig,
    ProblemSelection,
};
use rcontest::server::rooms::RduelRooms;

fn test_rooms() -> RduelRooms {
    RduelRooms::new(vec![Problem {
        id: "abc001_a".to_string(),
        title: "abc001_a".to_string(),
        url: "https://atcoder.jp/contests/abc001/tasks/abc001_a".to_string(),
        statement_markdown: String::new(),
        samples: Vec::new(),
    }])
}

fn join_request(player_id: &str, name: &str) -> JoinRequest {
    JoinRequest {
        name: name.to_string(),
        player_id: Some(player_id.to_string()),
    }
}

#[test]
fn repeated_join_keeps_waiting_player_queued() {
    let mut rooms = test_rooms();

    assert!(matches!(
        rooms.join(join_request("player-1", "atcoder-user-a")),
        JoinDecision::Respond(JoinResponse::Waiting { player_id, .. }) if player_id == "player-1"
    ));
    assert!(matches!(
        rooms.join(join_request("player-1", "atcoder-user-a")),
        JoinDecision::Respond(JoinResponse::Waiting { player_id, .. }) if player_id == "player-1"
    ));

    assert_eq!(rooms.waiting_players.len(), 1);
    assert_eq!(rooms.waiting_players[0].id, "player-1");

    assert!(matches!(
        rooms.join(join_request("player-2", "atcoder-user-b")),
        JoinDecision::CreateRoom { opponent, player }
            if opponent.id == "player-1" && player.id == "player-2"
    ));
}

#[test]
fn new_connection_replaces_same_atcoder_user_in_queue() {
    let mut rooms = test_rooms();

    assert!(matches!(
        rooms.join(join_request("old-player", "atcoder-user-a")),
        JoinDecision::Respond(JoinResponse::Waiting { .. })
    ));
    assert!(matches!(
        rooms.join(join_request("new-player", "atcoder-user-a")),
        JoinDecision::Respond(JoinResponse::Waiting { player_id, .. }) if player_id == "new-player"
    ));

    assert!(!rooms.players.contains_key("old-player"));
    assert!(rooms.players.contains_key("new-player"));
    assert_eq!(rooms.waiting_players.len(), 1);
    assert_eq!(rooms.waiting_players[0].id, "new-player");
}

#[test]
fn leaving_during_matching_aborts_room_creation() {
    let mut rooms = test_rooms();
    rooms.join(join_request("player-1", "atcoder-user-a"));
    let JoinDecision::CreateRoom { opponent, player } =
        rooms.join(join_request("player-2", "atcoder-user-b"))
    else {
        panic!("expected a CreateRoom decision");
    };

    // player-1 leaves while problem selection is still in flight.
    assert!(matches!(
        rooms.leave_player("player-1"),
        LeaveOutcome::LeftWaiting
    ));

    // create_room must not resurrect the player that left; it requeues only
    // the survivor and creates no room.
    let problem = rooms.problems[0].duplicate();
    let response = rooms.create_room(opponent, player, problem);
    assert!(
        matches!(response, JoinResponse::Waiting { player_id, .. } if player_id == "player-2")
    );
    assert!(!rooms.players.contains_key("player-1"));
    assert!(rooms.rooms.is_empty());
    assert_eq!(rooms.waiting_players.len(), 1);
    assert_eq!(rooms.waiting_players[0].id, "player-2");
}

#[test]
fn join_issues_token_required_for_privileged_actions() {
    let mut rooms = test_rooms();
    let JoinDecision::Respond(JoinResponse::Waiting { player_id, token }) =
        rooms.join(join_request("player-1", "atcoder-user-a"))
    else {
        panic!("expected a Waiting response");
    };

    assert!(!token.is_empty());
    assert!(rooms.token_matches(&player_id, &token));
    assert!(!rooms.token_matches(&player_id, "wrong-token"));
    assert!(!rooms.token_matches(&player_id, ""));

    // Leaving forgets the player and their token.
    assert!(matches!(
        rooms.leave_player(&player_id),
        LeaveOutcome::LeftWaiting
    ));
    assert!(!rooms.token_matches(&player_id, &token));
}

#[test]
fn update_player_activity_merges_per_player() {
    let mut rooms = test_rooms();
    rooms.join(join_request("player-1", "atcoder-user-a"));
    let JoinDecision::CreateRoom { opponent, player } =
        rooms.join(join_request("player-2", "atcoder-user-b"))
    else {
        panic!("expected a CreateRoom decision");
    };
    let problem = rooms.problems[0].duplicate();
    let JoinResponse::Matched { room, .. } = rooms.create_room(opponent, player, problem)
    else {
        panic!("expected a Matched response");
    };
    let room_id = room.id;

    rooms.update_player_activity(
        &room_id,
        &[(
            "player-1".to_string(),
            PlayerActivity {
                attempt_count: 2,
                last_verdict: Some("WA".to_string()),
                last_submission_epoch: Some(100),
            },
        )],
        &[],
    );
    let activity = &rooms.rooms.get(&room_id).unwrap().player_activity;
    assert_eq!(activity.get("player-1").unwrap().attempt_count, 2);
    assert_eq!(activity.get("player-1").unwrap().last_verdict.as_deref(), Some("WA"));
    assert!(!activity.contains_key("player-2"));

    // A later update for one player must not wipe the other's activity.
    rooms.update_player_activity(
        &room_id,
        &[(
            "player-2".to_string(),
            PlayerActivity {
                attempt_count: 1,
                last_verdict: Some("AC".to_string()),
                last_submission_epoch: Some(200),
            },
        )],
        &[],
    );
    let activity = &rooms.rooms.get(&room_id).unwrap().player_activity;
    assert_eq!(activity.get("player-1").unwrap().attempt_count, 2);
    assert_eq!(activity.get("player-2").unwrap().attempt_count, 1);
    assert_eq!(activity.get("player-2").unwrap().last_verdict.as_deref(), Some("AC"));
}

/// Two players in the room "room-1" since the second 1000, with the tokens "token-1" and "token-2".
fn playing_rooms() -> RduelRooms {
    let mut rooms = test_rooms();
    let fresh = |n: usize| (format!("fresh-{n}"), format!("token-{n}"));
    let (id, token) = fresh(1);
    rooms.join_with(join_request("player-1", "atcoder-user-a"), id, token);
    let (id, token) = fresh(2);
    let decision = rooms.join_with(join_request("player-2", "atcoder-user-b"), id, token);
    let JoinDecision::CreateRoom { opponent, player } = decision else {
        panic!("the players are paired");
    };
    let problem = rooms.problems[0].duplicate();
    let response = rooms.create_room_at(opponent, player, problem, "room-1".to_string(), 1000);
    assert!(matches!(
        response,
        JoinResponse::Matched { player_id, token, room }
            if player_id == "player-2" && token == "token-2" && room.started_at_second == 1000
    ));
    rooms
}

fn room(rooms: &RduelRooms) -> Room {
    rooms.room_state("room-1").unwrap()
}

fn submission(id: i64, epoch_second: i64, result: &str) -> AtCoderSubmission {
    AtCoderSubmission {
        id,
        epoch_second,
        problem_id: "abc001_a".to_string(),
        result: result.to_string(),
        source_code: None,
    }
}

fn leave_request(token: &str) -> LeaveRequest {
    LeaveRequest {
        token: token.to_string(),
        main_rs: None,
        cargo_toml: None,
    }
}

#[test]
fn player_without_an_id_gets_a_fresh_one() {
    let mut rooms = test_rooms();
    let request = JoinRequest {
        name: " atcoder-user-a ".to_string(),
        player_id: None,
    };
    let decision = rooms.join_with(request, "fresh".to_string(), "token".to_string());
    assert!(matches!(
        decision,
        JoinDecision::Respond(JoinResponse::Waiting { player_id, token })
            if player_id == "fresh" && token == "token"
    ));
    let request = JoinRequest {
        name: "atcoder-user-b".to_string(),
        player_id: None,
    };
    let JoinDecision::CreateRoom { player, .. } = rooms.join(request) else {
        panic!("the players are paired");
    };
    assert_eq!(player.id.len(), 36);
    assert_eq!(&player.id[14..15], "4");
    assert_ne!(rooms.token_for(&player.id), player.id);
}

#[test]
fn players_see_where_they_are() {
    let mut rooms = test_rooms();
    rooms.join(join_request("player-1", "atcoder-user-a"));
    assert!(matches!(
        api::player_state(&rooms, "player-1"),
        Ok(PlayerStateResponse::Waiting { player_id }) if player_id == "player-1"
    ));
    assert!(matches!(
        api::player_state(&rooms, "player-9"),
        Err(ApiError::PlayerNotFound)
    ));
    assert!(matches!(
        api::room_state(&rooms, "room-1"),
        Err(ApiError::RoomNotFound)
    ));
    let rooms = playing_rooms();
    assert!(matches!(
        api::player_state(&rooms, "player-1"),
        Ok(PlayerStateResponse::Matched { player_id, room })
            if player_id == "player-1" && room.id == "room-1"
    ));
    assert_eq!(room(&rooms).players[0].id, "player-1");
    assert_eq!(room(&rooms).players[1].id, "player-2");
}

#[test]
fn leaving_a_match_loses_it() {
    let mut rooms = playing_rooms();
    assert!(matches!(
        api::leave_at(&mut rooms, "player-1", leave_request("token-2"), 1100),
        Err(ApiError::InvalidToken)
    ));
    let request = LeaveRequest {
        token: "token-1".to_string(),
        main_rs: Some("fn main() {}".to_string()),
        cargo_toml: Some("[package]".to_string()),
    };
    let reply = api::leave_at(&mut rooms, "player-1", request, 1100).unwrap_or_else(|_| {
        panic!("the token is right");
    });
    assert!(reply.left);
    assert_eq!(reply.state, Some("room".to_string()));
    let recorded = reply.record.unwrap();
    assert_eq!(recorded.winner_player_id, Some("player-2".to_string()));
    assert_eq!(recorded.finish_reason, Some(RoomFinishReason::PlayerLeft));
    assert_eq!(recorded.finished_at_second, Some(1100));
    assert_eq!(
        recorded.code_snapshots.get("player-1").unwrap().captured_at_second,
        1100
    );
    assert!(!rooms.token_matches("player-1", "token-1"));

    let reply = api::leave_at(&mut rooms, "player-2", leave_request("token-2"), 1200)
        .unwrap_or_else(|_| panic!("the token is right"));
    assert!(!reply.left);
    assert_eq!(reply.state, Some("finished".to_string()));
    assert!(reply.record.is_none());
    assert_eq!(room(&rooms).winner_player_id, Some("player-2".to_string()));
    assert_eq!(room(&rooms).finished_at_second, Some(1100));
}

#[test]
fn first_outcome_is_final() {
    let mut rooms = playing_rooms();
    assert!(matches!(
        api::complete_room_at(&mut rooms, "room-1", "player-1", "wrong", 1050),
        Err(ApiError::InvalidToken)
    ));
    assert!(matches!(
        api::complete_room_at(&mut rooms, "room-9", "player-1", "token-1", 1050),
        Err(ApiError::RoomOrPlayerNotFound)
    ));
    let won = api::complete_room_at(&mut rooms, "room-1", "player-1", "token-1", 1050)
        .unwrap_or_else(|_| panic!("the token is right"));
    assert_eq!(won.status, RoomStatus::Finished);
    assert_eq!(won.finish_reason, Some(RoomFinishReason::ManualComplete));
    let late = rooms.apply_submission_ac_at("room-1", "player-2", submission(5, 1040, "AC"), 1060);
    assert_eq!(late.unwrap().winner_player_id, Some("player-1".to_string()));
    let again = api::complete_room_at(&mut rooms, "room-1", "player-2", "token-2", 1070)
        .unwrap_or_else(|_| panic!("the token is right"));
    assert_eq!(again.winner_player_id, Some("player-1".to_string()));
    assert_eq!(again.finished_at_second, Some(1050));
}

#[test]
fn errors_have_codes_and_messages() {
    assert_eq!(ApiError::PlayerNotFound.status_code(), 404);
    assert_eq!(ApiError::RoomNotFound.message(), "room was not found");
    assert_eq!(
        ApiError::RoomOrPlayerNotFound.message(),
        "room or player was not found"
    );
    assert_eq!(ApiError::InvalidToken.status_code(), 401);
    assert_eq!(ApiError::HistoryUnavailable.status_code(), 500);
}

#[test]
fn uploads_are_recorded_after_the_match_only() {
    let mut rooms = playing_rooms();
    let upload = |rooms: &mut RduelRooms, now: i64| {
        api::upload_code_snapshot_at(
            rooms,
            "room-1",
            "player-1",
            "token-1",
            format!("// {now}"),
            String::new(),
            now,
        )
        .unwrap_or_else(|_| panic!("the token is right"))
    };
    let (shown, record) = upload(&mut rooms, 1010);
    assert!(!record);
    assert_eq!(shown.code_snapshots.get("player-1").unwrap().main_rs, "// 1010");
    rooms.complete_room_at("room-1", "player-2", 1020);
    let (shown, record) = upload(&mut rooms, 1030);
    assert!(record);
    assert_eq!(shown.code_snapshots.get("player-1").unwrap().main_rs, "// 1030");
    let snapshot = PlayerCodeSnapshot {
        captured_at_second: 1,
        main_rs: String::new(),
        cargo_toml: String::new(),
    };
    assert!(rooms
        .update_code_snapshot("room-1", "player-9", snapshot)
        .is_none());
}

#[test]
fn submissions_are_watched_once() {
    let mut rooms = playing_rooms();
    let (_, started) = api::watch_room_submissions(&mut rooms, "room-1")
        .unwrap_or_else(|_| panic!("the room is there"));
    assert!(started);
    let (_, started) = api::watch_room_submissions(&mut rooms, "room-1")
        .unwrap_or_else(|_| panic!("the room is there"));
    assert!(!started);
    assert!(matches!(
        api::watch_room_submissions(&mut rooms, "room-9"),
        Err(ApiError::RoomNotFound)
    ));
    assert!(matches!(
        begin_poll(&mut rooms, "room-1"),
        PollStep::Poll(room) if room.id == "room-1"
    ));
    rooms.complete_room_at("room-1", "player-1", 1100);
    assert!(matches!(begin_poll(&mut rooms, "room-1"), PollStep::Stop));
    assert!(!room(&rooms).polling_submissions);
    assert!(matches!(begin_poll(&mut rooms, "room-9"), PollStep::Stop));
}

#[test]
fn earliest_accepted_submission_wins() {
    let mut rooms = playing_rooms();
    let other = AtCoderSubmission {
        problem_id: "abc001_b".to_string(),
        ..submission(1, 1005, "AC")
    };
    let poll = poll_room_submission_state(
        &room(&rooms),
        &Some(vec![
            submission(2, 999, "AC"),
            other,
            submission(3, 1010, "WA"),
            submission(4, 1040, "AC"),
        ]),
        &Some(vec![submission(5, 1030, "AC")]),
    );
    assert_eq!(poll.activity.len(), 2);
    assert_eq!(poll.activity[0].1.attempt_count, 2);
    assert_eq!(poll.activity[0].1.last_verdict, Some("AC".to_string()));
    assert_eq!(poll.activity[0].1.last_submission_epoch, Some(1040));
    let poll = with_winning_source(poll, Some("fn main() {}".to_string()));
    let finished = finish_poll_at(&mut rooms, "room-1", poll, 1050).unwrap();
    assert_eq!(finished.winner_player_id, Some("player-2".to_string()));
    assert_eq!(finished.finish_reason, Some(RoomFinishReason::Accepted));
    let winning = finished.winning_submission.unwrap();
    assert_eq!(winning.submission_id, 5);
    assert_eq!(winning.epoch_second, 1030);
    assert_eq!(winning.atcoder_user, "atcoder-user-b");
    assert_eq!(winning.source_code, Some("fn main() {}".to_string()));
    assert_eq!(
        room(&rooms).player_submissions.get("player-1").unwrap().len(),
        2
    );
}

#[test]
fn failed_reading_keeps_what_was_known() {
    let mut rooms = playing_rooms();
    let poll = poll_room_submission_state(
        &room(&rooms),
        &Some(vec![submission(3, 1010, "WA")]),
        &Some(vec![]),
    );
    assert!(finish_poll_at(&mut rooms, "room-1", poll, 1020).is_none());
    let poll = poll_room_submission_state(&room(&rooms), &None, &Some(vec![]));
    assert!(finish_poll_at(&mut rooms, "room-1", poll, 1030).is_none());
    let activity = &room(&rooms).player_activity;
    assert_eq!(activity.get("player-1").unwrap().attempt_count, 1);
    assert_eq!(activity.get("player-2").unwrap().attempt_count, 0);
}

#[test]
fn old_rooms_are_forgotten_with_their_players() {
    let mut rooms = playing_rooms();
    assert_eq!(rooms.reap_finished(60, 5000), 0);
    rooms.complete_room_at("room-1", "player-1", 1100);
    assert_eq!(rooms.reap_finished(60, 1160), 0);
    assert_eq!(rooms.reap_finished(60, 1161), 1);
    assert!(rooms.rooms.is_empty());
    assert!(rooms.player_state("player-1").is_none());
    assert!(!rooms.token_matches("player-2", "token-2"));
}

#[test]
fn pair_without_a_problem_waits_again() {
    let mut rooms = test_rooms();
    rooms.join(join_request("player-1", "atcoder-user-a"));
    let JoinDecision::CreateRoom { opponent, player } =
        rooms.join(join_request("player-2", "atcoder-user-b"))
    else {
        panic!("the players are paired");
    };
    let response =
        api::finish_pairing_at(&mut rooms, opponent, player, None, "room-1".to_string(), 1000);
    assert!(matches!(
        response,
        JoinResponse::Waiting { player_id, .. } if player_id == "player-2"
    ));
    assert!(rooms.rooms.is_empty());
    let waiting: Vec<String> = rooms.waiting_players.iter().map(|p| p.id.clone()).collect();
    assert_eq!(waiting, vec!["player-1", "player-2"]);
}

#[test]
fn requests_are_spaced() {
    let mut limiter = RateLimiter::new(700, 100);
    assert_eq!(limiter.reserve(100), 100);
    assert_eq!(limiter.reserve(150), 800);
    assert_eq!(limiter.reserve(5000), 5000);
    assert_eq!(limiter.reserve(5001), 5700);
    let mut slots = vec![];
    for now in [5002, 5003, 6000, 9000, 9000, 9001] {
        slots.push(limiter.reserve(now));
    }
    assert_eq!(slots, vec![6400, 7100, 7800, 9000, 9700, 10400]);
    for (i, slot) in slots.iter().enumerate() {
        assert!(slots[i + 1..].iter().all(|later| *later >= slot + 700));
    }
}

#[test]
fn history_shows_both_players() {
    let mut rooms = playing_rooms();
    rooms.complete_room_at("room-1", "player-1", 1100);
    let entry = history_entry_from_room(&room(&rooms));
    assert_eq!(entry.room_id, "room-1");
    assert_eq!(entry.status, "finished");
    assert_eq!(entry.finish_reason, Some("manual_complete".to_string()));
    assert_eq!(entry.winner_player_id, Some("player-1".to_string()));
    assert_eq!(entry.finished_at_second, Some(1100));
    assert_eq!(entry.players[0].atcoder_user, "atcoder-user-a");
    assert_eq!(entry.players[1].attempt_count, 0);
    assert_eq!(entry.players[1].main_rs, None);
    let stored = history_entry_from_stored(room(&rooms), Some(7));
    assert_eq!(stored.finished_at_second, Some(7));
    assert_eq!(requested_history_limit(None), 50);
    assert_eq!(requested_history_limit(Some(0)), 1);
    assert_eq!(requested_history_limit(Some(500)), 200);
}

#[test]
fn pool_has_a_problem_for_each_number_and_task() {
    let config = |contest_end: u32| ProblemConfig {
        contest_prefix: "abc".to_string(),
        contest_start: 8,
        contest_end,
        tasks: vec!["a".to_string(), "b".to_string()],
    };
    let pool = load_problem_pool(&config(10)).unwrap_or_else(|_| panic!("there are problems"));
    let ids: Vec<String> = pool.iter().map(|problem| problem.id.clone()).collect();
    assert_eq!(
        ids,
        vec!["abc008_a", "abc008_b", "abc009_a", "abc009_b", "abc010_a", "abc010_b"]
    );
    assert_eq!(
        pool[5].url,
        "https://atcoder.jp/contests/abc010/tasks/abc010_b"
    );
    assert!(load_problem_pool(&config(7)).is_err());
}

#[test]
fn problem_is_chosen_among_those_that_can_be_read() {
    let problems = test_rooms().problems;
    let mut selection = ProblemSelection::begin(&problems).unwrap();
    assert_eq!(selection.candidate.id, "abc001_a");
    assert_eq!(selection.attempts_left, 0);
    let chosen = selection.fetched(None, &problems).unwrap();
    assert_eq!(
        chosen.statement_markdown,
        "## Problem Statement\n\nCould not fetch the AtCoder statement before matchmaking completed.\n\n[Open the problem on AtCoder](https://atcoder.jp/contests/abc001/tasks/abc001_a?lang=en)\n"
    );
    assert_eq!(
        chosen.statement_markdown,
        fallback_statement_markdown(&problems[0])
    );
    assert!(ProblemSelection::begin(&vec![]).is_none());

    let mut selection = ProblemSelection::begin_with(problems[0].duplicate(), 9);
    assert_eq!(selection.attempts_left, 2);
    let next = Problem {
        id: "abc002_a".to_string(),
        ..problems[0].duplicate()
    };
    let blank = Problem {
        statement_markdown: " \n".to_string(),
        ..problems[0].duplicate()
    };
    assert!(selection.fetched_with(Some(blank), next).is_none());
    assert_eq!(selection.candidate.id, "abc002_a");
    let read = Problem {
        statement_markdown: "x".to_string(),
        ..problems[0].duplicate()
    };
    let chosen = selection
        .fetched_with(Some(read), problems[0].duplicate())
        .unwrap();
    assert_eq!(chosen.statement_markdown, "x");
}

#[test]
fn page_fills_a_problem() {
    let html = "<title>A - First</title><div id=\"task-statement\"><p>Count.</p></div>";
    let problem = fetch_problem(test_rooms().problems[0].duplicate(), html)
        .unwrap_or_else(|_| panic!("the page has a statement"));
    assert_eq!(problem.title, "abc001_a 「First」");
    assert_eq!(problem.statement_markdown, "Count.");
    assert_eq!(problem.samples.len(), 0);
    assert!(fetch_problem(test_rooms().problems[0].duplicate(), "<p></p>").is_err());
    let filled = fill_problem(
        test_rooms().problems[0].duplicate(),
        "",
        "",
        "Sample Input\n```\n1\n```\nSample Output\n```\n2\n```\n".to_string(),
    );
    assert_eq!(filled.title, "abc001_a");
    assert_eq!(filled.samples.len(), 1);
    assert_eq!(filled.samples[0].output, "2");
}

#[test]
fn history_lists_latest_matches_first() {
    let match_at = |id: &str, second: i64, user: &str| {
        let mut rooms = playing_rooms();
        rooms.complete_room_at("room-1", "player-1", second + 5);
        let mut room = room(&rooms);
        room.id = id.to_string();
        room.started_at_second = second;
        room.atcoder_users.insert("player-2".to_string(), user.to_string());
        room
    };
    let ids = |store: &MatchHistoryStore, limit: usize| {
        let matches = store.recent_matches(limit);
        matches.iter().map(|entry| entry.room_id.clone()).collect::<Vec<_>>()
    };
    let mut store = MatchHistoryStore::new();
    assert!(store.recent_matches(10).is_empty());
    store.record_room(match_at("first", 10, "x"));
    store.record_room(match_at("third", 30, "y"));
    store.record_room(match_at("second", 20, "x"));
    assert_eq!(ids(&store, 10), vec!["third", "second", "first"]);
    assert_eq!(ids(&store, 2), vec!["third", "second"]);

    store.record_room(match_at("first", 40, "y"));
    assert_eq!(ids(&store, 10), vec!["first", "third", "second"]);

    let of_user = store.matches_for_user("y".to_string(), 10);
    let ids_of_user: Vec<String> = of_user.iter().map(|entry| entry.room_id.clone()).collect();
    assert_eq!(ids_of_user, vec!["first", "third"]);
    assert_eq!(of_user[0].finished_at_second, Some(45));
    assert_eq!(store.matches_for_user("atcoder-user-a".to_string(), 1).len(), 1);
    assert!(store.matches_for_user("nobody".to_string(), 10).is_empty());
}

#[test]
fn three_tasks_of_each_contest_are_offered() {
    let config = ProblemConfig {
        contest_prefix: "abc".to_string(),
        contest_start: 42,
        contest_end: 463,
        tasks: vec!["a".to_string(), "b".to_string(), "c".to_string()],
    };
    let pool = load_problem_pool(&config).unwrap_or_else(|_| panic!("there are problems"));
    assert_eq!(pool.len(), 1266);
    assert_eq!(pool[0].id, "abc042_a");
    assert_eq!(pool[1265].id, "abc463_c");
}

#[test]
fn accepted_submission_is_applied_once() {
    let mut rooms = playing_rooms();
    let finished = rooms
        .apply_submission_ac("room-1", "player-2", submission(5, 1005, "AC"))
        .unwrap();
    assert_eq!(finished.winner_player_id, Some("player-2".to_string()));
    assert!(finished.finished_at_second.unwrap() > 1005);
    assert_eq!(finished.winning_submission.unwrap().submission_id, 5);
    let again = rooms
        .apply_submission_ac("room-1", "player-1", submission(4, 1004, "AC"))
        .unwrap();
    assert_eq!(again.winner_player_id, Some("player-2".to_string()));
    let mut rooms = playing_rooms();
    let none = poll_room_submission_state(&room(&rooms), &None, &None);
    assert!(finish_poll(&mut rooms, "room-1", none).is_none());
}
