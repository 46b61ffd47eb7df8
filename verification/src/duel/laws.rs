//! What holds of a match as the player sees it, whatever happens.

use vstd::prelude::*;

use crate::cases;
use crate::cases::TestCaseModel;
use crate::duel::commands::RduelCommandOutputModel;
use crate::duel::matchmaking::RduelMatchOutputModel;
use crate::duel::model::{
    RduelSessionModel, ServerRoomFinishReason, ServerRoomModel, ServerRoomStatus,
};
use crate::duel::view;
use crate::duel::view::{EditorId, RduelViewModel, CODE_SNAPSHOT_INTERVAL};
use crate::output::{CaseResultModel, CommandOutputItemModel};

verus! {

/// The user is told only once how a match ended.
pub proof fn outcome_is_told_once(
    view: RduelViewModel,
    room: ServerRoomModel,
    now: u64,
    later: ServerRoomModel,
)
    requires
        view.outcome_message(room) is Some,
    ensures
        view.after_room(room, now).outcome_message(later) is None,
{
}

/// A match that is over is not looked at again, and does not start again whatever the server says.
pub proof fn finished_match_stays_finished(
    view: RduelViewModel,
    room: ServerRoomModel,
    now: u64,
    main_rs: Seq<char>,
    cargo_toml: Seq<char>,
)
    requires
        !view.is_playing(),
    ensures
        !view.after_room(room, now).is_playing(),
        !view.room_actions(room, now, main_rs, cargo_toml).again,
        view.outcome_message(room) is None,
{
}

/// A match ends for the user exactly when the server says that it is over, and then they are told.
pub proof fn server_ends_match(view: RduelViewModel, room: ServerRoomModel, now: u64)
    requires
        view.is_playing(),
    ensures
        view.after_room(room, now).is_playing() <==> room.status != ServerRoomStatus::Finished,
        view.outcome_message(room) is Some <==> room.status == ServerRoomStatus::Finished,
{
}

/// The winner of a match that nobody left is told that they won, and nobody else is told so.
pub proof fn only_winner_is_congratulated(view: RduelViewModel, room: ServerRoomModel)
    requires
        view.is_playing(),
        room.status == ServerRoomStatus::Finished,
    ensures
        view.outcome_message(room) == Some("The match has finished. You won."@) <==> (
        room.winner_player_id == view.match_state.player_id && room.finish_reason != Some(
            ServerRoomFinishReason::PlayerLeft,
        )),
{
    reveal_strlit("The match has finished. You won.");
    reveal_strlit("The match has finished. You won because ");
    reveal_strlit("The match has finished. ");
    reveal_strlit(" left the match.");
    reveal_strlit(" won because you left the match.");
    reveal_strlit(" completed first.");
    reveal_strlit(" got AC first.");
    reveal_strlit("The match has finished.");
    let message = view.outcome_message(room)->0;
    let name = view.remote_name(room);
    let congratulation = "The match has finished. You won."@;
    assert(congratulation[congratulation.len() - 2] == 'n');
    if room.winner_player_id != view.match_state.player_id || room.finish_reason == Some(
        ServerRoomFinishReason::PlayerLeft,
    ) {
        assert(message[message.len() - 2] != 'n');
    }
}

/// Changing the sides twice changes nothing.
pub proof fn layout_toggles_back(order: view::LayoutOrder)
    ensures
        view::toggled(view::toggled(order)) == order,
        view::toggled(order) != order,
{
}

/// Leaving a match a second time asks nothing of the server, and nothing else is begun in the name of
/// the player.
pub proof fn player_leaves_match_once(
    view: RduelViewModel,
    main_rs: Seq<char>,
    cargo_toml: Seq<char>,
    now: u64,
    second: i64,
)
    requires
        view.leave_request(main_rs, cargo_toml) is Some,
    ensures
        ({
            let left = view.after_leave();
            &&& left.leave_request(main_rs, cargo_toml) is None
            &&& left.snapshot_request(now, main_rs, cargo_toml) is None
            &&& left.watch_from(second) is None
        }),
{
}

/// The code is not handed in again before the interval is over.
pub proof fn snapshots_are_spaced(
    view: RduelViewModel,
    first: u64,
    second: u64,
    main_rs: Seq<char>,
    cargo_toml: Seq<char>,
)
    requires
        view.snapshot_request(first, main_rs, cargo_toml) is Some,
    ensures
        view.after_snapshot(first).snapshot_request(second, main_rs, cargo_toml) is Some
            <==> second >= first + CODE_SNAPSHOT_INTERVAL,
{
}

/// Nothing is asked of the server about a match of the past: it is not left, no code is handed in,
/// no submission is waited for.
pub proof fn history_asks_nothing(
    session: RduelSessionModel,
    configured: Seq<char>,
    root: Option<Seq<char>>,
    now: u64,
    second: i64,
    main_rs: Seq<char>,
    cargo_toml: Seq<char>,
)
    requires
        session.is_history,
        session.room matches Some(room) && room.status == ServerRoomStatus::Finished,
    ensures
        ({
            let view = view::opened(session, configured, root);
            &&& !view.is_playing()
            &&& view.leave_request(main_rs, cargo_toml) is None
            &&& view.snapshot_request(now, main_rs, cargo_toml) is None
            &&& view.watch_from(second) is None
            &&& view.match_state.room_id is None
        }),
{
}

/// The answer to an earlier question about submissions does not count once a later one was asked.
pub proof fn late_answer_is_ignored(
    view: RduelViewModel,
    earlier: i64,
    later: i64,
    answer: Result<RduelMatchOutputModel, Seq<char>>,
    second: i64,
    now: u64,
)
    requires
        earlier != later,
        view.is_playing(),
        view.watch_from(later) is Some,
    ensures
        view.after_watch_start(later).after_submission_poll(earlier, answer, second, now)
            == view.after_watch_start(later),
{
}

/// Submissions that are waited for stay those of the player in the match in which the waiting began:
/// leaving the match neither ends it, nor changes what is asked next.
pub proof fn watch_outlives_match(
    view: RduelViewModel,
    from_second: i64,
    room: ServerRoomModel,
    now: u64,
    main_rs: Seq<char>,
    cargo_toml: Seq<char>,
)
    requires
        view.is_playing(),
        view.watch_from(from_second) is Some,
        room.status == ServerRoomStatus::Playing,
    ensures
        ({
            let watch = view.watch_from(from_second)->0;
            let left = view.after_watch_start(from_second).after_leave();
            let answer = Ok::<RduelMatchOutputModel, Seq<char>>(
                RduelMatchOutputModel::SubmissionCheck { room, detected_submission: None },
            );
            &&& left.match_state.room_id is None
            &&& left.submission_poll_actions(watch, answer, now, main_rs, cargo_toml).next == Some(
                watch,
            )
        }),
{
}

/// When a test case is removed, the search bar stays with the test case that it is at, if that is
/// another one, and moves to no other, if it is not.
pub proof fn search_stays_with_case(view: RduelViewModel, index: usize, i: usize)
    requires
        index < view.board.test_cases.len(),
        i < view.board.test_cases.len(),
    ensures
        ({
            let next = view.without_case(index);
            let k = if i > index {
                (i - 1) as usize
            } else {
                i
            };
            &&& i != index ==> next.board.test_cases[k as int] == view.board.test_cases[i as int]
            &&& view.search_target == Some(EditorId::CaseInput(i)) ==> next.search_target
                == Some(
                if i == index {
                    EditorId::RemovedCase
                } else {
                    EditorId::CaseInput(k)
                },
            )
            &&& view.search_target == Some(EditorId::CaseExpected(i)) ==> next.search_target
                == Some(
                if i == index {
                    EditorId::RemovedCase
                } else {
                    EditorId::CaseExpected(k)
                },
            )
            &&& next.search_editor(None) == match view.search_target {
                Some(_) => next.search_target,
                None => view.search_editor(None),
            }
        }),
{
    if i != index {
        cases::other_cases_stay(view.board, index, i);
    }
}

proof fn results_keep_length(cases: Seq<TestCaseModel>, results: Seq<(usize, CaseResultModel)>)
    ensures
        cases::with_results(cases, results).len() == cases.len(),
    decreases results.len(),
{
    if results.len() > 0 {
        results_keep_length(cases, results.drop_last());
    }
}

proof fn board_steps_keep_valid(
    board: cases::OutputBoardModel,
    label: Seq<char>,
    item: CommandOutputItemModel,
)
    requires
        board.is_valid(),
        board.test_cases.len() < usize::MAX,
    ensures
        board.focused_after_run().is_valid(),
        board.with_step(label, item).is_valid(),
{
    cases::selected_case_exists(board, 0, label, item);
}

/// Whatever happens to a match, the code of the opponent is shown only where there is some, and the
/// case that is selected is there.
pub proof fn views_stay_valid(
    view: RduelViewModel,
    room: ServerRoomModel,
    result: Result<RduelCommandOutputModel, Seq<char>>,
    answer: Result<RduelMatchOutputModel, Seq<char>>,
    error: Option<Seq<char>>,
    submit: bool,
    root_exists: bool,
    index: usize,
    second: i64,
    now: u64,
)
    requires
        view.is_valid(),
        view.board.test_cases.len() < usize::MAX,
    ensures
        view.after_room(room, now).is_valid(),
        view.after_tick(now).is_valid(),
        view.after_leave().is_valid(),
        view.after_watch_start(second).is_valid(),
        view.after_submission_poll(second, answer, second, now).is_valid(),
        view.after_command_start(submit, error).is_valid(),
        view.after_command(result, root_exists, second, now).is_valid(),
        view.without_case(index).is_valid(),
{
    cases::selected_case_exists(view.board, index, seq![], arbitrary());
    assert(view.after_room(room, now).is_valid());
    assert(view.after_watch_start(second).is_valid());
    assert(view.after_submission_poll(second, answer, second, now).is_valid()) by {
        if let Ok(RduelMatchOutputModel::SubmissionCheck { room: shown, .. }) = answer {
            assert(view.after_room(shown, now).is_valid());
        }
    }
    let next = view.with_outcome(result, root_exists);
    let cleared = cases::without_results(view.board.test_cases);
    if let Ok(outcome) = result {
        results_keep_length(cleared, outcome.case_results);
    }
    assert(next.is_valid());
    let watched = next.after_snapshot(now).after_watch_start(second);
    assert(watched.is_valid());
    assert forall|board: cases::OutputBoardModel|
        board.is_valid() && board.test_cases.len() < usize::MAX implies (
    #[trigger] board.focused_after_run()).is_valid() by {
        board_steps_keep_valid(board, seq![], arbitrary());
    }
}

} // verus!
