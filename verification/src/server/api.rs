//! What each request to the server does, and what it is answered.

use vstd::prelude::*;

use crate::copying::Duplicate;
use crate::outside;
use crate::server::model::{
    JoinResponse, LeaveOutcome, LeaveOutcomeModel, Player, PlayerCodeSnapshot,
    PlayerCodeSnapshotModel, PlayerLocationModel, PlayerStateResponse, Problem, Room, RoomModel,
    RoomStatus,
};
use crate::server::rooms::{RduelRooms, RoomsModel};

verus! {

/// Why a request fails.
#[derive(Clone, Copy, Debug, PartialEq, Eq, Structural)]
pub enum ApiError {
    PlayerNotFound,
    RoomNotFound,
    RoomOrPlayerNotFound,
    InvalidToken,
    HistoryUnavailable,
}

impl ApiError {
    pub open spec fn code(self) -> u16 {
        match self {
            ApiError::PlayerNotFound | ApiError::RoomNotFound
            | ApiError::RoomOrPlayerNotFound => 404,
            ApiError::InvalidToken => 401,
            ApiError::HistoryUnavailable => 500,
        }
    }

    pub open spec fn text(self) -> Seq<char> {
        match self {
            ApiError::PlayerNotFound => "player was not found"@,
            ApiError::RoomNotFound => "room was not found"@,
            ApiError::RoomOrPlayerNotFound => "room or player was not found"@,
            ApiError::InvalidToken => "invalid player token"@,
            ApiError::HistoryUnavailable => "failed to load match history"@,
        }
    }

    /// The HTTP status of the answer.
    pub fn status_code(&self) -> (r: u16)
        ensures
            r == self.code(),
    {
        match self {
            ApiError::PlayerNotFound | ApiError::RoomNotFound
            | ApiError::RoomOrPlayerNotFound => 404,
            ApiError::InvalidToken => 401,
            ApiError::HistoryUnavailable => 500,
        }
    }

    /// The message in the answer.
    pub fn message(&self) -> (r: &'static str)
        ensures
            r@ == self.text(),
    {
        match self {
            ApiError::PlayerNotFound => "player was not found",
            ApiError::RoomNotFound => "room was not found",
            ApiError::RoomOrPlayerNotFound => "room or player was not found",
            ApiError::InvalidToken => "invalid player token",
            ApiError::HistoryUnavailable => "failed to load match history",
        }
    }
}

/// A request to leave: the token, and the code as it is then, if the client sends it.
pub struct LeaveRequest {
    pub token: String,
    pub main_rs: Option<String>,
    pub cargo_toml: Option<String>,
}

/// What a request to leave is answered, and the room to put into the history, if there is one.
pub struct LeaveReply {
    pub left: bool,
    pub state: Option<String>,
    pub room: Option<Room>,
    pub record: Option<Room>,
}

/// What a `LeaveReply` holds.
#[verifier::ext_equal]
pub struct LeaveReplyModel {
    pub left: bool,
    pub state: Option<Seq<char>>,
    pub room: Option<RoomModel>,
    pub record: Option<RoomModel>,
}

impl DeepView for LeaveReply {
    type V = LeaveReplyModel;

    open spec fn deep_view(&self) -> LeaveReplyModel {
        LeaveReplyModel {
            left: self.left,
            state: self.state.deep_view(),
            room: self.room.deep_view(),
            record: self.record.deep_view(),
        }
    }
}

/// The code that a request to leave brings, if it brings all of it.
pub open spec fn sent_snapshot(request: LeaveRequest, now: i64) -> Option<
    PlayerCodeSnapshotModel,
> {
    match (request.main_rs, request.cargo_toml) {
        (Some(main_rs), Some(cargo_toml)) => Some(
            PlayerCodeSnapshotModel {
                captured_at_second: now,
                main_rs: main_rs@,
                cargo_toml: cargo_toml@,
            },
        ),
        _ => None,
    }
}

/// The state after the code that a request to leave brings was taken in, and the room it went to.
pub open spec fn after_snapshot(
    state: RoomsModel,
    id: Seq<char>,
    snapshot: Option<PlayerCodeSnapshotModel>,
) -> (RoomsModel, Option<RoomModel>) {
    match snapshot {
        Some(snapshot) => state.update_player_snapshot(id, snapshot),
        None => (state, None),
    }
}

/// The answer for what became of a request to leave. A match that was lost by it goes into the
/// history; one that was over goes there once more if code was uploaded to it.
pub open spec fn leave_reply(
    outcome: LeaveOutcomeModel,
    snapshot_room: Option<RoomModel>,
) -> LeaveReplyModel {
    match outcome {
        LeaveOutcomeModel::LeftWaiting => LeaveReplyModel {
            left: true,
            state: Some("waiting"@),
            room: None,
            record: None,
        },
        LeaveOutcomeModel::ForfeitedRoom(room) => LeaveReplyModel {
            left: true,
            state: Some("room"@),
            room: Some(room),
            record: Some(room),
        },
        LeaveOutcomeModel::RoomAlreadyFinished(room) => LeaveReplyModel {
            left: false,
            state: Some("finished"@),
            room: Some(room),
            record: snapshot_room,
        },
        LeaveOutcomeModel::NotFound => LeaveReplyModel {
            left: false,
            state: None,
            room: None,
            record: None,
        },
    }
}

/// The state and the answer after a player with its token asked to leave at the second `now`.
pub open spec fn after_leave(
    state: RoomsModel,
    id: Seq<char>,
    request: LeaveRequest,
    now: i64,
) -> (RoomsModel, LeaveReplyModel) {
    let (with_code, snapshot_room) = after_snapshot(state, id, sent_snapshot(request, now));
    let (left, outcome) = with_code.leave(id, now);
    (left, leave_reply(outcome, snapshot_room))
}

/// A request to leave, made at the second `now`.
pub fn leave_at(rooms: &mut RduelRooms, player_id: &str, request: LeaveRequest, now: i64) -> (r:
    Result<LeaveReply, ApiError>)
    ensures
        if old(rooms)@.token_matches(player_id@, request.token@) {
            r matches Ok(reply) && (final(rooms)@, reply.deep_view()) == after_leave(
                old(rooms)@,
                player_id@,
                request,
                now,
            )
        } else {
            &&& final(rooms)@ == old(rooms)@
            &&& r matches Err(ApiError::InvalidToken)
        },
{
    if !rooms.token_matches(player_id, request.token.as_str()) {
        return Err(ApiError::InvalidToken);
    }
    let snapshot_room = match (request.main_rs, request.cargo_toml) {
        (Some(main_rs), Some(cargo_toml)) => rooms.update_player_code_snapshot(
            player_id,
            PlayerCodeSnapshot { captured_at_second: now, main_rs, cargo_toml },
        ),
        _ => None,
    };
    Ok(
        match rooms.leave_player_at(player_id, now) {
            LeaveOutcome::LeftWaiting => LeaveReply {
                left: true,
                state: Some("waiting".to_owned()),
                room: None,
                record: None,
            },
            LeaveOutcome::ForfeitedRoom(room) => LeaveReply {
                left: true,
                state: Some("room".to_owned()),
                room: Some(room.duplicate()),
                record: Some(room),
            },
            LeaveOutcome::RoomAlreadyFinished(room) => LeaveReply {
                left: false,
                state: Some("finished".to_owned()),
                room: Some(room),
                record: snapshot_room,
            },
            LeaveOutcome::NotFound => LeaveReply {
                left: false,
                state: None,
                room: None,
                record: None,
            },
        },
    )
}

/// A request for the state of a player.
pub fn player_state(rooms: &RduelRooms, player_id: &str) -> (r: Result<
    PlayerStateResponse,
    ApiError,
>)
    ensures
        match rooms@.player_state(player_id@) {
            Some(state) => r matches Ok(shown) && shown.deep_view() == state,
            None => r matches Err(ApiError::PlayerNotFound),
        },
{
    match rooms.player_state(player_id) {
        Some(state) => Ok(state),
        None => Err(ApiError::PlayerNotFound),
    }
}

/// A request for the state of a room.
pub fn room_state(rooms: &RduelRooms, room_id: &str) -> (r: Result<Room, ApiError>)
    ensures
        match rooms@.room_state(room_id@) {
            Some(room) => r matches Ok(shown) && shown.deep_view() == room,
            None => r matches Err(ApiError::RoomNotFound),
        },
{
    match rooms.room_state(room_id) {
        Some(room) => Ok(room),
        None => Err(ApiError::RoomNotFound),
    }
}

/// A request to declare a match won, made at the second `now`. The room that it is answered goes
/// into the history.
pub fn complete_room_at(
    rooms: &mut RduelRooms,
    room_id: &str,
    player_id: &str,
    token: &str,
    now: i64,
) -> (r: Result<Room, ApiError>)
    ensures
        if old(rooms)@.token_matches(player_id@, token@) {
            let (completed, room) = old(rooms)@.complete(room_id@, player_id@, now);
            &&& final(rooms)@ == completed
            &&& match room {
                Some(room) => r matches Ok(shown) && shown.deep_view() == room,
                None => r matches Err(ApiError::RoomOrPlayerNotFound),
            }
        } else {
            &&& final(rooms)@ == old(rooms)@
            &&& r matches Err(ApiError::InvalidToken)
        },
{
    if !rooms.token_matches(player_id, token) {
        return Err(ApiError::InvalidToken);
    }
    match rooms.complete_room_at(room_id, player_id, now) {
        Some(room) => Ok(room),
        None => Err(ApiError::RoomOrPlayerNotFound),
    }
}

/// A request to upload code, made at the second `now`. Returns the room, and whether it goes into
/// the history: only if its match is over.
pub fn upload_code_snapshot_at(
    rooms: &mut RduelRooms,
    room_id: &str,
    player_id: &str,
    token: &str,
    main_rs: String,
    cargo_toml: String,
    now: i64,
) -> (r: Result<(Room, bool), ApiError>)
    ensures
        if old(rooms)@.token_matches(player_id@, token@) {
            let (updated, room) = old(rooms)@.update_snapshot(
                room_id@,
                player_id@,
                PlayerCodeSnapshotModel {
                    captured_at_second: now,
                    main_rs: main_rs@,
                    cargo_toml: cargo_toml@,
                },
            );
            &&& final(rooms)@ == updated
            &&& match room {
                Some(room) => r matches Ok(shown) && shown.0.deep_view() == room && shown.1 == (
                room.status == RoomStatus::Finished),
                None => r matches Err(ApiError::RoomOrPlayerNotFound),
            }
        } else {
            &&& final(rooms)@ == old(rooms)@
            &&& r matches Err(ApiError::InvalidToken)
        },
{
    if !rooms.token_matches(player_id, token) {
        return Err(ApiError::InvalidToken);
    }
    let snapshot = PlayerCodeSnapshot { captured_at_second: now, main_rs, cargo_toml };
    match rooms.update_code_snapshot(room_id, player_id, snapshot) {
        Some(room) => {
            let record = room.status == RoomStatus::Finished;
            Ok((room, record))
        },
        None => Err(ApiError::RoomOrPlayerNotFound),
    }
}

/// A request to watch the submissions of a room. Returns the room, and whether polling is to start.
pub fn watch_room_submissions(rooms: &mut RduelRooms, room_id: &str) -> (r: Result<
    (Room, bool),
    ApiError,
>)
    ensures
        ({
            let (watched, started) = old(rooms)@.start_submission_watch(room_id@);
            &&& final(rooms)@ == watched
            &&& match started {
                Some((room, starts)) => r matches Ok(shown) && shown.0.deep_view() == room
                    && shown.1 == starts,
                None => r matches Err(ApiError::RoomNotFound),
            }
        }),
{
    match rooms.start_submission_watch(room_id) {
        Some(started) => Ok(started),
        None => Err(ApiError::RoomNotFound),
    }
}

/// Two players that were paired, once their problem is chosen, or could not be: in the one case
/// their room opens, in the other they go back to the queue.
pub fn finish_pairing_at(
    rooms: &mut RduelRooms,
    opponent: Player,
    player: Player,
    problem: Option<Problem>,
    room_id: String,
    now: i64,
) -> (r: JoinResponse)
    ensures
        (final(rooms)@, r.deep_view()) == match problem {
            Some(problem) => old(rooms)@.create_room(
                opponent.deep_view(),
                player.deep_view(),
                problem.deep_view(),
                room_id@,
                now,
            ),
            None => old(rooms)@.requeue_pair(opponent.deep_view(), player.deep_view()),
        },
{
    match problem {
        Some(problem) => rooms.create_room_at(opponent, player, problem, room_id, now),
        None => rooms.requeue_pair(opponent, player),
    }
}

/// Two players that were paired, once their problem is chosen, or could not be.
pub fn finish_pairing(
    rooms: &mut RduelRooms,
    opponent: Player,
    player: Player,
    problem: Option<Problem>,
) -> (r: JoinResponse)
    ensures
        match problem {
            Some(problem) => exists|room_id: Seq<char>, now: i64|
                outside::is_uuid(room_id) && (final(rooms)@, r.deep_view()) == #[trigger] old(
                    rooms,
                )@.create_room(
                    opponent.deep_view(),
                    player.deep_view(),
                    problem.deep_view(),
                    room_id,
                    now,
                ),
            None => (final(rooms)@, r.deep_view()) == old(rooms)@.requeue_pair(
                opponent.deep_view(),
                player.deep_view(),
            ),
        },
{
    match problem {
        Some(problem) => rooms.create_room(opponent, player, problem),
        None => rooms.requeue_pair(opponent, player),
    }
}

/// A request to leave.
pub fn leave(rooms: &mut RduelRooms, player_id: &str, request: LeaveRequest) -> (r: Result<
    LeaveReply,
    ApiError,
>)
    ensures
        if old(rooms)@.token_matches(player_id@, request.token@) {
            exists|now: i64|
                r matches Ok(reply) && (final(rooms)@, reply.deep_view())
                    == #[trigger] after_leave(old(rooms)@, player_id@, request, now)
        } else {
            &&& final(rooms)@ == old(rooms)@
            &&& r matches Err(ApiError::InvalidToken)
        },
{
    let now: i64 = outside::unix_now();
    let ghost left = after_leave(rooms@, player_id@, request, now);
    leave_at(rooms, player_id, request, now)
}

/// A request to declare a match won.
pub fn complete_room(rooms: &mut RduelRooms, room_id: &str, player_id: &str, token: &str) -> (r:
    Result<Room, ApiError>)
    ensures
        if old(rooms)@.token_matches(player_id@, token@) {
            exists|now: i64|
                {
                    let (completed, room) = #[trigger] old(rooms)@.complete(
                        room_id@,
                        player_id@,
                        now,
                    );
                    &&& final(rooms)@ == completed
                    &&& match room {
                        Some(room) => r matches Ok(shown) && shown.deep_view() == room,
                        None => r matches Err(ApiError::RoomOrPlayerNotFound),
                    }
                }
        } else {
            &&& final(rooms)@ == old(rooms)@
            &&& r matches Err(ApiError::InvalidToken)
        },
{
    let now: i64 = outside::unix_now();
    let r = complete_room_at(rooms, room_id, player_id, token, now);
    proof {
        let completed = old(rooms)@.complete(room_id@, player_id@, now);
    }
    r
}

/// A request to upload code.
pub fn upload_code_snapshot(
    rooms: &mut RduelRooms,
    room_id: &str,
    player_id: &str,
    token: &str,
    main_rs: String,
    cargo_toml: String,
) -> (r: Result<(Room, bool), ApiError>)
    ensures
        if old(rooms)@.token_matches(player_id@, token@) {
            exists|now: i64|
                {
                    let (updated, room) = #[trigger] old(rooms)@.update_snapshot(
                        room_id@,
                        player_id@,
                        PlayerCodeSnapshotModel {
                            captured_at_second: now,
                            main_rs: main_rs@,
                            cargo_toml: cargo_toml@,
                        },
                    );
                    &&& final(rooms)@ == updated
                    &&& match room {
                        Some(room) => r matches Ok(shown) && shown.0.deep_view() == room
                            && shown.1 == (room.status == RoomStatus::Finished),
                        None => r matches Err(ApiError::RoomOrPlayerNotFound),
                    }
                }
        } else {
            &&& final(rooms)@ == old(rooms)@
            &&& r matches Err(ApiError::InvalidToken)
        },
{
    let now: i64 = outside::unix_now();
    let ghost snapshot = PlayerCodeSnapshotModel {
        captured_at_second: now,
        main_rs: main_rs@,
        cargo_toml: cargo_toml@,
    };
    let r = upload_code_snapshot_at(rooms, room_id, player_id, token, main_rs, cargo_toml, now);
    proof {
        let updated = old(rooms)@.update_snapshot(room_id@, player_id@, snapshot);
    }
    r
}

/// Each failure is answered with the status that belongs to it: an unknown player or room is not
/// found, a wrong token is not authorised, and a history that cannot be read is the server's fault.
pub proof fn failures_have_their_status(error: ApiError)
    ensures
        error.code() == 401 <==> error is InvalidToken,
        error.code() == 500 <==> error is HistoryUnavailable,
        error.code() == 404 <==> error is PlayerNotFound || error is RoomNotFound
            || error is RoomOrPlayerNotFound,
        error is InvalidToken ==> error.text() == "invalid player token"@,
        error is PlayerNotFound ==> error.text() == "player was not found"@,
        error is RoomNotFound ==> error.text() == "room was not found"@,
        error is RoomOrPlayerNotFound ==> error.text() == "room or player was not found"@,
        error is HistoryUnavailable ==> error.text() == "failed to load match history"@,
{
}

/// Whoever leaves a match that is on loses it, and the code that comes with the request is kept in
/// the room first: what is recorded is the room with that code, won by the other player. Without
/// all of the code, the code that was there stays.
pub proof fn code_is_kept_when_leaving(
    state: RoomsModel,
    id: Seq<char>,
    other: Seq<char>,
    room_id: Seq<char>,
    request: LeaveRequest,
    now: i64,
)
    requires
        state.players.contains_key(id),
        state.players[id] == (PlayerLocationModel::Room { room_id }),
        state.rooms.contains_key(room_id),
        state.rooms[room_id].status == RoomStatus::Playing,
        id != other,
        (state.rooms[room_id].players.0.id == id && state.rooms[room_id].players.1.id == other) || (
        state.rooms[room_id].players.0.id == other && state.rooms[room_id].players.1.id == id),
    ensures
        ({
            let before = state.rooms[room_id];
            let (after, reply) = after_leave(state, id, request, now);
            let room = after.rooms[room_id];
            &&& reply.left
            &&& reply.state == Some("room"@)
            &&& reply.room == Some(room)
            &&& reply.record == Some(room)
            &&& room.status == RoomStatus::Finished
            &&& room.winner_player_id == Some(other)
            &&& room.finished_at_second == Some(now)
            &&& !after.players.contains_key(id)
            &&& request.main_rs is Some && request.cargo_toml is Some ==> {
                &&& room.code_snapshots.contains_key(id)
                &&& room.code_snapshots[id].main_rs == request.main_rs->0@
                &&& room.code_snapshots[id].cargo_toml == request.cargo_toml->0@
                &&& room.code_snapshots[id].captured_at_second == now
            }
            &&& request.main_rs is None || request.cargo_toml is None ==> room.code_snapshots
                == before.code_snapshots
        }),
{
}

/// Whoever leaves the queue or a pairing is told so, and nothing is recorded. Leaving a match that
/// is over leaves it over: it is shown, and recorded once more exactly if code came with the
/// request. Leaving what is not there is answered with nothing.
pub proof fn leaving_is_answered(
    state: RoomsModel,
    id: Seq<char>,
    room_id: Seq<char>,
    request: LeaveRequest,
    now: i64,
)
    ensures
        state.players.contains_key(id) && !(state.players[id] is Room) ==> {
            let (after, reply) = after_leave(state, id, request, now);
            &&& reply.left
            &&& reply.state == Some("waiting"@)
            &&& reply.room is None
            &&& reply.record is None
            &&& !after.players.contains_key(id)
            &&& after.rooms == state.rooms
        },
        state.players.contains_key(id) && state.players[id] == (PlayerLocationModel::Room {
            room_id,
        }) && state.rooms.contains_key(room_id) && state.rooms[room_id].status
            == RoomStatus::Finished && (state.rooms[room_id].players.0.id == id
            || state.rooms[room_id].players.1.id == id) ==> {
            let (after, reply) = after_leave(state, id, request, now);
            let room = after.rooms[room_id];
            &&& !reply.left
            &&& reply.state == Some("finished"@)
            &&& reply.room == Some(room)
            &&& reply.record == if request.main_rs is Some && request.cargo_toml is Some {
                Some(room)
            } else {
                None
            }
            &&& room.winner_player_id == state.rooms[room_id].winner_player_id
            &&& after.players == state.players
        },
        !state.players.contains_key(id) ==> {
            let (after, reply) = after_leave(state, id, request, now);
            &&& after == state
            &&& !reply.left
            &&& reply.state is None
            &&& reply.room is None
            &&& reply.record is None
        },
{
}

/// The models hold what the values hold, each part under its own name.
pub proof fn models_hold_their_parts(leave_reply: LeaveReply)
    ensures
        leave_reply.deep_view() == (LeaveReplyModel {
            left: leave_reply.left,
            state: leave_reply.state.deep_view(),
            room: leave_reply.room.deep_view(),
            record: leave_reply.record.deep_view(),
        }),
{
}
/// A request with an empty token, or with another one than the player's, is refused and changes
/// nothing.
pub proof fn wrong_token_is_refused(
    rooms: &mut RduelRooms,
    room_id: &str,
    player_id: &str,
    token: &str,
    main_rs: String,
    cargo_toml: String,
    now: i64,
    completed: Result<Room, ApiError>,
    uploaded: Result<(Room, bool), ApiError>,
)
    requires
        token@.len() == 0 || !old(rooms)@.tokens.contains_key(player_id@)
            || old(rooms)@.tokens[player_id@] != token@,
    ensures
        call_ensures(complete_room_at, (rooms, room_id, player_id, token, now), completed)
            ==> completed is Err && completed->Err_0 == ApiError::InvalidToken && final(rooms)@
            == old(rooms)@,
        call_ensures(
            upload_code_snapshot_at,
            (rooms, room_id, player_id, token, main_rs, cargo_toml, now),
            uploaded,
        ) ==> uploaded is Err && uploaded->Err_0 == ApiError::InvalidToken && final(rooms)@ == old(rooms)@,
{
}

/// A player who completes their match with their token is shown that they won it.
pub proof fn completing_player_is_shown_win(
    rooms: &mut RduelRooms,
    room_id: &str,
    player_id: &str,
    token: &str,
    now: i64,
    answer: Result<Room, ApiError>,
)
    requires
        call_ensures(complete_room_at, (rooms, room_id, player_id, token, now), answer),
        token@.len() > 0,
        old(rooms)@.tokens.contains_key(player_id@),
        old(rooms)@.tokens[player_id@] == token@,
    ensures
        ({
            let before = old(rooms)@.rooms;
            let room = before[room_id@];
            let plays = before.contains_key(room_id@) && (room.players.0.id == player_id@
                || room.players.1.id == player_id@);
            &&& !plays ==> answer is Err && answer->Err_0 == ApiError::RoomOrPlayerNotFound
            &&& plays ==> answer is Ok && answer->Ok_0.deep_view() == final(rooms)@.rooms[room_id@]
            &&& plays && room.status == RoomStatus::Playing ==> {
                &&& answer->Ok_0.status == RoomStatus::Finished
                &&& answer->Ok_0.winner_player_id is Some
                &&& answer->Ok_0.winner_player_id->0@ == player_id@
                &&& answer->Ok_0.finished_at_second == Some(now)
            }
        }),
{
}

/// A player who uploads code with their token has it kept, the code as the code and the manifest as
/// the manifest, and is told whether the match is over.
pub proof fn uploading_player_has_code_kept(
    rooms: &mut RduelRooms,
    room_id: &str,
    player_id: &str,
    token: &str,
    main_rs: String,
    cargo_toml: String,
    now: i64,
    answer: Result<(Room, bool), ApiError>,
)
    requires
        call_ensures(
            upload_code_snapshot_at,
            (rooms, room_id, player_id, token, main_rs, cargo_toml, now),
            answer,
        ),
        token@.len() > 0,
        old(rooms)@.tokens.contains_key(player_id@),
        old(rooms)@.tokens[player_id@] == token@,
    ensures
        ({
            let before = old(rooms)@.rooms;
            let room = before[room_id@];
            let plays = before.contains_key(room_id@) && (room.players.0.id == player_id@
                || room.players.1.id == player_id@);
            &&& !plays ==> answer is Err && answer->Err_0 == ApiError::RoomOrPlayerNotFound
            &&& plays ==> {
                let kept = final(rooms)@.rooms[room_id@].code_snapshots;
                &&& answer is Ok
                &&& (answer->Ok_0).0.deep_view() == final(rooms)@.rooms[room_id@]
                &&& (answer->Ok_0).1 <==> room.status == RoomStatus::Finished
                &&& kept.contains_key(player_id@)
                &&& kept[player_id@].main_rs == main_rs@
                &&& kept[player_id@].cargo_toml == cargo_toml@
                &&& kept[player_id@].captured_at_second == now
            }
        }),
{
}
} // verus!
