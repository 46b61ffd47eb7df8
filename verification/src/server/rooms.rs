//! Matchmaking and rooms: the state of the server and each step that it can take.

use vstd::prelude::*;

use std::collections::VecDeque;

use crate::copying::Duplicate;
use crate::outside;
use crate::server::model::{
    AtCoderSubmission, AtCoderSubmissionModel, JoinDecision, JoinDecisionModel, JoinRequest,
    JoinResponse, JoinResponseModel, LeaveOutcome, LeaveOutcomeModel, Player, PlayerActivity,
    PlayerActivityModel, PlayerCodeSnapshot, PlayerCodeSnapshotModel, PlayerLocation,
    PlayerLocationModel, PlayerModel, PlayerStateResponse, PlayerStateResponseModel,
    PlayerSubmissionRecord, PlayerSubmissionRecordModel, Problem, ProblemModel, Room,
    RoomFinishReason, RoomModel, RoomStatus, WinningSubmission, WinningSubmissionModel,
};
use crate::strmap::StrMap;
use crate::text;

verus! {

/// How long a finished match is kept.
pub const ROOM_TTL_SECONDS: i64 = 600;

/// How often finished matches are looked for.
pub const ROOM_REAP_INTERVAL_SECONDS: u64 = 60;

/// Everything the server knows about players and matches.
pub struct RduelRooms {
    pub waiting_players: VecDeque<Player>,
    pub players: StrMap<PlayerLocation>,
    pub rooms: StrMap<Room>,
    /// Per-player secret token. A player's id is public, since it appears in the room state, so a
    /// separate secret authorises what only the player may do.
    pub player_tokens: StrMap<String>,
    pub problems: Vec<Problem>,
}

/// What `RduelRooms` holds.
#[verifier::ext_equal]
pub struct RoomsModel {
    pub waiting: Seq<PlayerModel>,
    pub players: Map<Seq<char>, PlayerLocationModel>,
    pub rooms: Map<Seq<char>, RoomModel>,
    pub tokens: Map<Seq<char>, Seq<char>>,
    pub problems: Seq<ProblemModel>,
}

impl View for RduelRooms {
    type V = RoomsModel;

    open spec fn view(&self) -> RoomsModel {
        RoomsModel {
            waiting: self.waiting_players.deep_view(),
            players: self.players.deep_view(),
            rooms: self.rooms.deep_view(),
            tokens: self.player_tokens.deep_view(),
            problems: self.problems.deep_view(),
        }
    }
}

/// The player that a request to join is about, with `fresh_id` for one that names no id.
pub open spec fn joining_player(request: JoinRequest, fresh_id: Seq<char>) -> PlayerModel {
    PlayerModel {
        id: match request.player_id {
            Some(id) => id@,
            None => fresh_id,
        },
        name: request.name@,
    }
}

/// Whether `player` waits under `name` as somebody other than `keep`.
pub open spec fn is_namesake(player: PlayerModel, name: Seq<char>, keep: Seq<char>) -> bool {
    player.name == name && player.id != keep
}

/// Whether the player `id` plays in `room`.
pub open spec fn plays_in(room: RoomModel, id: Seq<char>) -> bool {
    room.players.0.id == id || room.players.1.id == id
}

/// A room in which `opponent` and `player` start to play on `problem`.
pub open spec fn new_room(
    id: Seq<char>,
    opponent: PlayerModel,
    player: PlayerModel,
    problem: ProblemModel,
    now: i64,
) -> RoomModel {
    RoomModel {
        id,
        players: (opponent, player),
        problem,
        started_at_second: now,
        status: RoomStatus::Playing,
        winner_player_id: None,
        finish_reason: None,
        winning_submission: None,
        atcoder_users: Map::empty().insert(opponent.id, opponent.name).insert(
            player.id,
            player.name,
        ),
        player_activity: Map::empty(),
        player_submissions: Map::empty(),
        code_snapshots: Map::empty(),
        polling_submissions: false,
        finished_at_second: None,
    }
}

/// `room` won by `winner`.
pub open spec fn finished(
    room: RoomModel,
    winner: Seq<char>,
    reason: RoomFinishReason,
    now: i64,
) -> RoomModel {
    RoomModel {
        status: RoomStatus::Finished,
        winner_player_id: Some(winner),
        finish_reason: Some(reason),
        finished_at_second: Some(now),
        ..room
    }
}

/// The submission with which `player_id` won `room`.
pub open spec fn winning_submission(
    room: RoomModel,
    player_id: Seq<char>,
    submission: AtCoderSubmissionModel,
) -> WinningSubmissionModel {
    WinningSubmissionModel {
        player_id,
        atcoder_user: if room.atcoder_users.contains_key(player_id) {
            room.atcoder_users[player_id]
        } else {
            seq![]
        },
        epoch_second: submission.epoch_second,
        submission_id: submission.id,
        source_code: submission.source_code,
    }
}

/// `map` with the entries `pairs` put in, one after the other.
pub open spec fn insert_all<V>(map: Map<Seq<char>, V>, pairs: Seq<(Seq<char>, V)>) -> Map<
    Seq<char>,
    V,
>
    decreases pairs.len(),
{
    if pairs.len() == 0 {
        map
    } else {
        insert_all(map, pairs.drop_last()).insert(pairs.last().0, pairs.last().1)
    }
}

/// Whether `room` finished more than `ttl` seconds before `now`.
pub open spec fn is_stale(room: RoomModel, ttl: i64, now: i64) -> bool {
    &&& room.status == RoomStatus::Finished
    &&& room.finished_at_second is Some
    &&& clamped_difference(now, room.finished_at_second->0) > ttl
}

/// `a - b`, held within the range of `i64`.
pub open spec fn clamped_difference(a: i64, b: i64) -> int {
    if a - b > i64::MAX {
        i64::MAX as int
    } else if a - b < i64::MIN {
        i64::MIN as int
    } else {
        a - b
    }
}

impl RoomsModel {
    /// A server that nobody has joined.
    pub open spec fn empty(problems: Seq<ProblemModel>) -> Self {
        RoomsModel {
            waiting: seq![],
            players: Map::empty(),
            rooms: Map::empty(),
            tokens: Map::empty(),
            problems,
        }
    }

    pub open spec fn is_matching(self, id: Seq<char>) -> bool {
        self.players.contains_key(id) && self.players[id] == PlayerLocationModel::Matching
    }

    pub open spec fn is_waiting(self, id: Seq<char>) -> bool {
        self.players.contains_key(id) && self.players[id] == PlayerLocationModel::Waiting
    }

    /// Whether the player `id` is in the room `room_id`.
    pub open spec fn is_in_room(self, id: Seq<char>, room_id: Seq<char>) -> bool {
        self.players.contains_key(id) && self.players[id] == PlayerLocationModel::Room { room_id }
    }

    /// The player's token; empty for a player without one.
    pub open spec fn token_of(self, id: Seq<char>) -> Seq<char> {
        if self.tokens.contains_key(id) {
            self.tokens[id]
        } else {
            seq![]
        }
    }

    /// Whether `token` is a token, and the player's.
    pub open spec fn token_matches(self, id: Seq<char>, token: Seq<char>) -> bool {
        token.len() > 0 && self.tokens.contains_key(id) && self.tokens[id] == token
    }

    /// The state in which the player has a token: `fresh`, unless there was one.
    pub open spec fn ensure_token(self, id: Seq<char>, fresh: Seq<char>) -> Self {
        if self.tokens.contains_key(id) {
            self
        } else {
            RoomsModel { tokens: self.tokens.insert(id, fresh), ..self }
        }
    }

    /// The state without the player and its token.
    pub open spec fn forget(self, id: Seq<char>) -> Self {
        RoomsModel { players: self.players.remove(id), tokens: self.tokens.remove(id), ..self }
    }

    pub open spec fn forget_all(self, ids: Set<Seq<char>>) -> Self {
        RoomsModel {
            players: self.players.remove_keys(ids),
            tokens: self.tokens.remove_keys(ids),
            ..self
        }
    }

    pub open spec fn place(self, id: Seq<char>, location: PlayerLocationModel) -> Self {
        RoomsModel { players: self.players.insert(id, location), ..self }
    }

    /// The ids of those who wait under `name`, but for `keep`.
    pub open spec fn namesakes(self, name: Seq<char>, keep: Seq<char>) -> Set<Seq<char>> {
        Set::new(
            |id: Seq<char>|
                exists|i: int|
                    0 <= i < self.waiting.len() && (#[trigger] self.waiting[i]).id == id
                        && is_namesake(self.waiting[i], name, keep),
        )
    }

    /// The state in which nobody but `keep` waits under `name`.
    pub open spec fn drop_namesakes(self, name: Seq<char>, keep: Seq<char>) -> Self {
        RoomsModel {
            waiting: self.waiting.filter(|player: PlayerModel| !is_namesake(player, name, keep)),
            ..self.forget_all(self.namesakes(name, keep))
        }
    }

    /// `player` joins, with `fresh_token` for one that has no token yet.
    pub open spec fn join(self, player: PlayerModel, fresh_token: Seq<char>) -> (
        Self,
        JoinDecisionModel,
    ) {
        let state = self.ensure_token(player.id, fresh_token);
        let token = state.token_of(player.id);
        let wait = JoinDecisionModel::Respond(
            JoinResponseModel::Waiting { player_id: player.id, token },
        );
        if state.players.contains_key(player.id) {
            match state.players[player.id] {
                PlayerLocationModel::Waiting | PlayerLocationModel::Matching => (state, wait),
                PlayerLocationModel::Room { room_id } => if state.rooms.contains_key(room_id) {
                    (
                        state,
                        JoinDecisionModel::Respond(
                            JoinResponseModel::Matched {
                                player_id: player.id,
                                token,
                                room: state.rooms[room_id],
                            },
                        ),
                    )
                } else {
                    (state.enqueue(player), wait)
                },
            }
        } else {
            let state = state.drop_namesakes(player.name, player.id);
            if state.waiting.len() == 0 {
                (state.enqueue(player), wait)
            } else {
                let opponent = state.waiting[0];
                (
                    RoomsModel {
                        waiting: state.waiting.skip(1),
                        ..state.place(opponent.id, PlayerLocationModel::Matching).place(
                            player.id,
                            PlayerLocationModel::Matching,
                        )
                    },
                    JoinDecisionModel::CreateRoom { opponent, player },
                )
            }
        }
    }

    /// The state in which `player` waits at the end of the queue.
    pub open spec fn enqueue(self, player: PlayerModel) -> Self {
        RoomsModel {
            waiting: self.waiting.push(player),
            ..self.place(player.id, PlayerLocationModel::Waiting)
        }
    }

    /// The state in which `player` waits at the front of the queue.
    pub open spec fn enqueue_first(self, player: PlayerModel) -> Self {
        RoomsModel {
            waiting: seq![player] + self.waiting,
            ..self.place(player.id, PlayerLocationModel::Waiting)
        }
    }

    /// The room `room_id` opens for two players that were paired, unless one of them is gone.
    pub open spec fn create_room(
        self,
        opponent: PlayerModel,
        player: PlayerModel,
        problem: ProblemModel,
        room_id: Seq<char>,
        now: i64,
    ) -> (Self, JoinResponseModel) {
        if self.is_matching(opponent.id) && self.is_matching(player.id) {
            let room = new_room(room_id, opponent, player, problem, now);
            let location = PlayerLocationModel::Room { room_id };
            (
                RoomsModel {
                    rooms: self.rooms.insert(room_id, room),
                    ..self.place(opponent.id, location).place(player.id, location)
                },
                JoinResponseModel::Matched {
                    player_id: player.id,
                    token: self.token_of(player.id),
                    room,
                },
            )
        } else {
            self.requeue_pair(opponent, player)
        }
    }

    /// Of two players that were paired, those still there go back to the queue.
    pub open spec fn requeue_pair(self, opponent: PlayerModel, player: PlayerModel) -> (
        Self,
        JoinResponseModel,
    ) {
        let first = if self.is_matching(opponent.id) {
            self.enqueue_first(opponent)
        } else {
            self
        };
        let second = if first.is_matching(player.id) {
            first.enqueue(player)
        } else {
            first
        };
        (
            second,
            JoinResponseModel::Waiting { player_id: player.id, token: self.token_of(player.id) },
        )
    }

    pub open spec fn player_state(self, id: Seq<char>) -> Option<PlayerStateResponseModel> {
        if !self.players.contains_key(id) {
            None
        } else {
            match self.players[id] {
                PlayerLocationModel::Waiting | PlayerLocationModel::Matching => Some(
                    PlayerStateResponseModel::Waiting { player_id: id },
                ),
                PlayerLocationModel::Room { room_id } => if self.rooms.contains_key(room_id) {
                    Some(
                        PlayerStateResponseModel::Matched {
                            player_id: id,
                            room: self.rooms[room_id],
                        },
                    )
                } else {
                    None
                },
            }
        }
    }

    /// The player leaves: the queue, a pairing, or a match that is thereby lost.
    pub open spec fn leave(self, id: Seq<char>, now: i64) -> (Self, LeaveOutcomeModel) {
        if !self.players.contains_key(id) {
            (self, LeaveOutcomeModel::NotFound)
        } else {
            match self.players[id] {
                PlayerLocationModel::Waiting => (
                    RoomsModel {
                        waiting: self.waiting.filter(|player: PlayerModel| player.id != id),
                        ..self.forget(id)
                    },
                    LeaveOutcomeModel::LeftWaiting,
                ),
                PlayerLocationModel::Matching => (self.forget(id), LeaveOutcomeModel::LeftWaiting),
                PlayerLocationModel::Room { room_id } => if !self.rooms.contains_key(room_id) {
                    (self.forget(id), LeaveOutcomeModel::NotFound)
                } else if self.rooms[room_id].status != RoomStatus::Playing {
                    (self, LeaveOutcomeModel::RoomAlreadyFinished(self.rooms[room_id]))
                } else {
                    let room = self.rooms[room_id];
                    if room.players.0.id == id && room.players.1.id == id {
                        (self, LeaveOutcomeModel::NotFound)
                    } else {
                        let winner = if room.players.0.id != id {
                            room.players.0.id
                        } else {
                            room.players.1.id
                        };
                        let over = finished(room, winner, RoomFinishReason::PlayerLeft, now);
                        (
                            RoomsModel {
                                rooms: self.rooms.insert(room_id, over),
                                ..self.forget(id)
                            },
                            LeaveOutcomeModel::ForfeitedRoom(over),
                        )
                    }
                },
            }
        }
    }

    pub open spec fn room_state(self, room_id: Seq<char>) -> Option<RoomModel> {
        if self.rooms.contains_key(room_id) {
            Some(self.rooms[room_id])
        } else {
            None
        }
    }

    /// The state in which the room `room_id` is `room`.
    pub open spec fn set_room(self, room_id: Seq<char>, room: RoomModel) -> Self {
        RoomsModel { rooms: self.rooms.insert(room_id, room), ..self }
    }

    /// The room with its polling flag set, and whether it was not set before.
    pub open spec fn start_submission_watch(self, room_id: Seq<char>) -> (
        Self,
        Option<(RoomModel, bool)>,
    ) {
        if !self.rooms.contains_key(room_id) {
            (self, None)
        } else {
            let room = RoomModel { polling_submissions: true, ..self.rooms[room_id] };
            (
                self.set_room(room_id, room),
                Some((room, !self.rooms[room_id].polling_submissions)),
            )
        }
    }

    pub open spec fn stop_submission_watch(self, room_id: Seq<char>) -> Self {
        if !self.rooms.contains_key(room_id) {
            self
        } else {
            self.set_room(room_id, RoomModel { polling_submissions: false, ..self.rooms[room_id] })
        }
    }

    /// A player declares the match won.
    pub open spec fn complete(self, room_id: Seq<char>, player_id: Seq<char>, now: i64) -> (
        Self,
        Option<RoomModel>,
    ) {
        if !self.rooms.contains_key(room_id) || !plays_in(self.rooms[room_id], player_id) {
            (self, None)
        } else if self.rooms[room_id].status != RoomStatus::Playing {
            (self, Some(self.rooms[room_id]))
        } else {
            let over = finished(
                self.rooms[room_id],
                player_id,
                RoomFinishReason::ManualComplete,
                now,
            );
            (self.set_room(room_id, over), Some(over))
        }
    }

    /// A submission of a player was accepted.
    pub open spec fn apply_ac(
        self,
        room_id: Seq<char>,
        player_id: Seq<char>,
        submission: AtCoderSubmissionModel,
        now: i64,
    ) -> (Self, Option<RoomModel>) {
        if !self.rooms.contains_key(room_id) {
            (self, None)
        } else if self.rooms[room_id].status != RoomStatus::Playing {
            (self, Some(self.rooms[room_id]))
        } else if !plays_in(self.rooms[room_id], player_id) {
            (self, None)
        } else {
            let room = self.rooms[room_id];
            let over = RoomModel {
                winning_submission: Some(winning_submission(room, player_id, submission)),
                ..finished(room, player_id, RoomFinishReason::Accepted, now)
            };
            (self.set_room(room_id, over), Some(over))
        }
    }

    /// A player uploads code.
    pub open spec fn update_snapshot(
        self,
        room_id: Seq<char>,
        player_id: Seq<char>,
        snapshot: PlayerCodeSnapshotModel,
    ) -> (Self, Option<RoomModel>) {
        if !self.rooms.contains_key(room_id) || !plays_in(self.rooms[room_id], player_id) {
            (self, None)
        } else {
            let room = RoomModel {
                code_snapshots: self.rooms[room_id].code_snapshots.insert(player_id, snapshot),
                ..self.rooms[room_id]
            };
            (self.set_room(room_id, room), Some(room))
        }
    }

    /// A player uploads code to the room it is in.
    pub open spec fn update_player_snapshot(
        self,
        player_id: Seq<char>,
        snapshot: PlayerCodeSnapshotModel,
    ) -> (Self, Option<RoomModel>) {
        if !self.players.contains_key(player_id) {
            (self, None)
        } else {
            match self.players[player_id] {
                PlayerLocationModel::Room { room_id } => self.update_snapshot(
                    room_id,
                    player_id,
                    snapshot,
                ),
                PlayerLocationModel::Waiting | PlayerLocationModel::Matching => (self, None),
            }
        }
    }

    /// What was learnt about the players' submissions goes into the room.
    pub open spec fn update_activity(
        self,
        room_id: Seq<char>,
        activity: Seq<(Seq<char>, PlayerActivityModel)>,
        submissions: Seq<(Seq<char>, Seq<PlayerSubmissionRecordModel>)>,
    ) -> Self {
        if !self.rooms.contains_key(room_id) {
            self
        } else {
            let room = self.rooms[room_id];
            self.set_room(
                room_id,
                RoomModel {
                    player_activity: insert_all(room.player_activity, activity),
                    player_submissions: insert_all(room.player_submissions, submissions),
                    ..room
                },
            )
        }
    }

    /// The ids of the rooms that finished more than `ttl` seconds before `now`.
    pub open spec fn stale_rooms(self, ttl: i64, now: i64) -> Set<Seq<char>> {
        Set::new(
            |room_id: Seq<char>|
                self.rooms.contains_key(room_id) && is_stale(self.rooms[room_id], ttl, now),
        )
    }

    /// The ids of the players that are in one of the rooms `room_ids`.
    pub open spec fn players_in(self, room_ids: Set<Seq<char>>) -> Set<Seq<char>> {
        Set::new(
            |id: Seq<char>|
                self.players.contains_key(id) && self.players[id] is Room && room_ids.contains(
                    self.players[id]->room_id,
                ),
        )
    }

    /// The state without the stale rooms and without the players that are in one of them.
    pub open spec fn reap(self, ttl: i64, now: i64) -> Self {
        let stale = self.stale_rooms(ttl, now);
        RoomsModel {
            rooms: self.rooms.remove_keys(stale),
            ..self.forget_all(self.players_in(stale))
        }
    }
}

/// Whether `id` is one of the first `n` of `ids`.
pub open spec fn listed(ids: Seq<String>, n: int, id: Seq<char>) -> bool {
    exists|j: int| 0 <= j < n && (#[trigger] ids[j])@ == id
}

/// Whether the player `id` plays in `room`.
fn room_has_player(room: &Room, id: &str) -> (r: bool)
    ensures
        r == plays_in(room.deep_view(), id@),
{
    text::same(room.players[0].id.as_str(), id) || text::same(room.players[1].id.as_str(), id)
}

/// Marks `room` as won by `winner`.
fn finish_room(room: &mut Room, winner: &str, reason: RoomFinishReason, now: i64)
    ensures
        final(room).deep_view() == finished(old(room).deep_view(), winner@, reason, now),
{
    room.status = RoomStatus::Finished;
    room.winner_player_id = Some(winner.to_owned());
    room.finish_reason = Some(reason);
    room.finished_at_second = Some(now);
    assert(room.deep_view() =~= finished(old(room).deep_view(), winner@, reason, now));
}

impl RduelRooms {
    /// A server that nobody has joined.
    pub fn new(problems: Vec<Problem>) -> (r: Self)
        ensures
            r@ == RoomsModel::empty(problems.deep_view()),
    {
        let r = RduelRooms {
            waiting_players: VecDeque::new(),
            players: StrMap::new(),
            rooms: StrMap::new(),
            player_tokens: StrMap::new(),
            problems,
        };
        assert(r@ =~= RoomsModel::empty(problems.deep_view()));
        r
    }

    /// The player's secret token: `fresh`, if it has none yet.
    pub fn ensure_token_with(&mut self, player_id: &str, fresh: String) -> (r: String)
        ensures
            final(self)@ == old(self)@.ensure_token(player_id@, fresh@),
            r@ == final(self)@.token_of(player_id@),
    {
        match self.player_tokens.get(player_id) {
            Some(token) => token.clone(),
            None => {
                self.player_tokens.insert(player_id.to_owned(), fresh.clone());
                fresh
            },
        }
    }

    /// The player's secret token, made up on first use.
    pub fn ensure_token(&mut self, player_id: &str) -> (r: String)
        ensures
            exists|fresh: Seq<char>|
                outside::is_uuid(fresh) && final(self)@ == #[trigger] old(self)@.ensure_token(
                    player_id@,
                    fresh,
                ),
            r@ == final(self)@.token_of(player_id@),
    {
        let fresh = outside::new_uuid();
        let ghost token = fresh@;
        let r = self.ensure_token_with(player_id, fresh);
        assert(self@ == old(self)@.ensure_token(player_id@, token));
        r
    }

    /// The player's token; empty for a player without one.
    pub fn token_for(&self, player_id: &str) -> (r: String)
        ensures
            r@ == self@.token_of(player_id@),
    {
        match self.player_tokens.get(player_id) {
            Some(token) => token.clone(),
            None => String::new(),
        }
    }

    /// Whether `token` is not empty and is the player's.
    pub fn token_matches(&self, player_id: &str, token: &str) -> (r: bool)
        ensures
            r == self@.token_matches(player_id@, token@),
    {
        if token.is_empty() {
            return false;
        }
        match self.player_tokens.get(player_id) {
            Some(known) => text::same(known.as_str(), token),
            None => false,
        }
    }

    /// Removes a player from all bookkeeping, its secret token included.
    pub fn forget_player(&mut self, player_id: &str)
        ensures
            final(self)@ == old(self)@.forget(player_id@),
    {
        let _ = self.players.remove(player_id);
        let _ = self.player_tokens.remove(player_id);
    }

    /// Puts `player` at the end of the queue.
    fn enqueue(&mut self, player: Player)
        ensures
            final(self)@ == old(self)@.enqueue(player.deep_view()),
    {
        self.players.insert(player.id.clone(), PlayerLocation::Waiting);
        self.waiting_players.push_back(player);
        assert(self.waiting_players.deep_view() =~= old(self).waiting_players.deep_view().push(
            player.deep_view(),
        ));
        assert(self@ =~= old(self)@.enqueue(player.deep_view()));
    }

    /// Puts `player` at the front of the queue.
    fn enqueue_first(&mut self, player: Player)
        ensures
            final(self)@ == old(self)@.enqueue_first(player.deep_view()),
    {
        self.players.insert(player.id.clone(), PlayerLocation::Waiting);
        self.waiting_players.push_front(player);
        assert(self.waiting_players.deep_view() =~= seq![player.deep_view()]
            + old(self).waiting_players.deep_view());
        assert(self@ =~= old(self)@.enqueue_first(player.deep_view()));
    }

    /// Takes those who wait under `player_name` out of the queue and forgets them, but for
    /// `keep_player_id`. Returns how many there were.
    pub fn remove_waiting_players_by_name_except(
        &mut self,
        player_name: &str,
        keep_player_id: &str,
    ) -> (r: usize)
        ensures
            final(self)@ == old(self)@.drop_namesakes(player_name@, keep_player_id@),
            r == old(self)@.waiting.len() - final(self)@.waiting.len(),
    {
        let ghost start = self@;
        let ghost keeps = |player: PlayerModel|
            !is_namesake(player, player_name@, keep_player_id@);
        let mut kept: VecDeque<Player> = VecDeque::new();
        let mut removed: usize = 0;
        let mut i: usize = 0;
        while i < self.waiting_players.len()
            invariant
                keeps == |player: PlayerModel| !is_namesake(player, player_name@, keep_player_id@),
                i <= self.waiting_players@.len(),
                start.waiting == self.waiting_players.deep_view(),
                self@.rooms == start.rooms,
                self@.problems == start.problems,
                kept.deep_view() == start.waiting.take(i as int).filter(keeps),
                removed == i - kept@.len(),
                forall|id: Seq<char>| #[trigger]
                    self@.players.contains_key(id) <==> start.players.contains_key(id) && !(
                    exists|j: int|
                        0 <= j < i && (#[trigger] start.waiting[j]).id == id && is_namesake(
                            start.waiting[j],
                            player_name@,
                            keep_player_id@,
                        )),
                forall|id: Seq<char>| #[trigger]
                    self@.tokens.contains_key(id) <==> start.tokens.contains_key(id) && !(
                    exists|j: int|
                        0 <= j < i && (#[trigger] start.waiting[j]).id == id && is_namesake(
                            start.waiting[j],
                            player_name@,
                            keep_player_id@,
                        )),
                forall|id: Seq<char>| #[trigger]
                    self@.players.contains_key(id) ==> self@.players[id] == start.players[id],
                forall|id: Seq<char>| #[trigger]
                    self@.tokens.contains_key(id) ==> self@.tokens[id] == start.tokens[id],
            decreases self.waiting_players@.len() - i,
        {
            let player = self.waiting_players[i].duplicate();
            let ghost before = kept.deep_view();
            proof {
                assert(start.waiting[i as int] == player.deep_view());
                assert(start.waiting.take(i + 1).drop_last() =~= start.waiting.take(i as int));
                assert(start.waiting.take(i + 1).last() == player.deep_view());
                reveal(Seq::filter);
            }
            if text::same(player.name.as_str(), player_name) && !text::same(
                player.id.as_str(),
                keep_player_id,
            ) {
                self.forget_player(player.id.as_str());
                removed += 1;
                assert(self.waiting_players.deep_view() == self@.waiting);
                assert(self.waiting_players.deep_view().len() == self.waiting_players@.len());
            } else {
                kept.push_back(player);
                assert(kept.deep_view() =~= before.push(player.deep_view()));
            }
            i += 1;
        }
        assert(i == start.waiting.len());
        assert(start.waiting.take(i as int) =~= start.waiting);
        let ghost gone = start.namesakes(player_name@, keep_player_id@);
        let ghost left = self@;
        assert(left.players =~= start.players.remove_keys(gone)) by {
            assert forall|id: Seq<char>| #[trigger] left.players.dom().contains(id) == (
            start.players.dom().contains(id) && !gone.contains(id)) by {
                assert(left.players.contains_key(id) == left.players.dom().contains(id));
            }
            assert forall|id: Seq<char>| #[trigger] left.players.dom().contains(id) implies
                left.players[id] == start.players[id] by {
                assert(left.players.contains_key(id));
            }
        }
        assert(left.tokens =~= start.tokens.remove_keys(gone)) by {
            assert forall|id: Seq<char>| #[trigger] left.tokens.dom().contains(id) == (
            start.tokens.dom().contains(id) && !gone.contains(id)) by {
                assert(left.tokens.contains_key(id) == left.tokens.dom().contains(id));
            }
            assert forall|id: Seq<char>| #[trigger] left.tokens.dom().contains(id) implies
                left.tokens[id] == start.tokens[id] by {
                assert(left.tokens.contains_key(id));
            }
        }
        self.waiting_players = kept;
        assert(self@ =~= start.drop_namesakes(player_name@, keep_player_id@));
        removed
    }

    /// A player asks to join, with `fresh_id` for a request that names no id and `fresh_token` for
    /// a player without a token.
    pub fn join_with(
        &mut self,
        request: JoinRequest,
        fresh_id: String,
        fresh_token: String,
    ) -> (r: JoinDecision)
        ensures
            (final(self)@, r.deep_view()) == old(self)@.join(
                joining_player(request, fresh_id@),
                fresh_token@,
            ),
    {
        let player = Player {
            id: match request.player_id {
                Some(id) => id,
                None => fresh_id,
            },
            name: request.name,
        };
        let token = self.ensure_token_with(player.id.as_str(), fresh_token);

        if let Some(location) = self.players.get(player.id.as_str()) {
            let room_id = match location {
                PlayerLocation::Waiting | PlayerLocation::Matching => {
                    return JoinDecision::Respond(
                        JoinResponse::Waiting { player_id: player.id, token },
                    );
                },
                PlayerLocation::Room { room_id } => room_id,
            };
            if let Some(room) = self.rooms.get(room_id.as_str()) {
                return JoinDecision::Respond(
                    JoinResponse::Matched { player_id: player.id, token, room: room.duplicate() },
                );
            }
            let player_id = player.id.clone();
            self.enqueue(player);
            return JoinDecision::Respond(JoinResponse::Waiting { player_id, token });
        }

        let _ = self.remove_waiting_players_by_name_except(
            player.name.as_str(),
            player.id.as_str(),
        );
        let ghost state = self@;
        match self.waiting_players.pop_front() {
            None => {
                let player_id = player.id.clone();
                self.enqueue(player);
                JoinDecision::Respond(JoinResponse::Waiting { player_id, token })
            },
            Some(opponent) => {
                // Both players are set aside until their problem is chosen. They are out of the
                // queue, and either may still leave, which cancels the pairing.
                self.players.insert(opponent.id.clone(), PlayerLocation::Matching);
                self.players.insert(player.id.clone(), PlayerLocation::Matching);
                assert(self.waiting_players.deep_view() =~= state.waiting.skip(1));
                JoinDecision::CreateRoom { opponent, player }
            },
        }
    }

    /// A player asks to join.
    pub fn join(&mut self, request: JoinRequest) -> (r: JoinDecision)
        ensures
            exists|fresh_id: Seq<char>, fresh_token: Seq<char>|
                outside::is_uuid(fresh_id) && outside::is_uuid(fresh_token) && (
                final(self)@,
                r.deep_view(),
            ) == #[trigger] old(self)@.join(joining_player(request, fresh_id), fresh_token),
    {
        let fresh_id = outside::new_uuid();
        let fresh_token = outside::new_uuid();
        let ghost player = joining_player(request, fresh_id@);
        let ghost token = fresh_token@;
        let r = self.join_with(request, fresh_id, fresh_token);
        assert((self@, r.deep_view()) == old(self)@.join(player, token));
        r
    }

    fn is_matching(&self, player_id: &str) -> (r: bool)
        ensures
            r == self@.is_matching(player_id@),
    {
        match self.players.get(player_id) {
            Some(PlayerLocation::Matching) => true,
            _ => false,
        }
    }

    /// Opens the room `room_id` for two players that were paired. If one of them left in the
    /// meantime, there is no room, and the other goes back to the queue.
    pub fn create_room_at(
        &mut self,
        opponent: Player,
        player: Player,
        problem: Problem,
        room_id: String,
        now: i64,
    ) -> (r: JoinResponse)
        ensures
            (final(self)@, r.deep_view()) == old(self)@.create_room(
                opponent.deep_view(),
                player.deep_view(),
                problem.deep_view(),
                room_id@,
                now,
            ),
    {
        if !(self.is_matching(opponent.id.as_str()) && self.is_matching(player.id.as_str())) {
            return self.requeue_pair(opponent, player);
        }
        let mut atcoder_users: StrMap<String> = StrMap::new();
        atcoder_users.insert(opponent.id.clone(), opponent.name.clone());
        atcoder_users.insert(player.id.clone(), player.name.clone());
        let room = Room {
            id: room_id.clone(),
            players: [opponent.duplicate(), player.duplicate()],
            problem,
            started_at_second: now,
            status: RoomStatus::Playing,
            winner_player_id: None,
            finish_reason: None,
            winning_submission: None,
            atcoder_users,
            player_activity: StrMap::new(),
            player_submissions: StrMap::new(),
            code_snapshots: StrMap::new(),
            polling_submissions: false,
            finished_at_second: None,
        };
        assert(room.deep_view() =~= new_room(
            room_id@,
            opponent.deep_view(),
            player.deep_view(),
            problem.deep_view(),
            now,
        ));
        self.players.insert(opponent.id, PlayerLocation::Room { room_id: room_id.clone() });
        self.players.insert(player.id.clone(), PlayerLocation::Room { room_id: room_id.clone() });
        self.rooms.insert(room_id, room.duplicate());
        let token = self.token_for(player.id.as_str());
        JoinResponse::Matched { player_id: player.id, token, room }
    }

    /// Opens a room for two players that were paired.
    pub fn create_room(&mut self, opponent: Player, player: Player, problem: Problem) -> (r:
        JoinResponse)
        ensures
            exists|room_id: Seq<char>, now: i64|
                outside::is_uuid(room_id) && (final(self)@, r.deep_view())
                    == #[trigger] old(self)@.create_room(
                    opponent.deep_view(),
                    player.deep_view(),
                    problem.deep_view(),
                    room_id,
                    now,
                ),
    {
        let room_id = outside::new_uuid();
        let now: i64 = outside::unix_now();
        let ghost name = room_id@;
        let r = self.create_room_at(opponent, player, problem, room_id, now);
        assert((self@, r.deep_view()) == old(self)@.create_room(
            opponent.deep_view(),
            player.deep_view(),
            problem.deep_view(),
            name,
            now,
        ));
        r
    }

    /// Puts two players that were paired back to the queue. One that left in the meantime stays
    /// gone.
    pub fn requeue_pair(&mut self, opponent: Player, player: Player) -> (r: JoinResponse)
        ensures
            (final(self)@, r.deep_view()) == old(self)@.requeue_pair(
                opponent.deep_view(),
                player.deep_view(),
            ),
    {
        let player_id = player.id.clone();
        let token = self.token_for(player.id.as_str());
        if self.is_matching(opponent.id.as_str()) {
            self.enqueue_first(opponent);
        }
        if self.is_matching(player.id.as_str()) {
            self.enqueue(player);
        }
        JoinResponse::Waiting { player_id, token }
    }

    /// What a player is told about its own state; nothing, if it is unknown.
    pub fn player_state(&self, player_id: &str) -> (r: Option<PlayerStateResponse>)
        ensures
            r.deep_view() == self@.player_state(player_id@),
    {
        match self.players.get(player_id) {
            None => None,
            Some(PlayerLocation::Waiting) | Some(PlayerLocation::Matching) => Some(
                PlayerStateResponse::Waiting { player_id: player_id.to_owned() },
            ),
            Some(PlayerLocation::Room { room_id }) => match self.rooms.get(room_id.as_str()) {
                Some(room) => Some(
                    PlayerStateResponse::Matched {
                        player_id: player_id.to_owned(),
                        room: room.duplicate(),
                    },
                ),
                None => None,
            },
        }
    }

    /// Takes everybody with the id `player_id` out of the queue.
    fn drop_from_queue(&mut self, player_id: &str)
        ensures
            final(self)@ == (RoomsModel {
                waiting: old(self)@.waiting.filter(|player: PlayerModel| player.id != player_id@),
                ..old(self)@
            }),
    {
        let ghost start = self@;
        let ghost keeps = |player: PlayerModel| player.id != player_id@;
        let mut kept: VecDeque<Player> = VecDeque::new();
        let mut i: usize = 0;
        while i < self.waiting_players.len()
            invariant
                keeps == |player: PlayerModel| player.id != player_id@,
                i <= self.waiting_players@.len(),
                self@ == start,
                start.waiting == self.waiting_players.deep_view(),
                kept.deep_view() == start.waiting.take(i as int).filter(keeps),
            decreases self.waiting_players@.len() - i,
        {
            let player = self.waiting_players[i].duplicate();
            let ghost before = kept.deep_view();
            proof {
                assert(start.waiting[i as int] == player.deep_view());
                assert(start.waiting.take(i + 1).drop_last() =~= start.waiting.take(i as int));
                assert(start.waiting.take(i + 1).last() == player.deep_view());
                reveal(Seq::filter);
            }
            if !text::same(player.id.as_str(), player_id) {
                kept.push_back(player);
                assert(kept.deep_view() =~= before.push(player.deep_view()));
            }
            i += 1;
        }
        assert(start.waiting.take(i as int) =~= start.waiting);
        self.waiting_players = kept;
    }

    /// A player leaves at the second `now`.
    pub fn leave_player_at(&mut self, player_id: &str, now: i64) -> (r: LeaveOutcome)
        ensures
            (final(self)@, r.deep_view()) == old(self)@.leave(player_id@, now),
    {
        let room_id = match self.players.get(player_id) {
            None => {
                return LeaveOutcome::NotFound;
            },
            Some(PlayerLocation::Waiting) => {
                self.forget_player(player_id);
                self.drop_from_queue(player_id);
                return LeaveOutcome::LeftWaiting;
            },
            Some(PlayerLocation::Matching) => {
                // The pairing ends here: no room is opened for a player that is gone.
                self.forget_player(player_id);
                return LeaveOutcome::LeftWaiting;
            },
            Some(PlayerLocation::Room { room_id }) => room_id.clone(),
        };
        let winner = match self.rooms.get(room_id.as_str()) {
            None => {
                self.forget_player(player_id);
                return LeaveOutcome::NotFound;
            },
            Some(room) => {
                if room.status != RoomStatus::Playing {
                    return LeaveOutcome::RoomAlreadyFinished(room.duplicate());
                }
                if !text::same(room.players[0].id.as_str(), player_id) {
                    room.players[0].id.clone()
                } else if !text::same(room.players[1].id.as_str(), player_id) {
                    room.players[1].id.clone()
                } else {
                    return LeaveOutcome::NotFound;
                }
            },
        };
        match self.rooms.remove(room_id.as_str()) {
            None => LeaveOutcome::NotFound,
            Some(mut room) => {
                finish_room(&mut room, winner.as_str(), RoomFinishReason::PlayerLeft, now);
                let finished_room = room.duplicate();
                self.rooms.insert(room_id, room);
                self.forget_player(player_id);
                assert(self@ =~= old(self)@.leave(player_id@, now).0);
                LeaveOutcome::ForfeitedRoom(finished_room)
            },
        }
    }

    /// A player leaves.
    pub fn leave_player(&mut self, player_id: &str) -> (r: LeaveOutcome)
        ensures
            exists|now: i64|
                (final(self)@, r.deep_view()) == #[trigger] old(self)@.leave(player_id@, now),
    {
        let now: i64 = outside::unix_now();
        let r = self.leave_player_at(player_id, now);
        assert((self@, r.deep_view()) == old(self)@.leave(player_id@, now));
        r
    }

    /// The room, if there is one.
    pub fn room_state(&self, room_id: &str) -> (r: Option<Room>)
        ensures
            r.deep_view() == self@.room_state(room_id@),
    {
        match self.rooms.get(room_id) {
            Some(room) => Some(room.duplicate()),
            None => None,
        }
    }

    /// Sets the room's polling flag. Returns the room and whether the flag was not set before.
    pub fn start_submission_watch(&mut self, room_id: &str) -> (r: Option<(Room, bool)>)
        ensures
            (final(self)@, r.deep_view()) == old(self)@.start_submission_watch(room_id@),
    {
        match self.rooms.remove(room_id) {
            None => {
                assert(self@ =~= old(self)@);
                None
            },
            Some(mut room) => {
                let should_start_polling = !room.polling_submissions;
                room.polling_submissions = true;
                let shown = room.duplicate();
                self.rooms.insert(room_id.to_owned(), room);
                assert(self@ =~= old(self)@.start_submission_watch(room_id@).0);
                Some((shown, should_start_polling))
            },
        }
    }

    /// Clears the polling flag when polling stops, so that a later watch request starts it anew.
    pub fn stop_submission_watch(&mut self, room_id: &str)
        ensures
            final(self)@ == old(self)@.stop_submission_watch(room_id@),
    {
        match self.rooms.remove(room_id) {
            None => {
                assert(self@ =~= old(self)@);
            },
            Some(mut room) => {
                room.polling_submissions = false;
                self.rooms.insert(room_id.to_owned(), room);
                assert(self@ =~= old(self)@.stop_submission_watch(room_id@));
            },
        }
    }

    /// A player declares the match won at the second `now`.
    pub fn complete_room_at(&mut self, room_id: &str, player_id: &str, now: i64) -> (r: Option<
        Room,
    >)
        ensures
            (final(self)@, r.deep_view()) == old(self)@.complete(room_id@, player_id@, now),
    {
        match self.rooms.get(room_id) {
            None => {
                return None;
            },
            Some(room) => {
                if !room_has_player(room, player_id) {
                    return None;
                }
                if room.status != RoomStatus::Playing {
                    return Some(room.duplicate());
                }
            },
        }
        match self.rooms.remove(room_id) {
            None => None,
            Some(mut room) => {
                finish_room(&mut room, player_id, RoomFinishReason::ManualComplete, now);
                let shown = room.duplicate();
                self.rooms.insert(room_id.to_owned(), room);
                assert(self@ =~= old(self)@.complete(room_id@, player_id@, now).0);
                Some(shown)
            },
        }
    }

    /// A player declares the match won.
    pub fn complete_room(&mut self, room_id: &str, player_id: &str) -> (r: Option<Room>)
        ensures
            exists|now: i64|
                (final(self)@, r.deep_view()) == #[trigger] old(self)@.complete(
                    room_id@,
                    player_id@,
                    now,
                ),
    {
        let now: i64 = outside::unix_now();
        let r = self.complete_room_at(room_id, player_id, now);
        assert((self@, r.deep_view()) == old(self)@.complete(room_id@, player_id@, now));
        r
    }

    /// A submission of a player was accepted, which is learnt at the second `now`.
    pub fn apply_submission_ac_at(
        &mut self,
        room_id: &str,
        player_id: &str,
        submission: AtCoderSubmission,
        now: i64,
    ) -> (r: Option<Room>)
        ensures
            (final(self)@, r.deep_view()) == old(self)@.apply_ac(
                room_id@,
                player_id@,
                submission.deep_view(),
                now,
            ),
    {
        match self.rooms.get(room_id) {
            None => {
                return None;
            },
            Some(room) => {
                if room.status != RoomStatus::Playing {
                    return Some(room.duplicate());
                }
                if !room_has_player(room, player_id) {
                    return None;
                }
            },
        }
        match self.rooms.remove(room_id) {
            None => None,
            Some(mut room) => {
                finish_room(&mut room, player_id, RoomFinishReason::Accepted, now);
                // A parsed submission does not name its submitter, the room does.
                let atcoder_user = match room.atcoder_users.get(player_id) {
                    Some(user) => user.clone(),
                    None => String::new(),
                };
                room.winning_submission = Some(
                    WinningSubmission {
                        player_id: player_id.to_owned(),
                        atcoder_user,
                        epoch_second: submission.epoch_second,
                        submission_id: submission.id,
                        source_code: submission.source_code,
                    },
                );
                assert(room.winning_submission.deep_view() == Some(
                    winning_submission(
                        old(self)@.rooms[room_id@],
                        player_id@,
                        submission.deep_view(),
                    ),
                ));
                let shown = room.duplicate();
                self.rooms.insert(room_id.to_owned(), room);
                assert(self@ =~= old(self)@.apply_ac(
                    room_id@,
                    player_id@,
                    submission.deep_view(),
                    now,
                ).0);
                Some(shown)
            },
        }
    }

    /// A submission of a player was accepted.
    pub fn apply_submission_ac(
        &mut self,
        room_id: &str,
        player_id: &str,
        submission: AtCoderSubmission,
    ) -> (r: Option<Room>)
        ensures
            exists|now: i64|
                (final(self)@, r.deep_view()) == #[trigger] old(self)@.apply_ac(
                    room_id@,
                    player_id@,
                    submission.deep_view(),
                    now,
                ),
    {
        let now: i64 = outside::unix_now();
        let r = self.apply_submission_ac_at(room_id, player_id, submission, now);
        assert((self@, r.deep_view()) == old(self)@.apply_ac(
            room_id@,
            player_id@,
            submission.deep_view(),
            now,
        ));
        r
    }

    /// A player uploads code.
    pub fn update_code_snapshot(
        &mut self,
        room_id: &str,
        player_id: &str,
        snapshot: PlayerCodeSnapshot,
    ) -> (r: Option<Room>)
        ensures
            (final(self)@, r.deep_view()) == old(self)@.update_snapshot(
                room_id@,
                player_id@,
                snapshot.deep_view(),
            ),
    {
        match self.rooms.get(room_id) {
            None => {
                return None;
            },
            Some(room) => {
                if !room_has_player(room, player_id) {
                    return None;
                }
            },
        }
        match self.rooms.remove(room_id) {
            None => None,
            Some(room) => {
                let mut room = room;
                let mut code_snapshots = room.code_snapshots;
                code_snapshots.insert(player_id.to_owned(), snapshot);
                room.code_snapshots = code_snapshots;
                let shown = room.duplicate();
                self.rooms.insert(room_id.to_owned(), room);
                assert(self@ =~= old(self)@.update_snapshot(
                    room_id@,
                    player_id@,
                    snapshot.deep_view(),
                ).0);
                Some(shown)
            },
        }
    }

    /// A player uploads code to the room it is in.
    pub fn update_player_code_snapshot(&mut self, player_id: &str, snapshot: PlayerCodeSnapshot)
        -> (r: Option<Room>)
        ensures
            (final(self)@, r.deep_view()) == old(self)@.update_player_snapshot(
                player_id@,
                snapshot.deep_view(),
            ),
    {
        let room_id = match self.players.get(player_id) {
            None | Some(PlayerLocation::Waiting) | Some(PlayerLocation::Matching) => {
                return None;
            },
            Some(PlayerLocation::Room { room_id }) => room_id.clone(),
        };
        self.update_code_snapshot(room_id.as_str(), player_id, snapshot)
    }

    /// Puts freshly polled submission activity into the room. Only players with new data are
    /// updated, so a failed fetch keeps the last value.
    pub fn update_player_activity(
        &mut self,
        room_id: &str,
        activity: &[(String, PlayerActivity)],
        submissions: &[(String, Vec<PlayerSubmissionRecord>)],
    )
        ensures
            final(self)@ == old(self)@.update_activity(
                room_id@,
                activity.deep_view(),
                submissions.deep_view(),
            ),
    {
        let mut room = match self.rooms.remove(room_id) {
            None => {
                assert(self@ =~= old(self)@);
                return ;
            },
            Some(room) => room,
        };
        let ghost start = room.deep_view();
        let mut player_activity = room.player_activity;
        put_all(&mut player_activity, activity);
        room.player_activity = player_activity;
        let mut player_submissions = room.player_submissions;
        put_all(&mut player_submissions, submissions);
        room.player_submissions = player_submissions;
        self.rooms.insert(room_id.to_owned(), room);
        assert(self@ =~= old(self)@.update_activity(
            room_id@,
            activity.deep_view(),
            submissions.deep_view(),
        ));
    }

    /// Whether the room `room_id` exists and finished more than `ttl_seconds` before `now`.
    fn room_is_stale(&self, room_id: &str, ttl_seconds: i64, now: i64) -> (r: bool)
        ensures
            r == self@.stale_rooms(ttl_seconds, now).contains(room_id@),
    {
        match self.rooms.get(room_id) {
            None => false,
            Some(room) => match room.finished_at_second {
                None => false,
                Some(second) => room.status == RoomStatus::Finished && clamped_gap(now, second)
                    > ttl_seconds,
            },
        }
    }

    /// Removes the rooms that finished more than `ttl_seconds` before `now` along with any players
    /// still pointing at them. Returns the number of rooms removed.
    pub fn reap_finished(&mut self, ttl_seconds: i64, now: i64) -> (r: usize)
        ensures
            final(self)@ == old(self)@.reap(ttl_seconds, now),
            old(self)@.stale_rooms(ttl_seconds, now).finite(),
            r == old(self)@.stale_rooms(ttl_seconds, now).len(),
    {
        let ghost start = self@;
        let ghost stale = start.stale_rooms(ttl_seconds, now);
        let ghost leaving = start.players_in(stale);
        let room_ids = self.stale_room_ids(ttl_seconds, now);
        let player_ids = self.players.keys();
        let mut i: usize = 0;
        while i < player_ids.len()
            invariant
                i <= player_ids@.len(),
                stale == start.stale_rooms(ttl_seconds, now),
                leaving == start.players_in(stale),
                self@.waiting == start.waiting,
                self@.rooms == start.rooms,
                self@.problems == start.problems,
                forall|a: int, b: int|
                    0 <= a < b < player_ids@.len() ==> (#[trigger] player_ids@[a])@ != (
                    #[trigger] player_ids@[b])@,
                forall|id: Seq<char>| #[trigger]
                    self@.players.dom().contains(id) <==> start.players.dom().contains(id) && !(
                    leaving.contains(id) && listed(player_ids@, i as int, id)),
                forall|id: Seq<char>| #[trigger]
                    self@.tokens.dom().contains(id) <==> start.tokens.dom().contains(id) && !(
                    leaving.contains(id) && listed(player_ids@, i as int, id)),
                forall|id: Seq<char>| #[trigger]
                    self@.players.dom().contains(id) ==> self@.players[id] == start.players[id],
                forall|id: Seq<char>| #[trigger]
                    self@.tokens.dom().contains(id) ==> self@.tokens[id] == start.tokens[id],
            decreases player_ids@.len() - i,
        {
            let player_id = player_ids[i].clone();
            let leaves = match self.players.get(player_id.as_str()) {
                Some(PlayerLocation::Room { room_id }) => self.room_is_stale(
                    room_id.as_str(),
                    ttl_seconds,
                    now,
                ),
                _ => false,
            };
            proof {
                assert forall|j: int| 0 <= j < i implies (#[trigger] player_ids@[j])@
                    != player_id@ by {
                    assert(player_ids@[i as int]@ == player_id@);
                }
                assert(self@.players.dom().contains(player_id@) == start.players.dom().contains(
                    player_id@,
                ));
                assert(leaves == leaving.contains(player_id@));
            }
            let ghost before = self@;
            if leaves {
                self.forget_player(player_id.as_str());
            }
            i += 1;
        }
        proof {
            assert forall|id: Seq<char>| leaving.contains(id) implies listed(player_ids@, i as int, id) by {
                assert(start.players.contains_key(id));
            }
            assert(self@.players =~= start.players.remove_keys(leaving));
            assert(self@.tokens =~= start.tokens.remove_keys(leaving));
        }
        let mut k: usize = 0;
        while k < room_ids.len()
            invariant
                k <= room_ids@.len(),
                self@.waiting == start.waiting,
                self@.players == start.players.remove_keys(leaving),
                self@.tokens == start.tokens.remove_keys(leaving),
                self@.problems == start.problems,
                forall|id: Seq<char>| #[trigger]
                    self@.rooms.dom().contains(id) <==> start.rooms.dom().contains(id) && !listed(
                        room_ids@,
                        k as int,
                        id,
                    ),
                forall|id: Seq<char>| #[trigger]
                    self@.rooms.dom().contains(id) ==> self@.rooms[id] == start.rooms[id],
            decreases room_ids@.len() - k,
        {
            let room_id = room_ids[k].clone();
            let ghost before = self@.rooms;
            let _ = self.rooms.remove(room_id.as_str());
            k += 1;
            proof {
                assert(self@.rooms == before.remove(room_id@));
                assert(room_ids@[k - 1]@ == room_id@);
                assert forall|id: Seq<char>| #[trigger] self@.rooms.dom().contains(id) implies
                    before.dom().contains(id) && id != room_id@ by {}
                assert forall|id: Seq<char>| #[trigger] listed(room_ids@, k as int, id) == (id
                    == room_id@ || listed(room_ids@, k - 1, id)) by {}
                assert forall|id: Seq<char>| #[trigger] self@.rooms.dom().contains(id) == (
                start.rooms.dom().contains(id) && !listed(room_ids@, k as int, id)) by {
                    assert(before.dom().contains(id) == (start.rooms.dom().contains(id) && !listed(
                        room_ids@,
                        k - 1,
                        id,
                    )));
                }
            }
        }
        assert(self@.rooms =~= start.rooms.remove_keys(stale)) by {
            assert forall|id: Seq<char>| #[trigger] self@.rooms.dom().contains(id) == (
            start.rooms.dom().contains(id) && !stale.contains(id)) by {
                if stale.contains(id) {
                    let j = choose|j: int|
                        0 <= j < room_ids@.len() && (#[trigger] room_ids@[j])@ == id;
                    assert(room_ids@[j]@ == id);
                }
            }
        }
        assert(self@ =~= start.reap(ttl_seconds, now));
        room_ids.len()
    }

    /// The ids of the rooms that finished more than `ttl_seconds` before `now`, each once.
    fn stale_room_ids(&self, ttl_seconds: i64, now: i64) -> (r: Vec<String>)
        ensures
            forall|id: Seq<char>|
                self@.stale_rooms(ttl_seconds, now).contains(id) <==> listed(r@, r@.len() as int, id),
            self@.stale_rooms(ttl_seconds, now).finite(),
            r@.len() == self@.stale_rooms(ttl_seconds, now).len(),
    {
        let ghost stale = self@.stale_rooms(ttl_seconds, now);
        let room_ids = self.rooms.keys();
        let mut out: Vec<String> = Vec::new();
        let mut i: usize = 0;
        let ghost mut found: Set<Seq<char>> = Set::empty();
        while i < room_ids.len()
            invariant
                i <= room_ids@.len(),
                stale == self@.stale_rooms(ttl_seconds, now),
                forall|a: int, b: int|
                    0 <= a < b < room_ids@.len() ==> (#[trigger] room_ids@[a])@ != (
                    #[trigger] room_ids@[b])@,
                found.finite(),
                found.len() == out@.len(),
                forall|id: Seq<char>| #[trigger]
                    found.contains(id) <==> stale.contains(id) && listed(room_ids@, i as int, id),
                forall|id: Seq<char>| #[trigger]
                    found.contains(id) <==> listed(out@, out@.len() as int, id),
            decreases room_ids@.len() - i,
        {
            let room_id = room_ids[i].clone();
            let ghost before = out@;
            let ghost known = found;
            proof {
                assert(room_ids@[i as int]@ == room_id@);
                if exists|j: int| 0 <= j < i && (#[trigger] room_ids@[j])@ == room_id@ {
                    let j = choose|j: int| 0 <= j < i && (#[trigger] room_ids@[j])@ == room_id@;
                    assert(room_ids@[j]@ != room_ids@[i as int]@);
                }
                assert(!found.contains(room_id@));
            }
            if self.room_is_stale(room_id.as_str(), ttl_seconds, now) {
                let ghost name = room_id@;
                out.push(room_id);
                proof {
                    found = found.insert(name);
                    assert(out@[before.len() as int]@ == name);
                    assert forall|id: Seq<char>| #[trigger]
                        found.contains(id) implies listed(out@, out@.len() as int, id) by {
                        if id != name {
                            let j = choose|j: int|
                                0 <= j < before.len() && (#[trigger] before[j])@ == id;
                            assert(out@[j]@ == id);
                        }
                    }
                    assert forall|id: Seq<char>|
                        (listed(out@, out@.len() as int, id)) implies
                        #[trigger] found.contains(id) by {
                        let j = choose|j: int| 0 <= j < out@.len() && (#[trigger] out@[j])@ == id;
                        if j < before.len() {
                            assert(before[j]@ == id);
                            assert(known.contains(id));
                        }
                    }
                }
            }
            i += 1;
        }
        proof {
            assert forall|id: Seq<char>| stale.contains(id) implies #[trigger] found.contains(
                id,
            ) by {
                assert(self.rooms.deep_view().contains_key(id));
            }
            assert(found =~= stale);
        }
        out
    }
}

/// `a - b`, held within the range of `i64`.
fn clamped_gap(a: i64, b: i64) -> (r: i64)
    ensures
        r == clamped_difference(a, b),
{
    let gap: i128 = a as i128 - b as i128;
    if gap > i64::MAX as i128 {
        i64::MAX
    } else if gap < i64::MIN as i128 {
        i64::MIN
    } else {
        gap as i64
    }
}

/// Puts the entries `pairs` into `map`, one after the other.
fn put_all<V: Duplicate>(map: &mut StrMap<V>, pairs: &[(String, V)])
    ensures
        final(map).deep_view() == insert_all(old(map).deep_view(), pairs.deep_view()),
{
    let mut i: usize = 0;
    while i < pairs.len()
        invariant
            i <= pairs@.len(),
            map.deep_view() == insert_all(old(map).deep_view(), pairs.deep_view().take(i as int)),
        decreases pairs@.len() - i,
    {
        map.insert(pairs[i].0.clone(), pairs[i].1.duplicate());
        assert(pairs.deep_view().take(i + 1).drop_last() =~= pairs.deep_view().take(i as int));
        assert(pairs.deep_view().take(i + 1).last() == pairs@[i as int].deep_view());
        i += 1;
    }
    assert(pairs.deep_view().take(i as int) =~= pairs.deep_view());
}

} // verus!
