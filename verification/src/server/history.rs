//! The history of matches.

use vstd::prelude::*;

use crate::copying::Duplicate;
use crate::server::model::{
    AtCoderSubmissionModel, Player, PlayerActivityModel, PlayerCodeSnapshotModel, PlayerModel,
    PlayerSubmissionRecord, PlayerSubmissionRecordModel, Problem, ProblemModel, Room,
    RoomFinishReason, RoomModel, RoomStatus,
};
use crate::server::rooms::RoomsModel;
use crate::strmap::StrMap;
use crate::text;

verus! {

/// What the history says of one player of a match.
pub struct MatchHistoryPlayer {
    pub player_id: String,
    pub atcoder_user: String,
    pub attempt_count: u32,
    pub last_verdict: Option<String>,
    pub last_submission_epoch: Option<i64>,
    pub submissions: Vec<PlayerSubmissionRecord>,
    pub code_snapshot_epoch: Option<i64>,
    pub main_rs: Option<String>,
    pub cargo_toml: Option<String>,
}

/// What a `MatchHistoryPlayer` holds.
#[verifier::ext_equal]
pub struct MatchHistoryPlayerModel {
    pub player_id: Seq<char>,
    pub atcoder_user: Seq<char>,
    pub attempt_count: u32,
    pub last_verdict: Option<Seq<char>>,
    pub last_submission_epoch: Option<i64>,
    pub submissions: Seq<PlayerSubmissionRecordModel>,
    pub code_snapshot_epoch: Option<i64>,
    pub main_rs: Option<Seq<char>>,
    pub cargo_toml: Option<Seq<char>>,
}

impl DeepView for MatchHistoryPlayer {
    type V = MatchHistoryPlayerModel;

    open spec fn deep_view(&self) -> MatchHistoryPlayerModel {
        MatchHistoryPlayerModel {
            player_id: self.player_id@,
            atcoder_user: self.atcoder_user@,
            attempt_count: self.attempt_count,
            last_verdict: self.last_verdict.deep_view(),
            last_submission_epoch: self.last_submission_epoch,
            submissions: self.submissions.deep_view(),
            code_snapshot_epoch: self.code_snapshot_epoch,
            main_rs: self.main_rs.deep_view(),
            cargo_toml: self.cargo_toml.deep_view(),
        }
    }
}

/// What the history says of a match.
pub struct MatchHistoryEntry {
    pub room_id: String,
    pub problem_id: String,
    pub problem_title: String,
    pub problem_url: String,
    pub problem: Problem,
    pub started_at_second: i64,
    pub finished_at_second: Option<i64>,
    pub status: String,
    pub finish_reason: Option<String>,
    pub winner_player_id: Option<String>,
    pub winning_atcoder_user: Option<String>,
    pub winning_submission_id: Option<i64>,
    pub winning_submission_epoch: Option<i64>,
    pub winning_source_code: Option<String>,
    pub players: [MatchHistoryPlayer; 2],
}

/// What a `MatchHistoryEntry` holds.
#[verifier::ext_equal]
pub struct MatchHistoryEntryModel {
    pub room_id: Seq<char>,
    pub problem_id: Seq<char>,
    pub problem_title: Seq<char>,
    pub problem_url: Seq<char>,
    pub problem: ProblemModel,
    pub started_at_second: i64,
    pub finished_at_second: Option<i64>,
    pub status: Seq<char>,
    pub finish_reason: Option<Seq<char>>,
    pub winner_player_id: Option<Seq<char>>,
    pub winning_atcoder_user: Option<Seq<char>>,
    pub winning_submission_id: Option<i64>,
    pub winning_submission_epoch: Option<i64>,
    pub winning_source_code: Option<Seq<char>>,
    pub players: (MatchHistoryPlayerModel, MatchHistoryPlayerModel),
}

impl DeepView for MatchHistoryEntry {
    type V = MatchHistoryEntryModel;

    open spec fn deep_view(&self) -> MatchHistoryEntryModel {
        MatchHistoryEntryModel {
            room_id: self.room_id@,
            problem_id: self.problem_id@,
            problem_title: self.problem_title@,
            problem_url: self.problem_url@,
            problem: self.problem.deep_view(),
            started_at_second: self.started_at_second,
            finished_at_second: self.finished_at_second,
            status: self.status@,
            finish_reason: self.finish_reason.deep_view(),
            winner_player_id: self.winner_player_id.deep_view(),
            winning_atcoder_user: self.winning_atcoder_user.deep_view(),
            winning_submission_id: self.winning_submission_id,
            winning_submission_epoch: self.winning_submission_epoch,
            winning_source_code: self.winning_source_code.deep_view(),
            players: (self.players[0].deep_view(), self.players[1].deep_view()),
        }
    }
}

/// How many matches are listed at most: as many as asked for, but at least one and at most 200.
pub open spec fn clamped_limit(limit: usize) -> usize {
    if limit < 1 {
        1
    } else if limit > 200 {
        200
    } else {
        limit
    }
}

/// The AtCoder user of a player: the one that the room has for it, else its own name.
pub open spec fn user_of(room: RoomModel, player: PlayerModel) -> Seq<char> {
    if room.atcoder_users.contains_key(player.id) {
        room.atcoder_users[player.id]
    } else {
        player.name
    }
}

/// What the history says of a player of `room`.
pub open spec fn history_player(room: RoomModel, player: PlayerModel) -> MatchHistoryPlayerModel {
    let active = room.player_activity.contains_key(player.id);
    let activity = room.player_activity[player.id];
    let uploaded = room.code_snapshots.contains_key(player.id);
    let snapshot = room.code_snapshots[player.id];
    MatchHistoryPlayerModel {
        player_id: player.id,
        atcoder_user: user_of(room, player),
        attempt_count: if active {
            activity.attempt_count
        } else {
            0
        },
        last_verdict: if active {
            activity.last_verdict
        } else {
            None
        },
        last_submission_epoch: if active {
            activity.last_submission_epoch
        } else {
            None
        },
        submissions: if room.player_submissions.contains_key(player.id) {
            room.player_submissions[player.id]
        } else {
            seq![]
        },
        code_snapshot_epoch: if uploaded {
            Some(snapshot.captured_at_second)
        } else {
            None
        },
        main_rs: if uploaded {
            Some(snapshot.main_rs)
        } else {
            None
        },
        cargo_toml: if uploaded {
            Some(snapshot.cargo_toml)
        } else {
            None
        },
    }
}

/// What the history says of the match in `room`.
pub open spec fn history_entry(room: RoomModel) -> MatchHistoryEntryModel {
    MatchHistoryEntryModel {
        room_id: room.id,
        problem_id: room.problem.id,
        problem_title: room.problem.title,
        problem_url: room.problem.url,
        problem: room.problem,
        started_at_second: room.started_at_second,
        finished_at_second: room.finished_at_second,
        status: room.status.name(),
        finish_reason: match room.finish_reason {
            Some(reason) => Some(reason.name()),
            None => None,
        },
        winner_player_id: room.winner_player_id,
        winning_atcoder_user: match room.winning_submission {
            Some(submission) => Some(submission.atcoder_user),
            None => None,
        },
        winning_submission_id: match room.winning_submission {
            Some(submission) => Some(submission.submission_id),
            None => None,
        },
        winning_submission_epoch: match room.winning_submission {
            Some(submission) => Some(submission.epoch_second),
            None => None,
        },
        winning_source_code: match room.winning_submission {
            Some(submission) => submission.source_code,
            None => None,
        },
        players: (history_player(room, room.players.0), history_player(room, room.players.1)),
    }
}

/// How many matches are listed at most.
pub fn normalized_history_limit(limit: usize) -> (r: usize)
    ensures
        r == clamped_limit(limit),
        1 <= r <= 200,
{
    if limit < 1 {
        1
    } else if limit > 200 {
        200
    } else {
        limit
    }
}

/// How many matches are listed at most for a request: 50, unless it says otherwise.
pub fn requested_history_limit(limit: Option<usize>) -> (r: usize)
    ensures
        r == match limit {
            Some(limit) => clamped_limit(limit),
            None => 50,
        },
{
    match limit {
        Some(limit) => normalized_history_limit(limit),
        None => normalized_history_limit(50),
    }
}

/// The AtCoder user of a player.
pub fn history_user(room: &Room, player: &Player) -> (r: String)
    ensures
        r@ == user_of(room.deep_view(), player.deep_view()),
{
    match room.atcoder_users.get(player.id.as_str()) {
        Some(user) => user.clone(),
        None => player.name.clone(),
    }
}

/// What the history says of a player of `room`.
pub fn history_player_from_room(room: &Room, player: &Player) -> (r: MatchHistoryPlayer)
    ensures
        r.deep_view() == history_player(room.deep_view(), player.deep_view()),
{
    let (attempt_count, last_verdict, last_submission_epoch) = match room.player_activity.get(
        player.id.as_str(),
    ) {
        Some(activity) => (
            activity.attempt_count,
            activity.last_verdict.duplicate(),
            activity.last_submission_epoch,
        ),
        None => (0, None, None),
    };
    let submissions = match room.player_submissions.get(player.id.as_str()) {
        Some(submissions) => submissions.duplicate(),
        None => Vec::new(),
    };
    let (code_snapshot_epoch, main_rs, cargo_toml) = match room.code_snapshots.get(
        player.id.as_str(),
    ) {
        Some(snapshot) => (
            Some(snapshot.captured_at_second),
            Some(snapshot.main_rs.clone()),
            Some(snapshot.cargo_toml.clone()),
        ),
        None => (None, None, None),
    };
    let r = MatchHistoryPlayer {
        player_id: player.id.clone(),
        atcoder_user: history_user(room, player),
        attempt_count,
        last_verdict,
        last_submission_epoch,
        submissions,
        code_snapshot_epoch,
        main_rs,
        cargo_toml,
    };
    assert(r.deep_view() =~= history_player(room.deep_view(), player.deep_view()));
    r
}

/// What the history says of the match in `room`.
pub fn history_entry_from_room(room: &Room) -> (r: MatchHistoryEntry)
    ensures
        r.deep_view() == history_entry(room.deep_view()),
{
    let finish_reason = match &room.finish_reason {
        Some(reason) => Some(reason.as_str().to_owned()),
        None => None,
    };
    let (
        winning_atcoder_user,
        winning_submission_id,
        winning_submission_epoch,
        winning_source_code,
    ) = match &room.winning_submission {
        Some(submission) => (
            Some(submission.atcoder_user.clone()),
            Some(submission.submission_id),
            Some(submission.epoch_second),
            submission.source_code.duplicate(),
        ),
        None => (None, None, None, None),
    };
    MatchHistoryEntry {
        room_id: room.id.clone(),
        problem_id: room.problem.id.clone(),
        problem_title: room.problem.title.clone(),
        problem_url: room.problem.url.clone(),
        problem: room.problem.duplicate(),
        started_at_second: room.started_at_second,
        finished_at_second: room.finished_at_second,
        status: room.status.as_str().to_owned(),
        finish_reason,
        winner_player_id: room.winner_player_id.duplicate(),
        winning_atcoder_user,
        winning_submission_id,
        winning_submission_epoch,
        winning_source_code,
        players: [
            history_player_from_room(room, &room.players[0]),
            history_player_from_room(room, &room.players[1]),
        ],
    }
}

/// A stored match, with the time at which it was over as it is stored beside it.
pub fn history_entry_from_stored(room: Room, finished_at_second: Option<i64>) -> (r:
    MatchHistoryEntry)
    ensures
        r.deep_view() == history_entry(
            (RoomModel { finished_at_second, ..room.deep_view() }),
        ),
{
    let mut room = room;
    room.finished_at_second = finished_at_second;
    history_entry_from_room(&room)
}

/// The matches of the past. A match that is recorded again replaces its earlier record.
pub struct MatchHistoryStore {
    /// The matches by the ids of their rooms.
    rooms: StrMap<Room>,
}

impl DeepView for MatchHistoryStore {
    type V = Map<Seq<char>, RoomModel>;

    closed spec fn deep_view(&self) -> Map<Seq<char>, RoomModel> {
        self.rooms.deep_view()
    }
}

/// Whether each match is filed under the id of its room.
pub open spec fn is_filed(rooms: Map<Seq<char>, RoomModel>) -> bool {
    forall|id: Seq<char>| #[trigger] rooms.contains_key(id) ==> rooms[id].id == id
}

/// Whether a match is one of those of a user; every match is, if no user is given.
pub open spec fn is_match_of(room: RoomModel, user: Option<Seq<char>>) -> bool {
    user matches Some(user) ==> user_of(room, room.players.0) == user || user_of(
        room,
        room.players.1,
    ) == user
}

/// Whether a match is among the listed ones.
pub open spec fn is_listed(listed: Seq<RoomModel>, id: Seq<char>) -> bool {
    exists|i: int| 0 <= i < listed.len() && (#[trigger] listed[i]).id == id
}

/// Whether the listed matches are the latest `limit` of a user's among those with the given ids,
/// each once, the latest first.
pub open spec fn is_latest(
    listed: Seq<RoomModel>,
    rooms: Map<Seq<char>, RoomModel>,
    ids: Set<Seq<char>>,
    user: Option<Seq<char>>,
    limit: nat,
) -> bool {
    &&& listed.len() <= limit
    &&& forall|i: int|
        0 <= i < listed.len() ==> {
            &&& ids.contains((#[trigger] listed[i]).id)
            &&& rooms.contains_key(listed[i].id)
            &&& rooms[listed[i].id] == listed[i]
            &&& is_match_of(listed[i], user)
        }
    &&& forall|i: int, j: int|
        0 <= i < j < listed.len() ==> {
            &&& (#[trigger] listed[i]).id != (#[trigger] listed[j]).id
            &&& listed[i].started_at_second >= listed[j].started_at_second
        }
    &&& forall|id: Seq<char>|
        ids.contains(id) && rooms.contains_key(id) && is_match_of(rooms[id], user) && !(
        #[trigger] is_listed(listed, id)) ==> listed.len() == limit && forall|i: int|
            0 <= i < listed.len() ==> (#[trigger] listed[i]).started_at_second
                >= rooms[id].started_at_second
}

/// The history entries of matches.
pub open spec fn entries_of(listed: Seq<RoomModel>) -> Seq<MatchHistoryEntryModel> {
    Seq::new(listed.len(), |i: int| history_entry(listed[i]))
}

/// Whether the entries are those of the latest matches of a user, up to a limit.
pub open spec fn shows_latest(
    entries: Seq<MatchHistoryEntryModel>,
    rooms: Map<Seq<char>, RoomModel>,
    user: Option<Seq<char>>,
    limit: usize,
) -> bool {
    exists|listed: Seq<RoomModel>| #[trigger]
        is_latest(listed, rooms, rooms.dom(), user, clamped_limit(limit) as nat) && entries
            == entries_of(listed)
}

fn is_of_user(room: &Room, user: &Option<String>) -> (r: bool)
    ensures
        r == is_match_of(room.deep_view(), user.deep_view()),
{
    match user {
        None => true,
        Some(user) => {
            let first = history_user(room, &room.players[0]);
            let second = history_user(room, &room.players[1]);
            text::same(first.as_str(), user.as_str()) || text::same(
                second.as_str(),
                user.as_str(),
            )
        },
    }
}

proof fn latest_with_one_more(
    listed: Seq<RoomModel>,
    rooms: Map<Seq<char>, RoomModel>,
    ids: Set<Seq<char>>,
    user: Option<Seq<char>>,
    limit: nat,
    at: int,
    room: RoomModel,
)
    requires
        is_latest(listed, rooms, ids, user, limit),
        !ids.contains(room.id),
        rooms.contains_key(room.id),
        rooms[room.id] == room,
        is_match_of(room, user),
        0 <= at <= listed.len(),
        forall|i: int| 0 <= i < at ==> (#[trigger] listed[i]).started_at_second >= room.started_at_second,
        forall|i: int|
            at <= i < listed.len() ==> (#[trigger] listed[i]).started_at_second
                < room.started_at_second,
    ensures
        ({
            let inserted = listed.insert(at, room);
            is_latest(
                if inserted.len() > limit {
                    inserted.drop_last()
                } else {
                    inserted
                },
                rooms,
                ids.insert(room.id),
                user,
                limit,
            )
        }),
{
    let inserted = listed.insert(at, room);
    let more = ids.insert(room.id);
    let kept = if inserted.len() > limit {
        inserted.drop_last()
    } else {
        inserted
    };
    assert forall|i: int| 0 <= i < inserted.len() implies {
        &&& more.contains((#[trigger] inserted[i]).id)
        &&& rooms.contains_key(inserted[i].id)
        &&& rooms[inserted[i].id] == inserted[i]
        &&& is_match_of(inserted[i], user)
    } by {
        if i < at {
            assert(inserted[i] == listed[i]);
        } else if i > at {
            assert(inserted[i] == listed[i - 1]);
        }
    }
    assert forall|i: int, j: int| 0 <= i < j < inserted.len() implies {
        &&& (#[trigger] inserted[i]).id != (#[trigger] inserted[j]).id
        &&& inserted[i].started_at_second >= inserted[j].started_at_second
    } by {
        let was_i = if i < at {
            i
        } else {
            i - 1
        };
        let was_j = if j < at {
            j
        } else {
            j - 1
        };
        if i == at {
            assert(inserted[j] == listed[was_j]);
        } else if j == at {
            assert(inserted[i] == listed[was_i]);
        } else {
            assert(inserted[i] == listed[was_i] && inserted[j] == listed[was_j]);
        }
    }
    assert forall|id: Seq<char>|
        more.contains(id) && rooms.contains_key(id) && is_match_of(rooms[id], user) && !(
        #[trigger] is_listed(kept, id)) implies kept.len() == limit && forall|i: int|
        0 <= i < kept.len() ==> (#[trigger] kept[i]).started_at_second
            >= rooms[id].started_at_second by {
        if inserted.len() <= limit {
            assert(kept == inserted);
            if id == room.id {
                assert(inserted[at].id == id);
            } else {
                assert(!is_listed(listed, id)) by {
                    if is_listed(listed, id) {
                        let i = choose|i: int| 0 <= i < listed.len() && (#[trigger] listed[i]).id == id;
                        let k = if i < at {
                            i
                        } else {
                            i + 1
                        };
                        assert(inserted[k].id == id);
                    }
                }
            }
        } else {
            let dropped = inserted.last();
            assert forall|i: int| 0 <= i < kept.len() implies (
            #[trigger] kept[i]).started_at_second >= dropped.started_at_second by {
                assert(inserted[i].started_at_second >= inserted[inserted.len() - 1].started_at_second);
            }
            if id != dropped.id {
                if id == room.id {
                    assert(at < kept.len());
                    assert(kept[at].id == id);
                } else {
                    assert(!is_listed(listed, id)) by {
                        if is_listed(listed, id) {
                            let i = choose|i: int|
                                0 <= i < listed.len() && (#[trigger] listed[i]).id == id;
                            let k = if i < at {
                                i
                            } else {
                                i + 1
                            };
                            assert(inserted[k].id == id);
                            assert(k < kept.len());
                            assert(kept[k].id == id);
                        }
                    }
                    assert(listed.len() == limit);
                    assert forall|i: int| 0 <= i < kept.len() implies (
                    #[trigger] kept[i]).started_at_second >= rooms[id].started_at_second by {
                        if i < at {
                            assert(kept[i] == listed[i]);
                        } else if i == at {
                            assert(at < listed.len());
                            assert(listed[at].started_at_second >= rooms[id].started_at_second);
                        } else {
                            assert(kept[i] == listed[i - 1]);
                        }
                    }
                }
            } else {
                assert(rooms[id] == dropped);
            }
        }
    }
}

fn add_match(listed: &mut Vec<Room>, room: Room, limit: usize)
    ensures
        forall|
            rooms: Map<Seq<char>, RoomModel>,
            ids: Set<Seq<char>>,
            user: Option<Seq<char>>,
        |
            is_latest(old(listed).deep_view(), rooms, ids, user, limit as nat) && !ids.contains(
                room.deep_view().id,
            ) && rooms.contains_key(room.deep_view().id) && rooms[room.deep_view().id]
                == room.deep_view() && is_match_of(room.deep_view(), user)
                ==> #[trigger] is_latest(
                final(listed).deep_view(),
                rooms,
                ids.insert(room.deep_view().id),
                user,
                limit as nat,
            ),
{
    let ghost before = listed.deep_view();
    let ghost new = room.deep_view();
    let mut at: usize = listed.len();
    while at > 0 && listed[at - 1].started_at_second < room.started_at_second
        invariant
            at <= listed@.len(),
            listed.deep_view() == before,
            room.deep_view() == new,
            forall|i: int|
                at <= i < before.len() ==> (#[trigger] before[i]).started_at_second
                    < new.started_at_second,
        decreases at,
    {
        assert(before[at - 1] == listed@[at - 1].deep_view());
        at -= 1;
    }
    assert(at > 0 ==> before[at - 1] == listed@[at - 1].deep_view());
    listed.insert(at, room);
    assert(listed.deep_view() =~= before.insert(at as int, new));
    if listed.len() > limit {
        let _ = listed.pop();
        assert(listed.deep_view() =~= before.insert(at as int, new).drop_last());
    }
    proof {
        assert forall|
            rooms: Map<Seq<char>, RoomModel>,
            ids: Set<Seq<char>>,
            user: Option<Seq<char>>,
        |
            is_latest(before, rooms, ids, user, limit as nat) && !ids.contains(new.id)
                && rooms.contains_key(new.id) && rooms[new.id] == new && is_match_of(new, user)
            implies #[trigger] is_latest(
            listed.deep_view(),
            rooms,
            ids.insert(new.id),
            user,
            limit as nat,
        ) by {
            assert forall|i: int| 0 <= i < at implies (#[trigger] before[i]).started_at_second
                >= new.started_at_second by {
                assert(before[at - 1].started_at_second >= new.started_at_second);
                if i < at - 1 {
                    assert(before[i].started_at_second >= before[at - 1].started_at_second);
                }
            }
            latest_with_one_more(before, rooms, ids, user, limit as nat, at as int, new);
        }
    }
}

impl MatchHistoryStore {
    #[verifier::type_invariant]
    spec fn well_formed(self) -> bool {
        is_filed(self.rooms.deep_view())
    }

    /// No match.
    pub fn new() -> (r: Self)
        ensures
            r.deep_view() == Map::<Seq<char>, RoomModel>::empty(),
    {
        MatchHistoryStore { rooms: StrMap::new() }
    }

    /// Records a match.
    pub fn record_room(&mut self, room: Room)
        ensures
            final(self).deep_view() == old(self).deep_view().insert(
                room.deep_view().id,
                room.deep_view(),
            ),
    {
        proof {
            use_type_invariant(&*self);
        }
        let id = room.id.clone();
        let mut rooms: StrMap<Room> = StrMap::new();
        std::mem::swap(&mut rooms, &mut self.rooms);
        rooms.insert(id, room);
        self.rooms = rooms;
    }

    fn latest(&self, user: &Option<String>, limit: usize) -> (r: Vec<MatchHistoryEntry>)
        ensures
            shows_latest(r.deep_view(), self.deep_view(), user.deep_view(), limit),
    {
        proof {
            use_type_invariant(self);
        }
        let limit: usize = normalized_history_limit(limit);
        let ghost rooms = self.deep_view();
        let ghost wanted = user.deep_view();
        let keys = self.rooms.keys();
        let ghost mut ids = Set::<Seq<char>>::empty();
        let mut listed: Vec<Room> = Vec::new();
        let mut i: usize = 0;
        assert(listed.deep_view() =~= seq![]);
        assert(is_latest(listed.deep_view(), rooms, ids, wanted, limit as nat));
        while i < keys.len()
            invariant
                i <= keys@.len(),
                rooms == self.deep_view(),
                wanted == user.deep_view(),
                is_filed(rooms),
                forall|k: int| 0 <= k < keys@.len() ==> rooms.contains_key((#[trigger] keys@[k])@),
                forall|j: int, k: int|
                    0 <= j < k < keys@.len() ==> (#[trigger] keys@[j])@ != (#[trigger] keys@[k])@,
                forall|id: Seq<char>| #[trigger]
                    ids.contains(id) <==> exists|k: int|
                        0 <= k < i && (#[trigger] keys@[k])@ == id,
                is_latest(listed.deep_view(), rooms, ids, wanted, limit as nat),
            decreases keys@.len() - i,
        {
            let ghost key = keys@[i as int]@;
            let ghost before = ids;
            assert(!ids.contains(key));
            proof {
                ids = ids.insert(key);
            }
            if let Some(room) = self.rooms.get(keys[i].as_str()) {
                assert(rooms[key] == room.deep_view());
                assert(room.deep_view().id == key);
                if is_of_user(room, user) {
                    add_match(&mut listed, room.duplicate(), limit);
                } else {
                    assert(is_latest(listed.deep_view(), rooms, ids, wanted, limit as nat)) by {
                        let shown = listed.deep_view();
                        assert forall|id: Seq<char>|
                            ids.contains(id) && rooms.contains_key(id) && is_match_of(
                                rooms[id],
                                wanted,
                            ) && !(#[trigger] is_listed(shown, id)) implies shown.len() == limit
                            && forall|k: int|
                            0 <= k < shown.len() ==> (#[trigger] shown[k]).started_at_second
                                >= rooms[id].started_at_second by {
                            assert(before.contains(id));
                        }
                    }
                }
            }
            i += 1;
        }
        assert(ids =~= rooms.dom());
        self.entries(&listed)
    }

    fn entries(&self, listed: &Vec<Room>) -> (r: Vec<MatchHistoryEntry>)
        ensures
            r.deep_view() == entries_of(listed.deep_view()),
    {
        let ghost expected = entries_of(listed.deep_view());
        let mut out: Vec<MatchHistoryEntry> = Vec::new();
        let mut i: usize = 0;
        while i < listed.len()
            invariant
                i <= listed@.len(),
                expected == entries_of(listed.deep_view()),
                out.deep_view() == expected.take(i as int),
            decreases listed@.len() - i,
        {
            let ghost before = out.deep_view();
            assert(listed.deep_view()[i as int] == listed@[i as int].deep_view());
            out.push(history_entry_from_room(&listed[i]));
            assert(out.deep_view() =~= before.push(expected[i as int]));
            i += 1;
        }
        assert(expected.take(i as int) =~= expected);
        out
    }

    /// The latest matches.
    pub fn recent_matches(&self, limit: usize) -> (r: Vec<MatchHistoryEntry>)
        ensures
            shows_latest(r.deep_view(), self.deep_view(), None, limit),
    {
        self.latest(&None, limit)
    }

    /// The latest matches of a user.
    pub fn matches_for_user(&self, atcoder_user: String, limit: usize) -> (r: Vec<
        MatchHistoryEntry,
    >)
        ensures
            shows_latest(r.deep_view(), self.deep_view(), Some(atcoder_user@), limit),
    {
        self.latest(&Some(atcoder_user), limit)
    }
}

/// A match that was recorded last is shown to each of its players as it was recorded, as the only
/// entry for its room, wherever no match that started later takes its place.
pub proof fn recorded_match_is_shown(
    rooms: Map<Seq<char>, RoomModel>,
    room: RoomModel,
    entries: Seq<MatchHistoryEntryModel>,
    user: Option<Seq<char>>,
    limit: usize,
)
    requires
        is_match_of(room, user),
        forall|id: Seq<char>| #[trigger]
            rooms.contains_key(id) ==> rooms[id].started_at_second < room.started_at_second
                || id == room.id,
        shows_latest(entries, rooms.insert(room.id, room), user, limit),
    ensures
        entries.len() > 0,
        entries[0] == history_entry(room),
        forall|i: int|
            0 <= i < entries.len() && (#[trigger] entries[i]).room_id == room.id ==> i == 0,
{
    let all = rooms.insert(room.id, room);
    let listed = choose|listed: Seq<RoomModel>| #[trigger]
        is_latest(listed, all, all.dom(), user, clamped_limit(limit) as nat) && entries
            == entries_of(listed);
    assert(all.dom().contains(room.id));
    if !is_listed(listed, room.id) {
        assert(listed.len() > 0);
        assert(listed[0].started_at_second >= room.started_at_second);
        assert(all.contains_key(listed[0].id));
        assert(false);
    }
    let at = choose|i: int| 0 <= i < listed.len() && (#[trigger] listed[i]).id == room.id;
    assert(listed[at] == room);
    if at > 0 {
        assert(listed[0].id != listed[at].id);
        assert(all.contains_key(listed[0].id));
        assert(rooms.contains_key(listed[0].id));
        assert(false);
    }
    assert forall|i: int|
        0 <= i < entries.len() && (#[trigger] entries[i]).room_id == room.id implies i == 0 by {
        assert(entries[i].room_id == listed[i].id);
        if i > 0 {
            assert(listed[0].id != listed[i].id);
        }
    }
}

/// The history of a match shows the code that a player uploaded last as that player's: the solution
/// as the solution, the manifest as the manifest, and when it was uploaded. Of a player that
/// uploaded nothing it shows no code.
pub proof fn history_shows_uploaded_code(
    state: RoomsModel,
    room_id: Seq<char>,
    player_id: Seq<char>,
    snapshot: PlayerCodeSnapshotModel,
)
    requires
        state.rooms.contains_key(room_id),
        state.rooms[room_id].players.0.id == player_id || state.rooms[room_id].players.1.id
            == player_id,
        state.rooms[room_id].players.0.id != state.rooms[room_id].players.1.id,
    ensures
        ({
            let before = state.rooms[room_id];
            let room = state.update_snapshot(room_id, player_id, snapshot).0.rooms[room_id];
            let entry = history_entry(room);
            let (shown, other, other_id) = if before.players.0.id == player_id {
                (entry.players.0, entry.players.1, before.players.1.id)
            } else {
                (entry.players.1, entry.players.0, before.players.0.id)
            };
            &&& shown.player_id == player_id
            &&& shown.main_rs == Some(snapshot.main_rs)
            &&& shown.cargo_toml == Some(snapshot.cargo_toml)
            &&& shown.code_snapshot_epoch == Some(snapshot.captured_at_second)
            &&& other.player_id == other_id
            &&& !before.code_snapshots.contains_key(other_id) ==> other.main_rs is None
                && other.cargo_toml is None && other.code_snapshot_epoch is None
            &&& before.code_snapshots.contains_key(other_id) ==> other.main_rs == Some(
                before.code_snapshots[other_id].main_rs,
            ) && other.cargo_toml == Some(before.code_snapshots[other_id].cargo_toml)
        }),
{
}

/// The history of a match shows of each player what the room knows of the player's submissions, and
/// that there were none, where it knows of none.
pub proof fn history_shows_activity(
    room: RoomModel,
    player: PlayerModel,
    activity: PlayerActivityModel,
    submissions: Seq<PlayerSubmissionRecordModel>,
)
    ensures
        ({
            let known = RoomModel {
                player_activity: room.player_activity.insert(player.id, activity),
                player_submissions: room.player_submissions.insert(player.id, submissions),
                ..room
            };
            let shown = history_player(known, player);
            &&& shown.player_id == player.id
            &&& shown.attempt_count == activity.attempt_count
            &&& shown.last_verdict == activity.last_verdict
            &&& shown.last_submission_epoch == activity.last_submission_epoch
            &&& shown.submissions == submissions
        }),
        !room.player_activity.contains_key(player.id) ==> {
            let shown = history_player(room, player);
            shown.attempt_count == 0 && shown.last_verdict is None
                && shown.last_submission_epoch is None
        },
        !room.player_submissions.contains_key(player.id) ==> history_player(
            room,
            player,
        ).submissions.len() == 0,
        room.atcoder_users.contains_key(player.id) ==> history_player(room, player).atcoder_user
            == room.atcoder_users[player.id],
        !room.atcoder_users.contains_key(player.id) ==> history_player(room, player).atcoder_user
            == player.name,
{
}

/// The history of a match tells which room and problem it was, when it began and ended, and how: who
/// won, why, and by which submission. Its players come in the order of the room.
pub proof fn history_tells_outcome(room: RoomModel)
    ensures
        ({
            let entry = history_entry(room);
            &&& entry.room_id == room.id
            &&& entry.problem == room.problem
            &&& entry.problem_id == room.problem.id
            &&& entry.problem_title == room.problem.title
            &&& entry.problem_url == room.problem.url
            &&& entry.started_at_second == room.started_at_second
            &&& entry.finished_at_second == room.finished_at_second
            &&& entry.winner_player_id == room.winner_player_id
            &&& room.status == RoomStatus::Playing ==> entry.status == "playing"@
            &&& room.status == RoomStatus::Finished ==> entry.status == "finished"@
            &&& room.finish_reason is None ==> entry.finish_reason is None
            &&& room.finish_reason == Some(RoomFinishReason::Accepted) ==> entry.finish_reason
                == Some("accepted"@)
            &&& room.finish_reason == Some(RoomFinishReason::ManualComplete)
                ==> entry.finish_reason == Some("manual_complete"@)
            &&& room.finish_reason == Some(RoomFinishReason::PlayerLeft) ==> entry.finish_reason
                == Some("player_left"@)
            &&& entry.players.0.player_id == room.players.0.id
            &&& entry.players.1.player_id == room.players.1.id
            &&& room.winning_submission is None ==> {
                &&& entry.winning_atcoder_user is None
                &&& entry.winning_submission_id is None
                &&& entry.winning_submission_epoch is None
                &&& entry.winning_source_code is None
            }
        }),
{
}

/// After a submission decided a match, its history names that submission, its time, its source and
/// the user who made it.
pub proof fn history_names_winning_submission(
    state: RoomsModel,
    room_id: Seq<char>,
    player_id: Seq<char>,
    submission: AtCoderSubmissionModel,
    now: i64,
)
    requires
        state.rooms.contains_key(room_id),
        state.rooms[room_id].status == RoomStatus::Playing,
        state.rooms[room_id].players.0.id == player_id || state.rooms[room_id].players.1.id
            == player_id,
        state.rooms[room_id].atcoder_users.contains_key(player_id),
    ensures
        ({
            let room = state.apply_ac(room_id, player_id, submission, now).0.rooms[room_id];
            let entry = history_entry(room);
            &&& entry.status == "finished"@
            &&& entry.finish_reason == Some("accepted"@)
            &&& entry.winner_player_id == Some(player_id)
            &&& entry.winning_submission_id == Some(submission.id)
            &&& entry.winning_submission_epoch == Some(submission.epoch_second)
            &&& entry.winning_source_code == submission.source_code
            &&& entry.winning_atcoder_user == Some(
                state.rooms[room_id].atcoder_users[player_id],
            )
            &&& entry.finished_at_second == Some(now)
        }),
{
}

/// The history lists matches as they were recorded, each once, the latest first, no more than asked
/// for and never more than two hundred. For a user it lists only matches in which the user played;
/// and as long as there is room, it lists all of them.
pub proof fn history_lists_latest(
    entries: Seq<MatchHistoryEntryModel>,
    rooms: Map<Seq<char>, RoomModel>,
    user: Option<Seq<char>>,
    limit: usize,
    id: Seq<char>,
)
    requires
        shows_latest(entries, rooms, user, limit),
    ensures
        ({
            let most = if limit == 0 {
                1int
            } else if limit > 200 {
                200int
            } else {
                limit as int
            };
            &&& entries.len() <= most
            &&& forall|i: int, j: int|
                0 <= i < j < entries.len() ==> (#[trigger] entries[i]).started_at_second >= (
                #[trigger] entries[j]).started_at_second && entries[i].room_id
                    != entries[j].room_id
            &&& forall|i: int|
                0 <= i < entries.len() ==> {
                    &&& rooms.contains_key((#[trigger] entries[i]).room_id)
                    &&& entries[i] == history_entry(rooms[entries[i].room_id])
                    &&& user is Some ==> entries[i].players.0.atcoder_user == user->0
                        || entries[i].players.1.atcoder_user == user->0
                }
            &&& entries.len() < most && rooms.contains_key(id) && rooms[id].id == id && (user is None
                || history_entry(rooms[id]).players.0.atcoder_user == user->0 || history_entry(
                rooms[id],
            ).players.1.atcoder_user == user->0) ==> exists|i: int|
                0 <= i < entries.len() && (#[trigger] entries[i]).room_id == id
            &&& entries.len() == most && rooms.contains_key(id) && (user is None || history_entry(
                rooms[id],
            ).players.0.atcoder_user == user->0 || history_entry(
                rooms[id],
            ).players.1.atcoder_user == user->0) && (forall|i: int|
                0 <= i < entries.len() ==> (#[trigger] entries[i]).room_id != id) ==> forall|i: int|
                0 <= i < entries.len() ==> (#[trigger] entries[i]).started_at_second
                    >= rooms[id].started_at_second
        }),
{
    let most = clamped_limit(limit) as nat;
    let listed = choose|listed: Seq<RoomModel>| #[trigger]
        is_latest(listed, rooms, rooms.dom(), user, most) && entries == entries_of(listed);
    assert forall|i: int, j: int| 0 <= i < j < entries.len() implies (
    #[trigger] entries[i]).started_at_second >= (#[trigger] entries[j]).started_at_second
        && entries[i].room_id != entries[j].room_id by {
        assert(listed[i].id != listed[j].id);
    }
    assert forall|i: int| 0 <= i < entries.len() implies {
        &&& rooms.contains_key((#[trigger] entries[i]).room_id)
        &&& entries[i] == history_entry(rooms[entries[i].room_id])
        &&& user is Some ==> entries[i].players.0.atcoder_user == user->0
            || entries[i].players.1.atcoder_user == user->0
    } by {
        assert(rooms[listed[i].id] == listed[i]);
    }
    if rooms.contains_key(id) && (user is None || history_entry(
        rooms[id],
    ).players.0.atcoder_user == user->0 || history_entry(rooms[id]).players.1.atcoder_user
        == user->0) {
        assert(is_match_of(rooms[id], user));
        if is_listed(listed, id) {
            let i = choose|i: int| 0 <= i < listed.len() && (#[trigger] listed[i]).id == id;
            assert(entries[i].room_id == id);
        } else {
            assert forall|i: int| 0 <= i < entries.len() implies (
            #[trigger] entries[i]).started_at_second >= rooms[id].started_at_second by {
                assert(listed[i].started_at_second >= rooms[id].started_at_second);
            }
        }
    }
}

/// The models hold what the values hold, each part under its own name.
pub proof fn models_hold_their_parts(
    match_history_player: MatchHistoryPlayer,
    match_history_entry: MatchHistoryEntry,
)
    ensures
        match_history_player.deep_view() == (MatchHistoryPlayerModel {
            player_id: match_history_player.player_id@,
            atcoder_user: match_history_player.atcoder_user@,
            attempt_count: match_history_player.attempt_count,
            last_verdict: match_history_player.last_verdict.deep_view(),
            last_submission_epoch: match_history_player.last_submission_epoch,
            submissions: match_history_player.submissions.deep_view(),
            code_snapshot_epoch: match_history_player.code_snapshot_epoch,
            main_rs: match_history_player.main_rs.deep_view(),
            cargo_toml: match_history_player.cargo_toml.deep_view(),
        }),
        match_history_entry.deep_view() == (MatchHistoryEntryModel {
            room_id: match_history_entry.room_id@,
            problem_id: match_history_entry.problem_id@,
            problem_title: match_history_entry.problem_title@,
            problem_url: match_history_entry.problem_url@,
            problem: match_history_entry.problem.deep_view(),
            started_at_second: match_history_entry.started_at_second,
            finished_at_second: match_history_entry.finished_at_second,
            status: match_history_entry.status@,
            finish_reason: match_history_entry.finish_reason.deep_view(),
            winner_player_id: match_history_entry.winner_player_id.deep_view(),
            winning_atcoder_user: match_history_entry.winning_atcoder_user.deep_view(),
            winning_submission_id: match_history_entry.winning_submission_id,
            winning_submission_epoch: match_history_entry.winning_submission_epoch,
            winning_source_code: match_history_entry.winning_source_code.deep_view(),
            players: (match_history_entry.players[0].deep_view(), match_history_entry.players[1].deep_view()),
        }),
{
}
/// A player is listed under the AtCoder user that is known for them, or else under their name; of
/// the matches at least one is asked for and at most two hundred, and any number between as it is.
pub proof fn users_and_limits_are_kept(room: RoomModel, player: PlayerModel, limit: usize)
    ensures
        room.atcoder_users.contains_key(player.id) ==> user_of(room, player)
            == room.atcoder_users[player.id],
        !room.atcoder_users.contains_key(player.id) ==> user_of(room, player) == player.name,
        1 <= limit <= 200 ==> clamped_limit(limit) == limit,
        limit == 0 ==> clamped_limit(limit) == 1,
        limit > 200 ==> clamped_limit(limit) == 200,
{
}
/// What the history says of a player is what the room knows of that player: the code as the code
/// and the manifest as the manifest, the attempts and the last verdict.
pub proof fn history_does_not_mix_up_code(room: Room, player: Player, shown: MatchHistoryPlayer)
    requires
        call_ensures(history_player_from_room, (&room, &player), shown),
    ensures
        shown.player_id@ == player.id@,
        ({
            let kept = room.code_snapshots.deep_view();
            &&& kept.contains_key(player.id@) ==> {
                &&& shown.main_rs is Some && shown.main_rs->0@ == kept[player.id@].main_rs
                &&& shown.cargo_toml is Some && shown.cargo_toml->0@ == kept[player.id@].cargo_toml
                &&& shown.code_snapshot_epoch == Some(kept[player.id@].captured_at_second)
            }
            &&& !kept.contains_key(player.id@) ==> shown.main_rs is None && shown.cargo_toml is None
                && shown.code_snapshot_epoch is None
        }),
        ({
            let users = room.atcoder_users.deep_view();
            &&& users.contains_key(player.id@) ==> shown.atcoder_user@ == users[player.id@]
            &&& !users.contains_key(player.id@) ==> shown.atcoder_user@ == player.name@
        }),
        ({
            let known = room.player_activity.deep_view();
            &&& known.contains_key(player.id@) ==> {
                &&& shown.attempt_count == known[player.id@].attempt_count
                &&& shown.last_verdict.deep_view() == known[player.id@].last_verdict
                &&& shown.last_submission_epoch == known[player.id@].last_submission_epoch
            }
            &&& !known.contains_key(player.id@) ==> shown.attempt_count == 0
                && shown.last_verdict is None && shown.last_submission_epoch is None
        }),
{
}

/// Without a number fifty matches are asked for.
pub proof fn fifty_matches_are_asked_for(limit: Option<usize>, asked: usize)
    requires
        call_ensures(requested_history_limit, (limit,), asked),
    ensures
        limit is None ==> asked == 50,
        limit is Some && 1 <= limit->0 <= 200 ==> asked == limit->0,
        1 <= asked <= 200,
{
}

/// A match that is recorded is kept under its id, in the place of what was recorded of it before,
/// and every other match stays as it is.
pub proof fn recorded_match_is_kept(store: &mut MatchHistoryStore, room: Room, other: Seq<char>)
    requires
        call_ensures(MatchHistoryStore::record_room, (store, room), ()),
    ensures
        final(store).deep_view().contains_key(room.id@),
        final(store).deep_view()[room.id@] == room.deep_view(),
        other != room.id@ ==> final(store).deep_view().contains_key(other)
            == old(store).deep_view().contains_key(other),
        other != room.id@ && old(store).deep_view().contains_key(other)
            ==> final(store).deep_view()[other] == old(store).deep_view()[other],
{
}
} // verus!
