//! What the server makes of the submissions that it reads from AtCoder while a match is on.

use vstd::prelude::*;

use crate::copying::Duplicate;
use crate::outside;
use crate::server::model::{
    AtCoderSubmission, AtCoderSubmissionModel, PlayerActivity, PlayerActivityModel, PlayerModel,
    PlayerSubmissionRecord, PlayerSubmissionRecordModel, Room, RoomFinishReason, RoomModel, RoomStatus,
};
use crate::server::rooms::{RduelRooms, RoomsModel};
use crate::text;

verus! {

/// The result of one polling pass: the earliest accepted submission across both players, if there is
/// one, and each player's current submission activity.
pub struct SubmissionPoll {
    pub winner: Option<(String, AtCoderSubmission)>,
    pub activity: Vec<(String, PlayerActivity)>,
    pub submissions: Vec<(String, Vec<PlayerSubmissionRecord>)>,
}

/// What a `SubmissionPoll` holds.
#[verifier::ext_equal]
pub struct SubmissionPollModel {
    pub winner: Option<(Seq<char>, AtCoderSubmissionModel)>,
    pub activity: Seq<(Seq<char>, PlayerActivityModel)>,
    pub submissions: Seq<(Seq<char>, Seq<PlayerSubmissionRecordModel>)>,
}

impl DeepView for SubmissionPoll {
    type V = SubmissionPollModel;

    open spec fn deep_view(&self) -> SubmissionPollModel {
        SubmissionPollModel {
            winner: self.winner.deep_view(),
            activity: self.activity.deep_view(),
            submissions: self.submissions.deep_view(),
        }
    }
}

/// What is to be done about a room whose submissions are watched.
pub enum PollStep {
    /// No more polling.
    Stop,
    /// The submissions of the players of this room are to be read.
    Poll(Room),
}

/// Whether a submission counts in the match: it is for the problem of the room, and it was made
/// after the match started.
pub open spec fn counts(room: RoomModel, submission: AtCoderSubmissionModel) -> bool {
    submission.problem_id == room.problem.id && submission.epoch_second >= room.started_at_second
}

/// Those of `submissions` that count.
pub open spec fn counting(room: RoomModel, submissions: Seq<AtCoderSubmissionModel>) -> Seq<
    AtCoderSubmissionModel,
> {
    submissions.filter(|submission: AtCoderSubmissionModel| counts(room, submission))
}

/// The latest of `submissions`; of several at the same second, the last one in the list.
pub open spec fn latest(submissions: Seq<AtCoderSubmissionModel>) -> Option<AtCoderSubmissionModel>
    decreases submissions.len(),
{
    if submissions.len() == 0 {
        None
    } else {
        match latest(submissions.drop_last()) {
            Some(best) if submissions.last().epoch_second < best.epoch_second => Some(best),
            _ => Some(submissions.last()),
        }
    }
}

/// The activity of a player whose submissions that count are `submissions`.
pub open spec fn activity_of(submissions: Seq<AtCoderSubmissionModel>) -> PlayerActivityModel {
    PlayerActivityModel {
        attempt_count: submissions.len() as u32,
        last_verdict: match latest(submissions) {
            Some(submission) => Some(submission.result),
            None => None,
        },
        last_submission_epoch: match latest(submissions) {
            Some(submission) => Some(submission.epoch_second),
            None => None,
        },
    }
}

/// What is kept of `submissions`.
pub open spec fn records_of(submissions: Seq<AtCoderSubmissionModel>) -> Seq<
    PlayerSubmissionRecordModel,
> {
    Seq::new(
        submissions.len(),
        |i: int|
            PlayerSubmissionRecordModel {
                id: submissions[i].id,
                epoch_second: submissions[i].epoch_second,
                verdict: submissions[i].result,
            },
    )
}

/// Those of `submissions` that count and were accepted, each with the player.
pub open spec fn accepted_by(
    room: RoomModel,
    player_id: Seq<char>,
    submissions: Seq<AtCoderSubmissionModel>,
) -> Seq<(Seq<char>, AtCoderSubmissionModel)>
    decreases submissions.len(),
{
    if submissions.len() == 0 {
        seq![]
    } else {
        let rest = accepted_by(room, player_id, submissions.drop_last());
        if counts(room, submissions.last()) && submissions.last().result == "AC"@ {
            rest.push((player_id, submissions.last()))
        } else {
            rest
        }
    }
}

/// The earliest of `accepted`; of several at the same second, the first one in the list.
pub open spec fn earliest(accepted: Seq<(Seq<char>, AtCoderSubmissionModel)>) -> Option<
    (Seq<char>, AtCoderSubmissionModel),
>
    decreases accepted.len(),
{
    if accepted.len() == 0 {
        None
    } else {
        match earliest(accepted.drop_last()) {
            Some(best) if best.1.epoch_second <= accepted.last().1.epoch_second => Some(best),
            _ => Some(accepted.last()),
        }
    }
}

/// Whether the submissions of `player` are known: it has an AtCoder user, and reading them worked.
pub open spec fn is_polled(
    room: RoomModel,
    player: PlayerModel,
    fetched: Option<Seq<AtCoderSubmissionModel>>,
) -> bool {
    room.atcoder_users.contains_key(player.id) && fetched is Some
}

/// The accepted submissions of a player.
pub open spec fn accepted_of(
    room: RoomModel,
    player: PlayerModel,
    fetched: Option<Seq<AtCoderSubmissionModel>>,
) -> Seq<(Seq<char>, AtCoderSubmissionModel)> {
    if is_polled(room, player, fetched) {
        accepted_by(room, player.id, fetched->0)
    } else {
        seq![]
    }
}

/// The activity of a player, if it is known.
pub open spec fn polled_activity(
    room: RoomModel,
    player: PlayerModel,
    fetched: Option<Seq<AtCoderSubmissionModel>>,
) -> Seq<(Seq<char>, PlayerActivityModel)> {
    if is_polled(room, player, fetched) {
        seq![(player.id, activity_of(counting(room, fetched->0)))]
    } else {
        seq![]
    }
}

/// The submissions of a player, if they are known.
pub open spec fn polled_records(
    room: RoomModel,
    player: PlayerModel,
    fetched: Option<Seq<AtCoderSubmissionModel>>,
) -> Seq<(Seq<char>, Seq<PlayerSubmissionRecordModel>)> {
    if is_polled(room, player, fetched) {
        seq![(player.id, records_of(counting(room, fetched->0)))]
    } else {
        seq![]
    }
}

/// What one polling pass finds out, given what was read for the one player and for the other.
pub open spec fn poll_of(
    room: RoomModel,
    first: Option<Seq<AtCoderSubmissionModel>>,
    second: Option<Seq<AtCoderSubmissionModel>>,
) -> SubmissionPollModel {
    SubmissionPollModel {
        winner: earliest(
            accepted_of(room, room.players.0, first) + accepted_of(room, room.players.1, second),
        ),
        activity: polled_activity(room, room.players.0, first) + polled_activity(
            room,
            room.players.1,
            second,
        ),
        submissions: polled_records(room, room.players.0, first) + polled_records(
            room,
            room.players.1,
            second,
        ),
    }
}

/// Adds what was read for `room.players[which]` to `poll`. `accepted` lists the accepted
/// submissions of those before.
fn add_player(
    room: &Room,
    which: usize,
    fetched: &Option<Vec<AtCoderSubmission>>,
    poll: &mut SubmissionPoll,
    accepted: Ghost<Seq<(Seq<char>, AtCoderSubmissionModel)>>,
)
    requires
        which < 2,
        fetched matches Some(submissions) ==> submissions@.len() <= u32::MAX,
        old(poll).winner.deep_view() == earliest(accepted@),
    ensures
        ({
            let player = room.players@[which as int].deep_view();
            let model = room.deep_view();
            &&& final(poll).winner.deep_view() == earliest(
                accepted@ + accepted_of(model, player, fetched.deep_view()),
            )
            &&& final(poll).activity.deep_view() == old(poll).activity.deep_view()
                + polled_activity(model, player, fetched.deep_view())
            &&& final(poll).submissions.deep_view() == old(poll).submissions.deep_view()
                + polled_records(model, player, fetched.deep_view())
        }),
{
    let player_id = room.players[which].id.clone();
    let ghost player = room.players@[which as int].deep_view();
    let ghost model = room.deep_view();
    proof {
        assert(accepted@ + Seq::<(Seq<char>, AtCoderSubmissionModel)>::empty() =~= accepted@);
        assert(poll.activity.deep_view() + Seq::<(Seq<char>, PlayerActivityModel)>::empty()
            =~= poll.activity.deep_view());
        assert(poll.submissions.deep_view() + Seq::<
            (Seq<char>, Seq<PlayerSubmissionRecordModel>),
        >::empty() =~= poll.submissions.deep_view());
    }
    if !room.atcoder_users.contains_key(player_id.as_str()) {
        return ;
    }
    let submissions = match fetched {
        None => {
            return ;
        },
        Some(submissions) => submissions,
    };
    let ghost all = submissions.deep_view();
    let ghost keeps = |submission: AtCoderSubmissionModel| counts(model, submission);
    let mut attempt_count: u32 = 0;
    let mut last: Option<usize> = None;
    let mut winner: Option<usize> = None;
    let mut records: Vec<PlayerSubmissionRecord> = Vec::new();
    let mut i: usize = 0;
    proof {
        reveal(Seq::filter);
        assert(all.take(0).filter(keeps) =~= seq![]);
        assert(records.deep_view() =~= records_of(seq![]));
        assert(accepted@ + accepted_by(model, player.id, all.take(0)) =~= accepted@);
    }
    while i < submissions.len()
        invariant
            i <= submissions@.len() <= u32::MAX,
            model == room.deep_view(),
            all == submissions.deep_view(),
            player.id == player_id@,
            keeps == |submission: AtCoderSubmissionModel| counts(model, submission),
            attempt_count == all.take(i as int).filter(keeps).len(),
            attempt_count <= i,
            records.deep_view() == records_of(all.take(i as int).filter(keeps)),
            match last {
                Some(k) => k < i && latest(all.take(i as int).filter(keeps)) == Some(all[k as int]),
                None => latest(all.take(i as int).filter(keeps)) is None,
            },
            match winner {
                Some(k) => k < i && earliest(
                    accepted@ + accepted_by(model, player.id, all.take(i as int)),
                ) == Some((player.id, all[k as int])),
                None => earliest(accepted@ + accepted_by(model, player.id, all.take(i as int)))
                    == poll.winner.deep_view(),
            },
        decreases submissions@.len() - i,
    {
        let submission = &submissions[i];
        let ghost done = all.take(i as int);
        let ghost so_far = done.filter(keeps);
        let ghost won = accepted@ + accepted_by(model, player.id, done);
        let ghost kept_records = records.deep_view();
        proof {
            assert(all.take(i + 1).drop_last() =~= done);
            assert(all.take(i + 1).last() == submission.deep_view());
            assert(all[i as int] == submission.deep_view());
            reveal(Seq::filter);
        }
        if text::same(submission.problem_id.as_str(), room.problem.id.as_str())
            && submission.epoch_second >= room.started_at_second {
            assert(counts(model, submission.deep_view()));
            assert(all.take(i + 1).filter(keeps) == so_far.push(submission.deep_view()));
            assert(so_far.push(submission.deep_view()).drop_last() =~= so_far);
            attempt_count += 1;
            let record = PlayerSubmissionRecord {
                id: submission.id,
                epoch_second: submission.epoch_second,
                verdict: submission.result.clone(),
            };
            let ghost kept = record.deep_view();
            records.push(record);
            assert(records.deep_view() =~= kept_records.push(kept));
            assert(records.deep_view() =~= records_of(so_far.push(submission.deep_view())));
            let is_latest = match last {
                Some(k) => submission.epoch_second >= submissions[k].epoch_second,
                None => true,
            };
            if is_latest {
                last = Some(i);
            }
            if text::same(submission.result.as_str(), "AC") {
                let is_first = match winner {
                    Some(k) => submission.epoch_second < submissions[k].epoch_second,
                    None => match &poll.winner {
                        Some(best) => submission.epoch_second < best.1.epoch_second,
                        None => true,
                    },
                };
                if is_first {
                    winner = Some(i);
                }
                proof {
                    let pair = (player.id, submission.deep_view());
                    assert(accepted_by(model, player.id, all.take(i + 1)) == accepted_by(
                        model,
                        player.id,
                        done,
                    ).push(pair));
                    assert(accepted@ + accepted_by(model, player.id, all.take(i + 1))
                        =~= won.push(pair));
                    assert(won.push(pair).drop_last() =~= won);
                }
            }
        }
        i += 1;
    }
    assert(all.take(i as int) =~= all);
    let activity = match last {
        Some(k) => PlayerActivity {
            attempt_count,
            last_verdict: Some(submissions[k].result.clone()),
            last_submission_epoch: Some(submissions[k].epoch_second),
        },
        None => PlayerActivity { attempt_count, last_verdict: None, last_submission_epoch: None },
    };
    let ghost before_activity = poll.activity.deep_view();
    let ghost before_records = poll.submissions.deep_view();
    if let Some(k) = winner {
        poll.winner = Some((player_id.clone(), submissions[k].duplicate()));
    }
    let second_id = player_id.clone();
    poll.activity.push((player_id, activity));
    poll.submissions.push((second_id, records));
    assert(activity.deep_view() == activity_of(counting(model, all)));
    assert(poll.activity.deep_view() =~= before_activity + polled_activity(
        model,
        player,
        fetched.deep_view(),
    ));
    assert(poll.submissions.deep_view() =~= before_records + polled_records(
        model,
        player,
        fetched.deep_view(),
    ));
}

/// What one polling pass finds out about `room`, given what was read for each of its players:
/// nothing, where reading failed.
pub fn poll_room_submission_state(
    room: &Room,
    first: &Option<Vec<AtCoderSubmission>>,
    second: &Option<Vec<AtCoderSubmission>>,
) -> (r: SubmissionPoll)
    requires
        first matches Some(submissions) ==> submissions@.len() <= u32::MAX,
        second matches Some(submissions) ==> submissions@.len() <= u32::MAX,
    ensures
        r.deep_view() == poll_of(room.deep_view(), first.deep_view(), second.deep_view()),
{
    let mut poll = SubmissionPoll {
        winner: None,
        activity: Vec::new(),
        submissions: Vec::new(),
    };
    let ghost model = room.deep_view();
    let ghost none = Seq::<(Seq<char>, AtCoderSubmissionModel)>::empty();
    add_player(room, 0, first, &mut poll, Ghost(none));
    let ghost accepted = none + accepted_of(model, model.players.0, first.deep_view());
    add_player(room, 1, second, &mut poll, Ghost(accepted));
    proof {
        let expected = poll_of(model, first.deep_view(), second.deep_view());
        assert(accepted =~= accepted_of(model, model.players.0, first.deep_view()));
        assert(poll.activity.deep_view() =~= expected.activity);
        assert(poll.submissions.deep_view() =~= expected.submissions);
    }
    poll
}

/// What one polling pass found out, with the source of the winning submission, if it could be read.
pub fn with_winning_source(poll: SubmissionPoll, source_code: Option<String>) -> (r: SubmissionPoll)
    ensures
        r.deep_view().activity == poll.deep_view().activity,
        r.deep_view().submissions == poll.deep_view().submissions,
        r.deep_view().winner == match poll.deep_view().winner {
            Some(winner) => Some(
                match source_code {
                    Some(source) => (
                        winner.0,
                        AtCoderSubmissionModel { source_code: Some(source@), ..winner.1 },
                    ),
                    None => winner,
                },
            ),
            None => None,
        },
{
    let winner = match poll.winner {
        Some(winner) => {
            let (player_id, submission) = winner;
            let source_code = match source_code {
                Some(source) => Some(source),
                None => submission.source_code,
            };
            Some((player_id, AtCoderSubmission { source_code, ..submission }))
        },
        None => None,
    };
    SubmissionPoll { winner, activity: poll.activity, submissions: poll.submissions }
}

/// Whether polling of the room goes on: only while the room exists and its match is on.
pub open spec fn polls_on(state: RoomsModel, room_id: Seq<char>) -> bool {
    state.rooms.contains_key(room_id) && state.rooms[room_id].status == RoomStatus::Playing
}

/// What happens before the submissions of the room's players are read: if the match is over, the
/// polling flag is cleared and polling stops; it also stops if the room is gone.
pub fn begin_poll(rooms: &mut RduelRooms, room_id: &str) -> (r: PollStep)
    ensures
        final(rooms)@ == if polls_on(old(rooms)@, room_id@) {
            old(rooms)@
        } else {
            old(rooms)@.stop_submission_watch(room_id@)
        },
        match r {
            PollStep::Poll(room) => polls_on(old(rooms)@, room_id@) && room.deep_view() == old(
                rooms,
            )@.rooms[room_id@],
            PollStep::Stop => !polls_on(old(rooms)@, room_id@),
        },
{
    match rooms.room_state(room_id) {
        None => PollStep::Stop,
        Some(room) => {
            if room.status != RoomStatus::Playing {
                rooms.stop_submission_watch(room_id);
                PollStep::Stop
            } else {
                PollStep::Poll(room)
            }
        },
    }
}

/// The state and the finished room after what one polling pass found out was taken in.
pub open spec fn after_poll(
    state: RoomsModel,
    room_id: Seq<char>,
    poll: SubmissionPollModel,
    now: i64,
) -> (RoomsModel, Option<RoomModel>) {
    let updated = state.update_activity(room_id, poll.activity, poll.submissions);
    match poll.winner {
        Some(winner) => updated.apply_ac(room_id, winner.0, winner.1, now),
        None => (updated, None),
    }
}

/// Takes in what one polling pass found out. Returns the room if there is a winner: its match is
/// over, and is to be recorded.
pub fn finish_poll_at(rooms: &mut RduelRooms, room_id: &str, poll: SubmissionPoll, now: i64) -> (r:
    Option<Room>)
    ensures
        (final(rooms)@, r.deep_view()) == after_poll(old(rooms)@, room_id@, poll.deep_view(), now),
{
    let activity = poll.activity.as_slice();
    let submissions = poll.submissions.as_slice();
    assert(activity.deep_view() =~= poll.activity.deep_view());
    assert(submissions.deep_view() =~= poll.submissions.deep_view());
    rooms.update_player_activity(room_id, activity, submissions);
    match poll.winner {
        Some(winner) => rooms.apply_submission_ac_at(room_id, winner.0.as_str(), winner.1, now),
        None => None,
    }
}

/// Takes in what one polling pass found out.
pub fn finish_poll(rooms: &mut RduelRooms, room_id: &str, poll: SubmissionPoll) -> (r: Option<Room>)
    ensures
        exists|now: i64|
            (final(rooms)@, r.deep_view()) == #[trigger] after_poll(
                old(rooms)@,
                room_id@,
                poll.deep_view(),
                now,
            ),
{
    let now: i64 = outside::unix_now();
    let ghost found = poll.deep_view();
    let r = finish_poll_at(rooms, room_id, poll, now);
    assert((rooms@, r.deep_view()) == after_poll(old(rooms)@, room_id@, found, now));
    r
}

/// Minimum spacing between any two requests to AtCoder, in milliseconds.
pub const ATCODER_MIN_REQUEST_INTERVAL_MS: u64 = 700;

/// Spaces out requests so that two of them are at least `min_interval` apart, however many rooms
/// are polled at once. Points in time are numbers of some fixed unit since some fixed start.
pub struct RateLimiter {
    pub next_allowed: u64,
    pub min_interval: u64,
}

/// The slot for a request made at `now`.
pub open spec fn slot_at(limiter: RateLimiter, now: u64) -> u64 {
    if limiter.next_allowed >= now {
        limiter.next_allowed
    } else {
        now
    }
}

/// The limiter after a request made at `now`.
pub open spec fn after_request(limiter: RateLimiter, now: u64) -> RateLimiter {
    RateLimiter {
        next_allowed: (slot_at(limiter, now) + limiter.min_interval) as u64,
        min_interval: limiter.min_interval,
    }
}

/// The limiter after requests made at the times `calls`, in the order in which it served them.
pub open spec fn after_requests(limiter: RateLimiter, calls: Seq<u64>) -> RateLimiter
    decreases calls.len(),
{
    if calls.len() == 0 {
        limiter
    } else {
        after_request(after_requests(limiter, calls.drop_last()), calls.last())
    }
}

/// The slot of the request with the number `k` among those made at the times `calls`.
pub open spec fn slot_of(limiter: RateLimiter, calls: Seq<u64>, k: int) -> u64 {
    slot_at(after_requests(limiter, calls.take(k)), calls[k])
}

/// Whether the time at which the line is free after each of the requests can be told.
pub open spec fn can_serve(limiter: RateLimiter, calls: Seq<u64>) -> bool {
    forall|k: int|
        0 <= k < calls.len() ==> #[trigger] slot_of(limiter, calls, k) + limiter.min_interval
            <= u64::MAX
}

impl RateLimiter {
    /// A limiter that lets a request through at once.
    pub fn new(min_interval: u64, now: u64) -> (r: Self)
        ensures
            r == (RateLimiter { next_allowed: now, min_interval }),
    {
        RateLimiter { next_allowed: now, min_interval }
    }

    /// Reserves a slot for a request made at `now` and returns it. The next slot is at least
    /// `min_interval` later.
    pub fn reserve(&mut self, now: u64) -> (slot: u64)
        requires
            slot_at(*old(self), now) + old(self).min_interval <= u64::MAX,
        ensures
            slot == slot_at(*old(self), now),
            *final(self) == after_request(*old(self), now),
    {
        let slot: u64 = if self.next_allowed >= now {
            self.next_allowed
        } else {
            now
        };
        self.next_allowed = slot + self.min_interval;
        slot
    }
}

/// A request made when the line is free waits for nothing, and none gets a slot before it was made.
pub proof fn free_line_serves_at_once(limiter: RateLimiter, now: u64)
    ensures
        slot_at(limiter, now) >= now,
        now >= limiter.next_allowed ==> slot_at(limiter, now) == now,
{
}

proof fn next_slot(limiter: RateLimiter, calls: Seq<u64>, k: int)
    requires
        can_serve(limiter, calls),
        0 <= k,
        k + 1 < calls.len(),
    ensures
        slot_of(limiter, calls, k + 1) == if slot_of(limiter, calls, k) + limiter.min_interval
            >= calls[k + 1] {
            slot_of(limiter, calls, k) + limiter.min_interval
        } else {
            calls[k + 1] as int
        },
{
    let served = calls.take(k + 1);
    assert(served.drop_last() =~= calls.take(k));
    assert(served.last() == calls[k]);
    interval_stays(limiter, calls.take(k));
    assert(slot_of(limiter, calls, k) + limiter.min_interval <= u64::MAX);
}

proof fn interval_stays(limiter: RateLimiter, calls: Seq<u64>)
    ensures
        after_requests(limiter, calls).min_interval == limiter.min_interval,
    decreases calls.len(),
{
    if calls.len() > 0 {
        interval_stays(limiter, calls.drop_last());
    }
}

/// However many requests are made, and whenever they are: each gets the first slot that is neither
/// before it was made, nor earlier than the minimum interval after the slot of the request before
/// it. So the slots of any two of them are at least the minimum interval apart.
pub proof fn slots_are_spaced(limiter: RateLimiter, calls: Seq<u64>, i: int, j: int)
    requires
        can_serve(limiter, calls),
        0 <= i < j < calls.len(),
    ensures
        slot_of(limiter, calls, i) >= calls[i],
        slot_of(limiter, calls, j) >= calls[j],
        slot_of(limiter, calls, i + 1) == if slot_of(limiter, calls, i) + limiter.min_interval
            >= calls[i + 1] {
            slot_of(limiter, calls, i) + limiter.min_interval
        } else {
            calls[i + 1] as int
        },
        slot_of(limiter, calls, j) >= slot_of(limiter, calls, i) + limiter.min_interval,
    decreases j,
{
    next_slot(limiter, calls, i);
    next_slot(limiter, calls, j - 1);
    if i < j - 1 {
        slots_are_spaced(limiter, calls, i, j - 1);
    }
}

proof fn earliest_is_minimal(accepted: Seq<(Seq<char>, AtCoderSubmissionModel)>)
    ensures
        earliest(accepted) is None <==> accepted.len() == 0,
        earliest(accepted) matches Some(best) ==> exists|k: int|
            {
                &&& 0 <= k < accepted.len()
                &&& #[trigger] accepted[k] == best
                &&& forall|i: int|
                    0 <= i < accepted.len() ==> best.1.epoch_second <= (
                    #[trigger] accepted[i]).1.epoch_second
                &&& forall|i: int|
                    0 <= i < k ==> best.1.epoch_second < (#[trigger] accepted[i]).1.epoch_second
            },
    decreases accepted.len(),
{
    if accepted.len() > 0 {
        let front = accepted.drop_last();
        let n = accepted.len() - 1;
        earliest_is_minimal(front);
        if let Some(best) = earliest(front) {
            let k = choose|k: int|
                {
                    &&& 0 <= k < front.len()
                    &&& #[trigger] front[k] == best
                    &&& forall|i: int|
                        0 <= i < front.len() ==> best.1.epoch_second <= (
                        #[trigger] front[i]).1.epoch_second
                    &&& forall|i: int|
                        0 <= i < k ==> best.1.epoch_second < (#[trigger] front[i]).1.epoch_second
                };
            assert forall|i: int| 0 <= i < front.len() implies best.1.epoch_second <= (
            #[trigger] accepted[i]).1.epoch_second by {
                assert(front[i] == accepted[i]);
            }
            assert forall|i: int| 0 <= i < k implies best.1.epoch_second < (
            #[trigger] accepted[i]).1.epoch_second by {
                assert(front[i] == accepted[i]);
            }
            assert(accepted[k] == front[k]);
        }
        assert(accepted[n] == accepted.last());
    }
}

proof fn accepted_by_lists(
    room: RoomModel,
    player_id: Seq<char>,
    submissions: Seq<AtCoderSubmissionModel>,
)
    ensures
        forall|i: int|
            0 <= i < accepted_by(room, player_id, submissions).len() ==> {
                let pair = #[trigger] accepted_by(room, player_id, submissions)[i];
                &&& pair.0 == player_id
                &&& submissions.contains(pair.1)
                &&& counts(room, pair.1)
                &&& pair.1.result == "AC"@
            },
        forall|i: int|
            0 <= i < submissions.len() && counts(room, #[trigger] submissions[i])
                && submissions[i].result == "AC"@ ==> accepted_by(
                room,
                player_id,
                submissions,
            ).contains((player_id, submissions[i])),
    decreases submissions.len(),
{
    if submissions.len() > 0 {
        let front = submissions.drop_last();
        accepted_by_lists(room, player_id, front);
        let rest = accepted_by(room, player_id, front);
        let all = accepted_by(room, player_id, submissions);
        assert(submissions[submissions.len() - 1] == submissions.last());
        assert forall|i: int| 0 <= i < all.len() implies {
            let pair = #[trigger] all[i];
            &&& pair.0 == player_id
            &&& submissions.contains(pair.1)
            &&& counts(room, pair.1)
            &&& pair.1.result == "AC"@
        } by {
            if i < rest.len() {
                assert(all[i] == rest[i]);
                assert(front.contains(rest[i].1));
                let k = choose|k: int| 0 <= k < front.len() && front[k] == rest[i].1;
                assert(submissions[k] == rest[i].1);
            }
        }
        assert forall|i: int|
            0 <= i < submissions.len() && counts(room, #[trigger] submissions[i])
                && submissions[i].result == "AC"@ implies all.contains(
            (player_id, submissions[i]),
        ) by {
            let pair = (player_id, submissions[i]);
            if i < front.len() {
                assert(front[i] == submissions[i]);
                assert(rest.contains(pair));
                let k = choose|k: int| 0 <= k < rest.len() && rest[k] == pair;
                assert(all[k] == pair);
            } else {
                assert(all[rest.len() as int] == pair);
            }
        }
    }
}

/// Whether `submission` is an accepted submission that counts and was read for `player`.
pub open spec fn is_candidate(
    room: RoomModel,
    player: PlayerModel,
    fetched: Option<Seq<AtCoderSubmissionModel>>,
    submission: AtCoderSubmissionModel,
) -> bool {
    &&& is_polled(room, player, fetched)
    &&& (fetched->0).contains(submission)
    &&& counts(room, submission)
    &&& submission.result == "AC"@
}

/// The winner of a polling pass is one of the players, by an accepted submission of its own that
/// counts, and nobody's accepted submission that counts is earlier. There is a winner whenever
/// there is such a submission.
pub proof fn winner_is_earliest(
    room: RoomModel,
    first: Option<Seq<AtCoderSubmissionModel>>,
    second: Option<Seq<AtCoderSubmissionModel>>,
    submission: AtCoderSubmissionModel,
)
    ensures
        poll_of(room, first, second).winner matches Some(winner) ==> {
            ||| winner.0 == room.players.0.id && is_candidate(
                room,
                room.players.0,
                first,
                winner.1,
            )
            ||| winner.0 == room.players.1.id && is_candidate(
                room,
                room.players.1,
                second,
                winner.1,
            )
        },
        is_candidate(room, room.players.0, first, submission) || is_candidate(
            room,
            room.players.1,
            second,
            submission,
        ) ==> poll_of(room, first, second).winner is Some && (poll_of(
            room,
            first,
            second,
        ).winner->0).1.epoch_second <= submission.epoch_second,
{
    let left = accepted_of(room, room.players.0, first);
    let right = accepted_of(room, room.players.1, second);
    let all = left + right;
    earliest_is_minimal(all);
    if first is Some {
        accepted_by_lists(room, room.players.0.id, first->0);
    }
    if second is Some {
        accepted_by_lists(room, room.players.1.id, second->0);
    }
    if is_candidate(room, room.players.0, first, submission) {
        let list = first->0;
        let i = choose|i: int| 0 <= i < list.len() && list[i] == submission;
        assert(left.contains((room.players.0.id, list[i])));
        let k = choose|k: int|
            0 <= k < left.len() && left[k] == (room.players.0.id, submission);
        assert(all[k] == left[k]);
    }
    if is_candidate(room, room.players.1, second, submission) {
        let list = second->0;
        let i = choose|i: int| 0 <= i < list.len() && list[i] == submission;
        assert(right.contains((room.players.1.id, list[i])));
        let k = choose|k: int|
            0 <= k < right.len() && right[k] == (room.players.1.id, submission);
        assert(all[left.len() + k] == right[k]);
    }
}

/// A failed read for one player changes nothing that is known of it: the pass says nothing of that
/// player's activity.
pub proof fn failed_read_keeps_activity(room: RoomModel, second: Option<Seq<AtCoderSubmissionModel>>)
    requires
        room.players.0.id != room.players.1.id,
    ensures
        forall|i: int|
            0 <= i < poll_of(room, None, second).activity.len() ==> (#[trigger] poll_of(
                room,
                None,
                second,
            ).activity[i]).0 != room.players.0.id,
        forall|i: int|
            0 <= i < poll_of(room, second, None).activity.len() ==> (#[trigger] poll_of(
                room,
                second,
                None,
            ).activity[i]).0 != room.players.1.id,
{
}

/// While a match is on, a polling pass that finds an accepted submission of one of its players
/// that counts ends it: won by the one with the earliest, for that reason.
pub proof fn accepted_submission_ends_match(
    state: RoomsModel,
    room_id: Seq<char>,
    first: Option<Seq<AtCoderSubmissionModel>>,
    second: Option<Seq<AtCoderSubmissionModel>>,
    submission: AtCoderSubmissionModel,
    now: i64,
)
    requires
        polls_on(state, room_id),
        is_candidate(state.rooms[room_id], state.rooms[room_id].players.0, first, submission)
            || is_candidate(
            state.rooms[room_id],
            state.rooms[room_id].players.1,
            second,
            submission,
        ),
    ensures
        ({
            let poll = poll_of(state.rooms[room_id], first, second);
            let (after, shown) = after_poll(state, room_id, poll, now);
            let room = after.rooms[room_id];
            &&& shown == Some(room)
            &&& room.status == RoomStatus::Finished
            &&& room.finish_reason == Some(RoomFinishReason::Accepted)
            &&& poll.winner is Some
            &&& room.winner_player_id == Some((poll.winner->0).0)
            &&& room.winning_submission is Some
            &&& room.winning_submission->0.submission_id == (poll.winner->0).1.id
            &&& room.winning_submission->0.epoch_second <= submission.epoch_second
        }),
{
    winner_is_earliest(state.rooms[room_id], first, second, submission);
}

proof fn latest_is_maximal(submissions: Seq<AtCoderSubmissionModel>)
    ensures
        submissions.len() == 0 ==> latest(submissions) is None,
        submissions.len() > 0 ==> exists|k: int|
            {
                &&& 0 <= k < submissions.len()
                &&& latest(submissions) == Some(#[trigger] submissions[k])
                &&& forall|j: int|
                    0 <= j < submissions.len() ==> (#[trigger] submissions[j]).epoch_second
                        <= submissions[k].epoch_second
                &&& forall|j: int|
                    k < j < submissions.len() ==> (#[trigger] submissions[j]).epoch_second
                        < submissions[k].epoch_second
            },
    decreases submissions.len(),
{
    if submissions.len() > 0 {
        let front = submissions.drop_last();
        let n = submissions.len() - 1;
        latest_is_maximal(front);
        if front.len() > 0 {
            let k = choose|k: int|
                {
                    &&& 0 <= k < front.len()
                    &&& latest(front) == Some(#[trigger] front[k])
                    &&& forall|j: int|
                        0 <= j < front.len() ==> (#[trigger] front[j]).epoch_second
                            <= front[k].epoch_second
                    &&& forall|j: int|
                        k < j < front.len() ==> (#[trigger] front[j]).epoch_second
                            < front[k].epoch_second
                };
            assert(forall|j: int| 0 <= j < front.len() ==> front[j] == submissions[j]);
            if submissions[n].epoch_second < front[k].epoch_second {
                assert(latest(submissions) == Some(submissions[k]));
            } else {
                assert(latest(submissions) == Some(submissions[n]));
            }
        } else {
            assert(latest(submissions) == Some(submissions[n]));
        }
    }
}

proof fn kept_come_from(
    submissions: Seq<AtCoderSubmissionModel>,
    keeps: spec_fn(AtCoderSubmissionModel) -> bool,
)
    ensures
        forall|i: int|
            0 <= i < submissions.filter(keeps).len() ==> keeps(
                #[trigger] submissions.filter(keeps)[i],
            ) && submissions.contains(submissions.filter(keeps)[i]),
        forall|i: int|
            0 <= i < submissions.len() && keeps(#[trigger] submissions[i]) ==> submissions.filter(
                keeps,
            ).contains(submissions[i]),
    decreases submissions.len(),
{
    reveal(Seq::filter);
    if submissions.len() > 0 {
        let front = submissions.drop_last();
        let kept = submissions.filter(keeps);
        let before = front.filter(keeps);
        kept_come_from(front, keeps);
        assert forall|i: int| 0 <= i < kept.len() implies keeps(#[trigger] kept[i])
            && submissions.contains(kept[i]) by {
            if i < before.len() {
                assert(kept[i] == before[i]);
                let k = choose|k: int| 0 <= k < front.len() && front[k] == before[i];
                assert(submissions[k] == kept[i]);
            } else {
                assert(submissions[submissions.len() - 1] == kept[i]);
            }
        }
        assert forall|i: int| 0 <= i < submissions.len() && keeps(
            #[trigger] submissions[i],
        ) implies kept.contains(submissions[i]) by {
            if i < front.len() {
                assert(front[i] == submissions[i]);
                let k = choose|k: int| 0 <= k < before.len() && before[k] == front[i];
                assert(kept[k] == submissions[i]);
            } else {
                assert(kept[before.len() as int] == submissions[i]);
            }
        }
    }
}

/// Whether `activity` tells of `submissions`: how many of them are for the problem of the room and
/// were made since the match started, when the last of these was made, and what became of one made
/// at that second.
pub open spec fn tells_of(
    activity: PlayerActivityModel,
    room: RoomModel,
    submissions: Seq<AtCoderSubmissionModel>,
) -> bool {
    let since = submissions.filter(
        |submission: AtCoderSubmissionModel|
            submission.problem_id == room.problem.id && submission.epoch_second
                >= room.started_at_second,
    );
    &&& activity.attempt_count == since.len()
    &&& since.len() == 0 ==> activity.last_verdict is None && activity.last_submission_epoch is None
    &&& since.len() > 0 ==> {
        &&& activity.last_submission_epoch is Some
        &&& activity.last_verdict is Some
        &&& forall|i: int|
            0 <= i < since.len() ==> (#[trigger] since[i]).epoch_second
                <= activity.last_submission_epoch->0
        &&& exists|k: int|
            {
                &&& 0 <= k < since.len()
                &&& (#[trigger] since[k]).epoch_second == activity.last_submission_epoch->0
                &&& since[k].result == activity.last_verdict->0
                &&& forall|j: int|
                    k < j < since.len() ==> (#[trigger] since[j]).epoch_second
                        < since[k].epoch_second
            }
    }
}

/// Whether `records` lists `submissions`: those for the problem of the room that were made since the
/// match started, in order, each with its number, its time and its verdict.
pub open spec fn record(
    records: Seq<PlayerSubmissionRecordModel>,
    room: RoomModel,
    submissions: Seq<AtCoderSubmissionModel>,
) -> bool {
    let since = submissions.filter(
        |submission: AtCoderSubmissionModel|
            submission.problem_id == room.problem.id && submission.epoch_second
                >= room.started_at_second,
    );
    &&& records.len() == since.len()
    &&& forall|i: int|
        0 <= i < since.len() ==> {
            &&& (#[trigger] records[i]).id == since[i].id
            &&& records[i].epoch_second == since[i].epoch_second
            &&& records[i].verdict == since[i].result
        }
}

proof fn since_is_counting(room: RoomModel, submissions: Seq<AtCoderSubmissionModel>)
    ensures
        counting(room, submissions) == submissions.filter(
            |submission: AtCoderSubmissionModel|
                submission.problem_id == room.problem.id && submission.epoch_second
                    >= room.started_at_second,
        ),
{
    let counted = |submission: AtCoderSubmissionModel| counts(room, submission);
    let since = |submission: AtCoderSubmissionModel|
        submission.problem_id == room.problem.id && submission.epoch_second
            >= room.started_at_second;
    assert(counted =~= since);
}

/// A polling pass tells of each player for whom an AtCoder user is known and whose submissions could
/// be read, and of nobody else: how often the player tried, when last, with what verdict, and which
/// submissions these were.
pub proof fn polling_tells_of_players(
    room: RoomModel,
    first: Option<Seq<AtCoderSubmissionModel>>,
    second: Option<Seq<AtCoderSubmissionModel>>,
)
    requires
        first is Some ==> first->0.len() <= u32::MAX,
        second is Some ==> second->0.len() <= u32::MAX,
    ensures
        ({
            let poll = poll_of(room, first, second);
            let one = first is Some && room.atcoder_users.contains_key(room.players.0.id);
            let two = second is Some && room.atcoder_users.contains_key(room.players.1.id);
            let at = if one {
                1int
            } else {
                0int
            };
            &&& poll.activity.len() == poll.submissions.len()
            &&& poll.activity.len() == at + if two {
                1int
            } else {
                0int
            }
            &&& one ==> {
                &&& poll.activity[0].0 == room.players.0.id
                &&& tells_of(poll.activity[0].1, room, first->0)
                &&& poll.submissions[0].0 == room.players.0.id
                &&& record(poll.submissions[0].1, room, first->0)
            }
            &&& two ==> {
                &&& poll.activity[at].0 == room.players.1.id
                &&& tells_of(poll.activity[at].1, room, second->0)
                &&& poll.submissions[at].0 == room.players.1.id
                &&& record(poll.submissions[at].1, room, second->0)
            }
        }),
{
    if first is Some {
        activity_tells(room, first->0);
    }
    if second is Some {
        activity_tells(room, second->0);
    }
}

proof fn activity_tells(room: RoomModel, submissions: Seq<AtCoderSubmissionModel>)
    requires
        submissions.len() <= u32::MAX,
    ensures
        tells_of(activity_of(counting(room, submissions)), room, submissions),
        record(records_of(counting(room, submissions)), room, submissions),
{
    since_is_counting(room, submissions);
    let since = counting(room, submissions);
    latest_is_maximal(since);
    submissions.lemma_filter_len(|submission: AtCoderSubmissionModel| counts(room, submission));
    if since.len() > 0 {
        let k = choose|k: int|
            {
                &&& 0 <= k < since.len()
                &&& latest(since) == Some(#[trigger] since[k])
                &&& forall|j: int|
                    0 <= j < since.len() ==> (#[trigger] since[j]).epoch_second
                        <= since[k].epoch_second
                &&& forall|j: int|
                    k < j < since.len() ==> (#[trigger] since[j]).epoch_second
                        < since[k].epoch_second
            };
        assert(since[k].epoch_second == activity_of(since).last_submission_epoch->0);
    }
}

/// For a player whose submissions were read, no submission on the problem of the room since the
/// match started is later than the one that is told of, and that one is among them.
pub proof fn last_attempt_is_latest(
    room: RoomModel,
    first: Option<Seq<AtCoderSubmissionModel>>,
    second: Option<Seq<AtCoderSubmissionModel>>,
    submission: AtCoderSubmissionModel,
)
    requires
        first is Some && room.atcoder_users.contains_key(room.players.0.id),
        first->0.contains(submission),
        submission.problem_id == room.problem.id,
        submission.epoch_second >= room.started_at_second,
    ensures
        ({
            let activity = poll_of(room, first, second).activity[0].1;
            &&& activity.last_submission_epoch is Some
            &&& submission.epoch_second <= activity.last_submission_epoch->0
            &&& exists|i: int|
                {
                    &&& 0 <= i < first->0.len()
                    &&& (#[trigger] first->0[i]).epoch_second == activity.last_submission_epoch->0
                    &&& Some(first->0[i].result) == activity.last_verdict
                    &&& first->0[i].problem_id == room.problem.id
                }
        }),
{
    let all = first->0;
    let keeps = |submission: AtCoderSubmissionModel| counts(room, submission);
    let since = counting(room, all);
    kept_come_from(all, keeps);
    let at = choose|at: int| 0 <= at < all.len() && all[at] == submission;
    assert(keeps(all[at]));
    let m = choose|m: int| 0 <= m < since.len() && since[m] == submission;
    latest_is_maximal(since);
    let k = choose|k: int|
        {
            &&& 0 <= k < since.len()
            &&& latest(since) == Some(#[trigger] since[k])
            &&& forall|j: int|
                0 <= j < since.len() ==> (#[trigger] since[j]).epoch_second
                    <= since[k].epoch_second
            &&& forall|j: int|
                k < j < since.len() ==> (#[trigger] since[j]).epoch_second < since[k].epoch_second
        };
    assert(since[m].epoch_second <= since[k].epoch_second);
    assert(all.contains(since[k]) && keeps(since[k]));
    let i = choose|i: int| 0 <= i < all.len() && all[i] == since[k];
    assert(all[i].epoch_second == since[k].epoch_second);
}

/// The winner of a polling pass is one of the two players, by a submission that was read for that
/// player, was accepted, is for the problem of the room and was made since the match started. Nobody
/// else's such submission is earlier, and of two at the same second that of the first player counts.
pub proof fn winner_was_first_accepted(
    room: RoomModel,
    first: Option<Seq<AtCoderSubmissionModel>>,
    second: Option<Seq<AtCoderSubmissionModel>>,
    submission: AtCoderSubmissionModel,
)
    requires
        submission.result == "AC"@,
        submission.problem_id == room.problem.id,
        submission.epoch_second >= room.started_at_second,
        room.players.0.id != room.players.1.id,
    ensures
        ({
            let winner = poll_of(room, first, second).winner;
            let by_one = first is Some && room.atcoder_users.contains_key(room.players.0.id)
                && first->0.contains(submission);
            let by_two = second is Some && room.atcoder_users.contains_key(room.players.1.id)
                && second->0.contains(submission);
            &&& by_one || by_two ==> winner is Some && (winner->0).1.epoch_second
                <= submission.epoch_second
            &&& by_one && (winner->0).1.epoch_second == submission.epoch_second ==> (winner->0).0
                == room.players.0.id
            &&& winner is Some ==> {
                &&& (winner->0).1.result == "AC"@
                &&& (winner->0).1.problem_id == room.problem.id
                &&& (winner->0).1.epoch_second >= room.started_at_second
                &&& ((winner->0).0 == room.players.0.id && first is Some && first->0.contains(
                    (winner->0).1,
                )) || ((winner->0).0 == room.players.1.id && second is Some && second->0.contains(
                    (winner->0).1,
                ))
            }
        }),
{
    winner_is_earliest(room, first, second, submission);
    let ones = accepted_of(room, room.players.0, first);
    let twos = accepted_of(room, room.players.1, second);
    let all = ones + twos;
    earliest_is_minimal(all);
    if first is Some {
        accepted_by_lists(room, room.players.0.id, first->0);
    }
    if second is Some {
        accepted_by_lists(room, room.players.1.id, second->0);
    }
    if earliest(all) is Some {
        let best = earliest(all)->0;
        let k = choose|k: int|
            {
                &&& 0 <= k < all.len()
                &&& #[trigger] all[k] == best
                &&& forall|i: int|
                    0 <= i < all.len() ==> best.1.epoch_second <= (
                    #[trigger] all[i]).1.epoch_second
                &&& forall|i: int|
                    0 <= i < k ==> best.1.epoch_second < (#[trigger] all[i]).1.epoch_second
            };
        if first is Some && room.atcoder_users.contains_key(room.players.0.id)
            && first->0.contains(submission) {
            let at = choose|at: int| 0 <= at < first->0.len() && first->0[at] == submission;
            assert(counts(room, first->0[at]));
            assert(ones.contains((room.players.0.id, submission)));
            let m = choose|m: int| 0 <= m < ones.len() && ones[m] == (room.players.0.id, submission);
            assert(all[m] == ones[m]);
            if k >= ones.len() {
                assert(best.1.epoch_second < all[m].1.epoch_second);
            } else {
                assert(all[k] == ones[k]);
            }
        }
    }
}

/// What a polling pass found out of the players is shown in the room whether or not it ends the
/// match; without a winner, the match goes on as it was, and nothing is recorded.
pub proof fn polling_goes_on(
    state: RoomsModel,
    room_id: Seq<char>,
    poll: SubmissionPollModel,
    now: i64,
)
    requires
        state.rooms.contains_key(room_id),
    ensures
        ({
            let before = state.rooms[room_id];
            let (after, shown) = after_poll(state, room_id, poll, now);
            let room = after.rooms[room_id];
            let told = state.update_activity(room_id, poll.activity, poll.submissions).rooms[room_id];
            &&& room.player_activity == told.player_activity
            &&& room.player_submissions == told.player_submissions
            &&& poll.winner is None ==> {
                &&& shown is None
                &&& room.status == before.status
                &&& room.winner_player_id == before.winner_player_id
                &&& room.finish_reason == before.finish_reason
                &&& room.winning_submission == before.winning_submission
            }
            &&& poll.winner is Some && before.status == RoomStatus::Playing && ((poll.winner->0).0
                == before.players.0.id || (poll.winner->0).0 == before.players.1.id) ==> {
                &&& shown == Some(room)
                &&& room.status == RoomStatus::Finished
                &&& room.finish_reason == Some(RoomFinishReason::Accepted)
                &&& room.winner_player_id == Some((poll.winner->0).0)
                &&& room.winning_submission is Some
                &&& room.winning_submission->0.submission_id == (poll.winner->0).1.id
                &&& room.winning_submission->0.source_code == (poll.winner->0).1.source_code
                &&& room.finished_at_second == Some(now)
            }
        }),
{
}

/// A room is polled exactly while it is there and its match is on.
pub proof fn only_matches_that_are_on_are_polled(state: RoomsModel, room_id: Seq<char>)
    ensures
        polls_on(state, room_id) <==> state.rooms.contains_key(room_id)
            && state.rooms[room_id].status == RoomStatus::Playing,
{
}

/// The models hold what the values hold, each part under its own name.
pub proof fn models_hold_their_parts(submission_poll: SubmissionPoll)
    ensures
        submission_poll.deep_view() == (SubmissionPollModel {
            winner: submission_poll.winner.deep_view(),
            activity: submission_poll.activity.deep_view(),
            submissions: submission_poll.submissions.deep_view(),
        }),
{
}
/// Those of `submissions` that were accepted, are for the problem of the room and were made since the
/// match started.
pub open spec fn winning(room: RoomModel, submissions: Seq<AtCoderSubmissionModel>) -> Seq<
    AtCoderSubmissionModel,
> {
    submissions.filter(
        |submission: AtCoderSubmissionModel|
            submission.result == "AC"@ && submission.problem_id == room.problem.id
                && submission.epoch_second >= room.started_at_second,
    )
}

proof fn accepted_are_winning(
    room: RoomModel,
    player_id: Seq<char>,
    submissions: Seq<AtCoderSubmissionModel>,
)
    ensures
        accepted_by(room, player_id, submissions).len() == winning(room, submissions).len(),
        forall|i: int|
            0 <= i < winning(room, submissions).len() ==> #[trigger] accepted_by(
                room,
                player_id,
                submissions,
            )[i] == (player_id, winning(room, submissions)[i]),
    decreases submissions.len(),
{
    reveal(Seq::filter);
    if submissions.len() > 0 {
        accepted_are_winning(room, player_id, submissions.drop_last());
    }
}

/// Of several submissions that would win at the same second the one that was listed first counts,
/// and those of the first player come before those of the second.
pub proof fn first_listed_of_equals_wins(
    room: RoomModel,
    first: Seq<AtCoderSubmissionModel>,
    second: Seq<AtCoderSubmissionModel>,
)
    requires
        room.atcoder_users.contains_key(room.players.0.id),
        room.atcoder_users.contains_key(room.players.1.id),
    ensures
        ({
            let one = winning(room, first);
            let two = winning(room, second);
            let winner = poll_of(room, Some(first), Some(second)).winner;
            &&& winner is None <==> one.len() == 0 && two.len() == 0
            &&& winner matches Some(best) ==> (best.0 == room.players.0.id && exists|k: int|
                {
                    &&& 0 <= k < one.len()
                    &&& #[trigger] one[k] == best.1
                    &&& forall|i: int|
                        0 <= i < k ==> best.1.epoch_second < (#[trigger] one[i]).epoch_second
                }) || (best.0 == room.players.1.id && (forall|i: int|
                0 <= i < one.len() ==> best.1.epoch_second < (#[trigger] one[i]).epoch_second)
                && exists|k: int|
                {
                    &&& 0 <= k < two.len()
                    &&& #[trigger] two[k] == best.1
                    &&& forall|i: int|
                        0 <= i < k ==> best.1.epoch_second < (#[trigger] two[i]).epoch_second
                })
        }),
{
    let one = winning(room, first);
    let two = winning(room, second);
    let a = accepted_by(room, room.players.0.id, first);
    let b = accepted_by(room, room.players.1.id, second);
    accepted_are_winning(room, room.players.0.id, first);
    accepted_are_winning(room, room.players.1.id, second);
    let all = a + b;
    earliest_is_minimal(all);
    if let Some(best) = earliest(all) {
        let k = choose|k: int|
            {
                &&& 0 <= k < all.len()
                &&& #[trigger] all[k] == best
                &&& forall|i: int|
                    0 <= i < all.len() ==> best.1.epoch_second <= (
                    #[trigger] all[i]).1.epoch_second
                &&& forall|i: int|
                    0 <= i < k ==> best.1.epoch_second < (#[trigger] all[i]).1.epoch_second
            };
        if k < a.len() {
            assert(one[k] == best.1);
            assert forall|i: int| 0 <= i < k implies best.1.epoch_second < (
            #[trigger] one[i]).epoch_second by {
                assert(all[i] == a[i]);
            }
        } else {
            let m: int = k - a.len();
            assert(all[k] == b[m]);
            assert(two[m] == best.1);
            assert forall|i: int| 0 <= i < one.len() implies best.1.epoch_second < (
            #[trigger] one[i]).epoch_second by {
                assert(all[i] == a[i]);
            }
            assert forall|i: int| 0 <= i < m implies best.1.epoch_second < (
            #[trigger] two[i]).epoch_second by {
                assert(all[a.len() + i] == b[i]);
            }
        }
    }
}
/// What a polling pass tells of each player is what was read for that player.
pub proof fn pass_tells_of_players(
    room: Room,
    first: Option<Vec<AtCoderSubmission>>,
    second: Option<Vec<AtCoderSubmission>>,
    poll: SubmissionPoll,
)
    requires
        call_ensures(poll_room_submission_state, (&room, &first, &second), poll),
        first matches Some(submissions) ==> submissions@.len() <= u32::MAX,
        second matches Some(submissions) ==> submissions@.len() <= u32::MAX,
    ensures
        ({
            let users = room.atcoder_users.deep_view();
            let one = first is Some && users.contains_key(room.players[0].id@);
            let two = second is Some && users.contains_key(room.players[1].id@);
            let at: int = if one {
                1
            } else {
                0
            };
            &&& one ==> {
                &&& poll.activity@[0].0@ == room.players[0].id@
                &&& tells_of(
                    poll.activity@[0].1.deep_view(),
                    room.deep_view(),
                    first->0.deep_view(),
                )
            }
            &&& two ==> {
                &&& poll.activity@[at].0@ == room.players[1].id@
                &&& tells_of(
                    poll.activity@[at].1.deep_view(),
                    room.deep_view(),
                    second->0.deep_view(),
                )
            }
            &&& poll.activity@.len() == at + if two {
                1int
            } else {
                0int
            }
        }),
{
    polling_tells_of_players(room.deep_view(), first.deep_view(), second.deep_view());
    assert(poll.activity.deep_view().len() == poll.activity@.len());
    if poll.activity@.len() > 0 {
        assert(poll.activity.deep_view()[0] == poll.activity@[0].deep_view());
    }
    if poll.activity@.len() > 1 {
        assert(poll.activity.deep_view()[1] == poll.activity@[1].deep_view());
    }
}

/// The code that was read for the winning submission is added to it; everything else that a pass
/// found out stays.
pub proof fn winning_code_is_added(
    poll: SubmissionPoll,
    source: Option<String>,
    after: SubmissionPoll,
)
    requires
        call_ensures(with_winning_source, (poll, source), after),
    ensures
        after.activity.deep_view() == poll.activity.deep_view(),
        after.submissions.deep_view() == poll.submissions.deep_view(),
        after.winner is Some <==> poll.winner is Some,
        after.winner is Some ==> {
            let now = (after.winner->0).1;
            let before = (poll.winner->0).1;
            &&& (after.winner->0).0@ == (poll.winner->0).0@
            &&& now.id == before.id
            &&& now.epoch_second == before.epoch_second
            &&& now.problem_id@ == before.problem_id@
            &&& now.result@ == before.result@
            &&& source is Some ==> now.source_code is Some && now.source_code->0@ == source->0@
            &&& source is None ==> now.source_code.deep_view() == before.source_code.deep_view()
        },
{
    if after.winner is Some && poll.winner is Some {
        assert(after.winner.deep_view()->0 == (after.winner->0).deep_view());
        assert(poll.winner.deep_view()->0 == (poll.winner->0).deep_view());
        if source is Some {
            assert((after.winner->0).1.source_code.deep_view() == Some(source->0@));
        }
    }
}
} // verus!
