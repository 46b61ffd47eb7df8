//! What always holds of the server's rooms, whatever is asked of it in whatever order.

use vstd::prelude::*;

use crate::server::model::{
    AtCoderSubmission, AtCoderSubmissionModel, JoinDecisionModel, JoinRequest,
    JoinResponseModel, LeaveOutcomeModel, PlayerActivityModel, PlayerCodeSnapshot,
    PlayerCodeSnapshotModel, PlayerLocationModel, PlayerModel, PlayerStateResponseModel,
    PlayerSubmissionRecordModel, ProblemModel, Room, RoomFinishReason, RoomModel, RoomStatus,
};
use crate::server::rooms;
use crate::server::rooms::{RduelRooms, RoomsModel};

verus! {

/// Whether somebody with the id `id` is in `queue`.
pub open spec fn queued(queue: Seq<PlayerModel>, id: Seq<char>) -> bool {
    exists|i: int| 0 <= i < queue.len() && (#[trigger] queue[i]).id == id
}

/// Whether nobody is in `queue` twice.
pub open spec fn distinct_ids(queue: Seq<PlayerModel>) -> bool {
    forall|i: int, j: int|
        0 <= i < j < queue.len() ==> (#[trigger] queue[i]).id != (#[trigger] queue[j]).id
}

/// Whether a room is either on, with nothing decided, or over, with a winner that played in it.
pub open spec fn is_coherent(room: RoomModel) -> bool {
    match room.status {
        RoomStatus::Playing => {
            &&& room.winner_player_id is None
            &&& room.finish_reason is None
            &&& room.finished_at_second is None
            &&& room.winning_submission is None
        },
        RoomStatus::Finished => {
            &&& room.winner_player_id is Some
            &&& rooms::plays_in(room, room.winner_player_id->0)
            &&& room.finish_reason is Some
            &&& room.finished_at_second is Some
            &&& room.winning_submission is Some <==> room.finish_reason == Some(
                RoomFinishReason::Accepted,
            )
            &&& room.winning_submission is Some ==> Some(room.winning_submission->0.player_id)
                == room.winner_player_id
        },
    }
}

/// What holds in every state of the server: nobody is queued twice; those queued are those known
/// to wait, so a player being paired is not among them; every known player has a token; no token is
/// empty; every player in a room plays in a room that exists; every room stands under its own id
/// and is coherent.
pub open spec fn is_valid(state: RoomsModel) -> bool {
    &&& distinct_ids(state.waiting)
    &&& forall|id: Seq<char>| queued(state.waiting, id) <==> #[trigger] state.is_waiting(id)
    &&& forall|id: Seq<char>| #[trigger]
        state.players.contains_key(id) ==> state.tokens.contains_key(id)
    &&& forall|id: Seq<char>| #[trigger]
        state.tokens.contains_key(id) ==> state.tokens[id].len() > 0
    &&& forall|id: Seq<char>| #[trigger]
        state.players.contains_key(id) && state.players[id] is Room ==> state.rooms.contains_key(
            state.players[id]->room_id,
        ) && rooms::plays_in(state.rooms[state.players[id]->room_id], id)
    &&& forall|room_id: Seq<char>| #[trigger]
        state.rooms.contains_key(room_id) ==> state.rooms[room_id].id == room_id && is_coherent(
            state.rooms[room_id],
        )
}

/// Whether `after` is `before` with its outcome unchanged, if it has one.
pub open spec fn keeps_outcome(before: RoomModel, after: RoomModel) -> bool {
    before.status == RoomStatus::Finished ==> {
        &&& after.status == RoomStatus::Finished
        &&& after.winner_player_id == before.winner_player_id
        &&& after.finish_reason == before.finish_reason
        &&& after.finished_at_second == before.finished_at_second
        &&& after.winning_submission == before.winning_submission
    }
}

proof fn filtered_queue(queue: Seq<PlayerModel>, keeps: spec_fn(PlayerModel) -> bool)
    requires
        distinct_ids(queue),
    ensures
        distinct_ids(queue.filter(keeps)),
        forall|player: PlayerModel|
            queue.filter(keeps).contains(player) <==> #[trigger] queue.contains(player) && keeps(
                player,
            ),
    decreases queue.len(),
{
    reveal(Seq::filter);
    if queue.len() > 0 {
        let front = queue.drop_last();
        let last = queue.last();
        assert forall|i: int, j: int| 0 <= i < j < front.len() implies (#[trigger] front[i]).id != (
        #[trigger] front[j]).id by {
            assert(queue[i].id != queue[j].id);
        }
        filtered_queue(front, keeps);
        let rest = front.filter(keeps);
        let all = queue.filter(keeps);
        assert forall|player: PlayerModel| #[trigger] queue.contains(player) == (front.contains(
            player,
        ) || player == last) by {
            if queue.contains(player) {
                let i = choose|i: int| 0 <= i < queue.len() && queue[i] == player;
                if i < front.len() {
                    assert(front[i] == player);
                }
            }
            if front.contains(player) {
                let i = choose|i: int| 0 <= i < front.len() && front[i] == player;
                assert(queue[i] == player);
            }
            assert(queue[queue.len() - 1] == last);
        }
        if keeps(last) {
            assert(all == rest.push(last));
            assert forall|i: int, j: int| 0 <= i < j < all.len() implies (#[trigger] all[i]).id != (
            #[trigger] all[j]).id by {
                if j < rest.len() {
                    assert(rest[i].id != rest[j].id);
                } else {
                    assert(rest.contains(rest[i]));
                    assert(front.contains(rest[i]));
                    let k = choose|k: int| 0 <= k < front.len() && front[k] == rest[i];
                    assert(queue[k].id != queue[queue.len() - 1].id);
                }
            }
            assert forall|player: PlayerModel| all.contains(player) == (rest.contains(player)
                || player == last) by {
                if all.contains(player) {
                    let i = choose|i: int| 0 <= i < all.len() && all[i] == player;
                    if i < rest.len() {
                        assert(rest[i] == player);
                    }
                }
                if rest.contains(player) {
                    let i = choose|i: int| 0 <= i < rest.len() && rest[i] == player;
                    assert(all[i] == player);
                }
                assert(all[rest.len() as int] == last);
            }
        }
    }
}

proof fn queued_is_contains(queue: Seq<PlayerModel>, id: Seq<char>)
    ensures
        queued(queue, id) <==> exists|player: PlayerModel| #[trigger]
            queue.contains(player) && player.id == id,
{
    if queued(queue, id) {
        let i = choose|i: int| 0 <= i < queue.len() && (#[trigger] queue[i]).id == id;
        assert(queue.contains(queue[i]));
    }
    if exists|player: PlayerModel| #[trigger] queue.contains(player) && player.id == id {
        let player = choose|player: PlayerModel| #[trigger]
            queue.contains(player) && player.id == id;
        let i = choose|i: int| 0 <= i < queue.len() && queue[i] == player;
        assert(queue[i].id == id);
    }
}

/// Who is left in a filtered queue.
proof fn filtered_ids(queue: Seq<PlayerModel>, keeps: spec_fn(PlayerModel) -> bool, id: Seq<char>)
    requires
        distinct_ids(queue),
    ensures
        queued(queue.filter(keeps), id) <==> exists|i: int|
            0 <= i < queue.len() && (#[trigger] queue[i]).id == id && keeps(queue[i]),
{
    filtered_queue(queue, keeps);
    let kept = queue.filter(keeps);
    queued_is_contains(kept, id);
    if exists|player: PlayerModel| #[trigger] kept.contains(player) && player.id == id {
        let player = choose|player: PlayerModel| #[trigger] kept.contains(player) && player.id == id;
        assert(queue.contains(player));
        let i = choose|i: int| 0 <= i < queue.len() && queue[i] == player;
        assert(queue[i].id == id && keeps(queue[i]));
    }
    if exists|i: int| 0 <= i < queue.len() && (#[trigger] queue[i]).id == id && keeps(queue[i]) {
        let i = choose|i: int|
            0 <= i < queue.len() && (#[trigger] queue[i]).id == id && keeps(queue[i]);
        assert(queue.contains(queue[i]));
        assert(kept.contains(queue[i]));
    }
}

/// A server that nobody has joined is in a valid state.
pub proof fn new_server_is_valid(problems: Seq<ProblemModel>)
    ensures
        is_valid(RoomsModel::empty(problems)),
{
}

proof fn dropping_namesakes_keeps_valid(state: RoomsModel, name: Seq<char>, keep: Seq<char>)
    requires
        is_valid(state),
    ensures
        is_valid(state.drop_namesakes(name, keep)),
        forall|i: int|
            0 <= i < state.drop_namesakes(name, keep).waiting.len() ==> !rooms::is_namesake(
                #[trigger] state.drop_namesakes(name, keep).waiting[i],
                name,
                keep,
            ),
{
    let keeps = |player: PlayerModel| !rooms::is_namesake(player, name, keep);
    let after = state.drop_namesakes(name, keep);
    filtered_queue(state.waiting, keeps);
    assert(after.waiting == state.waiting.filter(keeps));
    assert forall|id: Seq<char>| queued(after.waiting, id) <==> #[trigger] after.is_waiting(
        id,
    ) by {
        filtered_ids(state.waiting, keeps, id);
        assert(queued(state.waiting, id) <==> state.is_waiting(id));
        if queued(state.waiting, id) {
            let i = choose|i: int|
                0 <= i < state.waiting.len() && (#[trigger] state.waiting[i]).id == id;
            assert(state.namesakes(name, keep).contains(id) == rooms::is_namesake(
                state.waiting[i],
                name,
                keep,
            )) by {
                if state.namesakes(name, keep).contains(id) {
                    let j = choose|j: int|
                        0 <= j < state.waiting.len() && (#[trigger] state.waiting[j]).id == id
                            && rooms::is_namesake(state.waiting[j], name, keep);
                    if i < j {
                        assert(state.waiting[i].id != state.waiting[j].id);
                    } else if j < i {
                        assert(state.waiting[j].id != state.waiting[i].id);
                    }
                }
            }
        }
    }
    assert forall|id: Seq<char>| #[trigger] after.players.contains_key(
        id,
    ) implies after.tokens.contains_key(id) by {
        assert(state.players.contains_key(id));
    }
    assert forall|id: Seq<char>| #[trigger]
        after.players.contains_key(id) && after.players[id] is Room implies state.rooms.contains_key(
        after.players[id]->room_id,
    ) && rooms::plays_in(state.rooms[after.players[id]->room_id], id) by {
        assert(state.players.contains_key(id));
    }
    assert forall|i: int| 0 <= i < after.waiting.len() implies !rooms::is_namesake(
        #[trigger] after.waiting[i],
        name,
        keep,
    ) by {
        assert(after.waiting.contains(after.waiting[i]));
        assert(state.waiting.contains(after.waiting[i]));
        assert(keeps(after.waiting[i]));
    }
}

proof fn enqueueing_keeps_valid(state: RoomsModel, player: PlayerModel)
    requires
        is_valid(state),
        !state.is_waiting(player.id),
        state.tokens.contains_key(player.id),
    ensures
        is_valid(state.enqueue(player)),
        is_valid(state.enqueue_first(player)),
{
    assert(!queued(state.waiting, player.id));
    let last = state.enqueue(player);
    let first = state.enqueue_first(player);
    assert forall|i: int, j: int| 0 <= i < j < last.waiting.len() implies (
    #[trigger] last.waiting[i]).id != (#[trigger] last.waiting[j]).id by {
        assert(state.waiting[i].id != player.id);
        if j < state.waiting.len() {
            assert(state.waiting[i].id != state.waiting[j].id);
        }
    }
    assert forall|i: int, j: int| 0 <= i < j < first.waiting.len() implies (
    #[trigger] first.waiting[i]).id != (#[trigger] first.waiting[j]).id by {
        assert(state.waiting[j - 1].id != player.id);
        if i > 0 {
            assert(state.waiting[i - 1].id != state.waiting[j - 1].id);
        }
    }
    assert forall|id: Seq<char>| queued(last.waiting, id) <==> #[trigger] last.is_waiting(id) by {
        assert(queued(state.waiting, id) <==> state.is_waiting(id));
        assert(last.waiting[state.waiting.len() as int] == player);
        if queued(state.waiting, id) {
            let i = choose|i: int|
                0 <= i < state.waiting.len() && (#[trigger] state.waiting[i]).id == id;
            assert(last.waiting[i].id == id);
        }
        if queued(last.waiting, id) {
            let i = choose|i: int|
                0 <= i < last.waiting.len() && (#[trigger] last.waiting[i]).id == id;
            if i < state.waiting.len() {
                assert(state.waiting[i].id == id);
            }
        }
    }
    assert forall|id: Seq<char>| queued(first.waiting, id) <==> #[trigger] first.is_waiting(
        id,
    ) by {
        assert(queued(state.waiting, id) <==> state.is_waiting(id));
        assert(first.waiting[0] == player);
        if queued(state.waiting, id) {
            let i = choose|i: int|
                0 <= i < state.waiting.len() && (#[trigger] state.waiting[i]).id == id;
            assert(first.waiting[i + 1].id == id);
        }
        if queued(first.waiting, id) {
            let i = choose|i: int|
                0 <= i < first.waiting.len() && (#[trigger] first.waiting[i]).id == id;
            if i > 0 {
                assert(state.waiting[i - 1].id == id);
            }
        }
    }
    assert forall|id: Seq<char>| #[trigger]
        last.players.contains_key(id) && last.players[id] is Room implies last.rooms.contains_key(
        last.players[id]->room_id,
    ) && rooms::plays_in(last.rooms[last.players[id]->room_id], id) by {
        assert(state.players.contains_key(id));
    }
    assert forall|id: Seq<char>| #[trigger]
        first.players.contains_key(id) && first.players[id] is Room implies first.rooms.contains_key(
        first.players[id]->room_id,
    ) && rooms::plays_in(first.rooms[first.players[id]->room_id], id) by {
        assert(state.players.contains_key(id));
    }
    assert forall|id: Seq<char>| #[trigger] last.players.contains_key(
        id,
    ) implies last.tokens.contains_key(id) by {
        assert(id == player.id || state.players.contains_key(id));
    }
    assert forall|id: Seq<char>| #[trigger] first.players.contains_key(
        id,
    ) implies first.tokens.contains_key(id) by {
        assert(id == player.id || state.players.contains_key(id));
    }
}

proof fn fresh_token_keeps_valid(state: RoomsModel, id: Seq<char>, fresh_token: Seq<char>)
    requires
        is_valid(state),
        fresh_token.len() > 0,
    ensures
        is_valid(state.ensure_token(id, fresh_token)),
{
    let with_token = state.ensure_token(id, fresh_token);
    assert forall|other: Seq<char>| queued(with_token.waiting, other)
        <==> #[trigger] with_token.is_waiting(other) by {
        assert(queued(state.waiting, other) <==> state.is_waiting(other));
    }
    assert forall|other: Seq<char>| #[trigger] with_token.players.contains_key(
        other,
    ) implies with_token.tokens.contains_key(other) by {
        assert(state.players.contains_key(other));
    }
    assert forall|other: Seq<char>| #[trigger]
        with_token.players.contains_key(other)
            && with_token.players[other] is Room implies with_token.rooms.contains_key(
        with_token.players[other]->room_id,
    ) && rooms::plays_in(with_token.rooms[with_token.players[other]->room_id], other) by {
        assert(state.players.contains_key(other));
    }
    assert forall|other: Seq<char>| #[trigger]
        with_token.tokens.contains_key(other) implies with_token.tokens[other].len() > 0 by {
        assert(state.tokens.contains_key(other) || other == id);
    }
}

/// A request to join leaves the state valid. Who is paired is never paired with itself, nor with
/// somebody of the same name, and both are set aside: known as being paired, and not queued.
pub proof fn join_keeps_valid(state: RoomsModel, player: PlayerModel, fresh_token: Seq<char>)
    requires
        is_valid(state),
        fresh_token.len() > 0,
    ensures
        is_valid(state.join(player, fresh_token).0),
        state.join(player, fresh_token).1 matches JoinDecisionModel::CreateRoom {
            opponent,
            player: joined,
        } ==> {
            &&& joined == player
            &&& opponent.id != player.id
            &&& opponent.name != player.name
            &&& state.join(player, fresh_token).0.is_matching(opponent.id)
            &&& state.join(player, fresh_token).0.is_matching(player.id)
            &&& !queued(state.join(player, fresh_token).0.waiting, opponent.id)
            &&& !queued(state.join(player, fresh_token).0.waiting, player.id)
        },
{
    let with_token = state.ensure_token(player.id, fresh_token);
    fresh_token_keeps_valid(state, player.id, fresh_token);
    let after = state.join(player, fresh_token).0;
    if with_token.players.contains_key(player.id) {
        if with_token.players[player.id] is Room {
            assert(with_token.rooms.contains_key(with_token.players[player.id]->room_id));
        }
    } else {
        let cleared = with_token.drop_namesakes(player.name, player.id);
        dropping_namesakes_keeps_valid(with_token, player.name, player.id);
        assert(!cleared.players.contains_key(player.id));
        assert(cleared.tokens.contains_key(player.id));
        if cleared.waiting.len() == 0 {
            enqueueing_keeps_valid(cleared, player);
        } else {
            let opponent = cleared.waiting[0];
            assert(queued(cleared.waiting, opponent.id));
            assert(cleared.is_waiting(opponent.id));
            assert(!rooms::is_namesake(cleared.waiting[0], player.name, player.id));
            pairing_keeps_valid(cleared, player);
        }
    }
}

proof fn pairing_keeps_valid(state: RoomsModel, player: PlayerModel)
    requires
        is_valid(state),
        state.waiting.len() > 0,
        !state.players.contains_key(player.id),
        state.tokens.contains_key(player.id),
    ensures
        ({
            let after = RoomsModel {
                waiting: state.waiting.skip(1),
                ..state.place(state.waiting[0].id, PlayerLocationModel::Matching).place(
                    player.id,
                    PlayerLocationModel::Matching,
                )
            };
            &&& is_valid(after)
            &&& !queued(after.waiting, state.waiting[0].id)
            &&& !queued(after.waiting, player.id)
        }),
{
    let opponent = state.waiting[0];
    let after = RoomsModel {
        waiting: state.waiting.skip(1),
        ..state.place(opponent.id, PlayerLocationModel::Matching).place(
            player.id,
            PlayerLocationModel::Matching,
        )
    };
    assert(queued(state.waiting, opponent.id));
    assert(state.is_waiting(opponent.id));
    assert forall|i: int, j: int| 0 <= i < j < after.waiting.len() implies (
    #[trigger] after.waiting[i]).id != (#[trigger] after.waiting[j]).id by {
        assert(state.waiting[i + 1].id != state.waiting[j + 1].id);
    }
    assert forall|id: Seq<char>| queued(after.waiting, id) <==> #[trigger] after.is_waiting(
        id,
    ) by {
        assert(queued(state.waiting, id) <==> state.is_waiting(id));
        if queued(after.waiting, id) {
            let i = choose|i: int|
                0 <= i < after.waiting.len() && (#[trigger] after.waiting[i]).id == id;
            assert(state.waiting[i + 1].id == id);
            assert(state.waiting[0].id != state.waiting[i + 1].id);
            assert(!(id == player.id));
        }
        if queued(state.waiting, id) && id != opponent.id {
            let i = choose|i: int|
                0 <= i < state.waiting.len() && (#[trigger] state.waiting[i]).id == id;
            assert(after.waiting[i - 1].id == id);
        }
    }
    assert(!after.is_waiting(opponent.id));
    assert(!after.is_waiting(player.id));
    assert forall|id: Seq<char>| #[trigger] after.players.contains_key(
        id,
    ) implies after.tokens.contains_key(id) by {
        assert(id == player.id || state.players.contains_key(id));
    }
    assert forall|id: Seq<char>| #[trigger]
        after.players.contains_key(id) && after.players[id] is Room implies after.rooms.contains_key(
        after.players[id]->room_id,
    ) && rooms::plays_in(after.rooms[after.players[id]->room_id], id) by {
        assert(state.players.contains_key(id));
    }
}

/// Putting a pair back into the queue leaves the state valid.
pub proof fn requeue_keeps_valid(state: RoomsModel, opponent: PlayerModel, player: PlayerModel)
    requires
        is_valid(state),
    ensures
        is_valid(state.requeue_pair(opponent, player).0),
{
    let first = if state.is_matching(opponent.id) {
        assert(state.tokens.contains_key(opponent.id));
        enqueueing_keeps_valid(state, opponent);
        state.enqueue_first(opponent)
    } else {
        state
    };
    if first.is_matching(player.id) {
        assert(first.players.contains_key(player.id));
        enqueueing_keeps_valid(first, player);
    }
}

/// Opening a room under an id that no room has yet leaves the state valid.
pub proof fn create_room_keeps_valid(
    state: RoomsModel,
    opponent: PlayerModel,
    player: PlayerModel,
    problem: ProblemModel,
    room_id: Seq<char>,
    now: i64,
)
    requires
        is_valid(state),
        !state.rooms.contains_key(room_id),
    ensures
        is_valid(state.create_room(opponent, player, problem, room_id, now).0),
{
    if state.is_matching(opponent.id) && state.is_matching(player.id) {
        let after = state.create_room(opponent, player, problem, room_id, now).0;
        assert forall|id: Seq<char>| queued(after.waiting, id) <==> #[trigger] after.is_waiting(
            id,
        ) by {
            assert(queued(state.waiting, id) <==> state.is_waiting(id));
        }
        assert forall|id: Seq<char>| #[trigger] after.players.contains_key(
            id,
        ) implies after.tokens.contains_key(id) by {
            assert(state.players.contains_key(id));
        }
        assert forall|id: Seq<char>| #[trigger]
            after.players.contains_key(id)
                && after.players[id] is Room implies after.rooms.contains_key(
            after.players[id]->room_id,
        ) && rooms::plays_in(after.rooms[after.players[id]->room_id], id) by {
            assert(state.players.contains_key(id));
        }
        assert forall|k: Seq<char>| #[trigger] after.rooms.contains_key(
            k,
        ) implies after.rooms[k].id == k && is_coherent(after.rooms[k]) by {
            assert(k == room_id || state.rooms.contains_key(k));
        }
    } else {
        requeue_keeps_valid(state, opponent, player);
    }
}

/// Leaving leaves the state valid.
pub proof fn leave_keeps_valid(state: RoomsModel, id: Seq<char>, now: i64)
    requires
        is_valid(state),
    ensures
        is_valid(state.leave(id, now).0),
{
    let after = state.leave(id, now).0;
    if state.players.contains_key(id) {
        let keeps = |player: PlayerModel| player.id != id;
        filtered_queue(state.waiting, keeps);
        assert forall|k: Seq<char>| queued(after.waiting, k) <==> #[trigger] after.is_waiting(
            k,
        ) by {
            filtered_ids(state.waiting, keeps, k);
            assert(queued(state.waiting, k) <==> state.is_waiting(k));
        }
        assert forall|k: Seq<char>| #[trigger] after.players.contains_key(
            k,
        ) implies after.tokens.contains_key(k) by {
            assert(state.players.contains_key(k));
        }
        assert forall|k: Seq<char>| #[trigger]
            after.players.contains_key(k)
                && after.players[k] is Room implies after.rooms.contains_key(
            after.players[k]->room_id,
        ) && rooms::plays_in(after.rooms[after.players[k]->room_id], k) by {
            assert(state.players.contains_key(k));
        }
        assert forall|k: Seq<char>| #[trigger] after.rooms.contains_key(
            k,
        ) implies after.rooms[k].id == k && is_coherent(after.rooms[k]) by {
            assert(state.rooms.contains_key(k));
        }
    }
}

proof fn setting_room_keeps_valid(state: RoomsModel, room_id: Seq<char>, room: RoomModel)
    requires
        is_valid(state),
        state.rooms.contains_key(room_id),
        room.id == room_id,
        room.players == state.rooms[room_id].players,
        is_coherent(room),
    ensures
        is_valid(state.set_room(room_id, room)),
{
    let after = state.set_room(room_id, room);
    assert forall|id: Seq<char>| queued(after.waiting, id) <==> #[trigger] after.is_waiting(
        id,
    ) by {
        assert(queued(state.waiting, id) <==> state.is_waiting(id));
    }
    assert forall|id: Seq<char>| #[trigger] after.players.contains_key(
        id,
    ) implies after.tokens.contains_key(id) by {
        assert(state.players.contains_key(id));
    }
    assert forall|id: Seq<char>| #[trigger]
        after.players.contains_key(id) && after.players[id] is Room implies after.rooms.contains_key(
        after.players[id]->room_id,
    ) && rooms::plays_in(after.rooms[after.players[id]->room_id], id) by {
        assert(state.players.contains_key(id));
    }
    assert forall|k: Seq<char>| #[trigger] after.rooms.contains_key(k) implies after.rooms[k].id
        == k && is_coherent(after.rooms[k]) by {
        assert(state.rooms.contains_key(k));
    }
}

/// Whatever is done to a room leaves the state valid.
pub proof fn room_steps_keep_valid(
    state: RoomsModel,
    room_id: Seq<char>,
    player_id: Seq<char>,
    submission: AtCoderSubmissionModel,
    snapshot: PlayerCodeSnapshotModel,
    activity: Seq<(Seq<char>, PlayerActivityModel)>,
    submissions: Seq<(Seq<char>, Seq<PlayerSubmissionRecordModel>)>,
    now: i64,
)
    requires
        is_valid(state),
    ensures
        is_valid(state.complete(room_id, player_id, now).0),
        is_valid(state.apply_ac(room_id, player_id, submission, now).0),
        is_valid(state.update_snapshot(room_id, player_id, snapshot).0),
        is_valid(state.update_player_snapshot(player_id, snapshot).0),
        is_valid(state.update_activity(room_id, activity, submissions)),
        is_valid(state.start_submission_watch(room_id).0),
        is_valid(state.stop_submission_watch(room_id)),
{
    if state.rooms.contains_key(room_id) {
        let room = state.rooms[room_id];
        if room.status == RoomStatus::Playing && rooms::plays_in(room, player_id) {
            setting_room_keeps_valid(
                state,
                room_id,
                state.complete(room_id, player_id, now).1->0,
            );
            setting_room_keeps_valid(
                state,
                room_id,
                state.apply_ac(room_id, player_id, submission, now).1->0,
            );
        }
        if rooms::plays_in(room, player_id) {
            setting_room_keeps_valid(
                state,
                room_id,
                state.update_snapshot(room_id, player_id, snapshot).1->0,
            );
        }
        setting_room_keeps_valid(
            state,
            room_id,
            RoomModel {
                player_activity: rooms::insert_all(room.player_activity, activity),
                player_submissions: rooms::insert_all(room.player_submissions, submissions),
                ..room
            },
        );
        setting_room_keeps_valid(state, room_id, RoomModel { polling_submissions: true, ..room });
        setting_room_keeps_valid(state, room_id, RoomModel { polling_submissions: false, ..room });
    }
    if state.players.contains_key(player_id) && state.players[player_id] is Room {
        let own = state.players[player_id]->room_id;
        setting_room_keeps_valid(
            state,
            own,
            state.update_snapshot(own, player_id, snapshot).1->0,
        );
    }
}

/// Reaping leaves the state valid. The rooms that are left are those not stale, unchanged, and
/// nobody is forgotten who is not in a room that is gone.
pub proof fn reap_keeps_valid(state: RoomsModel, ttl: i64, now: i64)
    requires
        is_valid(state),
    ensures
        is_valid(state.reap(ttl, now)),
        forall|room_id: Seq<char>| #[trigger]
            state.reap(ttl, now).rooms.contains_key(room_id) <==> state.rooms.contains_key(room_id)
                && !rooms::is_stale(state.rooms[room_id], ttl, now),
        forall|room_id: Seq<char>| #[trigger]
            state.reap(ttl, now).rooms.contains_key(room_id) ==> state.reap(ttl, now).rooms[room_id]
                == state.rooms[room_id],
        forall|id: Seq<char>|
            state.players.contains_key(id) && !#[trigger] state.reap(
                ttl,
                now,
            ).players.contains_key(id) ==> state.players[id] is Room && rooms::is_stale(
                state.rooms[state.players[id]->room_id],
                ttl,
                now,
            ),
        state.reap(ttl, now).waiting == state.waiting,
{
    let after = state.reap(ttl, now);
    assert forall|id: Seq<char>| queued(after.waiting, id) <==> #[trigger] after.is_waiting(
        id,
    ) by {
        assert(queued(state.waiting, id) <==> state.is_waiting(id));
    }
    assert forall|id: Seq<char>| #[trigger] after.players.contains_key(
        id,
    ) implies after.tokens.contains_key(id) by {
        assert(state.players.contains_key(id));
    }
    assert forall|id: Seq<char>| #[trigger]
        after.players.contains_key(id) && after.players[id] is Room implies after.rooms.contains_key(
        after.players[id]->room_id,
    ) && rooms::plays_in(after.rooms[after.players[id]->room_id], id) by {
        assert(state.players.contains_key(id));
    }
    assert forall|k: Seq<char>| #[trigger] after.rooms.contains_key(k) implies after.rooms[k].id
        == k && is_coherent(after.rooms[k]) by {
        assert(state.rooms.contains_key(k));
    }
}

/// Joining again while waiting changes nothing: the player stays where it is in the queue, and is
/// told its token once more.
pub proof fn repeated_join_changes_nothing(
    state: RoomsModel,
    player: PlayerModel,
    fresh_token: Seq<char>,
)
    requires
        is_valid(state),
        state.is_waiting(player.id) || state.is_matching(player.id),
    ensures
        state.join(player, fresh_token) == (
            state,
            JoinDecisionModel::Respond(
                JoinResponseModel::Waiting {
                    player_id: player.id,
                    token: state.tokens[player.id],
                },
            ),
        ),
{
    assert(state.players.contains_key(player.id));
}

/// After a player that was unknown joined, nobody else waits under its name, and those who did
/// are forgotten together with their tokens.
pub proof fn join_replaces_namesakes(
    state: RoomsModel,
    player: PlayerModel,
    fresh_token: Seq<char>,
    old_id: Seq<char>,
)
    requires
        is_valid(state),
        fresh_token.len() > 0,
        !state.players.contains_key(player.id),
    ensures
        forall|i: int|
            0 <= i < state.join(player, fresh_token).0.waiting.len() ==> !rooms::is_namesake(
                #[trigger] state.join(player, fresh_token).0.waiting[i],
                player.name,
                player.id,
            ),
        state.namesakes(player.name, player.id).contains(old_id) ==> {
            &&& !state.join(player, fresh_token).0.players.contains_key(old_id)
            &&& !state.join(player, fresh_token).0.tokens.contains_key(old_id)
        },
{
    let with_token = state.ensure_token(player.id, fresh_token);
    fresh_token_keeps_valid(state, player.id, fresh_token);
    let cleared = with_token.drop_namesakes(player.name, player.id);
    dropping_namesakes_keeps_valid(with_token, player.name, player.id);
    let after = state.join(player, fresh_token).0;
    assert forall|i: int| 0 <= i < after.waiting.len() implies !rooms::is_namesake(
        #[trigger] after.waiting[i],
        player.name,
        player.id,
    ) by {
        if cleared.waiting.len() > 0 {
            assert(after.waiting[i] == cleared.waiting[i + 1]);
        } else {
            assert(after.waiting[i] == player);
        }
    }
    if state.namesakes(player.name, player.id).contains(old_id) {
        assert(with_token.namesakes(player.name, player.id).contains(old_id)) by {
            let j = choose|j: int|
                0 <= j < state.waiting.len() && (#[trigger] state.waiting[j]).id == old_id
                    && rooms::is_namesake(state.waiting[j], player.name, player.id);
            assert(with_token.waiting[j].id == old_id);
        }
        assert(!cleared.players.contains_key(old_id));
        if cleared.waiting.len() > 0 {
            let opponent = cleared.waiting[0];
            assert(queued(cleared.waiting, opponent.id));
            assert(cleared.is_waiting(opponent.id));
            assert(opponent.id != old_id);
        }
    }
}

/// Whoever asks to join gets a token with which it is recognised from then on.
pub proof fn join_issues_token(state: RoomsModel, player: PlayerModel, fresh_token: Seq<char>)
    requires
        is_valid(state),
        fresh_token.len() > 0,
    ensures
        state.join(player, fresh_token).0.token_matches(
            player.id,
            state.join(player, fresh_token).0.token_of(player.id),
        ),
        state.join(player, fresh_token).1 matches JoinDecisionModel::Respond(
            JoinResponseModel::Waiting { player_id, token },
        ) ==> player_id == player.id && token == state.join(player, fresh_token).0.token_of(
            player.id,
        ),
        state.join(player, fresh_token).1 matches JoinDecisionModel::Respond(
            JoinResponseModel::Matched { player_id, token, room },
        ) ==> player_id == player.id && token == state.join(player, fresh_token).0.token_of(
            player.id,
        ),
{
    let with_token = state.ensure_token(player.id, fresh_token);
    assert(!with_token.namesakes(player.name, player.id).contains(player.id));
}

/// No player is recognised by an empty token.
pub proof fn empty_token_matches_nobody(state: RoomsModel, id: Seq<char>)
    ensures
        !state.token_matches(id, seq![]),
{
}

/// Once a player left the queue, a pairing or a match that was on, it is unknown, and no token is
/// taken for its own any more.
pub proof fn leaving_revokes_token(state: RoomsModel, id: Seq<char>, now: i64, token: Seq<char>)
    requires
        state.leave(id, now).1 is LeftWaiting || state.leave(id, now).1 is ForfeitedRoom,
    ensures
        !state.leave(id, now).0.token_matches(id, token),
        !state.leave(id, now).0.players.contains_key(id),
        is_valid(state) ==> !queued(state.leave(id, now).0.waiting, id),
{
    if is_valid(state) {
        leave_keeps_valid(state, id, now);
        let after = state.leave(id, now).0;
        assert(queued(after.waiting, id) <==> after.is_waiting(id));
    }
}

/// If one of a pair leaves before their room exists, then no room is opened for them: the one that
/// left stays unknown, and the other waits again.
pub proof fn leaving_cancels_pairing(
    state: RoomsModel,
    opponent: PlayerModel,
    player: PlayerModel,
    problem: ProblemModel,
    room_id: Seq<char>,
    left_at: i64,
    now: i64,
)
    requires
        opponent.id != player.id,
        state.is_matching(opponent.id),
        state.is_matching(player.id),
    ensures
        ({
            let left = state.leave(player.id, left_at).0;
            let (after, response) = left.create_room(opponent, player, problem, room_id, now);
            &&& after.rooms == state.rooms
            &&& response is Waiting
            &&& !after.players.contains_key(player.id)
            &&& after.is_waiting(opponent.id)
            &&& after.waiting == seq![opponent] + state.waiting
        }),
        ({
            let left = state.leave(opponent.id, left_at).0;
            let (after, response) = left.create_room(opponent, player, problem, room_id, now);
            &&& after.rooms == state.rooms
            &&& response is Waiting
            &&& !after.players.contains_key(opponent.id)
            &&& after.is_waiting(player.id)
            &&& after.waiting == state.waiting.push(player)
        }),
{
}

/// A match that is over stays as it ended: no step but reaping takes its room away, and none
/// changes who won, why, when and by which submission.
pub proof fn outcomes_are_final(
    state: RoomsModel,
    k: Seq<char>,
    room_id: Seq<char>,
    player: PlayerModel,
    opponent: PlayerModel,
    problem: ProblemModel,
    token: Seq<char>,
    submission: AtCoderSubmissionModel,
    snapshot: PlayerCodeSnapshotModel,
    activity: Seq<(Seq<char>, PlayerActivityModel)>,
    submissions: Seq<(Seq<char>, Seq<PlayerSubmissionRecordModel>)>,
    now: i64,
)
    requires
        state.rooms.contains_key(k),
    ensures
        ({
            let joined = state.join(player, token).0;
            joined.rooms.contains_key(k) && keeps_outcome(state.rooms[k], joined.rooms[k])
        }),
        k != room_id ==> ({
            let opened = state.create_room(opponent, player, problem, room_id, now).0;
            opened.rooms.contains_key(k) && keeps_outcome(state.rooms[k], opened.rooms[k])
        }),
        ({
            let left = state.leave(player.id, now).0;
            left.rooms.contains_key(k) && keeps_outcome(state.rooms[k], left.rooms[k])
        }),
        ({
            let completed = state.complete(room_id, player.id, now).0;
            completed.rooms.contains_key(k) && keeps_outcome(state.rooms[k], completed.rooms[k])
        }),
        ({
            let accepted = state.apply_ac(room_id, player.id, submission, now).0;
            accepted.rooms.contains_key(k) && keeps_outcome(state.rooms[k], accepted.rooms[k])
        }),
        ({
            let uploaded = state.update_snapshot(room_id, player.id, snapshot).0;
            uploaded.rooms.contains_key(k) && keeps_outcome(state.rooms[k], uploaded.rooms[k])
        }),
        ({
            let active = state.update_activity(room_id, activity, submissions);
            active.rooms.contains_key(k) && keeps_outcome(state.rooms[k], active.rooms[k])
        }),
        ({
            let watched = state.start_submission_watch(room_id).0;
            watched.rooms.contains_key(k) && keeps_outcome(state.rooms[k], watched.rooms[k])
        }),
        ({
            let unwatched = state.stop_submission_watch(room_id);
            unwatched.rooms.contains_key(k) && keeps_outcome(state.rooms[k], unwatched.rooms[k])
        }),
{
}

/// A player that leaves a match that is on loses it to the other one.
pub proof fn leaving_forfeits(state: RoomsModel, id: Seq<char>, room_id: Seq<char>, now: i64)
    requires
        is_valid(state),
        state.is_in_room(id, room_id),
        state.rooms[room_id].status == RoomStatus::Playing,
        state.rooms[room_id].players.0.id != state.rooms[room_id].players.1.id,
    ensures
        ({
            let (after, outcome) = state.leave(id, now);
            let room = after.rooms[room_id];
            &&& outcome == LeaveOutcomeModel::ForfeitedRoom(room)
            &&& room.status == RoomStatus::Finished
            &&& room.finish_reason == Some(RoomFinishReason::PlayerLeft)
            &&& room.finished_at_second == Some(now)
            &&& room.winner_player_id is Some
            &&& rooms::plays_in(room, room.winner_player_id->0)
            &&& room.winner_player_id->0 != id
        }),
{
    assert(state.players.contains_key(id));
}

/// A watch request starts polling exactly when none runs: not again while one does, and again
/// after it stopped.
pub proof fn polling_starts_once(state: RoomsModel, room_id: Seq<char>)
    requires
        state.rooms.contains_key(room_id),
    ensures
        ({
            let (watched, first) = state.start_submission_watch(room_id);
            let (_, second) = watched.start_submission_watch(room_id);
            let (_, later) = watched.stop_submission_watch(room_id).start_submission_watch(room_id);
            &&& first is Some && second is Some && later is Some
            &&& (first->0).1 == !state.rooms[room_id].polling_submissions
            &&& !(second->0).1
            &&& (later->0).1
        }),
{
}

proof fn insert_all_keeps_others<V>(
    map: Map<Seq<char>, V>,
    pairs: Seq<(Seq<char>, V)>,
    key: Seq<char>,
)
    requires
        forall|i: int| 0 <= i < pairs.len() ==> (#[trigger] pairs[i]).0 != key,
    ensures
        rooms::insert_all(map, pairs).contains_key(key) == map.contains_key(key),
        map.contains_key(key) ==> rooms::insert_all(map, pairs)[key] == map[key],
    decreases pairs.len(),
{
    if pairs.len() > 0 {
        let front = pairs.drop_last();
        assert forall|i: int| 0 <= i < front.len() implies (#[trigger] front[i]).0 != key by {
            assert(pairs[i].0 != key);
        }
        insert_all_keeps_others(map, front, key);
        assert(pairs[pairs.len() - 1].0 != key);
    }
}

/// New submission activity touches only the players that it is about: what is known of anybody
/// else in the room stays.
pub proof fn activity_is_per_player(
    state: RoomsModel,
    room_id: Seq<char>,
    activity: Seq<(Seq<char>, PlayerActivityModel)>,
    submissions: Seq<(Seq<char>, Seq<PlayerSubmissionRecordModel>)>,
    other: Seq<char>,
)
    requires
        state.rooms.contains_key(room_id),
        forall|i: int| 0 <= i < activity.len() ==> (#[trigger] activity[i]).0 != other,
        forall|i: int| 0 <= i < submissions.len() ==> (#[trigger] submissions[i]).0 != other,
    ensures
        ({
            let before = state.rooms[room_id];
            let after = state.update_activity(room_id, activity, submissions).rooms[room_id];
            &&& after.player_activity.contains_key(other) == before.player_activity.contains_key(
                other,
            )
            &&& before.player_activity.contains_key(other) ==> after.player_activity[other]
                == before.player_activity[other]
            &&& after.player_submissions.contains_key(other)
                == before.player_submissions.contains_key(other)
            &&& before.player_submissions.contains_key(other) ==> after.player_submissions[other]
                == before.player_submissions[other]
        }),
{
    let before = state.rooms[room_id];
    insert_all_keeps_others(before.player_activity, activity, other);
    insert_all_keeps_others(before.player_submissions, submissions, other);
}

/// What is done to one room leaves every other room and everybody's place and token as they were.
pub proof fn room_steps_are_local(
    state: RoomsModel,
    room_id: Seq<char>,
    player_id: Seq<char>,
    submission: AtCoderSubmissionModel,
    snapshot: PlayerCodeSnapshotModel,
    activity: Seq<(Seq<char>, PlayerActivityModel)>,
    submissions: Seq<(Seq<char>, Seq<PlayerSubmissionRecordModel>)>,
    now: i64,
)
    ensures
        only_room_changed(state, state.complete(room_id, player_id, now).0, room_id),
        only_room_changed(state, state.apply_ac(room_id, player_id, submission, now).0, room_id),
        only_room_changed(state, state.update_snapshot(room_id, player_id, snapshot).0, room_id),
        only_room_changed(state, state.update_activity(room_id, activity, submissions), room_id),
        only_room_changed(state, state.start_submission_watch(room_id).0, room_id),
        only_room_changed(state, state.stop_submission_watch(room_id), room_id),
{
}

/// Whether nothing but the room `room_id` differs between two states.
pub open spec fn only_room_changed(
    before: RoomsModel,
    after: RoomsModel,
    room_id: Seq<char>,
) -> bool {
    &&& after.waiting == before.waiting
    &&& after.players == before.players
    &&& after.tokens == before.tokens
    &&& after.problems == before.problems
    &&& after.rooms.remove(room_id) =~= before.rooms.remove(room_id)
    &&& after.rooms.contains_key(room_id) == before.rooms.contains_key(room_id)
}

/// Once two players were paired and their problem is chosen, both are in one room: the one that
/// joined last is told so in the answer, and the one that waited when it asks for its state.
pub proof fn pair_is_matched(
    state: RoomsModel,
    player: PlayerModel,
    fresh_token: Seq<char>,
    problem: ProblemModel,
    room_id: Seq<char>,
    now: i64,
)
    requires
        is_valid(state),
        fresh_token.len() > 0,
    ensures
        state.join(player, fresh_token).1 matches JoinDecisionModel::CreateRoom {
            opponent,
            player: joined,
        } ==> {
            let (after, response) = state.join(player, fresh_token).0.create_room(
                opponent,
                joined,
                problem,
                room_id,
                now,
            );
            let room = rooms::new_room(room_id, opponent, player, problem, now);
            &&& response is Matched
            &&& response->Matched_player_id == player.id
            &&& response->Matched_token == after.token_of(player.id)
            &&& response->Matched_room == room
            &&& after.room_state(room_id) == Some(room)
            &&& after.player_state(opponent.id) == Some(
                PlayerStateResponseModel::Matched { player_id: opponent.id, room },
            )
            &&& after.player_state(player.id) == Some(
                PlayerStateResponseModel::Matched { player_id: player.id, room },
            )
        },
{
    join_keeps_valid(state, player, fresh_token);
}

/// Whoever of a match that is on declares it won has won it, at once, and nothing else of the room
/// changes.
pub proof fn completing_wins(
    state: RoomsModel,
    room_id: Seq<char>,
    player_id: Seq<char>,
    now: i64,
)
    requires
        state.rooms.contains_key(room_id),
        state.rooms[room_id].status == RoomStatus::Playing,
        state.rooms[room_id].players.0.id == player_id || state.rooms[room_id].players.1.id
            == player_id,
    ensures
        ({
            let before = state.rooms[room_id];
            let (after, shown) = state.complete(room_id, player_id, now);
            let room = after.rooms[room_id];
            &&& after.rooms.contains_key(room_id)
            &&& shown == Some(room)
            &&& room.status == RoomStatus::Finished
            &&& room.winner_player_id == Some(player_id)
            &&& room.finish_reason == Some(RoomFinishReason::ManualComplete)
            &&& room.finished_at_second == Some(now)
            &&& same_match(before, room)
            &&& room.winning_submission == before.winning_submission
            &&& room.code_snapshots == before.code_snapshots
            &&& room.polling_submissions == before.polling_submissions
        }),
{
}

/// Whether two states of a room are of the same match, with the same known of its submissions.
pub open spec fn same_match(before: RoomModel, after: RoomModel) -> bool {
    &&& after.id == before.id
    &&& after.players == before.players
    &&& after.problem == before.problem
    &&& after.started_at_second == before.started_at_second
    &&& after.atcoder_users == before.atcoder_users
    &&& after.player_activity == before.player_activity
    &&& after.player_submissions == before.player_submissions
}

/// Nobody ends a match that it does not play in, and one that is over is only shown.
pub proof fn only_players_complete(
    state: RoomsModel,
    room_id: Seq<char>,
    player_id: Seq<char>,
    now: i64,
)
    ensures
        !state.rooms.contains_key(room_id) || (state.rooms[room_id].players.0.id != player_id
            && state.rooms[room_id].players.1.id != player_id) ==> state.complete(
            room_id,
            player_id,
            now,
        ) == (state, None::<RoomModel>),
        state.rooms.contains_key(room_id) && (state.rooms[room_id].players.0.id == player_id
            || state.rooms[room_id].players.1.id == player_id) && state.rooms[room_id].status
            == RoomStatus::Finished ==> state.complete(room_id, player_id, now) == (
            state,
            Some(state.rooms[room_id]),
        ),
{
}

/// An accepted submission of a player of a match that is on wins it for that player, and the room
/// keeps which submission that was, and whose.
pub proof fn accepting_wins(
    state: RoomsModel,
    room_id: Seq<char>,
    player_id: Seq<char>,
    submission: AtCoderSubmissionModel,
    now: i64,
)
    requires
        state.rooms.contains_key(room_id),
        state.rooms[room_id].status == RoomStatus::Playing,
        state.rooms[room_id].players.0.id == player_id || state.rooms[room_id].players.1.id
            == player_id,
    ensures
        ({
            let before = state.rooms[room_id];
            let (after, shown) = state.apply_ac(room_id, player_id, submission, now);
            let room = after.rooms[room_id];
            &&& after.rooms.contains_key(room_id)
            &&& shown == Some(room)
            &&& room.status == RoomStatus::Finished
            &&& room.winner_player_id == Some(player_id)
            &&& room.finish_reason == Some(RoomFinishReason::Accepted)
            &&& room.finished_at_second == Some(now)
            &&& same_match(before, room)
            &&& room.code_snapshots == before.code_snapshots
            &&& room.polling_submissions == before.polling_submissions
            &&& room.winning_submission is Some
            &&& room.winning_submission->0.player_id == player_id
            &&& room.winning_submission->0.submission_id == submission.id
            &&& room.winning_submission->0.epoch_second == submission.epoch_second
            &&& room.winning_submission->0.source_code == submission.source_code
            &&& before.atcoder_users.contains_key(player_id)
                ==> room.winning_submission->0.atcoder_user == before.atcoder_users[player_id]
            &&& !before.atcoder_users.contains_key(player_id)
                ==> room.winning_submission->0.atcoder_user.len() == 0
        }),
{
}

/// An accepted submission decides nothing where there is no such room, where the match is over, or
/// where the one who made it does not play.
pub proof fn only_players_are_accepted(
    state: RoomsModel,
    room_id: Seq<char>,
    player_id: Seq<char>,
    submission: AtCoderSubmissionModel,
    now: i64,
)
    ensures
        !state.rooms.contains_key(room_id) || state.rooms[room_id].status == RoomStatus::Finished
            || (state.rooms[room_id].players.0.id != player_id
            && state.rooms[room_id].players.1.id != player_id) ==> state.apply_ac(
            room_id,
            player_id,
            submission,
            now,
        ).0 == state,
        state.rooms.contains_key(room_id) && state.rooms[room_id].status == RoomStatus::Finished
            ==> state.apply_ac(room_id, player_id, submission, now).1 == Some(
            state.rooms[room_id],
        ),
        !state.rooms.contains_key(room_id) ==> state.apply_ac(
            room_id,
            player_id,
            submission,
            now,
        ).1 is None,
        state.rooms.contains_key(room_id) && state.rooms[room_id].status == RoomStatus::Playing
            && state.rooms[room_id].players.0.id != player_id
            && state.rooms[room_id].players.1.id != player_id ==> state.apply_ac(
            room_id,
            player_id,
            submission,
            now,
        ).1 is None,
{
}

/// Whoever leaves a match that is on loses it to the other player, by name of the other's id; the
/// other player stays where it is, the queue does too, and nothing else of the room changes.
pub proof fn other_player_wins(state: RoomsModel, id: Seq<char>, room_id: Seq<char>, now: i64)
    requires
        state.players.contains_key(id),
        state.players[id] == (PlayerLocationModel::Room { room_id }),
        state.rooms.contains_key(room_id),
        state.rooms[room_id].status == RoomStatus::Playing,
        state.rooms[room_id].players.0.id != state.rooms[room_id].players.1.id,
        state.rooms[room_id].players.0.id == id || state.rooms[room_id].players.1.id == id,
    ensures
        ({
            let before = state.rooms[room_id];
            let (after, outcome) = state.leave(id, now);
            let room = after.rooms[room_id];
            &&& outcome == LeaveOutcomeModel::ForfeitedRoom(room)
            &&& room.status == RoomStatus::Finished
            &&& before.players.0.id == id ==> room.winner_player_id == Some(before.players.1.id)
            &&& before.players.1.id == id ==> room.winner_player_id == Some(before.players.0.id)
            &&& room.finish_reason == Some(RoomFinishReason::PlayerLeft)
            &&& room.finished_at_second == Some(now)
            &&& same_match(before, room)
            &&& room.winning_submission == before.winning_submission
            &&& room.code_snapshots == before.code_snapshots
            &&& room.polling_submissions == before.polling_submissions
            &&& after.players =~= state.players.remove(id)
            &&& after.tokens =~= state.tokens.remove(id)
            &&& after.waiting == state.waiting
            &&& after.problems == state.problems
            &&& after.rooms.remove(room_id) =~= state.rooms.remove(room_id)
        }),
{
}

/// Leaving a match that is over changes nothing: it is only shown. Whoever is unknown leaves
/// nothing.
pub proof fn finished_match_is_not_left(
    state: RoomsModel,
    id: Seq<char>,
    room_id: Seq<char>,
    now: i64,
)
    ensures
        !state.players.contains_key(id) ==> state.leave(id, now) == (
            state,
            LeaveOutcomeModel::NotFound,
        ),
        state.players.contains_key(id) && state.players[id] == (PlayerLocationModel::Room {
            room_id,
        }) && state.rooms.contains_key(room_id) && state.rooms[room_id].status
            == RoomStatus::Finished ==> state.leave(id, now) == (
            state,
            LeaveOutcomeModel::RoomAlreadyFinished(state.rooms[room_id]),
        ),
{
}

/// Whoever leaves the queue is taken out of it, and the others stay in their order; whoever leaves
/// a pairing leaves the queue as it is. No room, and nobody else's place or token, changes.
pub proof fn leaving_takes_one_out(state: RoomsModel, id: Seq<char>, now: i64)
    requires
        is_valid(state),
        state.is_waiting(id) || state.is_matching(id),
    ensures
        ({
            let (after, outcome) = state.leave(id, now);
            &&& outcome is LeftWaiting
            &&& after.players =~= state.players.remove(id)
            &&& after.tokens =~= state.tokens.remove(id)
            &&& after.rooms == state.rooms
            &&& after.problems == state.problems
            &&& state.is_matching(id) ==> after.waiting == state.waiting
            &&& state.is_waiting(id) ==> exists|k: int|
                0 <= k < state.waiting.len() && (#[trigger] state.waiting[k]).id == id
                    && after.waiting =~= state.waiting.remove(k)
        }),
{
    if state.is_waiting(id) {
        assert(queued(state.waiting, id));
        let k = choose|k: int| 0 <= k < state.waiting.len() && (#[trigger] state.waiting[k]).id == id;
        let keeps = |player: PlayerModel| player.id != id;
        let front = state.waiting.take(k);
        let back = state.waiting.skip(k + 1);
        assert(state.waiting =~= front + seq![state.waiting[k]] + back);
        all_are_kept(front, keeps);
        all_are_kept(back, keeps);
        assert(seq![state.waiting[k]].filter(keeps) =~= seq![]) by {
            reveal(Seq::filter);
            assert(seq![state.waiting[k]].drop_last() =~= seq![]);
            reveal_with_fuel(Seq::filter, 2);
        }
        Seq::filter_distributes_over_add(front + seq![state.waiting[k]], back, keeps);
        Seq::filter_distributes_over_add(front, seq![state.waiting[k]], keeps);
        assert(state.waiting.filter(keeps) =~= state.waiting.remove(k));
    }
}

proof fn all_are_kept(queue: Seq<PlayerModel>, keeps: spec_fn(PlayerModel) -> bool)
    requires
        forall|i: int| 0 <= i < queue.len() ==> keeps(#[trigger] queue[i]),
    ensures
        queue.filter(keeps) == queue,
    decreases queue.len(),
{
    reveal(Seq::filter);
    if queue.len() > 0 {
        all_are_kept(queue.drop_last(), keeps);
        assert(queue.drop_last().push(queue.last()) =~= queue);
    }
}

/// Those who wait are paired in the order in which they came: whoever joins is paired with the
/// first in the queue that goes by another name, and waits behind nobody, if there is none.
pub proof fn first_to_wait_is_paired(
    state: RoomsModel,
    player: PlayerModel,
    fresh_token: Seq<char>,
    first: int,
)
    requires
        !state.players.contains_key(player.id),
        forall|i: int| 0 <= i < state.waiting.len() ==> (#[trigger] state.waiting[i]).id != player.id,
    ensures
        ({
            let (after, decision) = state.join(player, fresh_token);
            &&& after.rooms == state.rooms
            &&& after.problems == state.problems
            &&& (forall|i: int|
                0 <= i < state.waiting.len() ==> (#[trigger] state.waiting[i]).name == player.name)
                ==> {
                &&& after.waiting =~= seq![player]
                &&& after.players.contains_key(player.id)
                &&& after.players[player.id] is Waiting
                &&& decision matches JoinDecisionModel::Respond(
                    JoinResponseModel::Waiting { player_id, token },
                ) && player_id == player.id && token == after.tokens[player.id]
            }
            &&& 0 <= first < state.waiting.len() && state.waiting[first].name != player.name && (
            forall|i: int|
                0 <= i < first ==> (#[trigger] state.waiting[i]).name == player.name) ==> {
                &&& decision == (JoinDecisionModel::CreateRoom {
                    opponent: state.waiting[first],
                    player,
                })
                &&& after.players[state.waiting[first].id] is Matching
                &&& after.players[player.id] is Matching
                &&& (forall|i: int|
                    first < i < state.waiting.len() ==> (#[trigger] state.waiting[i]).name
                        != player.name) ==> after.waiting =~= state.waiting.skip(first + 1)
            }
        }),
{
    let keep = player.id;
    let name = player.name;
    let keeps = |p: PlayerModel| !rooms::is_namesake(p, name, keep);
    let with_token = state.ensure_token(player.id, fresh_token);
    let cleared = with_token.drop_namesakes(name, keep);
    assert(cleared.waiting == state.waiting.filter(keeps));
    if forall|i: int| 0 <= i < state.waiting.len() ==> (#[trigger] state.waiting[i]).name == name {
        none_are_kept(state.waiting, keeps);
    }
    if 0 <= first < state.waiting.len() && state.waiting[first].name != name && (forall|i: int|
        0 <= i < first ==> (#[trigger] state.waiting[i]).name == name) {
        let front = state.waiting.take(first);
        let back = state.waiting.skip(first + 1);
        let chosen = seq![state.waiting[first]];
        assert(state.waiting =~= front + chosen + back);
        none_are_kept(front, keeps);
        all_are_kept(chosen, keeps);
        Seq::filter_distributes_over_add(front + chosen, back, keeps);
        Seq::filter_distributes_over_add(front, chosen, keeps);
        assert(cleared.waiting =~= chosen + back.filter(keeps));
        assert(cleared.waiting[0] == state.waiting[first]);
        assert(cleared.waiting.skip(1) =~= back.filter(keeps));
        if forall|i: int|
            first < i < state.waiting.len() ==> (#[trigger] state.waiting[i]).name != name {
            assert forall|i: int| 0 <= i < back.len() implies keeps(#[trigger] back[i]) by {
                assert(back[i] == state.waiting[first + 1 + i]);
            }
            all_are_kept(back, keeps);
        }
    }
}

proof fn none_are_kept(queue: Seq<PlayerModel>, keeps: spec_fn(PlayerModel) -> bool)
    requires
        forall|i: int| 0 <= i < queue.len() ==> !keeps(#[trigger] queue[i]),
    ensures
        queue.filter(keeps) == Seq::<PlayerModel>::empty(),
    decreases queue.len(),
{
    reveal(Seq::filter);
    if queue.len() > 0 {
        none_are_kept(queue.drop_last(), keeps);
    }
}

/// A token is issued once: whoever has one keeps it, whoever has none gets the fresh one, and
/// nobody's token but that of a namesake who waits is changed by a request to join.
pub proof fn tokens_are_kept(
    state: RoomsModel,
    player: PlayerModel,
    fresh_token: Seq<char>,
    other: Seq<char>,
)
    requires
        forall|i: int|
            0 <= i < state.waiting.len() && (#[trigger] state.waiting[i]).name == player.name
                ==> state.waiting[i].id != other,
    ensures
        ({
            let after = state.join(player, fresh_token).0;
            &&& after.tokens.contains_key(player.id)
            &&& state.tokens.contains_key(player.id) ==> after.tokens[player.id]
                == state.tokens[player.id]
            &&& !state.tokens.contains_key(player.id) ==> after.tokens[player.id] == fresh_token
            &&& other != player.id ==> after.tokens.contains_key(other)
                == state.tokens.contains_key(other)
            &&& other != player.id && state.tokens.contains_key(other) ==> after.tokens[other]
                == state.tokens[other]
        }),
{
    let with_token = state.ensure_token(player.id, fresh_token);
    assert(!with_token.namesakes(player.name, player.id).contains(player.id));
    assert(!with_token.namesakes(player.name, player.id).contains(other));
}

/// A player is recognised by the token that it was issued, and by no other text.
pub proof fn token_is_recognised(state: RoomsModel, id: Seq<char>, token: Seq<char>)
    ensures
        state.token_matches(id, token) <==> token.len() > 0 && state.tokens.contains_key(id)
            && state.tokens[id] == token,
{
}

/// Whoever plays in a room and joins again is shown that room, and nothing changes.
pub proof fn joining_again_shows_room(
    state: RoomsModel,
    player: PlayerModel,
    fresh_token: Seq<char>,
    room_id: Seq<char>,
)
    requires
        is_valid(state),
        state.players.contains_key(player.id),
        state.players[player.id] == (PlayerLocationModel::Room { room_id }),
    ensures
        state.join(player, fresh_token) == (
            state,
            JoinDecisionModel::Respond(
                JoinResponseModel::Matched {
                    player_id: player.id,
                    token: state.tokens[player.id],
                    room: state.rooms[room_id],
                },
            ),
        ),
{
}

/// A room opens for two players that were paired as they are, on the problem that was chosen, with
/// nothing decided and nothing known of submissions; both are watched under their names.
pub proof fn room_opens_for_pair(
    state: RoomsModel,
    opponent: PlayerModel,
    player: PlayerModel,
    problem: ProblemModel,
    room_id: Seq<char>,
    now: i64,
)
    requires
        state.players.contains_key(opponent.id) && state.players[opponent.id] is Matching,
        state.players.contains_key(player.id) && state.players[player.id] is Matching,
        opponent.id != player.id,
    ensures
        ({
            let (after, response) = state.create_room(opponent, player, problem, room_id, now);
            let room = after.rooms[room_id];
            &&& after.rooms.contains_key(room_id)
            &&& after.rooms.remove(room_id) =~= state.rooms.remove(room_id)
            &&& response == (JoinResponseModel::Matched {
                player_id: player.id,
                token: state.token_of(player.id),
                room,
            })
            &&& room.id == room_id
            &&& room.players == (opponent, player)
            &&& room.problem == problem
            &&& room.started_at_second == now
            &&& room.status == RoomStatus::Playing
            &&& room.winner_player_id is None
            &&& room.finish_reason is None
            &&& room.finished_at_second is None
            &&& room.winning_submission is None
            &&& !room.polling_submissions
            &&& room.atcoder_users.contains_key(opponent.id) && room.atcoder_users[opponent.id]
                == opponent.name
            &&& room.atcoder_users.contains_key(player.id) && room.atcoder_users[player.id]
                == player.name
            &&& room.player_activity.dom() =~= Set::empty()
            &&& room.player_submissions.dom() =~= Set::empty()
            &&& room.code_snapshots.dom() =~= Set::empty()
            &&& after.players[opponent.id] == (PlayerLocationModel::Room { room_id })
            &&& after.players[player.id] == (PlayerLocationModel::Room { room_id })
            &&& after.waiting == state.waiting
            &&& after.tokens == state.tokens
            &&& after.problems == state.problems
        }),
{
}

/// Two players that were paired, and for whom no problem could be chosen, wait again: the one that
/// waited before at the front, the other at the end.
pub proof fn unpaired_players_wait_again(
    state: RoomsModel,
    opponent: PlayerModel,
    player: PlayerModel,
)
    requires
        state.players.contains_key(opponent.id) && state.players[opponent.id] is Matching,
        state.players.contains_key(player.id) && state.players[player.id] is Matching,
        opponent.id != player.id,
    ensures
        ({
            let (after, response) = state.requeue_pair(opponent, player);
            &&& after.waiting =~= seq![opponent] + state.waiting + seq![player]
            &&& after.players[opponent.id] is Waiting
            &&& after.players[player.id] is Waiting
            &&& after.rooms == state.rooms
            &&& after.tokens == state.tokens
            &&& response == (JoinResponseModel::Waiting {
                player_id: player.id,
                token: state.token_of(player.id),
            })
        }),
{
}

/// A player that waits or is being paired is told to wait, one in a room is shown the room, and one
/// that the server does not know is not found; a room is shown as it is.
pub proof fn states_are_shown(state: RoomsModel, id: Seq<char>, room_id: Seq<char>)
    ensures
        !state.players.contains_key(id) ==> state.player_state(id) is None,
        state.players.contains_key(id) && !(state.players[id] is Room) ==> state.player_state(id)
            == Some(PlayerStateResponseModel::Waiting { player_id: id }),
        state.players.contains_key(id) && state.players[id] == (PlayerLocationModel::Room {
            room_id,
        }) && state.rooms.contains_key(room_id) ==> state.player_state(id) == Some(
            PlayerStateResponseModel::Matched { player_id: id, room: state.rooms[room_id] },
        ),
        state.players.contains_key(id) && state.players[id] == (PlayerLocationModel::Room {
            room_id,
        }) && !state.rooms.contains_key(room_id) ==> state.player_state(id) is None,
        state.rooms.contains_key(room_id) ==> state.room_state(room_id) == Some(
            state.rooms[room_id],
        ),
        !state.rooms.contains_key(room_id) ==> state.room_state(room_id) is None,
{
}

/// The code that a player of a room uploads is kept as that player's, in place of what it uploaded
/// before; the code of the other player, and everything else of the room, stays. Nobody else uploads
/// to the room.
pub proof fn uploaded_code_is_kept(
    state: RoomsModel,
    room_id: Seq<char>,
    player_id: Seq<char>,
    snapshot: PlayerCodeSnapshotModel,
    other: Seq<char>,
)
    ensures
        !state.rooms.contains_key(room_id) || (state.rooms[room_id].players.0.id != player_id
            && state.rooms[room_id].players.1.id != player_id) ==> state.update_snapshot(
            room_id,
            player_id,
            snapshot,
        ) == (state, None::<RoomModel>),
        state.rooms.contains_key(room_id) && (state.rooms[room_id].players.0.id == player_id
            || state.rooms[room_id].players.1.id == player_id) ==> {
            let before = state.rooms[room_id];
            let (after, shown) = state.update_snapshot(room_id, player_id, snapshot);
            let room = after.rooms[room_id];
            &&& shown == Some(room)
            &&& room.code_snapshots.contains_key(player_id)
            &&& room.code_snapshots[player_id] == snapshot
            &&& other != player_id ==> room.code_snapshots.contains_key(other)
                == before.code_snapshots.contains_key(other)
            &&& other != player_id && before.code_snapshots.contains_key(other)
                ==> room.code_snapshots[other] == before.code_snapshots[other]
            &&& same_match(before, room)
            &&& room.status == before.status
            &&& room.winner_player_id == before.winner_player_id
            &&& room.finish_reason == before.finish_reason
            &&& room.finished_at_second == before.finished_at_second
            &&& room.winning_submission == before.winning_submission
            &&& room.polling_submissions == before.polling_submissions
        },
        state.players.contains_key(player_id) && state.players[player_id] == (
        PlayerLocationModel::Room { room_id }) ==> state.update_player_snapshot(player_id, snapshot)
            == state.update_snapshot(room_id, player_id, snapshot),
        !state.players.contains_key(player_id) || !(state.players[player_id] is Room)
            ==> state.update_player_snapshot(player_id, snapshot) == (state, None::<RoomModel>),
{
}

/// What a polling pass says of a player is what the room shows of it from then on.
pub proof fn activity_is_shown(
    state: RoomsModel,
    room_id: Seq<char>,
    activity: Seq<(Seq<char>, PlayerActivityModel)>,
    submissions: Seq<(Seq<char>, Seq<PlayerSubmissionRecordModel>)>,
    i: int,
)
    requires
        state.rooms.contains_key(room_id),
    ensures
        ({
            let before = state.rooms[room_id];
            let after = state.update_activity(room_id, activity, submissions);
            let room = after.rooms[room_id];
            &&& 0 <= i < activity.len() && (forall|k: int|
                i < k < activity.len() ==> (#[trigger] activity[k]).0 != activity[i].0)
                ==> room.player_activity.contains_key(activity[i].0)
                && room.player_activity[activity[i].0] == activity[i].1
            &&& 0 <= i < submissions.len() && (forall|k: int|
                i < k < submissions.len() ==> (#[trigger] submissions[k]).0 != submissions[i].0)
                ==> room.player_submissions.contains_key(submissions[i].0)
                && room.player_submissions[submissions[i].0] == submissions[i].1
            &&& room.status == before.status
            &&& room.winner_player_id == before.winner_player_id
            &&& room.finish_reason == before.finish_reason
            &&& room.finished_at_second == before.finished_at_second
            &&& room.winning_submission == before.winning_submission
            &&& room.code_snapshots == before.code_snapshots
            &&& room.polling_submissions == before.polling_submissions
            &&& room.players == before.players
            &&& room.problem == before.problem
            &&& room.id == before.id
            &&& room.started_at_second == before.started_at_second
            &&& room.atcoder_users == before.atcoder_users
        }),
{
    let before = state.rooms[room_id];
    if 0 <= i < activity.len() {
        last_entry_stands(before.player_activity, activity, i);
    }
    if 0 <= i < submissions.len() {
        last_entry_stands(before.player_submissions, submissions, i);
    }
}

proof fn last_entry_stands<V>(map: Map<Seq<char>, V>, pairs: Seq<(Seq<char>, V)>, i: int)
    requires
        0 <= i < pairs.len(),
    ensures
        (forall|k: int| i < k < pairs.len() ==> (#[trigger] pairs[k]).0 != pairs[i].0)
            ==> rooms::insert_all(map, pairs).contains_key(pairs[i].0) && rooms::insert_all(
            map,
            pairs,
        )[pairs[i].0] == pairs[i].1,
    decreases pairs.len(),
{
    if i < pairs.len() - 1 {
        last_entry_stands(map, pairs.drop_last(), i);
        assert(pairs.drop_last()[i] == pairs[i]);
        if forall|k: int| i < k < pairs.len() ==> (#[trigger] pairs[k]).0 != pairs[i].0 {
            assert forall|k: int| i < k < pairs.drop_last().len() implies (
            #[trigger] pairs.drop_last()[k]).0 != pairs[i].0 by {
                assert(pairs.drop_last()[k] == pairs[k]);
            }
            assert(pairs[pairs.len() - 1].0 != pairs[i].0);
        }
    }
}

/// Watching a room sets its flag and shows it, stopping clears the flag, and neither changes
/// anything else.
pub proof fn watching_sets_flag(state: RoomsModel, room_id: Seq<char>)
    ensures
        !state.rooms.contains_key(room_id) ==> {
            &&& state.start_submission_watch(room_id).0 == state
            &&& state.start_submission_watch(room_id).1 is None
            &&& state.stop_submission_watch(room_id) == state
        },
        state.rooms.contains_key(room_id) ==> {
            let before = state.rooms[room_id];
            let (watched, started) = state.start_submission_watch(room_id);
            let room = watched.rooms[room_id];
            let stopped = state.stop_submission_watch(room_id).rooms[room_id];
            &&& started == Some((room, !before.polling_submissions))
            &&& room.polling_submissions
            &&& !stopped.polling_submissions
            &&& room == (RoomModel { polling_submissions: true, ..before })
            &&& stopped == (RoomModel { polling_submissions: false, ..before })
        },
{
}

/// A room is given up exactly when its match has been over for longer than it is kept. Those whose
/// place was in it are forgotten together with their tokens, and nobody else is.
pub proof fn old_rooms_are_given_up(
    state: RoomsModel,
    ttl: i64,
    now: i64,
    room_id: Seq<char>,
    id: Seq<char>,
)
    requires
        0 <= ttl < i64::MAX,
    ensures
        ({
            let after = state.reap(ttl, now);
            let gone = |k: Seq<char>|
                state.rooms.contains_key(k) && state.rooms[k].status == RoomStatus::Finished
                    && state.rooms[k].finished_at_second is Some && now
                    - state.rooms[k].finished_at_second->0 > ttl;
            &&& after.rooms.contains_key(room_id) <==> state.rooms.contains_key(room_id) && !gone(
                room_id,
            )
            &&& after.rooms.contains_key(room_id) ==> after.rooms[room_id] == state.rooms[room_id]
            &&& state.stale_rooms(ttl, now).contains(room_id) <==> gone(room_id)
            &&& state.players.contains_key(id) && state.players[id] is Room && gone(
                state.players[id]->room_id,
            ) ==> !after.players.contains_key(id) && !after.tokens.contains_key(id)
            &&& state.players.contains_key(id) && !(state.players[id] is Room && gone(
                state.players[id]->room_id,
            )) ==> {
                &&& after.players.contains_key(id) && after.players[id] == state.players[id]
                &&& after.tokens.contains_key(id) == state.tokens.contains_key(id)
                &&& state.tokens.contains_key(id) ==> after.tokens[id] == state.tokens[id]
            }
            &&& after.waiting == state.waiting
            &&& after.problems == state.problems
        }),
{
}

/// A player keeps the token that they have, and one who has none gets the new one; nothing else is
/// changed.
pub proof fn token_is_given_once(
    state: RoomsModel,
    id: Seq<char>,
    fresh: Seq<char>,
    other: Seq<char>,
)
    ensures
        ({
            let after = state.ensure_token(id, fresh);
            &&& after == (RoomsModel { tokens: after.tokens, ..state })
            &&& after.tokens.contains_key(id)
            &&& state.tokens.contains_key(id) ==> after.tokens[id] == state.tokens[id]
            &&& !state.tokens.contains_key(id) ==> after.tokens[id] == fresh
            &&& other != id ==> after.tokens.contains_key(other) == state.tokens.contains_key(other)
            &&& other != id && state.tokens.contains_key(other) ==> after.tokens[other]
                == state.tokens[other]
        }),
{
}

/// Of a player who is forgotten neither the place nor the token is known any more; nothing of any
/// other player is changed.
pub proof fn forgotten_player_is_unknown(state: RoomsModel, id: Seq<char>, other: Seq<char>)
    ensures
        ({
            let after = state.forget(id);
            &&& after == (RoomsModel { players: after.players, tokens: after.tokens, ..state })
            &&& !after.players.contains_key(id)
            &&& !after.tokens.contains_key(id)
            &&& other != id ==> after.players.contains_key(other) == state.players.contains_key(
                other,
            ) && after.tokens.contains_key(other) == state.tokens.contains_key(other)
            &&& other != id && state.players.contains_key(other) ==> after.players[other]
                == state.players[other]
            &&& other != id && state.tokens.contains_key(other) ==> after.tokens[other]
                == state.tokens[other]
        }),
{
}

/// Of the players who wait under a name only the one to keep stays; every other player waits on, in
/// the same order, and those who do not wait any more are forgotten.
pub proof fn namesakes_do_not_wait(
    state: RoomsModel,
    name: Seq<char>,
    keep: Seq<char>,
    i: int,
)
    requires
        0 <= i < state.waiting.len(),
    ensures
        ({
            let after = state.drop_namesakes(name, keep);
            let player = state.waiting[i];
            &&& after.waiting == state.waiting.filter(
                |other: PlayerModel| other.name != name || other.id == keep,
            )
            &&& after.rooms == state.rooms
            &&& player.name == name && player.id != keep ==> !after.players.contains_key(player.id)
                && !after.tokens.contains_key(player.id)
            &&& (forall|k: int|
                0 <= k < state.waiting.len() && (#[trigger] state.waiting[k]).name == name
                    && state.waiting[k].id != keep ==> state.waiting[k].id != player.id)
                && state.players.contains_key(player.id) ==> after.players.contains_key(player.id)
                && after.players[player.id] == state.players[player.id]
            &&& state.tokens.contains_key(keep) ==> after.tokens.contains_key(keep)
                && after.tokens[keep] == state.tokens[keep]
        }),
{
    let after = state.drop_namesakes(name, keep);
    let player = state.waiting[i];
    let one = |other: PlayerModel| !rooms::is_namesake(other, name, keep);
    let two = |other: PlayerModel| other.name != name || other.id == keep;
    assert(one =~= two);
    if player.name == name && player.id != keep {
        assert(rooms::is_namesake(state.waiting[i], name, keep));
        assert(state.namesakes(name, keep).contains(player.id));
    }
}

/// A player who joins is the one that they say they are, or a new one, under the name that they give.
pub proof fn joining_player_is_named(request: JoinRequest, fresh: Seq<char>)
    ensures
        rooms::joining_player(request, fresh).name == request.name@,
        request.player_id is None ==> rooms::joining_player(request, fresh).id == fresh,
        request.player_id is Some ==> rooms::joining_player(request, fresh).id
            == request.player_id->0@,
{
}
/// What the server shows of a match that a player completes is that the player won it, when, and
/// that they completed it; this is what is kept of the match. Of one that is not there, or that they
/// do not play in, nothing is shown and nothing is changed.
pub proof fn completed_room_shows_winner(
    rooms: &mut RduelRooms,
    room_id: &str,
    player_id: &str,
    now: i64,
    shown: Option<Room>,
)
    requires
        call_ensures(RduelRooms::complete_room_at, (rooms, room_id, player_id, now), shown),
    ensures
        ({
            let before = old(rooms)@.rooms;
            let room = before[room_id@];
            let plays = before.contains_key(room_id@) && (room.players.0.id == player_id@
                || room.players.1.id == player_id@);
            &&& shown is Some <==> plays
            &&& !plays ==> final(rooms)@ == old(rooms)@
            &&& plays ==> final(rooms)@.rooms.contains_key(room_id@)
                && final(rooms)@.rooms[room_id@] == shown->0.deep_view()
            &&& plays && room.status == RoomStatus::Playing ==> {
                &&& shown->0.status == RoomStatus::Finished
                &&& shown->0.winner_player_id is Some
                &&& shown->0.winner_player_id->0@ == player_id@
                &&& shown->0.finish_reason == Some(RoomFinishReason::ManualComplete)
                &&& shown->0.finished_at_second == Some(now)
            }
            &&& plays && room.status == RoomStatus::Finished ==> final(rooms)@.rooms[room_id@]
                == room
        }),
{
}

/// What the server shows of a match in which a submission was accepted is that the player who made
/// it won, and with which submission.
pub proof fn accepted_room_shows_winner(
    rooms: &mut RduelRooms,
    room_id: &str,
    player_id: &str,
    submission: AtCoderSubmission,
    now: i64,
    shown: Option<Room>,
)
    requires
        call_ensures(
            RduelRooms::apply_submission_ac_at,
            (rooms, room_id, player_id, submission, now),
            shown,
        ),
        old(rooms)@.rooms.contains_key(room_id@),
        old(rooms)@.rooms[room_id@].status == RoomStatus::Playing,
        old(rooms)@.rooms[room_id@].players.0.id == player_id@
            || old(rooms)@.rooms[room_id@].players.1.id == player_id@,
    ensures
        shown is Some,
        shown->0.status == RoomStatus::Finished,
        shown->0.winner_player_id is Some,
        shown->0.winner_player_id->0@ == player_id@,
        shown->0.finish_reason == Some(RoomFinishReason::Accepted),
        shown->0.finished_at_second == Some(now),
        shown->0.winning_submission is Some,
        shown->0.winning_submission->0.player_id@ == player_id@,
        shown->0.winning_submission->0.submission_id == submission.id,
        shown->0.winning_submission->0.epoch_second == submission.epoch_second,
        shown->0.winning_submission->0.source_code.deep_view() == submission.source_code.deep_view(),
        final(rooms)@.rooms[room_id@] == shown->0.deep_view(),
{
}

/// Uploaded code is kept for the player who uploaded it, the code as the code and the manifest as
/// the manifest.
pub proof fn uploaded_code_is_not_mixed_up(
    rooms: &mut RduelRooms,
    room_id: &str,
    player_id: &str,
    snapshot: PlayerCodeSnapshot,
    shown: Option<Room>,
)
    requires
        call_ensures(
            RduelRooms::update_code_snapshot,
            (rooms, room_id, player_id, snapshot),
            shown,
        ),
        old(rooms)@.rooms.contains_key(room_id@),
        old(rooms)@.rooms[room_id@].players.0.id == player_id@
            || old(rooms)@.rooms[room_id@].players.1.id == player_id@,
    ensures
        shown is Some,
        final(rooms)@.rooms[room_id@] == shown->0.deep_view(),
        ({
            let kept = shown->0.deep_view().code_snapshots;
            &&& kept.contains_key(player_id@)
            &&& kept[player_id@].main_rs == snapshot.main_rs@
            &&& kept[player_id@].cargo_toml == snapshot.cargo_toml@
            &&& kept[player_id@].captured_at_second == snapshot.captured_at_second
        }),
{
}

/// The model of the server holds what the server holds.
pub proof fn server_model_holds_its_parts(server: RduelRooms)
    ensures
        server@ == (RoomsModel {
            waiting: server.waiting_players.deep_view(),
            players: server.players.deep_view(),
            rooms: server.rooms.deep_view(),
            tokens: server.player_tokens.deep_view(),
            problems: server.problems.deep_view(),
        }),
{
}
} // verus!
