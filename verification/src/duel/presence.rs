//! Who of the players of a match is the user, and what is shown of both.

use vstd::prelude::*;

use crate::copying::Duplicate;
use crate::duel::wording;
use crate::duel::model::{
    ServerPlayerActivity, ServerPlayerActivityModel, ServerRoom, ServerRoomModel,
};
use crate::seqs;
use crate::text;

verus! {

/// A player as the header of a match shows it.
pub struct PlayerPresence {
    pub name: String,
    pub activity: ServerPlayerActivity,
}

/// What a `PlayerPresence` holds.
#[verifier::ext_equal]
pub struct PlayerPresenceModel {
    pub name: Seq<char>,
    pub activity: ServerPlayerActivityModel,
}

impl DeepView for PlayerPresence {
    type V = PlayerPresenceModel;

    open spec fn deep_view(&self) -> PlayerPresenceModel {
        PlayerPresenceModel {
            name: self.name@,
            activity: self.activity.deep_view(),
        }
    }
}

/// Both players as the header of a match shows them.
pub struct RoomPresence {
    pub started_at_second: i64,
    pub local: Option<PlayerPresence>,
    pub opponent: Option<PlayerPresence>,
}

/// What a `RoomPresence` holds.
#[verifier::ext_equal]
pub struct RoomPresenceModel {
    pub started_at_second: i64,
    pub local: Option<PlayerPresenceModel>,
    pub opponent: Option<PlayerPresenceModel>,
}

impl DeepView for RoomPresence {
    type V = RoomPresenceModel;

    open spec fn deep_view(&self) -> RoomPresenceModel {
        RoomPresenceModel {
            started_at_second: self.started_at_second,
            local: self.local.deep_view(),
            opponent: self.opponent.deep_view(),
        }
    }
}

/// The number of the only player with the name `atcoder_user`, without white space around it.
pub open spec fn unique_index(room: ServerRoomModel, atcoder_user: Option<Seq<char>>) -> Option<
    usize,
> {
    match atcoder_user {
        None => None,
        Some(user) => {
            let name = seqs::trim(user);
            let first = room.players.0.name == name;
            let second = room.players.1.name == name;
            if name.len() == 0 || first == second {
                None
            } else if first {
                Some(0)
            } else {
                Some(1)
            }
        },
    }
}

/// The id of the user's player: `player_id`, if that is one of the players; else the id of the only
/// player with the name `atcoder_user`; else `player_id` still.
pub open spec fn local_id(
    room: ServerRoomModel,
    player_id: Seq<char>,
    atcoder_user: Option<Seq<char>>,
) -> Seq<char> {
    if room.players.0.id == player_id || room.players.1.id == player_id {
        player_id
    } else {
        match unique_index(room, atcoder_user) {
            Some(0) => room.players.0.id,
            Some(_) => room.players.1.id,
            None => player_id,
        }
    }
}

/// The number of the user's player: the first with the given id, else the only one with the given
/// name.
pub open spec fn local_index(
    room: ServerRoomModel,
    player_id: Option<Seq<char>>,
    atcoder_user: Option<Seq<char>>,
) -> Option<usize> {
    if player_id == Some(room.players.0.id) {
        Some(0)
    } else if player_id == Some(room.players.1.id) {
        Some(1)
    } else {
        unique_index(room, atcoder_user)
    }
}

/// What is known of the submissions of a player.
pub open spec fn activity_in(room: ServerRoomModel, id: Seq<char>) -> ServerPlayerActivityModel {
    if room.player_activity.contains_key(id) {
        room.player_activity[id]
    } else {
        ServerPlayerActivityModel {
            attempt_count: 0,
            last_verdict: None,
            last_submission_epoch: None,
        }
    }
}

/// A player of `room` as the header shows it.
pub open spec fn player_presence(room: ServerRoomModel, second: bool) -> PlayerPresenceModel {
    let player = if second {
        room.players.1
    } else {
        room.players.0
    };
    PlayerPresenceModel { name: player.name, activity: activity_in(room, player.id) }
}

/// Both players of `room` as the header shows them. If it is not known which one is the user, the
/// second one is shown as the opponent.
pub open spec fn presence_of(
    room: ServerRoomModel,
    player_id: Option<Seq<char>>,
    atcoder_user: Option<Seq<char>>,
) -> RoomPresenceModel {
    let index = local_index(room, player_id, atcoder_user);
    RoomPresenceModel {
        started_at_second: room.started_at_second,
        local: match index {
            Some(0) => Some(player_presence(room, false)),
            Some(_) => Some(player_presence(room, true)),
            None => None,
        },
        opponent: match index {
            Some(1) => Some(player_presence(room, false)),
            _ => Some(player_presence(room, true)),
        },
    }
}

/// Whether the opponent made a submission between two looks at its activity.
pub open spec fn has_new_submission(
    previous: ServerPlayerActivityModel,
    current: ServerPlayerActivityModel,
) -> bool {
    ||| current.attempt_count > previous.attempt_count
    ||| match (current.last_submission_epoch, previous.last_submission_epoch) {
        (Some(now), Some(before)) => now > before,
        (Some(_), None) => true,
        _ => false,
    }
}

/// What the user is told when the opponent made a submission.
pub open spec fn flash_text(current: ServerPlayerActivityModel) -> Seq<char> {
    "对手提交了："@ + match current.last_verdict {
        Some(verdict) => verdict,
        None => "提交"@,
    }
}

/// The number of the only player with the name `atcoder_user`.
pub fn unique_player_index_by_name(room: &ServerRoom, atcoder_user: &Option<String>) -> (r: Option<
    usize,
>)
    ensures
        r == unique_index(room.deep_view(), atcoder_user.deep_view()),
{
    let name = match atcoder_user {
        None => {
            return None;
        },
        Some(user) => text::trim_str(user.as_str()),
    };
    let first = text::same(room.players[0].name.as_str(), name.as_str());
    let second = text::same(room.players[1].name.as_str(), name.as_str());
    if name.as_str().is_empty() || first == second {
        None
    } else if first {
        Some(0)
    } else {
        Some(1)
    }
}

/// The id of the user's player.
pub fn resolve_local_player_id(
    room: &ServerRoom,
    player_id: String,
    local_atcoder_user: &Option<String>,
) -> (r: String)
    ensures
        r@ == local_id(room.deep_view(), player_id@, local_atcoder_user.deep_view()),
{
    if text::same(room.players[0].id.as_str(), player_id.as_str()) || text::same(
        room.players[1].id.as_str(),
        player_id.as_str(),
    ) {
        return player_id;
    }
    match unique_player_index_by_name(room, local_atcoder_user) {
        Some(0) => room.players[0].id.clone(),
        Some(_) => room.players[1].id.clone(),
        None => player_id,
    }
}

fn presence_of_player(room: &ServerRoom, which: usize) -> (r: PlayerPresence)
    requires
        which < 2,
    ensures
        r.deep_view() == player_presence(room.deep_view(), which == 1),
{
    let player = &room.players[which];
    let activity = match room.player_activity.get(player.id.as_str()) {
        Some(activity) => activity.duplicate(),
        None => ServerPlayerActivity {
            attempt_count: 0,
            last_verdict: None,
            last_submission_epoch: None,
        },
    };
    PlayerPresence { name: player.name.clone(), activity }
}

impl RoomPresence {
    /// Both players of `room` as the header shows them.
    pub fn from_room(
        room: &ServerRoom,
        local_player_id: &Option<String>,
        local_atcoder_user: &Option<String>,
    ) -> (r: Self)
        ensures
            r.deep_view() == presence_of(
                room.deep_view(),
                local_player_id.deep_view(),
                local_atcoder_user.deep_view(),
            ),
    {
        let index = match local_player_id {
            Some(id) if text::same(id.as_str(), room.players[0].id.as_str()) => Some(0),
            Some(id) if text::same(id.as_str(), room.players[1].id.as_str()) => Some(1),
            _ => unique_player_index_by_name(room, local_atcoder_user),
        };
        let first = presence_of_player(room, 0);
        let second = presence_of_player(room, 1);
        let (local, opponent) = match index {
            Some(0) => (Some(first), Some(second)),
            Some(_) => (Some(second), Some(first)),
            None => (None, Some(second)),
        };
        RoomPresence { started_at_second: room.started_at_second, local, opponent }
    }
}

/// What the user is told when the header changes from `previous` to `current`: something, if the
/// opponent made a submission.
pub fn opponent_flash_message(previous: &Option<RoomPresence>, current: &RoomPresence) -> (r:
    Option<String>)
    ensures
        r.deep_view() == flash_for(previous.deep_view(), current.deep_view()),
{
    let previous = match previous {
        Some(presence) => match &presence.opponent {
            Some(opponent) => opponent,
            None => {
                return None;
            },
        },
        None => {
            return None;
        },
    };
    let current = match &current.opponent {
        Some(opponent) => opponent,
        None => {
            return None;
        },
    };
    let newer = match (
        current.activity.last_submission_epoch,
        previous.activity.last_submission_epoch,
    ) {
        (Some(now), Some(before)) => now > before,
        (Some(_), None) => true,
        _ => false,
    };
    if current.activity.attempt_count > previous.activity.attempt_count || newer {
        let verdict = match &current.activity.last_verdict {
            Some(verdict) => verdict.clone(),
            None => "提交".to_owned(),
        };
        Some("对手提交了：".to_owned().concat(verdict.as_str()))
    } else {
        None
    }
}

/// What the user is told when the header changes from `previous` to `current`.
pub open spec fn flash_for(previous: Option<RoomPresenceModel>, current: RoomPresenceModel) -> Option<
    Seq<char>,
> {
    match (previous, current.opponent) {
        (Some(RoomPresenceModel { opponent: Some(before), .. }), Some(now)) => if has_new_submission(
            before.activity,
            now.activity,
        ) {
            Some(flash_text(now.activity))
        } else {
            None
        },
        _ => None,
    }
}

/// The colour of what stands for a verdict.
#[derive(Clone, Copy, Debug, PartialEq, Eq, Structural)]
pub enum VerdictColor {
    Success,
    Error,
    Muted,
}

/// What the header shows of a player.
pub struct PlayerLine {
    pub role: String,
    pub name: String,
    pub attempts: Option<String>,
    pub verdict: Option<String>,
    pub last_submission: Option<String>,
    pub color: VerdictColor,
}

/// What a `PlayerLine` holds.
#[verifier::ext_equal]
pub struct PlayerLineModel {
    pub role: Seq<char>,
    pub name: Seq<char>,
    pub attempts: Option<Seq<char>>,
    pub verdict: Option<Seq<char>>,
    pub last_submission: Option<Seq<char>>,
    pub color: VerdictColor,
}

impl DeepView for PlayerLine {
    type V = PlayerLineModel;

    open spec fn deep_view(&self) -> PlayerLineModel {
        PlayerLineModel {
            role: self.role@,
            name: self.name@,
            attempts: self.attempts.deep_view(),
            verdict: self.verdict.deep_view(),
            last_submission: self.last_submission.deep_view(),
            color: self.color,
        }
    }
}

/// What the header shows of a player at the second `now`.
pub open spec fn player_line(
    role: Seq<char>,
    presence: Option<PlayerPresenceModel>,
    now: i64,
) -> PlayerLineModel {
    match presence {
        None => PlayerLineModel {
            role,
            name: "—"@,
            attempts: None,
            verdict: None,
            last_submission: None,
            color: VerdictColor::Muted,
        },
        Some(presence) => PlayerLineModel {
            role,
            name: presence.name,
            attempts: if presence.activity.attempt_count > 0 {
                Some(seqs::decimal(presence.activity.attempt_count as nat) + " 次提交"@)
            } else {
                None
            },
            verdict: presence.activity.last_verdict,
            last_submission: match presence.activity.last_submission_epoch {
                Some(epoch) => Some(wording::ago(wording::seconds_since(now, epoch))),
                None => None,
            },
            color: match presence.activity.last_verdict {
                Some(verdict) => if verdict == "AC"@ {
                    VerdictColor::Success
                } else {
                    VerdictColor::Error
                },
                None => VerdictColor::Muted,
            },
        },
    }
}

/// What the header shows of a player at the second `now`.
pub fn render_player_presence(role: &str, presence: &Option<PlayerPresence>, now: i64) -> (r:
    PlayerLine)
    ensures
        r.deep_view() == player_line(role@, presence.deep_view(), now),
{
    match presence {
        None => PlayerLine {
            role: role.to_owned(),
            name: "—".to_owned(),
            attempts: None,
            verdict: None,
            last_submission: None,
            color: VerdictColor::Muted,
        },
        Some(presence) => {
            let activity = &presence.activity;
            PlayerLine {
                role: role.to_owned(),
                name: presence.name.clone(),
                attempts: if activity.attempt_count > 0 {
                    Some(wording::number(activity.attempt_count as u64).concat(" 次提交"))
                } else {
                    None
                },
                verdict: activity.last_verdict.duplicate(),
                last_submission: match activity.last_submission_epoch {
                    Some(epoch) => Some(wording::format_relative_at(now, epoch)),
                    None => None,
                },
                color: match &activity.last_verdict {
                    Some(verdict) => if text::same(verdict.as_str(), "AC") {
                        VerdictColor::Success
                    } else {
                        VerdictColor::Error
                    },
                    None => VerdictColor::Muted,
                },
            }
        },
    }
}

/// The user's player is one of the room's whenever the room shows who it is, and then the opponent
/// is the other one.
pub proof fn opponent_is_the_other(
    room: ServerRoomModel,
    player_id: Option<Seq<char>>,
    atcoder_user: Option<Seq<char>>,
)
    ensures
        ({
            let presence = presence_of(room, player_id, atcoder_user);
            &&& presence.opponent is Some
            &&& presence.local is Some <==> local_index(room, player_id, atcoder_user) is Some
            &&& presence.local is Some ==> {
                ||| presence.local == Some(player_presence(room, false)) && presence.opponent
                    == Some(player_presence(room, true))
                ||| presence.local == Some(player_presence(room, true)) && presence.opponent
                    == Some(player_presence(room, false))
            }
        }),
{
}

/// The user is the player with the user's id, or else the only one with the user's name; a name that
/// both players have, and a blank one, tell nothing.
pub proof fn user_is_known_by_id_or_name(
    room: ServerRoomModel,
    id: Seq<char>,
    name: Seq<char>,
    user: Option<Seq<char>>,
)
    ensures
        room.players.0.id == id ==> local_index(room, Some(id), user) == Some(0usize),
        room.players.0.id != id && room.players.1.id == id ==> local_index(room, Some(id), user)
            == Some(1usize),
        room.players.0.id == id || room.players.1.id == id ==> local_id(room, id, user) == id,
        room.players.0.id != id && room.players.1.id != id ==> {
            let trimmed = seqs::trim(name);
            let first = room.players.0.name == trimmed;
            let second = room.players.1.name == trimmed;
            &&& local_index(room, Some(id), None) is None && local_id(room, id, None) == id
            &&& trimmed.len() > 0 && first && !second ==> local_index(room, Some(id), Some(name))
                == Some(0usize) && local_id(room, id, Some(name)) == room.players.0.id
            &&& trimmed.len() > 0 && second && !first ==> local_index(room, Some(id), Some(name))
                == Some(1usize) && local_id(room, id, Some(name)) == room.players.1.id
            &&& trimmed.len() == 0 || first == second ==> local_index(
                room,
                Some(id),
                Some(name),
            ) is None && local_id(room, id, Some(name)) == id
        },
        local_index(room, None, user) == unique_index(room, user),
        ({
            let trimmed = seqs::trim(name);
            unique_index(room, Some(name)) == if trimmed.len() > 0 && room.players.0.name == trimmed
                && room.players.1.name != trimmed {
                Some(0usize)
            } else if trimmed.len() > 0 && room.players.1.name == trimmed && room.players.0.name
                != trimmed {
                Some(1usize)
            } else {
                None
            }
        }),
{
}

/// The header shows the time at which the match started, and each player by name with what that
/// player did in the match, or nothing done.
pub proof fn header_shows_players(room: ServerRoomModel, id: Seq<char>, user: Option<Seq<char>>)
    ensures
        ({
            let shown = presence_of(room, Some(id), user);
            let nothing = ServerPlayerActivityModel {
                attempt_count: 0,
                last_verdict: None,
                last_submission_epoch: None,
            };
            let first = room.players.0;
            let second = room.players.1;
            let first_did = if room.player_activity.contains_key(first.id) {
                room.player_activity[first.id]
            } else {
                nothing
            };
            let second_did = if room.player_activity.contains_key(second.id) {
                room.player_activity[second.id]
            } else {
                nothing
            };
            &&& shown.started_at_second == room.started_at_second
            &&& first.id == id ==> {
                &&& shown.local == Some(
                    PlayerPresenceModel { name: first.name, activity: first_did },
                )
                &&& shown.opponent == Some(
                    PlayerPresenceModel { name: second.name, activity: second_did },
                )
            }
            &&& first.id != id && second.id == id ==> {
                &&& shown.local == Some(
                    PlayerPresenceModel { name: second.name, activity: second_did },
                )
                &&& shown.opponent == Some(
                    PlayerPresenceModel { name: first.name, activity: first_did },
                )
            }
            &&& shown.local is None ==> shown.opponent == Some(
                PlayerPresenceModel { name: second.name, activity: second_did },
            )
        }),
{
}

/// The user is told of the opponent's verdict exactly if the opponent was there before and has made
/// more attempts or a later submission since.
pub proof fn new_submission_is_told(
    previous: RoomPresenceModel,
    current: RoomPresenceModel,
    before: PlayerPresenceModel,
    now: PlayerPresenceModel,
)
    ensures
        flash_for(None, current) is None,
        previous.opponent is None ==> flash_for(Some(previous), current) is None,
        current.opponent is None ==> flash_for(Some(previous), current) is None,
        previous.opponent == Some(before) && current.opponent == Some(now) ==> {
            let told = flash_for(Some(previous), current);
            let more = now.activity.attempt_count > before.activity.attempt_count;
            let later = now.activity.last_submission_epoch is Some && (
            before.activity.last_submission_epoch is None
                || before.activity.last_submission_epoch->0
                < now.activity.last_submission_epoch->0);
            &&& told is Some <==> more || later
            &&& told is Some && now.activity.last_verdict is Some ==> told->0 == "对手提交了："@
                + now.activity.last_verdict->0
            &&& told is Some && now.activity.last_verdict is None ==> told->0
                == "对手提交了："@ + "提交"@
        },
{
}

/// A player is shown by role and name, with the number of attempts if there was one, the last
/// verdict, how long ago the last submission was, and in the colour of success exactly if the last
/// verdict is that of an accepted one. A player who is not known is shown by a dash.
pub proof fn line_shows_player(role: Seq<char>, player: PlayerPresenceModel, now: i64)
    ensures
        ({
            let line = player_line(role, Some(player), now);
            let did = player.activity;
            &&& line.role == role
            &&& line.name == player.name
            &&& did.attempt_count == 0 ==> line.attempts is None
            &&& did.attempt_count > 0 ==> line.attempts == Some(
                seqs::decimal(did.attempt_count as nat) + " 次提交"@,
            )
            &&& line.verdict == did.last_verdict
            &&& did.last_submission_epoch is None ==> line.last_submission is None
            &&& did.last_submission_epoch is Some ==> line.last_submission == Some(
                wording::ago(
                    if now > did.last_submission_epoch->0 {
                        (now - did.last_submission_epoch->0) as nat
                    } else {
                        0
                    },
                ),
            )
            &&& line.color == VerdictColor::Muted <==> did.last_verdict is None
            &&& line.color == VerdictColor::Success <==> did.last_verdict is Some
                && did.last_verdict->0 == "AC"@
            &&& line.color == VerdictColor::Error <==> did.last_verdict is Some
                && did.last_verdict->0 != "AC"@
        }),
        ({
            let line = player_line(role, None, now);
            &&& line.role == role
            &&& line.name == "—"@
            &&& line.attempts is None && line.verdict is None && line.last_submission is None
            &&& line.color == VerdictColor::Muted
        }),
{
}
/// The models hold what the values hold, each part under its own name.
pub proof fn models_hold_their_parts(
    player_presence: PlayerPresence,
    room_presence: RoomPresence,
    player_line: PlayerLine,
)
    ensures
        player_presence.deep_view() == (PlayerPresenceModel {
            name: player_presence.name@,
            activity: player_presence.activity.deep_view(),
        }),
        room_presence.deep_view() == (RoomPresenceModel {
            started_at_second: room_presence.started_at_second,
            local: room_presence.local.deep_view(),
            opponent: room_presence.opponent.deep_view(),
        }),
        player_line.deep_view() == (PlayerLineModel {
            role: player_line.role@,
            name: player_line.name@,
            attempts: player_line.attempts.deep_view(),
            verdict: player_line.verdict.deep_view(),
            last_submission: player_line.last_submission.deep_view(),
            color: player_line.color,
        }),
{
}
} // verus!
