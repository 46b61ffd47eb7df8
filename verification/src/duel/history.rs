//! Matches of the past.

use vstd::prelude::*;

use crate::copying::Duplicate;
use crate::duel::matchmaking::{
    RduelMatchCommand, RduelMatchCommandModel, RduelMatchOutput, RduelMatchOutputModel,
};
use crate::duel::model::{
    MatchHistoryEntry, MatchHistoryEntryModel, MatchHistoryPlayer, MatchHistoryPlayerModel,
    MatchHistorySubmission, MatchHistorySubmissionModel, RduelSession, RduelSessionModel,
    ServerPlayer, ServerPlayerActivity, ServerPlayerActivityModel, ServerPlayerModel, ServerRoom,
    ServerRoomFinishReason, ServerRoomModel, ServerRoomStatus,
};
use crate::duel::settings::RduelSettings;
use crate::duel::wording;
use crate::outside;
use crate::output::{
    CommandOutputDetail, CommandOutputDetailModel, CommandOutputDetailSection,
    CommandOutputDetailSectionModel, CommandOutputItem, CommandOutputItemModel,
    CommandOutputItemStatus, CommandOutputState, CommandOutputStateModel,
};
use crate::seqs;
use crate::strmap::StrMap;
use crate::text;

verus! {

/// The dialog with the matches of the past.
pub struct RduelHistoryModal {
    pub server_url: String,
    pub atcoder_user: Option<String>,
    pub status: String,
    pub matches: Vec<MatchHistoryEntry>,
    pub is_loading: bool,
}

/// What a `RduelHistoryModal` holds.
#[verifier::ext_equal]
pub struct RduelHistoryModalModel {
    pub server_url: Seq<char>,
    pub atcoder_user: Option<Seq<char>>,
    pub status: Seq<char>,
    pub matches: Seq<MatchHistoryEntryModel>,
    pub is_loading: bool,
}

impl DeepView for RduelHistoryModal {
    type V = RduelHistoryModalModel;

    open spec fn deep_view(&self) -> RduelHistoryModalModel {
        RduelHistoryModalModel {
            server_url: self.server_url@,
            atcoder_user: self.atcoder_user.deep_view(),
            status: self.status@,
            matches: self.matches.deep_view(),
            is_loading: self.is_loading,
        }
    }
}

/// What is shown of a match of the past.
pub struct HistoryRow {
    pub title: String,
    pub stats: String,
    pub time: String,
    pub outcome: String,
}

/// What a `HistoryRow` holds.
#[verifier::ext_equal]
pub struct HistoryRowModel {
    pub title: Seq<char>,
    pub stats: Seq<char>,
    pub time: Seq<char>,
    pub outcome: Seq<char>,
}

impl DeepView for HistoryRow {
    type V = HistoryRowModel;

    open spec fn deep_view(&self) -> HistoryRowModel {
        HistoryRowModel {
            title: self.title@,
            stats: self.stats@,
            time: self.time@,
            outcome: self.outcome@,
        }
    }
}

/// Whether the user is the second player of a match rather than the first.
pub open spec fn is_second(entry: MatchHistoryEntryModel, atcoder_user: Option<Seq<char>>) -> bool {
    atcoder_user matches Some(user) && entry.players.0.atcoder_user != user
        && entry.players.1.atcoder_user == user
}

/// The first player of a match with the given id.
pub open spec fn player_with_id(entry: MatchHistoryEntryModel, id: Seq<char>) -> Option<
    MatchHistoryPlayerModel,
> {
    if entry.players.0.player_id == id {
        Some(entry.players.0)
    } else if entry.players.1.player_id == id {
        Some(entry.players.1)
    } else {
        None
    }
}

/// How a match of the past ended for the user.
pub open spec fn outcome_of(entry: MatchHistoryEntryModel, atcoder_user: Option<Seq<char>>) -> Seq<
    char,
> {
    match (atcoder_user, entry.winner_player_id) {
        (Some(user), Some(winner_id)) => match player_with_id(entry, winner_id) {
            Some(winner) => if winner.atcoder_user == user {
                "Win"@
            } else {
                "Loss"@
            },
            None => "Finished"@,
        },
        _ => "Finished"@,
    }
}

/// How a match of the past ended for the user.
pub fn history_outcome(entry: &MatchHistoryEntry, atcoder_user: &Option<String>) -> (r: String)
    ensures
        r@ == outcome_of(entry.deep_view(), atcoder_user.deep_view()),
{
    let user = match atcoder_user {
        Some(user) => user,
        None => {
            return "Finished".to_owned();
        },
    };
    let winner_id = match &entry.winner_player_id {
        Some(winner_id) => winner_id,
        None => {
            return "Finished".to_owned();
        },
    };
    let winner = if text::same(entry.players[0].player_id.as_str(), winner_id.as_str()) {
        &entry.players[0]
    } else if text::same(entry.players[1].player_id.as_str(), winner_id.as_str()) {
        &entry.players[1]
    } else {
        return "Finished".to_owned();
    };
    if text::same(winner.atcoder_user.as_str(), user.as_str()) {
        "Win".to_owned()
    } else {
        "Loss".to_owned()
    }
}

/// A submission of the past, as text.
pub open spec fn submission_line(now: i64, submission: MatchHistorySubmissionModel) -> Seq<char> {
    "#"@ + seqs::signed_decimal(submission.id as int) + " · "@ + submission.verdict + " · "@
        + wording::ago(wording::seconds_since(now, submission.epoch_second))
}

/// The submissions of a player, if there are any.
pub open spec fn player_section(now: i64, player: MatchHistoryPlayerModel) -> Seq<
    CommandOutputDetailSectionModel,
> {
    if player.submissions.len() == 0 {
        seq![]
    } else {
        seq![
            CommandOutputDetailSectionModel {
                title: player.atcoder_user,
                body: seqs::join(
                    Seq::new(
                        player.submissions.len(),
                        |i: int| submission_line(now, player.submissions[i]),
                    ),
                    "\n"@,
                ),
            },
        ]
    }
}

/// The submissions of both players, if there are any.
pub open spec fn submissions_of(now: i64, entry: MatchHistoryEntryModel) -> Option<
    CommandOutputStateModel,
> {
    let sections = player_section(now, entry.players.0) + player_section(now, entry.players.1);
    if sections.len() == 0 {
        None
    } else {
        Some(
            CommandOutputStateModel {
                items: seq![
                    CommandOutputItemModel {
                        label: "Submissions"@,
                        status: CommandOutputItemStatus::Warning,
                        detail: Some(
                            CommandOutputDetailModel {
                                heading: "Recorded submissions"@,
                                diff: None,
                                sections,
                            },
                        ),
                    },
                ],
            },
        )
    }
}

fn submission_text(now: i64, submission: &MatchHistorySubmission) -> (r: String)
    ensures
        r@ == submission_line(now, submission.deep_view()),
{
    let id = wording::signed_number(submission.id);
    let when = wording::format_relative_at(now, submission.epoch_second);
    "#".to_owned().concat(id.as_str()).concat(" · ").concat(submission.verdict.as_str()).concat(
        " · ",
    ).concat(when.as_str())
}

fn push_player_section(
    now: i64,
    player: &MatchHistoryPlayer,
    sections: &mut Vec<CommandOutputDetailSection>,
)
    ensures
        final(sections).deep_view() == old(sections).deep_view() + player_section(
            now,
            player.deep_view(),
        ),
{
    let ghost before = sections.deep_view();
    let ghost all = player.deep_view().submissions;
    let ghost texts = Seq::new(all.len(), |i: int| submission_line(now, all[i]));
    if player.submissions.len() == 0 {
        assert(sections.deep_view() =~= before + player_section(now, player.deep_view()));
        return;
    }
    let mut lines: Vec<String> = Vec::new();
    let mut i: usize = 0;
    while i < player.submissions.len()
        invariant
            i <= player.submissions@.len(),
            all == player.submissions.deep_view(),
            texts == Seq::new(all.len(), |k: int| submission_line(now, all[k])),
            seqs::strs(lines@) == texts.take(i as int),
        decreases player.submissions@.len() - i,
    {
        let ghost before = seqs::strs(lines@);
        lines.push(submission_text(now, &player.submissions[i]));
        assert(all[i as int] == player.submissions@[i as int].deep_view());
        assert(seqs::strs(lines@) =~= before.push(texts[i as int]));
        i += 1;
    }
    assert(texts.take(i as int) =~= texts);
    let body = text::join_strings(&lines, "\n");
    sections.push(CommandOutputDetailSection { title: player.atcoder_user.clone(), body });
    assert(sections.deep_view() =~= before + player_section(now, player.deep_view()));
}

/// The submissions of both players at `now`, if there are any.
pub fn history_submission_output_at(now: i64, entry: &MatchHistoryEntry) -> (r: Option<
    CommandOutputState,
>)
    ensures
        r.deep_view() == submissions_of(now, entry.deep_view()),
{
    let mut sections: Vec<CommandOutputDetailSection> = Vec::new();
    push_player_section(now, &entry.players[0], &mut sections);
    push_player_section(now, &entry.players[1], &mut sections);
    let ghost expected = player_section(now, entry.deep_view().players.0) + player_section(
        now,
        entry.deep_view().players.1,
    );
    assert(sections.deep_view() =~= expected);
    if sections.len() == 0 {
        return None;
    }
    let mut items: Vec<CommandOutputItem> = Vec::new();
    items.push(
        CommandOutputItem {
            label: "Submissions".to_owned(),
            status: CommandOutputItemStatus::Warning,
            detail: Some(
                CommandOutputDetail::with_sections("Recorded submissions".to_owned(), sections),
            ),
        },
    );
    assert(items.deep_view() =~= submissions_of(now, entry.deep_view())->0.items);
    Some(CommandOutputState { items })
}

/// The submissions of both players, if there are any.
pub fn history_submission_output(entry: &MatchHistoryEntry) -> (r: Option<CommandOutputState>)
    ensures
        exists|now: i64| r.deep_view() == #[trigger] submissions_of(now, entry.deep_view()),
{
    let now: i64 = outside::current_second();
    history_submission_output_at(now, entry)
}

/// The end of a match by its name.
pub open spec fn reason_named(name: Option<Seq<char>>) -> Option<ServerRoomFinishReason> {
    match name {
        Some(name) => if name == "accepted"@ {
            Some(ServerRoomFinishReason::Accepted)
        } else if name == "manual_complete"@ {
            Some(ServerRoomFinishReason::ManualComplete)
        } else if name == "player_left"@ {
            Some(ServerRoomFinishReason::PlayerLeft)
        } else {
            None
        },
        None => None,
    }
}

/// What a player did.
pub open spec fn activity_of(player: MatchHistoryPlayerModel) -> ServerPlayerActivityModel {
    ServerPlayerActivityModel {
        attempt_count: player.attempt_count,
        last_verdict: player.last_verdict,
        last_submission_epoch: player.last_submission_epoch,
    }
}

/// The code of a player, unless it is blank, and who it is from.
pub open spec fn code_of(player: MatchHistoryPlayerModel) -> Option<(Seq<char>, Seq<char>)> {
    match player.main_rs {
        Some(main_rs) => if seqs::is_blank(main_rs) {
            None
        } else {
            Some((player.atcoder_user, main_rs))
        },
        None => None,
    }
}

/// The session in which the user looks at a match of the past. One who is in none of its places
/// looks at it as its first player.
pub open spec fn session_of(
    now: i64,
    entry: MatchHistoryEntryModel,
    atcoder_user: Option<Seq<char>>,
    server_url: Seq<char>,
) -> RduelSessionModel {
    let (first, second) = entry.players;
    let (local, opponent) = if is_second(entry, atcoder_user) {
        (second, first)
    } else {
        (first, second)
    };
    RduelSessionModel {
        player_id: local.player_id,
        token: seq![],
        room: Some(
            ServerRoomModel {
                id: entry.room_id,
                players: (
                    ServerPlayerModel { id: first.player_id, name: first.atcoder_user },
                    ServerPlayerModel { id: second.player_id, name: second.atcoder_user },
                ),
                problem: entry.problem,
                status: ServerRoomStatus::Finished,
                winner_player_id: entry.winner_player_id,
                finish_reason: reason_named(entry.finish_reason),
                winning_submission: None,
                started_at_second: entry.started_at_second,
                player_activity: Map::empty().insert(first.player_id, activity_of(first)).insert(
                    second.player_id,
                    activity_of(second),
                ),
            },
        ),
        server_url,
        initial_main_rs: local.main_rs,
        initial_cargo_toml: local.cargo_toml,
        opponent_main_rs: code_of(opponent),
        initial_command_output: submissions_of(now, entry),
        is_history: true,
    }
}

fn finish_reason_named(name: &Option<String>) -> (r: Option<ServerRoomFinishReason>)
    ensures
        r == reason_named(name.deep_view()),
{
    match name {
        Some(name) => if text::same(name.as_str(), "accepted") {
            Some(ServerRoomFinishReason::Accepted)
        } else if text::same(name.as_str(), "manual_complete") {
            Some(ServerRoomFinishReason::ManualComplete)
        } else if text::same(name.as_str(), "player_left") {
            Some(ServerRoomFinishReason::PlayerLeft)
        } else {
            None
        },
        None => None,
    }
}

fn player_activity_of(player: &MatchHistoryPlayer) -> (r: ServerPlayerActivity)
    ensures
        r.deep_view() == activity_of(player.deep_view()),
{
    ServerPlayerActivity {
        attempt_count: player.attempt_count,
        last_verdict: player.last_verdict.duplicate(),
        last_submission_epoch: player.last_submission_epoch,
    }
}

fn player_code(player: &MatchHistoryPlayer) -> (r: Option<(String, String)>)
    ensures
        r.deep_view() == code_of(player.deep_view()),
{
    match &player.main_rs {
        Some(main_rs) => if text::is_blank_str(main_rs.as_str()) {
            None
        } else {
            Some((player.atcoder_user.clone(), main_rs.clone()))
        },
        None => None,
    }
}

/// The session in which the user looks at `now` at a match of the past.
pub fn rduel_session_from_history_entry_at(
    now: i64,
    entry: &MatchHistoryEntry,
    atcoder_user: &Option<String>,
    server_url: &str,
) -> (r: Option<RduelSession>)
    ensures
        r.deep_view() == Some(
            session_of(now, entry.deep_view(), atcoder_user.deep_view(), server_url@),
        ),
{
    let second = match atcoder_user {
        Some(user) => !text::same(entry.players[0].atcoder_user.as_str(), user.as_str())
            && text::same(entry.players[1].atcoder_user.as_str(), user.as_str()),
        None => false,
    };
    let (local, opponent) = if second {
        (&entry.players[1], &entry.players[0])
    } else {
        (&entry.players[0], &entry.players[1])
    };
    let mut player_activity: StrMap<ServerPlayerActivity> = StrMap::new();
    player_activity.insert(
        entry.players[0].player_id.clone(),
        player_activity_of(&entry.players[0]),
    );
    player_activity.insert(
        entry.players[1].player_id.clone(),
        player_activity_of(&entry.players[1]),
    );
    let room = ServerRoom {
        id: entry.room_id.clone(),
        players: [
            ServerPlayer {
                id: entry.players[0].player_id.clone(),
                name: entry.players[0].atcoder_user.clone(),
            },
            ServerPlayer {
                id: entry.players[1].player_id.clone(),
                name: entry.players[1].atcoder_user.clone(),
            },
        ],
        problem: entry.problem.duplicate(),
        status: ServerRoomStatus::Finished,
        winner_player_id: entry.winner_player_id.duplicate(),
        finish_reason: finish_reason_named(&entry.finish_reason),
        winning_submission: None,
        started_at_second: entry.started_at_second,
        player_activity,
    };
    let token = String::new();
    assert(token@ =~= seq![]);
    let session = RduelSession {
        player_id: local.player_id.clone(),
        token,
        room: Some(room),
        server_url: server_url.to_owned(),
        initial_main_rs: local.main_rs.duplicate(),
        initial_cargo_toml: local.cargo_toml.duplicate(),
        opponent_main_rs: player_code(opponent),
        initial_command_output: history_submission_output_at(now, entry),
        is_history: true,
    };
    proof {
        let expected = session_of(now, entry.deep_view(), atcoder_user.deep_view(), server_url@);
        assert(session.deep_view().room->0.player_activity
            =~= expected.room->0.player_activity);
        assert(session.deep_view().room->0 == expected.room->0);
    }
    Some(session)
}

/// The session in which the user looks at a match of the past.
pub fn rduel_session_from_history_entry(
    entry: &MatchHistoryEntry,
    atcoder_user: &Option<String>,
    server_url: &str,
) -> (r: Option<RduelSession>)
    ensures
        exists|now: i64|
            r.deep_view() == Some(
                #[trigger] session_of(
                    now,
                    entry.deep_view(),
                    atcoder_user.deep_view(),
                    server_url@,
                ),
            ),
{
    let now: i64 = outside::current_second();
    rduel_session_from_history_entry_at(now, entry, atcoder_user, server_url)
}

/// The player of a match who is the user.
pub open spec fn local_player(entry: MatchHistoryEntryModel, atcoder_user: Option<Seq<char>>)
    -> Option<MatchHistoryPlayerModel> {
    match atcoder_user {
        Some(user) => if entry.players.0.atcoder_user == user {
            Some(entry.players.0)
        } else if entry.players.1.atcoder_user == user {
            Some(entry.players.1)
        } else {
            None
        },
        None => None,
    }
}

/// How long a match took.
pub open spec fn duration_text(seconds: nat) -> Seq<char> {
    if seconds / 60 > 0 {
        seqs::decimal(seconds / 60) + ":"@ + wording::two_digits(seconds % 60)
    } else {
        seqs::decimal(seconds % 60) + "秒"@
    }
}

/// What is said of a match of the past: how often the user tried and with what verdict, and how
/// long it took.
pub open spec fn stats_of(entry: MatchHistoryEntryModel, atcoder_user: Option<Seq<char>>) -> Seq<
    Seq<char>,
> {
    (match local_player(entry, atcoder_user) {
        Some(player) => (if player.attempt_count > 0 {
            seq![seqs::decimal(player.attempt_count as nat) + "次提交"@]
        } else {
            seq![]
        }) + (match player.last_verdict {
            Some(verdict) => seq![verdict],
            None => seq![],
        }),
        None => seq![],
    }) + (match entry.finished_at_second {
        Some(end) => seq![duration_text(wording::seconds_since(end, entry.started_at_second))],
        None => seq![],
    })
}

/// What is shown of a match of the past.
pub open spec fn row_of(now: i64, entry: MatchHistoryEntryModel, atcoder_user: Option<Seq<char>>)
    -> HistoryRowModel {
    HistoryRowModel {
        title: entry.problem_id + " "@ + entry.problem_title,
        stats: seqs::join(stats_of(entry, atcoder_user), " · "@),
        time: wording::ago(
            wording::seconds_since(
                now,
                match entry.finished_at_second {
                    Some(end) => end,
                    None => entry.started_at_second,
                },
            ),
        ),
        outcome: outcome_of(entry, atcoder_user),
    }
}

fn duration_label(seconds: u64) -> (r: String)
    ensures
        r@ == duration_text(seconds as nat),
{
    let minutes: u64 = seconds / 60;
    if minutes > 0 {
        let rest = wording::two_digit_number(seconds % 60);
        wording::number(minutes).concat(":").concat(rest.as_str())
    } else {
        wording::number(seconds % 60).concat("秒")
    }
}

/// What is shown at `now` of a match of the past.
pub fn render_entry(now: i64, entry: &MatchHistoryEntry, atcoder_user: &Option<String>) -> (r:
    HistoryRow)
    ensures
        r.deep_view() == row_of(now, entry.deep_view(), atcoder_user.deep_view()),
{
    let outcome = history_outcome(entry, atcoder_user);
    let when: i64 = match entry.finished_at_second {
        Some(end) => end,
        None => entry.started_at_second,
    };
    let time = wording::format_relative_at(now, when);
    let title = entry.problem_id.clone().concat(" ").concat(entry.problem_title.as_str());
    let mut parts: Vec<String> = Vec::new();
    if let Some(user) = atcoder_user {
        let first = text::same(entry.players[0].atcoder_user.as_str(), user.as_str());
        let second = text::same(entry.players[1].atcoder_user.as_str(), user.as_str());
        if first || second {
            let player = if first {
                &entry.players[0]
            } else {
                &entry.players[1]
            };
            if player.attempt_count > 0 {
                parts.push(wording::number(player.attempt_count as u64).concat("次提交"));
            }
            if let Some(verdict) = &player.last_verdict {
                parts.push(verdict.clone());
            }
        }
    }
    if let Some(end) = entry.finished_at_second {
        parts.push(duration_label(wording::elapsed_seconds(end, entry.started_at_second)));
    }
    assert(seqs::strs(parts@) =~= stats_of(entry.deep_view(), atcoder_user.deep_view()));
    let stats = text::join_strings(&parts, " · ");
    HistoryRow { title, stats, time, outcome }
}

impl RduelHistoryModalModel {
    /// What is asked when the matches are loaded.
    pub open spec fn request(self) -> RduelMatchCommandModel {
        RduelMatchCommandModel::History {
            server_url: self.server_url,
            atcoder_user: self.atcoder_user,
        }
    }

    /// The dialog while the matches are loaded.
    pub open spec fn loading(self) -> Self {
        RduelHistoryModalModel { status: "Loading match history..."@, is_loading: true, ..self }
    }

    /// The dialog after an answer, or after none came.
    pub open spec fn loaded(self, result: Option<RduelMatchOutputModel>) -> Self {
        match result {
            Some(RduelMatchOutputModel::History { matches }) => RduelHistoryModalModel {
                status: if matches.len() == 0 {
                    "No match history found."@
                } else {
                    seq![]
                },
                matches,
                is_loading: false,
                ..self
            },
            Some(_) => RduelHistoryModalModel { is_loading: false, ..self },
            None => RduelHistoryModalModel {
                status: "Could not load match history from the server."@,
                is_loading: false,
                ..self
            },
        }
    }
}

impl RduelHistoryModal {
    /// The dialog as it opens, and what is asked then.
    pub fn new(settings: &RduelSettings) -> (r: (Self, RduelMatchCommand))
        ensures
            r.0.deep_view() == (RduelHistoryModalModel {
                server_url: seqs::trim(settings.server_url@),
                atcoder_user: if seqs::is_blank(settings.atcoder_user@) {
                    None
                } else {
                    Some(seqs::trim(settings.atcoder_user@))
                },
                status: "Loading match history..."@,
                matches: seq![],
                is_loading: true,
            }),
            r.1.deep_view() == r.0.deep_view().request(),
    {
        let atcoder_user = if text::is_blank_str(settings.atcoder_user.as_str()) {
            None
        } else {
            Some(text::trim_str(settings.atcoder_user.as_str()))
        };
        let modal = RduelHistoryModal {
            server_url: text::trim_str(settings.server_url.as_str()),
            atcoder_user,
            status: "Loading match history...".to_owned(),
            matches: Vec::new(),
            is_loading: true,
        };
        assert(modal.deep_view().matches =~= seq![]);
        let command = modal.command();
        (modal, command)
    }

    fn command(&self) -> (r: RduelMatchCommand)
        ensures
            r.deep_view() == self.deep_view().request(),
    {
        RduelMatchCommand::History {
            server_url: self.server_url.clone(),
            atcoder_user: self.atcoder_user.duplicate(),
        }
    }

    /// Loads the matches, unless they are being loaded: what is asked.
    pub fn load(&mut self) -> (r: Option<RduelMatchCommand>)
        ensures
            final(self).deep_view() == if old(self).is_loading {
                old(self).deep_view()
            } else {
                old(self).deep_view().loading()
            },
            r.deep_view() == if old(self).is_loading {
                None
            } else {
                Some(old(self).deep_view().request())
            },
    {
        if self.is_loading {
            return None;
        }
        self.is_loading = true;
        self.status = "Loading match history...".to_owned();
        Some(self.command())
    }

    /// An answer came, or none could be had.
    pub fn finish_loading(&mut self, result: Option<RduelMatchOutput>)
        ensures
            final(self).deep_view() == old(self).deep_view().loaded(result.deep_view()),
    {
        match result {
            Some(RduelMatchOutput::History { matches }) => {
                self.status = if matches.len() == 0 {
                    "No match history found.".to_owned()
                } else {
                    let empty = String::new();
                    assert(empty@ =~= seq![]);
                    empty
                };
                self.matches = matches;
            },
            Some(_) => {},
            None => {
                self.status = "Could not load match history from the server.".to_owned();
            },
        }
        self.is_loading = false;
    }

    /// The session in which the user looks at `now` at the match with the given place in the list.
    pub fn open_history_match(&self, index: usize, now: i64) -> (r: Option<RduelSession>)
        ensures
            r.deep_view() == if index < self.matches@.len() {
                Some(
                    session_of(
                        now,
                        self.deep_view().matches[index as int],
                        self.deep_view().atcoder_user,
                        self.server_url@,
                    ),
                )
            } else {
                None
            },
    {
        if index < self.matches.len() {
            rduel_session_from_history_entry_at(
                now,
                &self.matches[index],
                &self.atcoder_user,
                self.server_url.as_str(),
            )
        } else {
            None
        }
    }
}

/// A match that one of its players won is a win for that user and a loss for the other, whichever
/// of the two it was.
pub proof fn one_wins_one_loses(
    entry: MatchHistoryEntryModel,
    winner: MatchHistoryPlayerModel,
    loser: MatchHistoryPlayerModel,
)
    requires
        entry.players == (winner, loser) || entry.players == (loser, winner),
        entry.winner_player_id == Some(winner.player_id),
        winner.player_id != loser.player_id,
        winner.atcoder_user != loser.atcoder_user,
    ensures
        outcome_of(entry, Some(winner.atcoder_user)) == "Win"@,
        outcome_of(entry, Some(loser.atcoder_user)) == "Loss"@,
{
}

/// Looking at a match of the past cannot change it: the session has no token, and its match is
/// over.
pub proof fn history_is_read_only(
    now: i64,
    entry: MatchHistoryEntryModel,
    atcoder_user: Option<Seq<char>>,
    server_url: Seq<char>,
)
    ensures
        ({
            let session = session_of(now, entry, atcoder_user, server_url);
            &&& session.is_history
            &&& session.token.len() == 0
            &&& session.room matches Some(room) && room.status == ServerRoomStatus::Finished
                && room.problem == entry.problem
        }),
{
}

/// A match is a win for the user who won it and a loss for every other one; if nobody won it, or it
/// is not known who the user is or who won, it is only finished.
pub proof fn outcome_tells_winner(
    entry: MatchHistoryEntryModel,
    user: Seq<char>,
    winner: Seq<char>,
)
    ensures
        outcome_of(entry, None) == "Finished"@,
        entry.winner_player_id is None ==> outcome_of(entry, Some(user)) == "Finished"@,
        entry.winner_player_id == Some(winner) && entry.players.0.player_id != winner
            && entry.players.1.player_id != winner ==> outcome_of(entry, Some(user))
            == "Finished"@,
        entry.winner_player_id == Some(winner) && entry.players.0.player_id == winner
            ==> outcome_of(entry, Some(user)) == if entry.players.0.atcoder_user == user {
            "Win"@
        } else {
            "Loss"@
        },
        entry.winner_player_id == Some(winner) && entry.players.0.player_id != winner
            && entry.players.1.player_id == winner ==> outcome_of(entry, Some(user))
            == if entry.players.1.atcoder_user == user {
            "Win"@
        } else {
            "Loss"@
        },
{
}

/// The submissions of a match are listed under the names of those who made them, first those of the
/// first player, one line for each in their order; a player without submissions is left out.
pub proof fn submissions_stand_under_names(now: i64, entry: MatchHistoryEntryModel)
    ensures
        ({
            let first = entry.players.0;
            let second = entry.players.1;
            let shown = submissions_of(now, entry);
            &&& first.submissions.len() == 0 && second.submissions.len() == 0 ==> shown is None
            &&& first.submissions.len() > 0 || second.submissions.len() > 0 ==> {
                &&& shown is Some
                &&& shown->0.items.len() == 1
                &&& shown->0.items[0].label == "Submissions"@
                &&& shown->0.items[0].status == CommandOutputItemStatus::Warning
                &&& shown->0.items[0].detail is Some
                &&& shown->0.items[0].detail->0.heading == "Recorded submissions"@
                &&& shown->0.items[0].detail->0.diff is None
            }
            &&& first.submissions.len() > 0 ==> shown->0.items[0].detail->0.sections[0].title
                == first.atcoder_user && shown->0.items[0].detail->0.sections[0].body
                == seqs::join(
                Seq::new(
                    first.submissions.len(),
                    |i: int| submission_line(now, first.submissions[i]),
                ),
                "\n"@,
            )
            &&& second.submissions.len() > 0
                ==> shown->0.items[0].detail->0.sections.last().title == second.atcoder_user
                && shown->0.items[0].detail->0.sections.last().body == seqs::join(
                Seq::new(
                    second.submissions.len(),
                    |i: int| submission_line(now, second.submissions[i]),
                ),
                "\n"@,
            )
            &&& shown is Some ==> shown->0.items[0].detail->0.sections.len() == (
            if first.submissions.len() > 0 {
                1int
            } else {
                0int
            }) + (if second.submissions.len() > 0 {
                1int
            } else {
                0int
            })
        }),
{
}

/// A submission is listed with its number, its verdict and how long ago it was made.
pub proof fn line_tells_of_submission(now: i64, submission: MatchHistorySubmissionModel)
    ensures
        submission_line(now, submission) == "#"@ + seqs::signed_decimal(submission.id as int)
            + " · "@ + submission.verdict + " · "@ + wording::ago(
            if now > submission.epoch_second {
                (now - submission.epoch_second) as nat
            } else {
                0
            },
        ),
{
}

/// A match of the past is looked at from the side of the user: with the user's own code and with
/// the code of the other player, if that is not blank. One who did not play in it looks at it from
/// the side of the first player.
pub proof fn past_match_shows_own_side(
    now: i64,
    entry: MatchHistoryEntryModel,
    user: Option<Seq<char>>,
    server_url: Seq<char>,
)
    ensures
        ({
            let session = session_of(now, entry, user, server_url);
            let plays_second = user is Some && entry.players.1.atcoder_user == user->0
                && entry.players.0.atcoder_user != user->0;
            let own = if plays_second {
                entry.players.1
            } else {
                entry.players.0
            };
            let other = if plays_second {
                entry.players.0
            } else {
                entry.players.1
            };
            &&& session.player_id == own.player_id
            &&& session.initial_main_rs == own.main_rs
            &&& session.initial_cargo_toml == own.cargo_toml
            &&& session.server_url == server_url
            &&& session.initial_command_output == submissions_of(now, entry)
            &&& other.main_rs is None || seqs::is_blank(other.main_rs->0)
                ==> session.opponent_main_rs is None
            &&& other.main_rs is Some && !seqs::is_blank(other.main_rs->0)
                ==> session.opponent_main_rs == Some((other.atcoder_user, other.main_rs->0))
        }),
{
}

/// The room of a match of the past is that of the match, with both players, the winner, why it
/// ended, when it started, and what each player did.
pub proof fn past_match_keeps_room(
    now: i64,
    entry: MatchHistoryEntryModel,
    user: Option<Seq<char>>,
    server_url: Seq<char>,
)
    ensures
        ({
            let session = session_of(now, entry, user, server_url);
            let room = session.room->0;
            let first = entry.players.0;
            let second = entry.players.1;
            &&& session.room is Some
            &&& room.id == entry.room_id
            &&& room.problem == entry.problem
            &&& room.players.0.id == first.player_id
            &&& room.players.0.name == first.atcoder_user
            &&& room.players.1.id == second.player_id
            &&& room.players.1.name == second.atcoder_user
            &&& room.winner_player_id == entry.winner_player_id
            &&& room.started_at_second == entry.started_at_second
            &&& room.winning_submission is None
            &&& entry.finish_reason is None ==> room.finish_reason is None
            &&& entry.finish_reason == Some("accepted"@) ==> room.finish_reason == Some(
                ServerRoomFinishReason::Accepted,
            )
            &&& entry.finish_reason == Some("manual_complete"@) ==> room.finish_reason == Some(
                ServerRoomFinishReason::ManualComplete,
            )
            &&& entry.finish_reason == Some("player_left"@) ==> room.finish_reason == Some(
                ServerRoomFinishReason::PlayerLeft,
            )
            &&& room.player_activity.contains_key(second.player_id)
            &&& room.player_activity[second.player_id].attempt_count == second.attempt_count
            &&& room.player_activity[second.player_id].last_verdict == second.last_verdict
            &&& room.player_activity[second.player_id].last_submission_epoch
                == second.last_submission_epoch
            &&& room.player_activity.contains_key(first.player_id)
            &&& first.player_id != second.player_id ==> {
                &&& room.player_activity[first.player_id].attempt_count == first.attempt_count
                &&& room.player_activity[first.player_id].last_verdict == first.last_verdict
                &&& room.player_activity[first.player_id].last_submission_epoch
                    == first.last_submission_epoch
            }
        }),
{
    reveal_strlit("accepted");
    reveal_strlit("manual_complete");
    reveal_strlit("player_left");
    assert("accepted"@.len() == 8 && "manual_complete"@.len() == 15 && "player_left"@.len() == 11);
}

/// A match of the past is shown under its problem, with how it ended and when: when it finished, or
/// without that when it started. Of the user who played in it, the number of attempts is shown if
/// there was one, and the last verdict; and how long the match took is shown, if it is known.
pub proof fn row_tells_of_match(now: i64, entry: MatchHistoryEntryModel, user: Seq<char>)
    ensures
        ({
            let row = row_of(now, entry, Some(user));
            let end = match entry.finished_at_second {
                Some(end) => end,
                None => entry.started_at_second,
            };
            let none = Seq::<Seq<char>>::empty();
            let plays = entry.players.0.atcoder_user == user || entry.players.1.atcoder_user
                == user;
            let own = if entry.players.0.atcoder_user == user {
                entry.players.0
            } else {
                entry.players.1
            };
            &&& row.title == entry.problem_id + " "@ + entry.problem_title
            &&& row.outcome == outcome_of(entry, Some(user))
            &&& row.time == wording::ago(
                if now > end {
                    (now - end) as nat
                } else {
                    0
                },
            )
            &&& row.stats == seqs::join(
                (if plays && own.attempt_count > 0 {
                    seq![seqs::decimal(own.attempt_count as nat) + "次提交"@]
                } else {
                    none
                }) + (if plays && own.last_verdict is Some {
                    seq![own.last_verdict->0]
                } else {
                    none
                }) + (if entry.finished_at_second is Some {
                    seq![
                        duration_text(
                            if entry.finished_at_second->0 > entry.started_at_second {
                                (entry.finished_at_second->0 - entry.started_at_second) as nat
                            } else {
                                0
                            },
                        ),
                    ]
                } else {
                    none
                }),
                " · "@,
            )
        }),
{
    let none = Seq::<Seq<char>>::empty();
    assert(none + none =~= none);
}

/// A match of at least a minute is told in minutes and seconds, and a shorter one in seconds.
pub proof fn duration_adds_up(minutes: nat, seconds: nat)
    requires
        seconds < 60,
    ensures
        minutes > 0 ==> duration_text(minutes * 60 + seconds) == seqs::decimal(minutes) + ":"@
            + seqs::pad_left(seqs::decimal(seconds), '0', 2),
        duration_text(seconds) == seqs::decimal(seconds) + "秒"@,
{
    let whole: nat = minutes * 60 + seconds;
    assert(whole / 60 == minutes && whole % 60 == seconds);
}

/// The dialog asks its server for the matches of its user, says that they are loaded, and then shows
/// them, or says that there are none or that they could not be loaded. Another answer ends the
/// loading and changes nothing else.
pub proof fn matches_are_loaded(
    modal: RduelHistoryModalModel,
    matches: Seq<MatchHistoryEntryModel>,
    other: RduelMatchOutputModel,
)
    ensures
        modal.request() == (RduelMatchCommandModel::History {
            server_url: modal.server_url,
            atcoder_user: modal.atcoder_user,
        }),
        modal.loading() == (RduelHistoryModalModel {
            status: "Loading match history..."@,
            is_loading: true,
            ..modal
        }),
        modal.loaded(Some(RduelMatchOutputModel::History { matches })) == (RduelHistoryModalModel {
            status: if matches.len() > 0 {
                seq![]
            } else {
                "No match history found."@
            },
            matches,
            is_loading: false,
            ..modal
        }),
        modal.loaded(None) == (RduelHistoryModalModel {
            status: "Could not load match history from the server."@,
            is_loading: false,
            ..modal
        }),
        !(other is History) ==> modal.loaded(Some(other)) == (RduelHistoryModalModel {
            is_loading: false,
            ..modal
        }),
{
}
/// The models hold what the values hold, each part under its own name.
pub proof fn models_hold_their_parts(
    rduel_history_modal: RduelHistoryModal,
    history_row: HistoryRow,
)
    ensures
        rduel_history_modal.deep_view() == (RduelHistoryModalModel {
            server_url: rduel_history_modal.server_url@,
            atcoder_user: rduel_history_modal.atcoder_user.deep_view(),
            status: rduel_history_modal.status@,
            matches: rduel_history_modal.matches.deep_view(),
            is_loading: rduel_history_modal.is_loading,
        }),
        history_row.deep_view() == (HistoryRowModel {
            title: history_row.title@,
            stats: history_row.stats@,
            time: history_row.time@,
            outcome: history_row.outcome@,
        }),
{
}
/// The dialog opens while it loads, for the user and the server of the settings, without the white
/// space around them, and asks for the matches of that user.
pub proof fn dialog_opens_loading(settings: RduelSettings, opened: (RduelHistoryModal, RduelMatchCommand))
    requires
        call_ensures(RduelHistoryModal::new, (&settings,), opened),
    ensures
        ({
            let dialog = opened.0;
            let user = if seqs::is_blank(settings.atcoder_user@) {
                None
            } else {
                Some(seqs::trim(settings.atcoder_user@))
            };
            &&& dialog.is_loading
            &&& dialog.matches@.len() == 0
            &&& dialog.status@ == "Loading match history..."@
            &&& dialog.server_url@ == seqs::trim(settings.server_url@)
            &&& dialog.atcoder_user.deep_view() == user
            &&& opened.1.deep_view() == (RduelMatchCommandModel::History {
                server_url: seqs::trim(settings.server_url@),
                atcoder_user: user,
            })
        }),
{
    assert(opened.0.deep_view().matches.len() == opened.0.matches@.len());
}

/// Matches are loaded again once they are not being loaded.
pub proof fn matches_are_loaded_again(dialog: &mut RduelHistoryModal, asked: Option<RduelMatchCommand>)
    requires
        call_ensures(RduelHistoryModal::load, (dialog,), asked),
    ensures
        old(dialog).is_loading ==> asked is None && final(dialog).deep_view()
            == old(dialog).deep_view(),
        !old(dialog).is_loading ==> {
            &&& asked is Some
            &&& asked->0.deep_view() == (RduelMatchCommandModel::History {
                server_url: old(dialog).server_url@,
                atcoder_user: old(dialog).atcoder_user.deep_view(),
            })
            &&& final(dialog).is_loading
            &&& final(dialog).deep_view().matches == old(dialog).deep_view().matches
        },
{
}

/// The match that the user chose is opened, and none if there is none in that place.
pub proof fn chosen_match_is_opened(
    dialog: RduelHistoryModal,
    index: usize,
    now: i64,
    session: Option<RduelSession>,
)
    requires
        call_ensures(RduelHistoryModal::open_history_match, (&dialog, index, now), session),
    ensures
        session is Some <==> index < dialog.matches@.len(),
        session is Some ==> {
            let entry = dialog.matches@[index as int].deep_view();
            &&& session->0.is_history
            &&& session->0.room is Some
            &&& session->0.room->0.id@ == entry.room_id
            &&& session->0.server_url@ == dialog.server_url@
            &&& session->0.deep_view() == session_of(
                now,
                entry,
                dialog.atcoder_user.deep_view(),
                dialog.server_url@,
            )
        },
{
    assert(dialog.matches.deep_view().len() == dialog.matches@.len());
    if index < dialog.matches@.len() {
        assert(dialog.matches.deep_view()[index as int] == dialog.matches@[index as int].deep_view());
    }
}
} // verus!
