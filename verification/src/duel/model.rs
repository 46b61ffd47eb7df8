//! The data that the client gets from the match server.

use vstd::prelude::*;

use crate::copying::Duplicate;
use crate::output::{CommandOutputState, CommandOutputStateModel};
use crate::strmap::StrMap;

verus! {

/// Whether a match is still on.
#[derive(Clone, Copy, Debug, PartialEq, Eq, Structural)]
pub enum ServerRoomStatus {
    Playing,
    Finished,
}

impl DeepView for ServerRoomStatus {
    type V = ServerRoomStatus;

    open spec fn deep_view(&self) -> ServerRoomStatus {
        *self
    }
}

/// Why a match is over.
#[derive(Clone, Copy, Debug, PartialEq, Eq, Structural)]
pub enum ServerRoomFinishReason {
    Accepted,
    ManualComplete,
    PlayerLeft,
}

impl DeepView for ServerRoomFinishReason {
    type V = ServerRoomFinishReason;

    open spec fn deep_view(&self) -> ServerRoomFinishReason {
        *self
    }
}

/// A player of a match.
pub struct ServerPlayer {
    pub id: String,
    pub name: String,
}

/// What a `ServerPlayer` holds.
#[verifier::ext_equal]
pub struct ServerPlayerModel {
    pub id: Seq<char>,
    pub name: Seq<char>,
}

impl DeepView for ServerPlayer {
    type V = ServerPlayerModel;

    open spec fn deep_view(&self) -> ServerPlayerModel {
        ServerPlayerModel {
            id: self.id@,
            name: self.name@,
        }
    }
}

/// A sample of the problem of a match.
pub struct ServerSample {
    pub input: String,
    pub output: String,
}

/// What a `ServerSample` holds.
#[verifier::ext_equal]
pub struct ServerSampleModel {
    pub input: Seq<char>,
    pub output: Seq<char>,
}

impl DeepView for ServerSample {
    type V = ServerSampleModel;

    open spec fn deep_view(&self) -> ServerSampleModel {
        ServerSampleModel {
            input: self.input@,
            output: self.output@,
        }
    }
}

impl Duplicate for ServerSample {
    fn duplicate(&self) -> (r: Self) {
        ServerSample {
            input: self.input.clone(),
            output: self.output.clone(),
        }
    }
}

/// The problem of a match.
pub struct ServerProblem {
    pub id: String,
    pub title: String,
    pub url: String,
    pub statement_markdown: String,
    pub samples: Vec<ServerSample>,
}

/// What a `ServerProblem` holds.
#[verifier::ext_equal]
pub struct ServerProblemModel {
    pub id: Seq<char>,
    pub title: Seq<char>,
    pub url: Seq<char>,
    pub statement_markdown: Seq<char>,
    pub samples: Seq<ServerSampleModel>,
}

impl DeepView for ServerProblem {
    type V = ServerProblemModel;

    open spec fn deep_view(&self) -> ServerProblemModel {
        ServerProblemModel {
            id: self.id@,
            title: self.title@,
            url: self.url@,
            statement_markdown: self.statement_markdown@,
            samples: self.samples.deep_view(),
        }
    }
}

impl Duplicate for ServerProblem {
    fn duplicate(&self) -> (r: Self) {
        ServerProblem {
            id: self.id.clone(),
            title: self.title.clone(),
            url: self.url.clone(),
            statement_markdown: self.statement_markdown.clone(),
            samples: self.samples.duplicate(),
        }
    }
}

/// The submission that decided a match.
pub struct ServerWinningSubmission {
    pub player_id: String,
    pub atcoder_user: String,
    pub source_code: Option<String>,
}

/// What a `ServerWinningSubmission` holds.
#[verifier::ext_equal]
pub struct ServerWinningSubmissionModel {
    pub player_id: Seq<char>,
    pub atcoder_user: Seq<char>,
    pub source_code: Option<Seq<char>>,
}

impl DeepView for ServerWinningSubmission {
    type V = ServerWinningSubmissionModel;

    open spec fn deep_view(&self) -> ServerWinningSubmissionModel {
        ServerWinningSubmissionModel {
            player_id: self.player_id@,
            atcoder_user: self.atcoder_user@,
            source_code: self.source_code.deep_view(),
        }
    }
}

/// A player's submissions in a match, in short.
pub struct ServerPlayerActivity {
    pub attempt_count: u32,
    pub last_verdict: Option<String>,
    pub last_submission_epoch: Option<i64>,
}

/// What a `ServerPlayerActivity` holds.
#[verifier::ext_equal]
pub struct ServerPlayerActivityModel {
    pub attempt_count: u32,
    pub last_verdict: Option<Seq<char>>,
    pub last_submission_epoch: Option<i64>,
}

impl DeepView for ServerPlayerActivity {
    type V = ServerPlayerActivityModel;

    open spec fn deep_view(&self) -> ServerPlayerActivityModel {
        ServerPlayerActivityModel {
            attempt_count: self.attempt_count,
            last_verdict: self.last_verdict.deep_view(),
            last_submission_epoch: self.last_submission_epoch,
        }
    }
}

impl Duplicate for ServerPlayerActivity {
    fn duplicate(&self) -> (r: Self) {
        ServerPlayerActivity {
            attempt_count: self.attempt_count,
            last_verdict: self.last_verdict.duplicate(),
            last_submission_epoch: self.last_submission_epoch,
        }
    }
}

/// A submission of a player.
pub struct ServerPlayerSubmissionRecord {
    pub id: i64,
    pub epoch_second: i64,
    pub verdict: String,
}

/// What a `ServerPlayerSubmissionRecord` holds.
#[verifier::ext_equal]
pub struct ServerPlayerSubmissionRecordModel {
    pub id: i64,
    pub epoch_second: i64,
    pub verdict: Seq<char>,
}

impl DeepView for ServerPlayerSubmissionRecord {
    type V = ServerPlayerSubmissionRecordModel;

    open spec fn deep_view(&self) -> ServerPlayerSubmissionRecordModel {
        ServerPlayerSubmissionRecordModel {
            id: self.id,
            epoch_second: self.epoch_second,
            verdict: self.verdict@,
        }
    }
}

/// A match.
pub struct ServerRoom {
    pub id: String,
    pub players: [ServerPlayer; 2],
    pub problem: ServerProblem,
    pub status: ServerRoomStatus,
    pub winner_player_id: Option<String>,
    pub finish_reason: Option<ServerRoomFinishReason>,
    pub winning_submission: Option<ServerWinningSubmission>,
    pub started_at_second: i64,
    pub player_activity: StrMap<ServerPlayerActivity>,
}

/// What a `ServerRoom` holds.
#[verifier::ext_equal]
pub struct ServerRoomModel {
    pub id: Seq<char>,
    pub players: (ServerPlayerModel, ServerPlayerModel),
    pub problem: ServerProblemModel,
    pub status: ServerRoomStatus,
    pub winner_player_id: Option<Seq<char>>,
    pub finish_reason: Option<ServerRoomFinishReason>,
    pub winning_submission: Option<ServerWinningSubmissionModel>,
    pub started_at_second: i64,
    pub player_activity: Map<Seq<char>, ServerPlayerActivityModel>,
}

impl DeepView for ServerRoom {
    type V = ServerRoomModel;

    open spec fn deep_view(&self) -> ServerRoomModel {
        ServerRoomModel {
            id: self.id@,
            players: (self.players[0].deep_view(), self.players[1].deep_view()),
            problem: self.problem.deep_view(),
            status: self.status,
            winner_player_id: self.winner_player_id.deep_view(),
            finish_reason: self.finish_reason,
            winning_submission: self.winning_submission.deep_view(),
            started_at_second: self.started_at_second,
            player_activity: self.player_activity.deep_view(),
        }
    }
}

/// A submission that the history lists.
pub struct MatchHistorySubmission {
    pub id: i64,
    pub epoch_second: i64,
    pub verdict: String,
}

/// What a `MatchHistorySubmission` holds.
#[verifier::ext_equal]
pub struct MatchHistorySubmissionModel {
    pub id: i64,
    pub epoch_second: i64,
    pub verdict: Seq<char>,
}

impl DeepView for MatchHistorySubmission {
    type V = MatchHistorySubmissionModel;

    open spec fn deep_view(&self) -> MatchHistorySubmissionModel {
        MatchHistorySubmissionModel {
            id: self.id,
            epoch_second: self.epoch_second,
            verdict: self.verdict@,
        }
    }
}

/// What the history says of one player of a match.
pub struct MatchHistoryPlayer {
    pub player_id: String,
    pub atcoder_user: String,
    pub attempt_count: u32,
    pub last_verdict: Option<String>,
    pub last_submission_epoch: Option<i64>,
    pub submissions: Vec<MatchHistorySubmission>,
    pub main_rs: Option<String>,
    pub cargo_toml: Option<String>,
}

/// What a `MatchHistoryPlayer` holds.
#[verifier::ext_equal]
pub struct MatchHistoryPlayerModel {
    pub player_id: Seq<char>,
    pub atcoder_user: Seq<char>,
    pub attempt_count: u32,
    pub last_verdict: Option<Seq<char>>,
    pub last_submission_epoch: Option<i64>,
    pub submissions: Seq<MatchHistorySubmissionModel>,
    pub main_rs: Option<Seq<char>>,
    pub cargo_toml: Option<Seq<char>>,
}

impl DeepView for MatchHistoryPlayer {
    type V = MatchHistoryPlayerModel;

    open spec fn deep_view(&self) -> MatchHistoryPlayerModel {
        MatchHistoryPlayerModel {
            player_id: self.player_id@,
            atcoder_user: self.atcoder_user@,
            attempt_count: self.attempt_count,
            last_verdict: self.last_verdict.deep_view(),
            last_submission_epoch: self.last_submission_epoch,
            submissions: self.submissions.deep_view(),
            main_rs: self.main_rs.deep_view(),
            cargo_toml: self.cargo_toml.deep_view(),
        }
    }
}

/// What the history says of a match.
pub struct MatchHistoryEntry {
    pub room_id: String,
    pub problem_id: String,
    pub problem_title: String,
    pub problem: ServerProblem,
    pub started_at_second: i64,
    pub finished_at_second: Option<i64>,
    pub finish_reason: Option<String>,
    pub winner_player_id: Option<String>,
    pub players: [MatchHistoryPlayer; 2],
}

/// What a `MatchHistoryEntry` holds.
#[verifier::ext_equal]
pub struct MatchHistoryEntryModel {
    pub room_id: Seq<char>,
    pub problem_id: Seq<char>,
    pub problem_title: Seq<char>,
    pub problem: ServerProblemModel,
    pub started_at_second: i64,
    pub finished_at_second: Option<i64>,
    pub finish_reason: Option<Seq<char>>,
    pub winner_player_id: Option<Seq<char>>,
    pub players: (MatchHistoryPlayerModel, MatchHistoryPlayerModel),
}

impl DeepView for MatchHistoryEntry {
    type V = MatchHistoryEntryModel;

    open spec fn deep_view(&self) -> MatchHistoryEntryModel {
        MatchHistoryEntryModel {
            room_id: self.room_id@,
            problem_id: self.problem_id@,
            problem_title: self.problem_title@,
            problem: self.problem.deep_view(),
            started_at_second: self.started_at_second,
            finished_at_second: self.finished_at_second,
            finish_reason: self.finish_reason.deep_view(),
            winner_player_id: self.winner_player_id.deep_view(),
            players: (self.players[0].deep_view(), self.players[1].deep_view()),
        }
    }
}

/// What a view of a match is opened with.
pub struct RduelSession {
    pub player_id: String,
    pub token: String,
    pub room: Option<ServerRoom>,
    pub server_url: String,
    pub initial_main_rs: Option<String>,
    pub initial_cargo_toml: Option<String>,
    /// The AtCoder user of the opponent and its code.
    pub opponent_main_rs: Option<(String, String)>,
    pub initial_command_output: Option<CommandOutputState>,
    /// Whether the match is one of the history, which is over.
    pub is_history: bool,
}

/// What a `RduelSession` holds.
#[verifier::ext_equal]
pub struct RduelSessionModel {
    pub player_id: Seq<char>,
    pub token: Seq<char>,
    pub room: Option<ServerRoomModel>,
    pub server_url: Seq<char>,
    pub initial_main_rs: Option<Seq<char>>,
    pub initial_cargo_toml: Option<Seq<char>>,
    pub opponent_main_rs: Option<(Seq<char>, Seq<char>)>,
    pub initial_command_output: Option<CommandOutputStateModel>,
    pub is_history: bool,
}

impl DeepView for RduelSession {
    type V = RduelSessionModel;

    open spec fn deep_view(&self) -> RduelSessionModel {
        RduelSessionModel {
            player_id: self.player_id@,
            token: self.token@,
            room: self.room.deep_view(),
            server_url: self.server_url@,
            initial_main_rs: self.initial_main_rs.deep_view(),
            initial_cargo_toml: self.initial_cargo_toml.deep_view(),
            opponent_main_rs: self.opponent_main_rs.deep_view(),
            initial_command_output: self.initial_command_output.deep_view(),
            is_history: self.is_history,
        }
    }
}

/// The models hold what the values hold, each part under its own name.
pub proof fn models_hold_their_parts(
    server_player: ServerPlayer,
    server_sample: ServerSample,
    server_problem: ServerProblem,
    server_winning_submission: ServerWinningSubmission,
    server_player_activity: ServerPlayerActivity,
    server_player_submission_record: ServerPlayerSubmissionRecord,
    server_room: ServerRoom,
    match_history_submission: MatchHistorySubmission,
    match_history_player: MatchHistoryPlayer,
    match_history_entry: MatchHistoryEntry,
    rduel_session: RduelSession,
)
    ensures
        server_player.deep_view() == (ServerPlayerModel {
            id: server_player.id@,
            name: server_player.name@,
        }),
        server_sample.deep_view() == (ServerSampleModel {
            input: server_sample.input@,
            output: server_sample.output@,
        }),
        server_problem.deep_view() == (ServerProblemModel {
            id: server_problem.id@,
            title: server_problem.title@,
            url: server_problem.url@,
            statement_markdown: server_problem.statement_markdown@,
            samples: server_problem.samples.deep_view(),
        }),
        server_winning_submission.deep_view() == (ServerWinningSubmissionModel {
            player_id: server_winning_submission.player_id@,
            atcoder_user: server_winning_submission.atcoder_user@,
            source_code: server_winning_submission.source_code.deep_view(),
        }),
        server_player_activity.deep_view() == (ServerPlayerActivityModel {
            attempt_count: server_player_activity.attempt_count,
            last_verdict: server_player_activity.last_verdict.deep_view(),
            last_submission_epoch: server_player_activity.last_submission_epoch,
        }),
        server_player_submission_record.deep_view() == (ServerPlayerSubmissionRecordModel {
            id: server_player_submission_record.id,
            epoch_second: server_player_submission_record.epoch_second,
            verdict: server_player_submission_record.verdict@,
        }),
        server_room.deep_view() == (ServerRoomModel {
            id: server_room.id@,
            players: (server_room.players[0].deep_view(), server_room.players[1].deep_view()),
            problem: server_room.problem.deep_view(),
            status: server_room.status,
            winner_player_id: server_room.winner_player_id.deep_view(),
            finish_reason: server_room.finish_reason,
            winning_submission: server_room.winning_submission.deep_view(),
            started_at_second: server_room.started_at_second,
            player_activity: server_room.player_activity.deep_view(),
        }),
        match_history_submission.deep_view() == (MatchHistorySubmissionModel {
            id: match_history_submission.id,
            epoch_second: match_history_submission.epoch_second,
            verdict: match_history_submission.verdict@,
        }),
        match_history_player.deep_view() == (MatchHistoryPlayerModel {
            player_id: match_history_player.player_id@,
            atcoder_user: match_history_player.atcoder_user@,
            attempt_count: match_history_player.attempt_count,
            last_verdict: match_history_player.last_verdict.deep_view(),
            last_submission_epoch: match_history_player.last_submission_epoch,
            submissions: match_history_player.submissions.deep_view(),
            main_rs: match_history_player.main_rs.deep_view(),
            cargo_toml: match_history_player.cargo_toml.deep_view(),
        }),
        match_history_entry.deep_view() == (MatchHistoryEntryModel {
            room_id: match_history_entry.room_id@,
            problem_id: match_history_entry.problem_id@,
            problem_title: match_history_entry.problem_title@,
            problem: match_history_entry.problem.deep_view(),
            started_at_second: match_history_entry.started_at_second,
            finished_at_second: match_history_entry.finished_at_second,
            finish_reason: match_history_entry.finish_reason.deep_view(),
            winner_player_id: match_history_entry.winner_player_id.deep_view(),
            players: (match_history_entry.players[0].deep_view(), match_history_entry.players[1].deep_view()),
        }),
        rduel_session.deep_view() == (RduelSessionModel {
            player_id: rduel_session.player_id@,
            token: rduel_session.token@,
            room: rduel_session.room.deep_view(),
            server_url: rduel_session.server_url@,
            initial_main_rs: rduel_session.initial_main_rs.deep_view(),
            initial_cargo_toml: rduel_session.initial_cargo_toml.deep_view(),
            opponent_main_rs: rduel_session.opponent_main_rs.deep_view(),
            initial_command_output: rduel_session.initial_command_output.deep_view(),
            is_history: rduel_session.is_history,
        }),
{
}
} // verus!
