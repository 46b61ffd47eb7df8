//! The data of the duel server: players, rooms, submissions and what requests are answered.

use vstd::prelude::*;

use crate::copying::Duplicate;
use crate::statement::{Sample, SampleModel};
use crate::strmap::StrMap;

verus! {

/// Whether a match is still on.
#[derive(Clone, Copy, Debug, PartialEq, Eq, Structural)]
pub enum RoomStatus {
    Playing,
    Finished,
}

impl DeepView for RoomStatus {
    type V = RoomStatus;

    open spec fn deep_view(&self) -> RoomStatus {
        *self
    }
}

impl RoomStatus {
    /// The name under which the value is stored.
    pub open spec fn name(self) -> Seq<char> {
        match self {
            RoomStatus::Playing => "playing"@,
            RoomStatus::Finished => "finished"@,
        }
    }

    pub fn as_str(&self) -> (r: &'static str)
        ensures
            r@ == self.name(),
    {
        match self {
            RoomStatus::Playing => "playing",
            RoomStatus::Finished => "finished",
        }
    }
}

/// Why a match is over.
#[derive(Clone, Copy, Debug, PartialEq, Eq, Structural)]
pub enum RoomFinishReason {
    Accepted,
    ManualComplete,
    PlayerLeft,
}

impl DeepView for RoomFinishReason {
    type V = RoomFinishReason;

    open spec fn deep_view(&self) -> RoomFinishReason {
        *self
    }
}

impl RoomFinishReason {
    /// The name under which the value is stored.
    pub open spec fn name(self) -> Seq<char> {
        match self {
            RoomFinishReason::Accepted => "accepted"@,
            RoomFinishReason::ManualComplete => "manual_complete"@,
            RoomFinishReason::PlayerLeft => "player_left"@,
        }
    }

    pub fn as_str(&self) -> (r: &'static str)
        ensures
            r@ == self.name(),
    {
        match self {
            RoomFinishReason::Accepted => "accepted",
            RoomFinishReason::ManualComplete => "manual_complete",
            RoomFinishReason::PlayerLeft => "player_left",
        }
    }
}

/// A player: a public id and the AtCoder user name.
pub struct Player {
    pub id: String,
    pub name: String,
}

/// What a `Player` holds.
#[verifier::ext_equal]
pub struct PlayerModel {
    pub id: Seq<char>,
    pub name: Seq<char>,
}

impl DeepView for Player {
    type V = PlayerModel;

    open spec fn deep_view(&self) -> PlayerModel {
        PlayerModel {
            id: self.id@,
            name: self.name@,
        }
    }
}

impl Duplicate for Player {
    fn duplicate(&self) -> (r: Self) {
        Player {
            id: self.id.clone(),
            name: self.name.clone(),
        }
    }
}

/// A problem that a match can be played on.
pub struct Problem {
    pub id: String,
    pub title: String,
    pub url: String,
    pub statement_markdown: String,
    pub samples: Vec<Sample>,
}

/// What a `Problem` holds.
#[verifier::ext_equal]
pub struct ProblemModel {
    pub id: Seq<char>,
    pub title: Seq<char>,
    pub url: Seq<char>,
    pub statement_markdown: Seq<char>,
    pub samples: Seq<SampleModel>,
}

impl DeepView for Problem {
    type V = ProblemModel;

    open spec fn deep_view(&self) -> ProblemModel {
        ProblemModel {
            id: self.id@,
            title: self.title@,
            url: self.url@,
            statement_markdown: self.statement_markdown@,
            samples: self.samples.deep_view(),
        }
    }
}

impl Duplicate for Problem {
    fn duplicate(&self) -> (r: Self) {
        Problem {
            id: self.id.clone(),
            title: self.title.clone(),
            url: self.url.clone(),
            statement_markdown: self.statement_markdown.clone(),
            samples: self.samples.duplicate(),
        }
    }
}

/// A player's submission activity on the room problem since the match started.
pub struct PlayerActivity {
    pub attempt_count: u32,
    pub last_verdict: Option<String>,
    pub last_submission_epoch: Option<i64>,
}

/// What a `PlayerActivity` holds.
#[verifier::ext_equal]
pub struct PlayerActivityModel {
    pub attempt_count: u32,
    pub last_verdict: Option<Seq<char>>,
    pub last_submission_epoch: Option<i64>,
}

impl DeepView for PlayerActivity {
    type V = PlayerActivityModel;

    open spec fn deep_view(&self) -> PlayerActivityModel {
        PlayerActivityModel {
            attempt_count: self.attempt_count,
            last_verdict: self.last_verdict.deep_view(),
            last_submission_epoch: self.last_submission_epoch,
        }
    }
}

impl Duplicate for PlayerActivity {
    fn duplicate(&self) -> (r: Self) {
        PlayerActivity {
            attempt_count: self.attempt_count,
            last_verdict: self.last_verdict.duplicate(),
            last_submission_epoch: self.last_submission_epoch,
        }
    }
}

/// One submission of a player on the room problem.
pub struct PlayerSubmissionRecord {
    pub id: i64,
    pub epoch_second: i64,
    pub verdict: String,
}

/// What a `PlayerSubmissionRecord` holds.
#[verifier::ext_equal]
pub struct PlayerSubmissionRecordModel {
    pub id: i64,
    pub epoch_second: i64,
    pub verdict: Seq<char>,
}

impl DeepView for PlayerSubmissionRecord {
    type V = PlayerSubmissionRecordModel;

    open spec fn deep_view(&self) -> PlayerSubmissionRecordModel {
        PlayerSubmissionRecordModel {
            id: self.id,
            epoch_second: self.epoch_second,
            verdict: self.verdict@,
        }
    }
}

impl Duplicate for PlayerSubmissionRecord {
    fn duplicate(&self) -> (r: Self) {
        PlayerSubmissionRecord {
            id: self.id,
            epoch_second: self.epoch_second,
            verdict: self.verdict.clone(),
        }
    }
}

/// A player's code as last uploaded.
pub struct PlayerCodeSnapshot {
    pub captured_at_second: i64,
    pub main_rs: String,
    pub cargo_toml: String,
}

/// What a `PlayerCodeSnapshot` holds.
#[verifier::ext_equal]
pub struct PlayerCodeSnapshotModel {
    pub captured_at_second: i64,
    pub main_rs: Seq<char>,
    pub cargo_toml: Seq<char>,
}

impl DeepView for PlayerCodeSnapshot {
    type V = PlayerCodeSnapshotModel;

    open spec fn deep_view(&self) -> PlayerCodeSnapshotModel {
        PlayerCodeSnapshotModel {
            captured_at_second: self.captured_at_second,
            main_rs: self.main_rs@,
            cargo_toml: self.cargo_toml@,
        }
    }
}

impl Duplicate for PlayerCodeSnapshot {
    fn duplicate(&self) -> (r: Self) {
        PlayerCodeSnapshot {
            captured_at_second: self.captured_at_second,
            main_rs: self.main_rs.clone(),
            cargo_toml: self.cargo_toml.clone(),
        }
    }
}

/// The submission that decided a match.
pub struct WinningSubmission {
    pub player_id: String,
    pub atcoder_user: String,
    pub epoch_second: i64,
    pub submission_id: i64,
    pub source_code: Option<String>,
}

/// What a `WinningSubmission` holds.
#[verifier::ext_equal]
pub struct WinningSubmissionModel {
    pub player_id: Seq<char>,
    pub atcoder_user: Seq<char>,
    pub epoch_second: i64,
    pub submission_id: i64,
    pub source_code: Option<Seq<char>>,
}

impl DeepView for WinningSubmission {
    type V = WinningSubmissionModel;

    open spec fn deep_view(&self) -> WinningSubmissionModel {
        WinningSubmissionModel {
            player_id: self.player_id@,
            atcoder_user: self.atcoder_user@,
            epoch_second: self.epoch_second,
            submission_id: self.submission_id,
            source_code: self.source_code.deep_view(),
        }
    }
}

impl Duplicate for WinningSubmission {
    fn duplicate(&self) -> (r: Self) {
        WinningSubmission {
            player_id: self.player_id.clone(),
            atcoder_user: self.atcoder_user.clone(),
            epoch_second: self.epoch_second,
            submission_id: self.submission_id,
            source_code: self.source_code.duplicate(),
        }
    }
}

/// One submission as read from AtCoder.
pub struct AtCoderSubmission {
    pub id: i64,
    pub epoch_second: i64,
    pub problem_id: String,
    pub result: String,
    pub source_code: Option<String>,
}

/// What a `AtCoderSubmission` holds.
#[verifier::ext_equal]
pub struct AtCoderSubmissionModel {
    pub id: i64,
    pub epoch_second: i64,
    pub problem_id: Seq<char>,
    pub result: Seq<char>,
    pub source_code: Option<Seq<char>>,
}

impl DeepView for AtCoderSubmission {
    type V = AtCoderSubmissionModel;

    open spec fn deep_view(&self) -> AtCoderSubmissionModel {
        AtCoderSubmissionModel {
            id: self.id,
            epoch_second: self.epoch_second,
            problem_id: self.problem_id@,
            result: self.result@,
            source_code: self.source_code.deep_view(),
        }
    }
}

impl Duplicate for AtCoderSubmission {
    fn duplicate(&self) -> (r: Self) {
        AtCoderSubmission {
            id: self.id,
            epoch_second: self.epoch_second,
            problem_id: self.problem_id.clone(),
            result: self.result.clone(),
            source_code: self.source_code.duplicate(),
        }
    }
}

/// A match between two players.
pub struct Room {
    pub id: String,
    pub players: [Player; 2],
    pub problem: Problem,
    pub started_at_second: i64,
    pub status: RoomStatus,
    pub winner_player_id: Option<String>,
    pub finish_reason: Option<RoomFinishReason>,
    pub winning_submission: Option<WinningSubmission>,
    pub atcoder_users: StrMap<String>,
    /// Per-player live submission activity, shown to the client so that each side can see the
    /// opponent submitting.
    pub player_activity: StrMap<PlayerActivity>,
    pub player_submissions: StrMap<Vec<PlayerSubmissionRecord>>,
    pub code_snapshots: StrMap<PlayerCodeSnapshot>,
    pub polling_submissions: bool,
    /// Unix second at which the room became `Finished`, after which it is kept for a while.
    pub finished_at_second: Option<i64>,
}

/// What a `Room` holds.
#[verifier::ext_equal]
pub struct RoomModel {
    pub id: Seq<char>,
    pub players: (PlayerModel, PlayerModel),
    pub problem: ProblemModel,
    pub started_at_second: i64,
    pub status: RoomStatus,
    pub winner_player_id: Option<Seq<char>>,
    pub finish_reason: Option<RoomFinishReason>,
    pub winning_submission: Option<WinningSubmissionModel>,
    pub atcoder_users: Map<Seq<char>, Seq<char>>,
    pub player_activity: Map<Seq<char>, PlayerActivityModel>,
    pub player_submissions: Map<Seq<char>, Seq<PlayerSubmissionRecordModel>>,
    pub code_snapshots: Map<Seq<char>, PlayerCodeSnapshotModel>,
    pub polling_submissions: bool,
    pub finished_at_second: Option<i64>,
}

impl DeepView for Room {
    type V = RoomModel;

    open spec fn deep_view(&self) -> RoomModel {
        RoomModel {
            id: self.id@,
            players: (self.players[0].deep_view(), self.players[1].deep_view()),
            problem: self.problem.deep_view(),
            started_at_second: self.started_at_second,
            status: self.status,
            winner_player_id: self.winner_player_id.deep_view(),
            finish_reason: self.finish_reason,
            winning_submission: self.winning_submission.deep_view(),
            atcoder_users: self.atcoder_users.deep_view(),
            player_activity: self.player_activity.deep_view(),
            player_submissions: self.player_submissions.deep_view(),
            code_snapshots: self.code_snapshots.deep_view(),
            polling_submissions: self.polling_submissions,
            finished_at_second: self.finished_at_second,
        }
    }
}

impl Duplicate for Room {
    fn duplicate(&self) -> (r: Self) {
        Room {
            id: self.id.clone(),
            players: [self.players[0].duplicate(), self.players[1].duplicate()],
            problem: self.problem.duplicate(),
            started_at_second: self.started_at_second,
            status: self.status,
            winner_player_id: self.winner_player_id.duplicate(),
            finish_reason: self.finish_reason,
            winning_submission: self.winning_submission.duplicate(),
            atcoder_users: self.atcoder_users.duplicate(),
            player_activity: self.player_activity.duplicate(),
            player_submissions: self.player_submissions.duplicate(),
            code_snapshots: self.code_snapshots.duplicate(),
            polling_submissions: self.polling_submissions,
            finished_at_second: self.finished_at_second,
        }
    }
}

/// Where the server has a player.
pub enum PlayerLocation {
    Waiting,
    /// The player has been paired and taken out of the waiting queue, but the room does not exist
    /// yet because its problem is still being chosen.
    Matching,
    Room { room_id: String },
}

/// What a `PlayerLocation` holds.
#[verifier::ext_equal]
pub enum PlayerLocationModel {
    Waiting,
    Matching,
    Room { room_id: Seq<char> },
}

impl DeepView for PlayerLocation {
    type V = PlayerLocationModel;

    open spec fn deep_view(&self) -> PlayerLocationModel {
        match self {
            PlayerLocation::Waiting => PlayerLocationModel::Waiting,
            PlayerLocation::Matching => PlayerLocationModel::Matching,
            PlayerLocation::Room { room_id } => PlayerLocationModel::Room { room_id: room_id@ },
        }
    }
}

/// What a request to join is answered.
pub enum JoinResponse {
    Waiting { player_id: String, token: String },
    Matched { player_id: String, token: String, room: Room },
}

/// What a `JoinResponse` holds.
#[verifier::ext_equal]
pub enum JoinResponseModel {
    Waiting { player_id: Seq<char>, token: Seq<char> },
    Matched { player_id: Seq<char>, token: Seq<char>, room: RoomModel },
}

impl DeepView for JoinResponse {
    type V = JoinResponseModel;

    open spec fn deep_view(&self) -> JoinResponseModel {
        match self {
            JoinResponse::Waiting { player_id, token } => JoinResponseModel::Waiting {
                player_id: player_id@,
                token: token@,
            },
            JoinResponse::Matched { player_id, token, room } => JoinResponseModel::Matched {
                player_id: player_id@,
                token: token@,
                room: room.deep_view(),
            },
        }
    }
}

/// What is to be done about a request to join.
pub enum JoinDecision {
    Respond(JoinResponse),
    CreateRoom { opponent: Player, player: Player },
}

/// What a `JoinDecision` holds.
#[verifier::ext_equal]
pub enum JoinDecisionModel {
    Respond(JoinResponseModel),
    CreateRoom { opponent: PlayerModel, player: PlayerModel },
}

impl DeepView for JoinDecision {
    type V = JoinDecisionModel;

    open spec fn deep_view(&self) -> JoinDecisionModel {
        match self {
            JoinDecision::Respond(value) => JoinDecisionModel::Respond(value.deep_view()),
            JoinDecision::CreateRoom { opponent, player } => JoinDecisionModel::CreateRoom {
                opponent: opponent.deep_view(),
                player: player.deep_view(),
            },
        }
    }
}

/// What a request for the state of a player is answered.
pub enum PlayerStateResponse {
    Waiting { player_id: String },
    Matched { player_id: String, room: Room },
}

/// What a `PlayerStateResponse` holds.
#[verifier::ext_equal]
pub enum PlayerStateResponseModel {
    Waiting { player_id: Seq<char> },
    Matched { player_id: Seq<char>, room: RoomModel },
}

impl DeepView for PlayerStateResponse {
    type V = PlayerStateResponseModel;

    open spec fn deep_view(&self) -> PlayerStateResponseModel {
        match self {
            PlayerStateResponse::Waiting { player_id } => PlayerStateResponseModel::Waiting {
                player_id: player_id@,
            },
            PlayerStateResponse::Matched { player_id, room } => PlayerStateResponseModel::Matched {
                player_id: player_id@,
                room: room.deep_view(),
            },
        }
    }
}

/// What became of a request to leave.
pub enum LeaveOutcome {
    LeftWaiting,
    ForfeitedRoom(Room),
    RoomAlreadyFinished(Room),
    NotFound,
}

/// What a `LeaveOutcome` holds.
#[verifier::ext_equal]
pub enum LeaveOutcomeModel {
    LeftWaiting,
    ForfeitedRoom(RoomModel),
    RoomAlreadyFinished(RoomModel),
    NotFound,
}

impl DeepView for LeaveOutcome {
    type V = LeaveOutcomeModel;

    open spec fn deep_view(&self) -> LeaveOutcomeModel {
        match self {
            LeaveOutcome::LeftWaiting => LeaveOutcomeModel::LeftWaiting,
            LeaveOutcome::ForfeitedRoom(value) => LeaveOutcomeModel::ForfeitedRoom(value.deep_view()),
            LeaveOutcome::RoomAlreadyFinished(value) => LeaveOutcomeModel::RoomAlreadyFinished(value.deep_view()),
            LeaveOutcome::NotFound => LeaveOutcomeModel::NotFound,
        }
    }
}

/// A request to join.
pub struct JoinRequest {
    pub name: String,
    pub player_id: Option<String>,
}

/// What a `JoinRequest` holds.
#[verifier::ext_equal]
pub struct JoinRequestModel {
    pub name: Seq<char>,
    pub player_id: Option<Seq<char>>,
}

impl DeepView for JoinRequest {
    type V = JoinRequestModel;

    open spec fn deep_view(&self) -> JoinRequestModel {
        JoinRequestModel {
            name: self.name@,
            player_id: self.player_id.deep_view(),
        }
    }
}

/// The models hold what the values hold, each part under its own name.
pub proof fn models_hold_their_parts(
    player: Player,
    problem: Problem,
    player_activity: PlayerActivity,
    player_submission_record: PlayerSubmissionRecord,
    player_code_snapshot: PlayerCodeSnapshot,
    winning_submission: WinningSubmission,
    at_coder_submission: AtCoderSubmission,
    room: Room,
    player_location: PlayerLocation,
    join_response: JoinResponse,
    join_decision: JoinDecision,
    player_state_response: PlayerStateResponse,
    leave_outcome: LeaveOutcome,
    join_request: JoinRequest,
)
    ensures
        player.deep_view() == (PlayerModel {
            id: player.id@,
            name: player.name@,
        }),
        problem.deep_view() == (ProblemModel {
            id: problem.id@,
            title: problem.title@,
            url: problem.url@,
            statement_markdown: problem.statement_markdown@,
            samples: problem.samples.deep_view(),
        }),
        player_activity.deep_view() == (PlayerActivityModel {
            attempt_count: player_activity.attempt_count,
            last_verdict: player_activity.last_verdict.deep_view(),
            last_submission_epoch: player_activity.last_submission_epoch,
        }),
        player_submission_record.deep_view() == (PlayerSubmissionRecordModel {
            id: player_submission_record.id,
            epoch_second: player_submission_record.epoch_second,
            verdict: player_submission_record.verdict@,
        }),
        player_code_snapshot.deep_view() == (PlayerCodeSnapshotModel {
            captured_at_second: player_code_snapshot.captured_at_second,
            main_rs: player_code_snapshot.main_rs@,
            cargo_toml: player_code_snapshot.cargo_toml@,
        }),
        winning_submission.deep_view() == (WinningSubmissionModel {
            player_id: winning_submission.player_id@,
            atcoder_user: winning_submission.atcoder_user@,
            epoch_second: winning_submission.epoch_second,
            submission_id: winning_submission.submission_id,
            source_code: winning_submission.source_code.deep_view(),
        }),
        at_coder_submission.deep_view() == (AtCoderSubmissionModel {
            id: at_coder_submission.id,
            epoch_second: at_coder_submission.epoch_second,
            problem_id: at_coder_submission.problem_id@,
            result: at_coder_submission.result@,
            source_code: at_coder_submission.source_code.deep_view(),
        }),
        room.deep_view() == (RoomModel {
            id: room.id@,
            players: (room.players[0].deep_view(), room.players[1].deep_view()),
            problem: room.problem.deep_view(),
            started_at_second: room.started_at_second,
            status: room.status,
            winner_player_id: room.winner_player_id.deep_view(),
            finish_reason: room.finish_reason,
            winning_submission: room.winning_submission.deep_view(),
            atcoder_users: room.atcoder_users.deep_view(),
            player_activity: room.player_activity.deep_view(),
            player_submissions: room.player_submissions.deep_view(),
            code_snapshots: room.code_snapshots.deep_view(),
            polling_submissions: room.polling_submissions,
            finished_at_second: room.finished_at_second,
        }),
        player_location.deep_view() == match player_location {
            PlayerLocation::Waiting => PlayerLocationModel::Waiting,
            PlayerLocation::Matching => PlayerLocationModel::Matching,
            PlayerLocation::Room { room_id } => PlayerLocationModel::Room { room_id: room_id@ },
        },
        join_response.deep_view() == match join_response {
            JoinResponse::Waiting { player_id, token } => JoinResponseModel::Waiting {
                player_id: player_id@,
                token: token@,
            },
            JoinResponse::Matched { player_id, token, room } => JoinResponseModel::Matched {
                player_id: player_id@,
                token: token@,
                room: room.deep_view(),
            },
        },
        join_decision.deep_view() == match join_decision {
            JoinDecision::Respond(value) => JoinDecisionModel::Respond(value.deep_view()),
            JoinDecision::CreateRoom { opponent, player } => JoinDecisionModel::CreateRoom {
                opponent: opponent.deep_view(),
                player: player.deep_view(),
            },
        },
        player_state_response.deep_view() == match player_state_response {
            PlayerStateResponse::Waiting { player_id } => PlayerStateResponseModel::Waiting {
                player_id: player_id@,
            },
            PlayerStateResponse::Matched { player_id, room } => PlayerStateResponseModel::Matched {
                player_id: player_id@,
                room: room.deep_view(),
            },
        },
        leave_outcome.deep_view() == match leave_outcome {
            LeaveOutcome::LeftWaiting => LeaveOutcomeModel::LeftWaiting,
            LeaveOutcome::ForfeitedRoom(value) => LeaveOutcomeModel::ForfeitedRoom(value.deep_view()),
            LeaveOutcome::RoomAlreadyFinished(value) => LeaveOutcomeModel::RoomAlreadyFinished(value.deep_view()),
            LeaveOutcome::NotFound => LeaveOutcomeModel::NotFound,
        },
        join_request.deep_view() == (JoinRequestModel {
            name: join_request.name@,
            player_id: join_request.player_id.deep_view(),
        }),
{
}
} // verus!
