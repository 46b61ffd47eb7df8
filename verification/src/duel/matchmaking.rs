//! Looking for an opponent, and the requests of a match.

use vstd::prelude::*;

use crate::copying::Duplicate;
use crate::duel::model::{
    MatchHistoryEntry, MatchHistoryEntryModel, RduelSession, RduelSessionModel,
    ServerPlayerSubmissionRecord, ServerPlayerSubmissionRecordModel, ServerRoom, ServerRoomModel,
};
use crate::duel::settings::{LocalRduelConfig, LocalRduelConfigModel, RduelSettings};
use crate::seqs;
use crate::text;

verus! {

/// Something to ask of the match server.
#[allow(inconsistent_fields)]
pub enum RduelMatchCommand {
    /// Look for an opponent.
    Join { server_url: String, player_id: Option<String>, name: String },
    /// Ask whether an opponent was found.
    Poll { server_url: String, player_id: String },
    /// Ask how a match stands.
    PollRoom { server_url: String, room_id: String },
    /// Have the submissions of a match watched.
    WatchSubmissions {
        server_url: String,
        room_id: String,
        player_id: String,
        token: String,
        from_second: i64,
    },
    /// Hand in the code as it is now.
    UploadCodeSnapshot {
        server_url: String,
        room_id: String,
        player_id: String,
        token: String,
        main_rs: String,
        cargo_toml: String,
    },
    /// Ask for matches of the past.
    History { server_url: String, atcoder_user: Option<String> },
    /// Leave the queue or the match.
    Leave {
        server_url: String,
        player_id: String,
        token: String,
        main_rs: Option<String>,
        cargo_toml: Option<String>,
    },
}

/// What a `RduelMatchCommand` holds.
#[verifier::ext_equal]
#[allow(inconsistent_fields)]
pub enum RduelMatchCommandModel {
    Join { server_url: Seq<char>, player_id: Option<Seq<char>>, name: Seq<char> },
    Poll { server_url: Seq<char>, player_id: Seq<char> },
    PollRoom { server_url: Seq<char>, room_id: Seq<char> },
    WatchSubmissions {
        server_url: Seq<char>,
        room_id: Seq<char>,
        player_id: Seq<char>,
        token: Seq<char>,
        from_second: i64,
    },
    UploadCodeSnapshot {
        server_url: Seq<char>,
        room_id: Seq<char>,
        player_id: Seq<char>,
        token: Seq<char>,
        main_rs: Seq<char>,
        cargo_toml: Seq<char>,
    },
    History { server_url: Seq<char>, atcoder_user: Option<Seq<char>> },
    Leave {
        server_url: Seq<char>,
        player_id: Seq<char>,
        token: Seq<char>,
        main_rs: Option<Seq<char>>,
        cargo_toml: Option<Seq<char>>,
    },
}

impl DeepView for RduelMatchCommand {
    type V = RduelMatchCommandModel;

    open spec fn deep_view(&self) -> RduelMatchCommandModel {
        match self {
            RduelMatchCommand::Join {
                server_url,
                player_id,
                name,
            } => RduelMatchCommandModel::Join {
                server_url: server_url@,
                player_id: player_id.deep_view(),
                name: name@,
            },
            RduelMatchCommand::Poll { server_url, player_id } => RduelMatchCommandModel::Poll {
                server_url: server_url@,
                player_id: player_id@,
            },
            RduelMatchCommand::PollRoom {
                server_url,
                room_id,
            } => RduelMatchCommandModel::PollRoom {
                server_url: server_url@,
                room_id: room_id@,
            },
            RduelMatchCommand::WatchSubmissions {
                server_url,
                room_id,
                player_id,
                token,
                from_second,
            } => RduelMatchCommandModel::WatchSubmissions {
                server_url: server_url@,
                room_id: room_id@,
                player_id: player_id@,
                token: token@,
                from_second: *from_second,
            },
            RduelMatchCommand::UploadCodeSnapshot {
                server_url,
                room_id,
                player_id,
                token,
                main_rs,
                cargo_toml,
            } => RduelMatchCommandModel::UploadCodeSnapshot {
                server_url: server_url@,
                room_id: room_id@,
                player_id: player_id@,
                token: token@,
                main_rs: main_rs@,
                cargo_toml: cargo_toml@,
            },
            RduelMatchCommand::History {
                server_url,
                atcoder_user,
            } => RduelMatchCommandModel::History {
                server_url: server_url@,
                atcoder_user: atcoder_user.deep_view(),
            },
            RduelMatchCommand::Leave {
                server_url,
                player_id,
                token,
                main_rs,
                cargo_toml,
            } => RduelMatchCommandModel::Leave {
                server_url: server_url@,
                player_id: player_id@,
                token: token@,
                main_rs: main_rs.deep_view(),
                cargo_toml: cargo_toml.deep_view(),
            },
        }
    }
}

/// What the match server answered.
#[allow(inconsistent_fields)]
pub enum RduelMatchOutput {
    Waiting { player_id: String, token: Option<String> },
    Matched { player_id: String, token: Option<String>, room: ServerRoom },
    RoomStatus { room: ServerRoom },
    SubmissionCheck { room: ServerRoom, detected_submission: Option<ServerPlayerSubmissionRecord> },
    History { matches: Vec<MatchHistoryEntry> },
}

/// What a `RduelMatchOutput` holds.
#[verifier::ext_equal]
#[allow(inconsistent_fields)]
pub enum RduelMatchOutputModel {
    Waiting { player_id: Seq<char>, token: Option<Seq<char>> },
    Matched { player_id: Seq<char>, token: Option<Seq<char>>, room: ServerRoomModel },
    RoomStatus { room: ServerRoomModel },
    SubmissionCheck {
        room: ServerRoomModel,
        detected_submission: Option<ServerPlayerSubmissionRecordModel>,
    },
    History { matches: Seq<MatchHistoryEntryModel> },
}

impl DeepView for RduelMatchOutput {
    type V = RduelMatchOutputModel;

    open spec fn deep_view(&self) -> RduelMatchOutputModel {
        match self {
            RduelMatchOutput::Waiting { player_id, token } => RduelMatchOutputModel::Waiting {
                player_id: player_id@,
                token: token.deep_view(),
            },
            RduelMatchOutput::Matched { player_id, token, room } => RduelMatchOutputModel::Matched {
                player_id: player_id@,
                token: token.deep_view(),
                room: room.deep_view(),
            },
            RduelMatchOutput::RoomStatus { room } => RduelMatchOutputModel::RoomStatus {
                room: room.deep_view(),
            },
            RduelMatchOutput::SubmissionCheck {
                room,
                detected_submission,
            } => RduelMatchOutputModel::SubmissionCheck {
                room: room.deep_view(),
                detected_submission: detected_submission.deep_view(),
            },
            RduelMatchOutput::History { matches } => RduelMatchOutputModel::History {
                matches: matches.deep_view(),
            },
        }
    }
}

/// What is sent along with a request.
#[allow(inconsistent_fields)]
pub enum RequestBody {
    /// There is no body.
    Empty,
    Join { name: String, player_id: Option<String> },
    SubmissionCheck { player_id: String, token: String, from_second: i64 },
    CodeSnapshot { player_id: String, token: String, main_rs: String, cargo_toml: String },
    Leave { token: String, main_rs: Option<String>, cargo_toml: Option<String> },
}

/// What a `RequestBody` holds.
#[verifier::ext_equal]
#[allow(inconsistent_fields)]
pub enum RequestBodyModel {
    Empty,
    Join { name: Seq<char>, player_id: Option<Seq<char>> },
    SubmissionCheck { player_id: Seq<char>, token: Seq<char>, from_second: i64 },
    CodeSnapshot {
        player_id: Seq<char>,
        token: Seq<char>,
        main_rs: Seq<char>,
        cargo_toml: Seq<char>,
    },
    Leave { token: Seq<char>, main_rs: Option<Seq<char>>, cargo_toml: Option<Seq<char>> },
}

impl DeepView for RequestBody {
    type V = RequestBodyModel;

    open spec fn deep_view(&self) -> RequestBodyModel {
        match self {
            RequestBody::Empty => RequestBodyModel::Empty,
            RequestBody::Join { name, player_id } => RequestBodyModel::Join {
                name: name@,
                player_id: player_id.deep_view(),
            },
            RequestBody::SubmissionCheck {
                player_id,
                token,
                from_second,
            } => RequestBodyModel::SubmissionCheck {
                player_id: player_id@,
                token: token@,
                from_second: *from_second,
            },
            RequestBody::CodeSnapshot {
                player_id,
                token,
                main_rs,
                cargo_toml,
            } => RequestBodyModel::CodeSnapshot {
                player_id: player_id@,
                token: token@,
                main_rs: main_rs@,
                cargo_toml: cargo_toml@,
            },
            RequestBody::Leave { token, main_rs, cargo_toml } => RequestBodyModel::Leave {
                token: token@,
                main_rs: main_rs.deep_view(),
                cargo_toml: cargo_toml.deep_view(),
            },
        }
    }
}

/// A request to the match server.
pub struct MatchRequest {
    pub server_url: String,
    pub method: String,
    pub path: String,
    pub body: RequestBody,
}

/// What a `MatchRequest` holds.
#[verifier::ext_equal]
pub struct MatchRequestModel {
    pub server_url: Seq<char>,
    pub method: Seq<char>,
    pub path: Seq<char>,
    pub body: RequestBodyModel,
}

impl DeepView for MatchRequest {
    type V = MatchRequestModel;

    open spec fn deep_view(&self) -> MatchRequestModel {
        MatchRequestModel {
            server_url: self.server_url@,
            method: self.method@,
            path: self.path@,
            body: self.body.deep_view(),
        }
    }
}

/// The answer to a player who looks for an opponent.
pub enum JoinResponse {
    Waiting { player_id: String, token: String },
    Matched { player_id: String, token: String, room: ServerRoom },
}

/// What a `JoinResponse` holds.
#[verifier::ext_equal]
pub enum JoinResponseModel {
    Waiting { player_id: Seq<char>, token: Seq<char> },
    Matched { player_id: Seq<char>, token: Seq<char>, room: ServerRoomModel },
}

impl DeepView for JoinResponse {
    type V = JoinResponseModel;

    open spec fn deep_view(&self) -> JoinResponseModel {
        match self {
            JoinResponse::Waiting { player_id, token } => JoinResponseModel::Waiting {
                player_id: player_id@,
                token: token@,
            },
            JoinResponse::Matched { player_id, token, room } => JoinResponseModel::Matched {
                player_id: player_id@,
                token: token@,
                room: room.deep_view(),
            },
        }
    }
}

/// The answer to a player who waits for an opponent.
pub enum PlayerStateResponse {
    Waiting { player_id: String },
    Matched { player_id: String, room: ServerRoom },
}

/// What a `PlayerStateResponse` holds.
#[verifier::ext_equal]
pub enum PlayerStateResponseModel {
    Waiting { player_id: Seq<char> },
    Matched { player_id: Seq<char>, room: ServerRoomModel },
}

impl DeepView for PlayerStateResponse {
    type V = PlayerStateResponseModel;

    open spec fn deep_view(&self) -> PlayerStateResponseModel {
        match self {
            PlayerStateResponse::Waiting { player_id } => PlayerStateResponseModel::Waiting {
                player_id: player_id@,
            },
            PlayerStateResponse::Matched { player_id, room } => PlayerStateResponseModel::Matched {
                player_id: player_id@,
                room: room.deep_view(),
            },
        }
    }
}

/// The answer to a player who has submissions watched.
pub struct ServerSubmissionCheckResponse {
    pub room: ServerRoom,
    pub detected_submission: Option<ServerPlayerSubmissionRecord>,
}

/// What a `ServerSubmissionCheckResponse` holds.
#[verifier::ext_equal]
pub struct ServerSubmissionCheckResponseModel {
    pub room: ServerRoomModel,
    pub detected_submission: Option<ServerPlayerSubmissionRecordModel>,
}

impl DeepView for ServerSubmissionCheckResponse {
    type V = ServerSubmissionCheckResponseModel;

    open spec fn deep_view(&self) -> ServerSubmissionCheckResponseModel {
        ServerSubmissionCheckResponseModel {
            room: self.room.deep_view(),
            detected_submission: self.detected_submission.deep_view(),
        }
    }
}

/// The answer to a question for matches of the past.
pub struct MatchHistoryResponse {
    pub matches: Vec<MatchHistoryEntry>,
}

/// What a `MatchHistoryResponse` holds.
#[verifier::ext_equal]
pub struct MatchHistoryResponseModel {
    pub matches: Seq<MatchHistoryEntryModel>,
}

impl DeepView for MatchHistoryResponse {
    type V = MatchHistoryResponseModel;

    open spec fn deep_view(&self) -> MatchHistoryResponseModel {
        MatchHistoryResponseModel {
            matches: self.matches.deep_view(),
        }
    }
}

/// An answer of the match server.
pub enum MatchResponse {
    Join(JoinResponse),
    Player(PlayerStateResponse),
    Room(ServerRoom),
    SubmissionCheck(ServerSubmissionCheckResponse),
    History(MatchHistoryResponse),
    /// Whatever it was, nothing in it counts.
    Left,
}

/// What a `MatchResponse` holds.
#[verifier::ext_equal]
pub enum MatchResponseModel {
    Join(JoinResponseModel),
    Player(PlayerStateResponseModel),
    Room(ServerRoomModel),
    SubmissionCheck(ServerSubmissionCheckResponseModel),
    History(MatchHistoryResponseModel),
    Left,
}

impl DeepView for MatchResponse {
    type V = MatchResponseModel;

    open spec fn deep_view(&self) -> MatchResponseModel {
        match self {
            MatchResponse::Join(value) => MatchResponseModel::Join(value.deep_view()),
            MatchResponse::Player(value) => MatchResponseModel::Player(value.deep_view()),
            MatchResponse::Room(value) => MatchResponseModel::Room(value.deep_view()),
            MatchResponse::SubmissionCheck(value) => MatchResponseModel::SubmissionCheck(value.deep_view()),
            MatchResponse::History(value) => MatchResponseModel::History(value.deep_view()),
            MatchResponse::Left => MatchResponseModel::Left,
        }
    }
}

/// Which of the answers is expected.
#[derive(Clone, Copy, Debug, PartialEq, Eq, Structural)]
pub enum ResponseKind {
    Join,
    Player,
    Room,
    SubmissionCheck,
    History,
    Left,
}

/// The dialog in which a player looks for an opponent.
pub struct RduelMatchModal {
    pub server_url: String,
    pub player_id: Option<String>,
    pub token: Option<String>,
    pub status: String,
    pub is_waiting: bool,
}

/// What a `RduelMatchModal` holds.
#[verifier::ext_equal]
pub struct RduelMatchModalModel {
    pub server_url: Seq<char>,
    pub player_id: Option<Seq<char>>,
    pub token: Option<Seq<char>>,
    pub status: Seq<char>,
    pub is_waiting: bool,
}

impl DeepView for RduelMatchModal {
    type V = RduelMatchModalModel;

    open spec fn deep_view(&self) -> RduelMatchModalModel {
        RduelMatchModalModel {
            server_url: self.server_url@,
            player_id: self.player_id.deep_view(),
            token: self.token.deep_view(),
            status: self.status@,
            is_waiting: self.is_waiting,
        }
    }
}

/// What follows an answer of the match server.
pub enum MatchStep {
    /// Nothing but showing the dialog.
    Stay,
    /// Ask again after a while.
    Poll(RduelMatchCommand),
    /// Close the dialog and open the match.
    Open(RduelSession),
}

/// What a `MatchStep` holds.
#[verifier::ext_equal]
pub enum MatchStepModel {
    Stay,
    Poll(RduelMatchCommandModel),
    Open(RduelSessionModel),
}

impl DeepView for MatchStep {
    type V = MatchStepModel;

    open spec fn deep_view(&self) -> MatchStepModel {
        match self {
            MatchStep::Stay => MatchStepModel::Stay,
            MatchStep::Poll(value) => MatchStepModel::Poll(value.deep_view()),
            MatchStep::Open(value) => MatchStepModel::Open(value.deep_view()),
        }
    }
}

impl RduelMatchCommandModel {
    /// The request that asks it.
    pub open spec fn request(self) -> MatchRequestModel {
        match self {
            RduelMatchCommandModel::Join { server_url, player_id, name } => MatchRequestModel {
                server_url,
                method: "POST"@,
                path: "/join"@,
                body: RequestBodyModel::Join { name, player_id },
            },
            RduelMatchCommandModel::Poll { server_url, player_id } => MatchRequestModel {
                server_url,
                method: "GET"@,
                path: "/players/"@ + player_id,
                body: RequestBodyModel::Empty,
            },
            RduelMatchCommandModel::PollRoom { server_url, room_id } => MatchRequestModel {
                server_url,
                method: "GET"@,
                path: "/rooms/"@ + room_id,
                body: RequestBodyModel::Empty,
            },
            RduelMatchCommandModel::WatchSubmissions {
                server_url,
                room_id,
                player_id,
                token,
                from_second,
            } => MatchRequestModel {
                server_url,
                method: "POST"@,
                path: "/rooms/"@ + room_id + "/watch-submissions"@,
                body: RequestBodyModel::SubmissionCheck { player_id, token, from_second },
            },
            RduelMatchCommandModel::UploadCodeSnapshot {
                server_url,
                room_id,
                player_id,
                token,
                main_rs,
                cargo_toml,
            } => MatchRequestModel {
                server_url,
                method: "POST"@,
                path: "/rooms/"@ + room_id + "/code-snapshot"@,
                body: RequestBodyModel::CodeSnapshot { player_id, token, main_rs, cargo_toml },
            },
            RduelMatchCommandModel::History { server_url, atcoder_user } => MatchRequestModel {
                server_url,
                method: "GET"@,
                path: match atcoder_user {
                    Some(atcoder_user) => "/history/users/"@ + atcoder_user + "?limit=50"@,
                    None => "/history?limit=50"@,
                },
                body: RequestBodyModel::Empty,
            },
            RduelMatchCommandModel::Leave { server_url, player_id, token, main_rs, cargo_toml } =>
            MatchRequestModel {
                server_url,
                method: "POST"@,
                path: "/players/"@ + player_id + "/leave"@,
                body: RequestBodyModel::Leave { token, main_rs, cargo_toml },
            },
        }
    }

    /// The answer that is expected to it.
    pub open spec fn kind(self) -> ResponseKind {
        match self {
            RduelMatchCommandModel::Join { .. } => ResponseKind::Join,
            RduelMatchCommandModel::Poll { .. } => ResponseKind::Player,
            RduelMatchCommandModel::PollRoom { .. } => ResponseKind::Room,
            RduelMatchCommandModel::WatchSubmissions { .. } => ResponseKind::SubmissionCheck,
            RduelMatchCommandModel::UploadCodeSnapshot { .. } => ResponseKind::Room,
            RduelMatchCommandModel::History { .. } => ResponseKind::History,
            RduelMatchCommandModel::Leave { .. } => ResponseKind::Left,
        }
    }

    /// What an answer to it comes to. One who leaves is told nothing but who they were.
    pub open spec fn outcome(self, response: MatchResponseModel) -> RduelMatchOutputModel {
        match response {
            MatchResponseModel::Join(JoinResponseModel::Waiting { player_id, token }) =>
            RduelMatchOutputModel::Waiting { player_id, token: Some(token) },
            MatchResponseModel::Join(JoinResponseModel::Matched { player_id, token, room }) =>
            RduelMatchOutputModel::Matched { player_id, token: Some(token), room },
            MatchResponseModel::Player(PlayerStateResponseModel::Waiting { player_id }) =>
            RduelMatchOutputModel::Waiting { player_id, token: None },
            MatchResponseModel::Player(PlayerStateResponseModel::Matched { player_id, room }) =>
            RduelMatchOutputModel::Matched { player_id, token: None, room },
            MatchResponseModel::Room(room) => RduelMatchOutputModel::RoomStatus { room },
            MatchResponseModel::SubmissionCheck(check) => RduelMatchOutputModel::SubmissionCheck {
                room: check.room,
                detected_submission: check.detected_submission,
            },
            MatchResponseModel::History(history) => RduelMatchOutputModel::History {
                matches: history.matches,
            },
            MatchResponseModel::Left => RduelMatchOutputModel::Waiting {
                player_id: self->Leave_player_id,
                token: None,
            },
        }
    }
}

impl MatchResponseModel {
    pub open spec fn kind(self) -> ResponseKind {
        match self {
            MatchResponseModel::Join(_) => ResponseKind::Join,
            MatchResponseModel::Player(_) => ResponseKind::Player,
            MatchResponseModel::Room(_) => ResponseKind::Room,
            MatchResponseModel::SubmissionCheck(_) => ResponseKind::SubmissionCheck,
            MatchResponseModel::History(_) => ResponseKind::History,
            MatchResponseModel::Left => ResponseKind::Left,
        }
    }
}

impl MatchResponse {
    /// Which of the answers it is.
    pub fn kind(&self) -> (r: ResponseKind)
        ensures
            r == self.deep_view().kind(),
    {
        match self {
            MatchResponse::Join(_) => ResponseKind::Join,
            MatchResponse::Player(_) => ResponseKind::Player,
            MatchResponse::Room(_) => ResponseKind::Room,
            MatchResponse::SubmissionCheck(_) => ResponseKind::SubmissionCheck,
            MatchResponse::History(_) => ResponseKind::History,
            MatchResponse::Left => ResponseKind::Left,
        }
    }
}

fn request_to(server_url: &String, method: &str, path: String, body: RequestBody) -> (r:
    MatchRequest)
    ensures
        r.deep_view() == (MatchRequestModel {
            server_url: server_url@,
            method: method@,
            path: path@,
            body: body.deep_view(),
        }),
{
    MatchRequest { server_url: server_url.clone(), method: method.to_owned(), path, body }
}

impl RduelMatchCommand {
    /// The request that asks it.
    pub fn request(&self) -> (r: MatchRequest)
        ensures
            r.deep_view() == self.deep_view().request(),
    {
        match self {
            RduelMatchCommand::Join { server_url, player_id, name } => request_to(
                server_url,
                "POST",
                "/join".to_owned(),
                RequestBody::Join { name: name.clone(), player_id: player_id.duplicate() },
            ),
            RduelMatchCommand::Poll { server_url, player_id } => request_to(
                server_url,
                "GET",
                "/players/".to_owned().concat(player_id.as_str()),
                RequestBody::Empty,
            ),
            RduelMatchCommand::PollRoom { server_url, room_id } => request_to(
                server_url,
                "GET",
                "/rooms/".to_owned().concat(room_id.as_str()),
                RequestBody::Empty,
            ),
            RduelMatchCommand::WatchSubmissions {
                server_url,
                room_id,
                player_id,
                token,
                from_second,
            } => request_to(
                server_url,
                "POST",
                "/rooms/".to_owned().concat(room_id.as_str()).concat("/watch-submissions"),
                RequestBody::SubmissionCheck {
                    player_id: player_id.clone(),
                    token: token.clone(),
                    from_second: *from_second,
                },
            ),
            RduelMatchCommand::UploadCodeSnapshot {
                server_url,
                room_id,
                player_id,
                token,
                main_rs,
                cargo_toml,
            } => request_to(
                server_url,
                "POST",
                "/rooms/".to_owned().concat(room_id.as_str()).concat("/code-snapshot"),
                RequestBody::CodeSnapshot {
                    player_id: player_id.clone(),
                    token: token.clone(),
                    main_rs: main_rs.clone(),
                    cargo_toml: cargo_toml.clone(),
                },
            ),
            RduelMatchCommand::History { server_url, atcoder_user } => {
                let path = match atcoder_user {
                    Some(atcoder_user) => "/history/users/".to_owned().concat(
                        atcoder_user.as_str(),
                    ).concat("?limit=50"),
                    None => "/history?limit=50".to_owned(),
                };
                request_to(server_url, "GET", path, RequestBody::Empty)
            },
            RduelMatchCommand::Leave { server_url, player_id, token, main_rs, cargo_toml } =>
            request_to(
                server_url,
                "POST",
                "/players/".to_owned().concat(player_id.as_str()).concat("/leave"),
                RequestBody::Leave {
                    token: token.clone(),
                    main_rs: main_rs.duplicate(),
                    cargo_toml: cargo_toml.duplicate(),
                },
            ),
        }
    }

    /// The answer that is expected to it.
    pub fn response_kind(&self) -> (r: ResponseKind)
        ensures
            r == self.deep_view().kind(),
    {
        match self {
            RduelMatchCommand::Join { .. } => ResponseKind::Join,
            RduelMatchCommand::Poll { .. } => ResponseKind::Player,
            RduelMatchCommand::PollRoom { .. } => ResponseKind::Room,
            RduelMatchCommand::WatchSubmissions { .. } => ResponseKind::SubmissionCheck,
            RduelMatchCommand::UploadCodeSnapshot { .. } => ResponseKind::Room,
            RduelMatchCommand::History { .. } => ResponseKind::History,
            RduelMatchCommand::Leave { .. } => ResponseKind::Left,
        }
    }

    /// What the expected answer to it comes to.
    pub fn run(self, response: MatchResponse) -> (r: RduelMatchOutput)
        requires
            response.deep_view().kind() == self.deep_view().kind(),
        ensures
            r.deep_view() == self.deep_view().outcome(response.deep_view()),
    {
        match response {
            MatchResponse::Join(JoinResponse::Waiting { player_id, token }) =>
            RduelMatchOutput::Waiting { player_id, token: Some(token) },
            MatchResponse::Join(JoinResponse::Matched { player_id, token, room }) =>
            RduelMatchOutput::Matched { player_id, token: Some(token), room },
            MatchResponse::Player(PlayerStateResponse::Waiting { player_id }) =>
            RduelMatchOutput::Waiting { player_id, token: None },
            MatchResponse::Player(PlayerStateResponse::Matched { player_id, room }) =>
            RduelMatchOutput::Matched { player_id, token: None, room },
            MatchResponse::Room(room) => RduelMatchOutput::RoomStatus { room },
            MatchResponse::SubmissionCheck(check) => RduelMatchOutput::SubmissionCheck {
                room: check.room,
                detected_submission: check.detected_submission,
            },
            MatchResponse::History(history) => RduelMatchOutput::History {
                matches: history.matches,
            },
            MatchResponse::Left => match self {
                RduelMatchCommand::Leave { player_id, .. } => RduelMatchOutput::Waiting {
                    player_id,
                    token: None,
                },
                _ => RduelMatchOutput::Waiting { player_id: String::new(), token: None },
            },
        }
    }
}

/// How a command goes.
#[derive(Clone, Copy, Debug, PartialEq, Eq, Structural)]
pub enum CommandStatus {
    Idle,
    Running,
    Succeeded,
    Failed,
}

impl CommandStatus {
    /// Whether the command is not done.
    pub fn is_running(self) -> (r: bool)
        ensures
            r == (self is Running),
    {
        match self {
            CommandStatus::Running => true,
            _ => false,
        }
    }
}

impl RduelMatchModalModel {
    /// The dialog after the user asked for a match under the name `entered`.
    pub open spec fn after_join(self, entered: Seq<char>) -> Self {
        if seqs::is_blank(entered) {
            RduelMatchModalModel { status: "需要先输入 AtCoder 用户名。"@, ..self }
        } else {
            RduelMatchModalModel { status: "正在匹配对手..."@, is_waiting: true, ..self }
        }
    }

    /// What is saved and asked when the user asks for a match under the name `entered`.
    pub open spec fn join_request(self, entered: Seq<char>) -> Option<
        (LocalRduelConfigModel, RduelMatchCommandModel),
    > {
        if seqs::is_blank(entered) {
            None
        } else {
            Some(
                (
                    LocalRduelConfigModel {
                        atcoder_user: Some(seqs::trim(entered)),
                        server_url: Some(self.server_url),
                    },
                    RduelMatchCommandModel::Join {
                        server_url: self.server_url,
                        player_id: self.player_id,
                        name: seqs::trim(entered),
                    },
                ),
            )
        }
    }

    /// The dialog after the user closed it.
    pub open spec fn after_leave(self) -> Self {
        if !self.is_waiting {
            RduelMatchModalModel { player_id: None, token: None, ..self }
        } else if self.player_id is None {
            self
        } else {
            RduelMatchModalModel { player_id: None, token: None, is_waiting: false, ..self }
        }
    }

    /// What is asked when the user closes the dialog: one who is in the queue leaves it.
    pub open spec fn leave_request(self) -> Option<RduelMatchCommandModel> {
        match self.player_id {
            Some(player_id) => if self.is_waiting {
                Some(
                    RduelMatchCommandModel::Leave {
                        server_url: self.server_url,
                        player_id,
                        token: match self.token {
                            Some(token) => token,
                            None => seq![],
                        },
                        main_rs: None,
                        cargo_toml: None,
                    },
                )
            } else {
                None
            },
            None => None,
        }
    }

    /// The dialog after an answer, or after none came.
    pub open spec fn after_result(self, result: Option<RduelMatchOutputModel>) -> Self {
        match result {
            Some(RduelMatchOutputModel::Waiting { player_id, token }) => RduelMatchModalModel {
                player_id: Some(player_id),
                token: if token is Some {
                    token
                } else {
                    self.token
                },
                status: "已进入队列，等待对手..."@,
                ..self
            },
            Some(RduelMatchOutputModel::Matched { .. }) => RduelMatchModalModel {
                player_id: None,
                status: "匹配成功，正在打开 Rduel..."@,
                is_waiting: false,
                ..self
            },
            Some(_) => self,
            None => RduelMatchModalModel {
                status: "连接失败，请确认 Rduel 服务器已启动后重试。"@,
                is_waiting: false,
                ..self
            },
        }
    }

    /// What follows an answer. A token comes only with the first answer, so that one who was
    /// waiting goes into the match with the token from then.
    pub open spec fn step_for(self, result: Option<RduelMatchOutputModel>) -> MatchStepModel {
        match result {
            Some(RduelMatchOutputModel::Waiting { player_id, token }) => MatchStepModel::Poll(
                RduelMatchCommandModel::Poll { server_url: self.server_url, player_id },
            ),
            Some(RduelMatchOutputModel::Matched { player_id, token, room }) => MatchStepModel::Open(
                RduelSessionModel {
                    player_id,
                    token: match token {
                        Some(token) => token,
                        None => match self.token {
                            Some(token) => token,
                            None => seq![],
                        },
                    },
                    room: Some(room),
                    server_url: self.server_url,
                    initial_main_rs: None,
                    initial_cargo_toml: None,
                    opponent_main_rs: None,
                    initial_command_output: None,
                    is_history: false,
                },
            ),
            _ => MatchStepModel::Stay,
        }
    }
}

fn or_empty(token: Option<String>) -> (r: String)
    ensures
        r@ == match token {
            Some(token) => token@,
            None => seq![],
        },
{
    match token {
        Some(token) => token,
        None => {
            let r = String::new();
            assert(r@ =~= seq![]);
            r
        },
    }
}

impl RduelMatchModal {
    /// The dialog as it opens, and the name that stands in it.
    pub fn new(settings: &RduelSettings) -> (r: (Self, String))
        ensures
            r.0.deep_view() == (RduelMatchModalModel {
                server_url: seqs::trim(settings.server_url@),
                player_id: None,
                token: None,
                status: "输入 AtCoder 用户名后开始匹配。"@,
                is_waiting: false,
            }),
            r.1@ == seqs::trim(settings.atcoder_user@),
    {
        (
            RduelMatchModal {
                server_url: text::trim_str(settings.server_url.as_str()),
                player_id: None,
                token: None,
                status: "输入 AtCoder 用户名后开始匹配。".to_owned(),
                is_waiting: false,
            },
            text::trim_str(settings.atcoder_user.as_str()),
        )
    }

    /// Looks for an opponent under the name `entered`: what is saved, and what is asked.
    pub fn join(&mut self, entered: &str) -> (r: Option<(LocalRduelConfig, RduelMatchCommand)>)
        ensures
            final(self).deep_view() == old(self).deep_view().after_join(entered@),
            r.deep_view() == old(self).deep_view().join_request(entered@),
    {
        if text::is_blank_str(entered) {
            self.status = "需要先输入 AtCoder 用户名。".to_owned();
            return None;
        }
        let atcoder_user = text::trim_str(entered);
        self.status = "正在匹配对手...".to_owned();
        self.is_waiting = true;
        let config = LocalRduelConfig::save_atcoder_user_and_server_url(
            atcoder_user.as_str(),
            self.server_url.as_str(),
        );
        Some(
            (
                config,
                RduelMatchCommand::Join {
                    server_url: self.server_url.clone(),
                    player_id: self.player_id.duplicate(),
                    name: atcoder_user,
                },
            ),
        )
    }

    /// What is asked while the user is waiting.
    pub fn poll(&self) -> (r: Option<RduelMatchCommand>)
        ensures
            r.deep_view() == match self.deep_view().player_id {
                Some(player_id) => Some(
                    RduelMatchCommandModel::Poll { server_url: self.server_url@, player_id },
                ),
                None => None,
            },
    {
        match &self.player_id {
            Some(player_id) => Some(
                RduelMatchCommand::Poll {
                    server_url: self.server_url.clone(),
                    player_id: player_id.clone(),
                },
            ),
            None => None,
        }
    }

    /// The user closes the dialog: what is asked.
    pub fn leave_matchmaking(&mut self) -> (r: Option<RduelMatchCommand>)
        ensures
            final(self).deep_view() == old(self).deep_view().after_leave(),
            r.deep_view() == old(self).deep_view().leave_request(),
    {
        if !self.is_waiting {
            self.player_id = None;
            self.token = None;
            return None;
        }
        match self.player_id.take() {
            None => None,
            Some(player_id) => {
                let token = or_empty(self.token.take());
                self.is_waiting = false;
                Some(
                    RduelMatchCommand::Leave {
                        server_url: self.server_url.clone(),
                        player_id,
                        token,
                        main_rs: None,
                        cargo_toml: None,
                    },
                )
            },
        }
    }

    /// An answer came, or none could be had: what follows.
    pub fn handle_match_result(&mut self, result: Option<RduelMatchOutput>) -> (r: MatchStep)
        ensures
            final(self).deep_view() == old(self).deep_view().after_result(result.deep_view()),
            r.deep_view() == old(self).deep_view().step_for(result.deep_view()),
    {
        match result {
            Some(RduelMatchOutput::Waiting { player_id, token }) => {
                let command = RduelMatchCommand::Poll {
                    server_url: self.server_url.clone(),
                    player_id: player_id.clone(),
                };
                self.player_id = Some(player_id);
                if token.is_some() {
                    self.token = token;
                }
                self.status = "已进入队列，等待对手...".to_owned();
                MatchStep::Poll(command)
            },
            Some(RduelMatchOutput::Matched { player_id, token, room }) => {
                self.status = "匹配成功，正在打开 Rduel...".to_owned();
                self.is_waiting = false;
                let token = match token {
                    Some(token) => token,
                    None => or_empty(self.token.duplicate()),
                };
                self.player_id = None;
                MatchStep::Open(
                    RduelSession {
                        player_id,
                        token,
                        room: Some(room),
                        server_url: self.server_url.clone(),
                        initial_main_rs: None,
                        initial_cargo_toml: None,
                        opponent_main_rs: None,
                        initial_command_output: None,
                        is_history: false,
                    },
                )
            },
            Some(_) => MatchStep::Stay,
            None => {
                self.status = "连接失败，请确认 Rduel 服务器已启动后重试。".to_owned();
                self.is_waiting = false;
                MatchStep::Stay
            },
        }
    }
}

/// A player who was given a token and had to wait goes into the match with that token, even though
/// the later answers do not repeat it.
pub proof fn first_token_is_kept(
    dialog: RduelMatchModalModel,
    first_id: Seq<char>,
    token: Seq<char>,
    polled_id: Seq<char>,
    player_id: Seq<char>,
    room: ServerRoomModel,
)
    ensures
        ({
            let first = RduelMatchOutputModel::Waiting { player_id: first_id, token: Some(token) };
            let polled = RduelMatchOutputModel::Waiting { player_id: polled_id, token: None };
            let matched = RduelMatchOutputModel::Matched { player_id, token: None, room };
            let waiting = dialog.after_result(Some(first)).after_result(Some(polled));
            waiting.step_for(Some(matched)) matches MatchStepModel::Open(session) && session.token
                == token && session.player_id == player_id && session.room == Some(room)
        }),
{
}

/// Closing the dialog a second time asks nothing of the server.
pub proof fn player_leaves_once(dialog: RduelMatchModalModel)
    ensures
        dialog.after_leave().leave_request() is None,
{
}

/// One whose match was found does not leave it when the dialog closes.
pub proof fn matched_player_stays(
    dialog: RduelMatchModalModel,
    player_id: Seq<char>,
    token: Option<Seq<char>>,
    room: ServerRoomModel,
)
    ensures
        dialog.after_result(
            Some(RduelMatchOutputModel::Matched { player_id, token, room }),
        ).leave_request() is None,
{
}

/// Each question goes to its server, under the path of what it is about, with what the server needs
/// to know.
pub proof fn requests_carry_what_is_asked(command: RduelMatchCommandModel)
    ensures
        command matches RduelMatchCommandModel::Join { server_url, player_id, name } ==> {
            let request = command.request();
            &&& request.server_url == server_url
            &&& request.method == "POST"@
            &&& request.path == "/join"@
            &&& request.body is Join
            &&& request.body->Join_name == name
            &&& request.body->Join_player_id == player_id
        },
        command matches RduelMatchCommandModel::Poll { server_url, player_id } ==> {
            let request = command.request();
            &&& request.server_url == server_url
            &&& request.method == "GET"@
            &&& request.path == "/players/"@ + player_id
            &&& request.body is Empty
        },
        command matches RduelMatchCommandModel::PollRoom { server_url, room_id } ==> {
            let request = command.request();
            &&& request.server_url == server_url
            &&& request.method == "GET"@
            &&& request.path == "/rooms/"@ + room_id
            &&& request.body is Empty
        },
        command matches RduelMatchCommandModel::WatchSubmissions {
            server_url,
            room_id,
            player_id,
            token,
            from_second,
        } ==> {
            let request = command.request();
            &&& request.server_url == server_url
            &&& request.method == "POST"@
            &&& request.path == "/rooms/"@ + room_id + "/watch-submissions"@
            &&& request.body is SubmissionCheck
            &&& request.body->SubmissionCheck_player_id == player_id
            &&& request.body->SubmissionCheck_token == token
            &&& request.body->from_second == from_second
        },
        command matches RduelMatchCommandModel::UploadCodeSnapshot {
            server_url,
            room_id,
            player_id,
            token,
            main_rs,
            cargo_toml,
        } ==> {
            let request = command.request();
            &&& request.server_url == server_url
            &&& request.method == "POST"@
            &&& request.path == "/rooms/"@ + room_id + "/code-snapshot"@
            &&& request.body is CodeSnapshot
            &&& request.body->CodeSnapshot_player_id == player_id
            &&& request.body->CodeSnapshot_token == token
            &&& request.body->CodeSnapshot_main_rs == main_rs
            &&& request.body->CodeSnapshot_cargo_toml == cargo_toml
        },
        command matches RduelMatchCommandModel::History { server_url, atcoder_user } ==> {
            let request = command.request();
            &&& request.server_url == server_url
            &&& request.method == "GET"@
            &&& atcoder_user is None ==> request.path == "/history?limit=50"@
            &&& atcoder_user is Some ==> request.path == "/history/users/"@ + atcoder_user->0
                + "?limit=50"@
            &&& request.body is Empty
        },
        command matches RduelMatchCommandModel::Leave {
            server_url,
            player_id,
            token,
            main_rs,
            cargo_toml,
        } ==> {
            let request = command.request();
            &&& request.server_url == server_url
            &&& request.method == "POST"@
            &&& request.path == "/players/"@ + player_id + "/leave"@
            &&& request.body is Leave
            &&& request.body->Leave_token == token
            &&& request.body->Leave_main_rs == main_rs
            &&& request.body->Leave_cargo_toml == cargo_toml
        },
{
}

/// Each question has its own kind of answer.
pub proof fn answers_fit_questions(command: RduelMatchCommandModel)
    ensures
        command.kind() == ResponseKind::Join <==> command is Join,
        command.kind() == ResponseKind::Player <==> command is Poll,
        command.kind() == ResponseKind::Room <==> command is PollRoom
            || command is UploadCodeSnapshot,
        command.kind() == ResponseKind::SubmissionCheck <==> command is WatchSubmissions,
        command.kind() == ResponseKind::History <==> command is History,
        command.kind() == ResponseKind::Left <==> command is Leave,
{
}

/// What an answer comes to holds what the answer holds; only the answer to one who joins brings a
/// token, and one who leaves is told who they were.
pub proof fn answers_are_passed_on(
    command: RduelMatchCommandModel,
    player_id: Seq<char>,
    token: Seq<char>,
    room: ServerRoomModel,
    check: ServerSubmissionCheckResponseModel,
    history: MatchHistoryResponseModel,
)
    ensures
        command.outcome(
            MatchResponseModel::Join(JoinResponseModel::Waiting { player_id, token }),
        ) == (RduelMatchOutputModel::Waiting { player_id, token: Some(token) }),
        command.outcome(
            MatchResponseModel::Join(JoinResponseModel::Matched { player_id, token, room }),
        ) == (RduelMatchOutputModel::Matched { player_id, token: Some(token), room }),
        command.outcome(
            MatchResponseModel::Player(PlayerStateResponseModel::Waiting { player_id }),
        ) == (RduelMatchOutputModel::Waiting { player_id, token: None }),
        command.outcome(
            MatchResponseModel::Player(PlayerStateResponseModel::Matched { player_id, room }),
        ) == (RduelMatchOutputModel::Matched { player_id, token: None, room }),
        command.outcome(MatchResponseModel::Room(room)) == (RduelMatchOutputModel::RoomStatus {
            room,
        }),
        command.outcome(MatchResponseModel::SubmissionCheck(check)) == (
        RduelMatchOutputModel::SubmissionCheck {
            room: check.room,
            detected_submission: check.detected_submission,
        }),
        command.outcome(MatchResponseModel::History(history)) == (RduelMatchOutputModel::History {
            matches: history.matches,
        }),
        command is Leave ==> command.outcome(MatchResponseModel::Left) == (
        RduelMatchOutputModel::Waiting { player_id: command->Leave_player_id, token: None }),
{
}

/// A player who enters a name looks for a match under that name, without the white space around it,
/// as the player that they are; the name and the server are saved. Without a name nothing is asked.
pub proof fn match_is_looked_for_under_name(dialog: RduelMatchModalModel, entered: Seq<char>)
    ensures
        seqs::is_blank(entered) ==> dialog.join_request(entered) is None && dialog.after_join(
            entered,
        ) == (RduelMatchModalModel { status: "需要先输入 AtCoder 用户名。"@, ..dialog }),
        !seqs::is_blank(entered) ==> {
            let asked = dialog.join_request(entered);
            &&& dialog.after_join(entered) == (RduelMatchModalModel {
                status: "正在匹配对手..."@,
                is_waiting: true,
                ..dialog
            })
            &&& asked is Some
            &&& (asked->0).0 == (LocalRduelConfigModel {
                atcoder_user: Some(seqs::trim(entered)),
                server_url: Some(dialog.server_url),
            })
            &&& (asked->0).1 == (RduelMatchCommandModel::Join {
                server_url: dialog.server_url,
                player_id: dialog.player_id,
                name: seqs::trim(entered),
            })
        },
{
}

/// Closing the dialog takes a player who waits out of the queue, with the player's own token, and
/// forgets who the player was; before the player is known the wait goes on.
pub proof fn closing_leaves_queue(dialog: RduelMatchModalModel, player: Seq<char>)
    ensures
        dialog.is_waiting && dialog.player_id == Some(player) ==> {
            &&& dialog.leave_request() == Some(
                RduelMatchCommandModel::Leave {
                    server_url: dialog.server_url,
                    player_id: player,
                    token: if dialog.token is Some {
                        dialog.token->0
                    } else {
                        seq![]
                    },
                    main_rs: None,
                    cargo_toml: None,
                },
            )
            &&& dialog.after_leave() == (RduelMatchModalModel {
                player_id: None,
                token: None,
                is_waiting: false,
                ..dialog
            })
        },
        dialog.is_waiting && dialog.player_id is None ==> dialog.leave_request() is None
            && dialog.after_leave() == dialog,
        !dialog.is_waiting ==> dialog.leave_request() is None && dialog.after_leave() == (
        RduelMatchModalModel { player_id: None, token: None, ..dialog }),
{
}

/// One who has to wait is told so and asks again as the player that the server knows; one whose
/// match was found goes into that match; if no answer came the dialog says so, and any other answer
/// changes nothing.
pub proof fn answer_decides_what_follows(
    dialog: RduelMatchModalModel,
    player_id: Seq<char>,
    token: Option<Seq<char>>,
    room: ServerRoomModel,
    other: RduelMatchOutputModel,
)
    ensures
        ({
            let answer = Some(RduelMatchOutputModel::Waiting { player_id, token });
            &&& dialog.after_result(answer) == (RduelMatchModalModel {
                player_id: Some(player_id),
                token: if token is Some {
                    token
                } else {
                    dialog.token
                },
                status: "已进入队列，等待对手..."@,
                ..dialog
            })
            &&& dialog.step_for(answer) == MatchStepModel::Poll(
                RduelMatchCommandModel::Poll { server_url: dialog.server_url, player_id },
            )
        }),
        ({
            let answer = Some(RduelMatchOutputModel::Matched { player_id, token, room });
            &&& dialog.after_result(answer) == (RduelMatchModalModel {
                player_id: None,
                status: "匹配成功，正在打开 Rduel..."@,
                is_waiting: false,
                ..dialog
            })
            &&& dialog.step_for(answer) is Open
            &&& dialog.step_for(answer)->Open_0 == (RduelSessionModel {
                player_id,
                token: if token is Some {
                    token->0
                } else if dialog.token is Some {
                    dialog.token->0
                } else {
                    seq![]
                },
                room: Some(room),
                server_url: dialog.server_url,
                initial_main_rs: None,
                initial_cargo_toml: None,
                opponent_main_rs: None,
                initial_command_output: None,
                is_history: false,
            })
        }),
        dialog.after_result(None) == (RduelMatchModalModel {
            status: "连接失败，请确认 Rduel 服务器已启动后重试。"@,
            is_waiting: false,
            ..dialog
        }),
        dialog.step_for(None) is Stay,
        !(other is Waiting) && !(other is Matched) ==> dialog.after_result(Some(other)) == dialog
            && dialog.step_for(Some(other)) is Stay,
{
}
/// The models hold what the values hold, each part under its own name.
pub proof fn models_hold_their_parts(
    rduel_match_command: RduelMatchCommand,
    rduel_match_output: RduelMatchOutput,
    request_body: RequestBody,
    match_request: MatchRequest,
    join_response: JoinResponse,
    player_state_response: PlayerStateResponse,
    server_submission_check_response: ServerSubmissionCheckResponse,
    match_history_response: MatchHistoryResponse,
    match_response: MatchResponse,
    rduel_match_modal: RduelMatchModal,
    match_step: MatchStep,
)
    ensures
        rduel_match_command.deep_view() == match rduel_match_command {
            RduelMatchCommand::Join {
                server_url,
                player_id,
                name,
            } => RduelMatchCommandModel::Join {
                server_url: server_url@,
                player_id: player_id.deep_view(),
                name: name@,
            },
            RduelMatchCommand::Poll { server_url, player_id } => RduelMatchCommandModel::Poll {
                server_url: server_url@,
                player_id: player_id@,
            },
            RduelMatchCommand::PollRoom {
                server_url,
                room_id,
            } => RduelMatchCommandModel::PollRoom {
                server_url: server_url@,
                room_id: room_id@,
            },
            RduelMatchCommand::WatchSubmissions {
                server_url,
                room_id,
                player_id,
                token,
                from_second,
            } => RduelMatchCommandModel::WatchSubmissions {
                server_url: server_url@,
                room_id: room_id@,
                player_id: player_id@,
                token: token@,
                from_second: from_second,
            },
            RduelMatchCommand::UploadCodeSnapshot {
                server_url,
                room_id,
                player_id,
                token,
                main_rs,
                cargo_toml,
            } => RduelMatchCommandModel::UploadCodeSnapshot {
                server_url: server_url@,
                room_id: room_id@,
                player_id: player_id@,
                token: token@,
                main_rs: main_rs@,
                cargo_toml: cargo_toml@,
            },
            RduelMatchCommand::History {
                server_url,
                atcoder_user,
            } => RduelMatchCommandModel::History {
                server_url: server_url@,
                atcoder_user: atcoder_user.deep_view(),
            },
            RduelMatchCommand::Leave {
                server_url,
                player_id,
                token,
                main_rs,
                cargo_toml,
            } => RduelMatchCommandModel::Leave {
                server_url: server_url@,
                player_id: player_id@,
                token: token@,
                main_rs: main_rs.deep_view(),
                cargo_toml: cargo_toml.deep_view(),
            },
        },
        rduel_match_output.deep_view() == match rduel_match_output {
            RduelMatchOutput::Waiting { player_id, token } => RduelMatchOutputModel::Waiting {
                player_id: player_id@,
                token: token.deep_view(),
            },
            RduelMatchOutput::Matched { player_id, token, room } => RduelMatchOutputModel::Matched {
                player_id: player_id@,
                token: token.deep_view(),
                room: room.deep_view(),
            },
            RduelMatchOutput::RoomStatus { room } => RduelMatchOutputModel::RoomStatus {
                room: room.deep_view(),
            },
            RduelMatchOutput::SubmissionCheck {
                room,
                detected_submission,
            } => RduelMatchOutputModel::SubmissionCheck {
                room: room.deep_view(),
                detected_submission: detected_submission.deep_view(),
            },
            RduelMatchOutput::History { matches } => RduelMatchOutputModel::History {
                matches: matches.deep_view(),
            },
        },
        request_body.deep_view() == match request_body {
            RequestBody::Empty => RequestBodyModel::Empty,
            RequestBody::Join { name, player_id } => RequestBodyModel::Join {
                name: name@,
                player_id: player_id.deep_view(),
            },
            RequestBody::SubmissionCheck {
                player_id,
                token,
                from_second,
            } => RequestBodyModel::SubmissionCheck {
                player_id: player_id@,
                token: token@,
                from_second: from_second,
            },
            RequestBody::CodeSnapshot {
                player_id,
                token,
                main_rs,
                cargo_toml,
            } => RequestBodyModel::CodeSnapshot {
                player_id: player_id@,
                token: token@,
                main_rs: main_rs@,
                cargo_toml: cargo_toml@,
            },
            RequestBody::Leave { token, main_rs, cargo_toml } => RequestBodyModel::Leave {
                token: token@,
                main_rs: main_rs.deep_view(),
                cargo_toml: cargo_toml.deep_view(),
            },
        },
        match_request.deep_view() == (MatchRequestModel {
            server_url: match_request.server_url@,
            method: match_request.method@,
            path: match_request.path@,
            body: match_request.body.deep_view(),
        }),
        join_response.deep_view() == match join_response {
            JoinResponse::Waiting { player_id, token } => JoinResponseModel::Waiting {
                player_id: player_id@,
                token: token@,
            },
            JoinResponse::Matched { player_id, token, room } => JoinResponseModel::Matched {
                player_id: player_id@,
                token: token@,
                room: room.deep_view(),
            },
        },
        player_state_response.deep_view() == match player_state_response {
            PlayerStateResponse::Waiting { player_id } => PlayerStateResponseModel::Waiting {
                player_id: player_id@,
            },
            PlayerStateResponse::Matched { player_id, room } => PlayerStateResponseModel::Matched {
                player_id: player_id@,
                room: room.deep_view(),
            },
        },
        server_submission_check_response.deep_view() == (ServerSubmissionCheckResponseModel {
            room: server_submission_check_response.room.deep_view(),
            detected_submission: server_submission_check_response.detected_submission.deep_view(),
        }),
        match_history_response.deep_view() == (MatchHistoryResponseModel {
            matches: match_history_response.matches.deep_view(),
        }),
        match_response.deep_view() == match match_response {
            MatchResponse::Join(value) => MatchResponseModel::Join(value.deep_view()),
            MatchResponse::Player(value) => MatchResponseModel::Player(value.deep_view()),
            MatchResponse::Room(value) => MatchResponseModel::Room(value.deep_view()),
            MatchResponse::SubmissionCheck(value) => MatchResponseModel::SubmissionCheck(value.deep_view()),
            MatchResponse::History(value) => MatchResponseModel::History(value.deep_view()),
            MatchResponse::Left => MatchResponseModel::Left,
        },
        rduel_match_modal.deep_view() == (RduelMatchModalModel {
            server_url: rduel_match_modal.server_url@,
            player_id: rduel_match_modal.player_id.deep_view(),
            token: rduel_match_modal.token.deep_view(),
            status: rduel_match_modal.status@,
            is_waiting: rduel_match_modal.is_waiting,
        }),
        match_step.deep_view() == match match_step {
            MatchStep::Stay => MatchStepModel::Stay,
            MatchStep::Poll(value) => MatchStepModel::Poll(value.deep_view()),
            MatchStep::Open(value) => MatchStepModel::Open(value.deep_view()),
        },
{
}
/// The dialog opens with the name and the server of the settings, without the white space around
/// them, and waits for nobody.
pub proof fn dialog_opens_with_settings(settings: RduelSettings, opened: (RduelMatchModal, String))
    requires
        call_ensures(RduelMatchModal::new, (&settings,), opened),
    ensures
        opened.1@ == seqs::trim(settings.atcoder_user@),
        opened.0.server_url@ == seqs::trim(settings.server_url@),
        opened.0.player_id is None,
        opened.0.token is None,
        !opened.0.is_waiting,
        opened.0.status@ == "输入 AtCoder 用户名后开始匹配。"@,
{
}

/// A player who waits asks about themselves.
pub proof fn waiting_player_asks(dialog: RduelMatchModal, asked: Option<RduelMatchCommand>)
    requires
        call_ensures(RduelMatchModal::poll, (&dialog,), asked),
    ensures
        asked is Some <==> dialog.player_id is Some,
        asked is Some ==> asked->0.deep_view() == (RduelMatchCommandModel::Poll {
            server_url: dialog.server_url@,
            player_id: dialog.player_id->0@,
        }),
{
}
} // verus!
