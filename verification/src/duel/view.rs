//! A match as the player sees it.

use vstd::prelude::*;

use crate::cases;
use crate::cases::{
    action_button, cases_for_samples, ActionButton, ActionButtonModel, CommandPanel,
    CommandPanelModel, OutputBoard, OutputBoardModel,
};
use crate::duel::commands::{
    self, submission_output_item_at, RduelCommandOutput, RduelCommandOutputModel,
};
use crate::duel::matchmaking::{
    CommandStatus, RduelMatchCommand, RduelMatchCommandModel, RduelMatchOutput,
    RduelMatchOutputModel,
};
use crate::duel::model::{
    RduelSession, RduelSessionModel, ServerPlayerModel, ServerPlayerSubmissionRecordModel,
    ServerProblem, ServerProblemModel, ServerRoom, ServerRoomFinishReason, ServerRoomModel,
    ServerRoomStatus,
};
use crate::duel::presence::{
    self, opponent_flash_message, render_player_presence, resolve_local_player_id, PlayerLine,
    PlayerLineModel, RoomPresence, RoomPresenceModel,
};
use crate::duel::wording;
use crate::output::{
    self, plain_item, single_command_output_state, CommandOutputItem, CommandOutputItemModel,
    CommandOutputItemStatus, CommandOutputState, CommandOutputStateModel, OutputSelection,
};
use crate::seqs;
use crate::statement::{Sample, SampleModel};
use crate::text;

verus! {

/// How long the user is shown that the opponent made a submission, in milliseconds.
pub const OPPONENT_FLASH_DURATION: u64 = 5000;

/// How long it takes at least until the code is handed in again, in milliseconds.
pub const CODE_SNAPSHOT_INTERVAL: u64 = 30000;

/// Which code is shown.
#[derive(Clone, Copy, Debug, PartialEq, Eq, Structural)]
pub enum ActiveCodeTab {
    MainRs,
    CargoToml,
    OpponentMainRs,
}

/// Whether the problem or the code is shown on the left.
#[derive(Clone, Copy, Debug, PartialEq, Eq, Structural)]
pub enum LayoutOrder {
    ProblemLeft,
    CodeLeft,
}

/// An editor of the view.
#[derive(Clone, Copy, Debug, PartialEq, Eq, Structural)]
pub enum EditorId {
    MainRs,
    CargoToml,
    OpponentMainRs,
    /// The editor for the input of a test case.
    CaseInput(usize),
    /// The editor for the expected output of a test case.
    CaseExpected(usize),
    /// An editor of a test case that was removed since.
    RemovedCase,
}

/// The problem of a match.
pub struct RduelProblem {
    pub id: String,
    pub title: String,
    pub markdown: String,
    pub samples: Vec<Sample>,
}

/// What a `RduelProblem` holds.
#[verifier::ext_equal]
pub struct RduelProblemModel {
    pub id: Seq<char>,
    pub title: Seq<char>,
    pub markdown: Seq<char>,
    pub samples: Seq<SampleModel>,
}

impl DeepView for RduelProblem {
    type V = RduelProblemModel;

    open spec fn deep_view(&self) -> RduelProblemModel {
        RduelProblemModel {
            id: self.id@,
            title: self.title@,
            markdown: self.markdown@,
            samples: self.samples.deep_view(),
        }
    }
}

/// Who the user is in a match, and how it stands.
pub struct MatchState {
    pub player_id: Option<String>,
    pub token: Option<String>,
    pub room_id: Option<String>,
    pub server_url: String,
    pub local_atcoder_user: Option<String>,
    pub room_status: ServerRoomStatus,
}

/// What a `MatchState` holds.
#[verifier::ext_equal]
pub struct MatchStateModel {
    pub player_id: Option<Seq<char>>,
    pub token: Option<Seq<char>>,
    pub room_id: Option<Seq<char>>,
    pub server_url: Seq<char>,
    pub local_atcoder_user: Option<Seq<char>>,
    pub room_status: ServerRoomStatus,
}

impl DeepView for MatchState {
    type V = MatchStateModel;

    open spec fn deep_view(&self) -> MatchStateModel {
        MatchStateModel {
            player_id: self.player_id.deep_view(),
            token: self.token.deep_view(),
            room_id: self.room_id.deep_view(),
            server_url: self.server_url@,
            local_atcoder_user: self.local_atcoder_user.deep_view(),
            room_status: self.room_status,
        }
    }
}

/// What the user is told for a while when the opponent made a submission.
pub struct OpponentFlash {
    pub message: String,
    /// When it was first shown, in milliseconds of a clock that never goes back.
    pub shown_at: u64,
}

/// What a `OpponentFlash` holds.
#[verifier::ext_equal]
pub struct OpponentFlashModel {
    pub message: Seq<char>,
    pub shown_at: u64,
}

impl DeepView for OpponentFlash {
    type V = OpponentFlashModel;

    open spec fn deep_view(&self) -> OpponentFlashModel {
        OpponentFlashModel {
            message: self.message@,
            shown_at: self.shown_at,
        }
    }
}

/// The code of the opponent.
pub struct OpponentSource {
    pub title: String,
    pub source_code: String,
}

/// What a `OpponentSource` holds.
#[verifier::ext_equal]
pub struct OpponentSourceModel {
    pub title: Seq<char>,
    pub source_code: Seq<char>,
}

impl DeepView for OpponentSource {
    type V = OpponentSourceModel;

    open spec fn deep_view(&self) -> OpponentSourceModel {
        OpponentSourceModel {
            title: self.title@,
            source_code: self.source_code@,
        }
    }
}

/// A match as the player sees it.
pub struct RduelView {
    pub match_state: MatchState,
    pub problem: RduelProblem,
    /// The path of the package with the code, if it could be prepared.
    pub project_root: Option<String>,
    pub opponent: Option<OpponentSource>,
    /// Where the search bar is shown.
    pub search_target: Option<EditorId>,
    pub active_code_tab: ActiveCodeTab,
    pub layout_order: LayoutOrder,
    pub command_status: CommandStatus,
    pub board: OutputBoard,
    pub presence: Option<RoomPresence>,
    pub opponent_flash: Option<OpponentFlash>,
    /// When the code was last handed in, on the same clock.
    pub last_snapshot_upload: Option<u64>,
    /// The second from which on submissions are waited for.
    pub submission_watch_started_at: Option<i64>,
}

/// What a `RduelView` holds.
#[verifier::ext_equal]
pub struct RduelViewModel {
    pub match_state: MatchStateModel,
    pub problem: RduelProblemModel,
    pub project_root: Option<Seq<char>>,
    pub opponent: Option<OpponentSourceModel>,
    pub search_target: Option<EditorId>,
    pub active_code_tab: ActiveCodeTab,
    pub layout_order: LayoutOrder,
    pub command_status: CommandStatus,
    pub board: OutputBoardModel,
    pub presence: Option<RoomPresenceModel>,
    pub opponent_flash: Option<OpponentFlashModel>,
    pub last_snapshot_upload: Option<u64>,
    pub submission_watch_started_at: Option<i64>,
}

impl DeepView for RduelView {
    type V = RduelViewModel;

    open spec fn deep_view(&self) -> RduelViewModel {
        RduelViewModel {
            match_state: self.match_state.deep_view(),
            problem: self.problem.deep_view(),
            project_root: self.project_root.deep_view(),
            opponent: self.opponent.deep_view(),
            search_target: self.search_target,
            active_code_tab: self.active_code_tab,
            layout_order: self.layout_order,
            command_status: self.command_status,
            board: self.board.deep_view(),
            presence: self.presence.deep_view(),
            opponent_flash: self.opponent_flash.deep_view(),
            last_snapshot_upload: self.last_snapshot_upload,
            submission_watch_started_at: self.submission_watch_started_at,
        }
    }
}

/// What follows a look at the match.
pub struct PollActions {
    /// Whether to ask again after a while.
    pub again: bool,
    /// How the match ended, for the user.
    pub message: Option<String>,
    /// The code to hand in.
    pub snapshot: Option<RduelMatchCommand>,
}

/// What a `PollActions` holds.
#[verifier::ext_equal]
pub struct PollActionsModel {
    pub again: bool,
    pub message: Option<Seq<char>>,
    pub snapshot: Option<RduelMatchCommandModel>,
}

impl DeepView for PollActions {
    type V = PollActionsModel;

    open spec fn deep_view(&self) -> PollActionsModel {
        PollActionsModel {
            again: self.again,
            message: self.message.deep_view(),
            snapshot: self.snapshot.deep_view(),
        }
    }
}

/// Submissions of a player that are waited for: those in a match, from a second on.
pub struct SubmissionWatch {
    pub room_id: String,
    pub player_id: String,
    pub token: String,
    pub server_url: String,
    pub from_second: i64,
}

/// What a `SubmissionWatch` holds.
#[verifier::ext_equal]
pub struct SubmissionWatchModel {
    pub room_id: Seq<char>,
    pub player_id: Seq<char>,
    pub token: Seq<char>,
    pub server_url: Seq<char>,
    pub from_second: i64,
}

impl DeepView for SubmissionWatch {
    type V = SubmissionWatchModel;

    open spec fn deep_view(&self) -> SubmissionWatchModel {
        SubmissionWatchModel {
            room_id: self.room_id@,
            player_id: self.player_id@,
            token: self.token@,
            server_url: self.server_url@,
            from_second: self.from_second,
        }
    }
}

impl SubmissionWatchModel {
    /// What is asked.
    pub open spec fn command(self) -> RduelMatchCommandModel {
        RduelMatchCommandModel::WatchSubmissions {
            server_url: self.server_url,
            room_id: self.room_id,
            player_id: self.player_id,
            token: self.token,
            from_second: self.from_second,
        }
    }
}

/// What follows an answer about submissions.
pub struct WatchActions {
    /// What to wait for further, after a while.
    pub next: Option<SubmissionWatch>,
    /// How the match ended, for the user.
    pub message: Option<String>,
    /// The code to hand in.
    pub snapshot: Option<RduelMatchCommand>,
}

/// What a `WatchActions` holds.
#[verifier::ext_equal]
pub struct WatchActionsModel {
    pub next: Option<SubmissionWatchModel>,
    pub message: Option<Seq<char>>,
    pub snapshot: Option<RduelMatchCommandModel>,
}

impl DeepView for WatchActions {
    type V = WatchActionsModel;

    open spec fn deep_view(&self) -> WatchActionsModel {
        WatchActionsModel {
            next: self.next.deep_view(),
            message: self.message.deep_view(),
            snapshot: self.snapshot.deep_view(),
        }
    }
}

/// What follows a command.
pub struct FinishActions {
    pub clipboard: Option<String>,
    /// The code to hand in.
    pub snapshot: Option<RduelMatchCommand>,
    pub open_url: Option<String>,
    /// The submissions to wait for.
    pub watch: Option<SubmissionWatch>,
}

/// What a `FinishActions` holds.
#[verifier::ext_equal]
pub struct FinishActionsModel {
    pub clipboard: Option<Seq<char>>,
    pub snapshot: Option<RduelMatchCommandModel>,
    pub open_url: Option<Seq<char>>,
    pub watch: Option<SubmissionWatchModel>,
}

impl DeepView for FinishActions {
    type V = FinishActionsModel;

    open spec fn deep_view(&self) -> FinishActionsModel {
        FinishActionsModel {
            clipboard: self.clipboard.deep_view(),
            snapshot: self.snapshot.deep_view(),
            open_url: self.open_url.deep_view(),
            watch: self.watch.deep_view(),
        }
    }
}

/// What is shown of both players.
pub struct VersusHeader {
    pub local: PlayerLine,
    pub elapsed: String,
    pub flash: Option<String>,
    pub is_finished: bool,
    pub opponent: PlayerLine,
}

/// What a `VersusHeader` holds.
#[verifier::ext_equal]
pub struct VersusHeaderModel {
    pub local: PlayerLineModel,
    pub elapsed: Seq<char>,
    pub flash: Option<Seq<char>>,
    pub is_finished: bool,
    pub opponent: PlayerLineModel,
}

impl DeepView for VersusHeader {
    type V = VersusHeaderModel;

    open spec fn deep_view(&self) -> VersusHeaderModel {
        VersusHeaderModel {
            local: self.local.deep_view(),
            elapsed: self.elapsed@,
            flash: self.flash.deep_view(),
            is_finished: self.is_finished,
            opponent: self.opponent.deep_view(),
        }
    }
}

/// What is shown of a piece of code in the list of them.
pub struct CodeTab {
    pub label: String,
    pub tab: ActiveCodeTab,
    pub selected: bool,
}

/// What a `CodeTab` holds.
#[verifier::ext_equal]
pub struct CodeTabModel {
    pub label: Seq<char>,
    pub tab: ActiveCodeTab,
    pub selected: bool,
}

impl DeepView for CodeTab {
    type V = CodeTabModel;

    open spec fn deep_view(&self) -> CodeTabModel {
        CodeTabModel {
            label: self.label@,
            tab: self.tab,
            selected: self.selected,
        }
    }
}

/// The problem as the server sent it.
pub open spec fn problem_from(problem: ServerProblemModel) -> RduelProblemModel {
    RduelProblemModel {
        id: problem.id,
        title: problem.title,
        markdown: problem.statement_markdown,
        samples: Seq::new(
            problem.samples.len(),
            |i: int| SampleModel { input: problem.samples[i].input, output: problem.samples[i].output },
        ),
    }
}

/// What stands for a problem when the server sent none.
pub open spec fn missing_problem() -> RduelProblemModel {
    RduelProblemModel {
        id: "Rduel"@,
        title: "Rduel"@,
        markdown: "No problem was received from the server."@,
        samples: seq![],
    }
}

impl RduelProblem {
    /// The problem as the server sent it.
    pub fn from_server(problem: &ServerProblem) -> (r: Self)
        ensures
            r.deep_view() == problem_from(problem.deep_view()),
    {
        let ghost all = problem_from(problem.deep_view()).samples;
        let mut samples: Vec<Sample> = Vec::new();
        let mut i: usize = 0;
        while i < problem.samples.len()
            invariant
                i <= problem.samples@.len(),
                all == problem_from(problem.deep_view()).samples,
                samples.deep_view() == all.take(i as int),
            decreases problem.samples@.len() - i,
        {
            let ghost before = samples.deep_view();
            samples.push(
                Sample {
                    input: problem.samples[i].input.clone(),
                    output: problem.samples[i].output.clone(),
                },
            );
            assert(samples.deep_view() =~= before.push(all[i as int]));
            i += 1;
        }
        assert(samples.deep_view() =~= all);
        RduelProblem {
            id: problem.id.clone(),
            title: problem.title.clone(),
            markdown: problem.statement_markdown.clone(),
            samples,
        }
    }
}

/// How much time passed between two times of a clock that never goes back.
pub open spec fn passed(now: u64, then: u64) -> nat {
    if now >= then {
        (now - then) as nat
    } else {
        0
    }
}

fn time_passed(now: u64, then: u64) -> (r: u64)
    ensures
        r == passed(now, then),
{
    if now >= then {
        now - then
    } else {
        0
    }
}

/// The name under which the code of the opponent is shown.
pub open spec fn opponent_title(atcoder_user: Seq<char>) -> Seq<char> {
    if seqs::is_blank(atcoder_user) {
        "opponent/main.rs"@
    } else {
        seqs::trim(atcoder_user) + "/main.rs"@
    }
}

/// The code of the opponent under its name.
pub fn new_opponent_main_rs_editor(source_code: &str, atcoder_user: &str) -> (r: OpponentSource)
    ensures
        r.deep_view() == (OpponentSourceModel {
            title: opponent_title(atcoder_user@),
            source_code: source_code@,
        }),
{
    let title = if text::is_blank_str(atcoder_user) {
        "opponent/main.rs".to_owned()
    } else {
        text::trim_str(atcoder_user).concat("/main.rs")
    };
    OpponentSource { title, source_code: source_code.to_owned() }
}

/// The name of the first player with the given id.
pub open spec fn name_of(room: ServerRoomModel, id: Seq<char>) -> Option<Seq<char>> {
    if room.players.0.id == id {
        Some(room.players.0.name)
    } else if room.players.1.id == id {
        Some(room.players.1.name)
    } else {
        None
    }
}

/// Who the user is: for a match of the past the player whose match it is, or else the one who is
/// configured.
pub open spec fn local_user(session: RduelSessionModel, configured: Seq<char>) -> Option<Seq<char>> {
    if session.is_history {
        match session.room {
            Some(room) => name_of(room, session.player_id),
            None => None,
        }
    } else if seqs::is_blank(configured) {
        None
    } else {
        Some(seqs::trim(configured))
    }
}

/// The id of the user in a match.
pub open spec fn session_player(session: RduelSessionModel, configured: Seq<char>) -> Seq<char> {
    match session.room {
        Some(room) => presence::local_id(room, session.player_id, local_user(session, configured)),
        None => session.player_id,
    }
}

/// What is selected when a match opens.
pub open spec fn first_selection(items: nat, cases: nat) -> OutputSelection {
    if items > 0 || cases == 0 {
        OutputSelection::Step(0)
    } else {
        OutputSelection::Case(0)
    }
}

/// The view of a match as it opens.
pub open spec fn opened(
    session: RduelSessionModel,
    configured: Seq<char>,
    project_root: Option<Seq<char>>,
) -> RduelViewModel {
    let problem = match session.room {
        Some(room) => problem_from(room.problem),
        None => missing_problem(),
    };
    let command_output = match session.initial_command_output {
        Some(output) => output,
        None => CommandOutputStateModel { items: seq![] },
    };
    let user = local_user(session, configured);
    let player_id = session_player(session, configured);
    RduelViewModel {
        match_state: MatchStateModel {
            player_id: Some(player_id),
            token: if session.token.len() == 0 {
                None
            } else {
                Some(session.token)
            },
            room_id: match session.room {
                Some(room) => if session.is_history {
                    None
                } else {
                    Some(room.id)
                },
                None => None,
            },
            server_url: session.server_url,
            local_atcoder_user: user,
            room_status: match session.room {
                Some(room) => room.status,
                None => ServerRoomStatus::Playing,
            },
        },
        problem,
        project_root,
        opponent: match session.opponent_main_rs {
            Some((atcoder_user, source_code)) => Some(
                OpponentSourceModel { title: opponent_title(atcoder_user), source_code },
            ),
            None => None,
        },
        search_target: None,
        active_code_tab: ActiveCodeTab::MainRs,
        layout_order: LayoutOrder::ProblemLeft,
        command_status: CommandStatus::Idle,
        board: OutputBoardModel {
            test_cases: cases::provided_cases(problem.samples),
            command_output,
            output_selection: first_selection(command_output.items.len(), problem.samples.len()),
        },
        presence: match session.room {
            Some(room) => Some(presence::presence_of(room, Some(player_id), user)),
            None => None,
        },
        opponent_flash: None,
        last_snapshot_upload: None,
        submission_watch_started_at: None,
    }
}

/// The same editor once the test case with the number `index` is removed.
pub open spec fn editor_without(editor: EditorId, index: usize) -> EditorId {
    match editor {
        EditorId::CaseInput(i) => match cases::number_without(i, index) {
            Some(k) => EditorId::CaseInput(k),
            None => EditorId::RemovedCase,
        },
        EditorId::CaseExpected(i) => match cases::number_without(i, index) {
            Some(k) => EditorId::CaseExpected(k),
            None => EditorId::RemovedCase,
        },
        _ => editor,
    }
}

fn without_case(editor: EditorId, index: usize) -> (r: EditorId)
    ensures
        r == editor_without(editor, index),
{
    match editor {
        EditorId::CaseInput(i) => match cases::case_number_without(i, index) {
            Some(k) => EditorId::CaseInput(k),
            None => EditorId::RemovedCase,
        },
        EditorId::CaseExpected(i) => match cases::case_number_without(i, index) {
            Some(k) => EditorId::CaseExpected(k),
            None => EditorId::RemovedCase,
        },
        _ => editor,
    }
}

impl RduelViewModel {
    pub open spec fn is_playing(self) -> bool {
        self.match_state.room_status == ServerRoomStatus::Playing
    }

    /// Whether the code may be handed in.
    pub open spec fn snapshot_due(self, now: u64) -> bool {
        &&& self.match_state.room_id is Some
        &&& self.match_state.player_id is Some
        &&& self.match_state.token is Some
        &&& self.last_snapshot_upload matches Some(last) ==> passed(now, last)
            >= CODE_SNAPSHOT_INTERVAL
    }

    /// The code to hand in.
    pub open spec fn snapshot_request(self, now: u64, main_rs: Seq<char>, cargo_toml: Seq<char>)
        -> Option<RduelMatchCommandModel> {
        if self.snapshot_due(now) {
            Some(
                RduelMatchCommandModel::UploadCodeSnapshot {
                    server_url: self.match_state.server_url,
                    room_id: self.match_state.room_id->0,
                    player_id: self.match_state.player_id->0,
                    token: self.match_state.token->0,
                    main_rs,
                    cargo_toml,
                },
            )
        } else {
            None
        }
    }

    /// The view after the code was handed in, if it may be.
    pub open spec fn after_snapshot(self, now: u64) -> Self {
        if self.snapshot_due(now) {
            RduelViewModel { last_snapshot_upload: Some(now), ..self }
        } else {
            self
        }
    }

    /// The view with the players as they are in `room`.
    pub open spec fn with_presence(self, room: ServerRoomModel, now: u64) -> Self {
        let next = presence::presence_of(
            room,
            self.match_state.player_id,
            self.match_state.local_atcoder_user,
        );
        RduelViewModel {
            presence: Some(next),
            opponent_flash: match presence::flash_for(self.presence, next) {
                Some(message) => Some(OpponentFlashModel { message, shown_at: now }),
                None => self.opponent_flash,
            },
            ..self
        }
    }

    /// The code of the opponent: once the opponent won, the code with which they did.
    pub open spec fn opponent_after(self, room: ServerRoomModel) -> Option<OpponentSourceModel> {
        if self.opponent is Some || room.status != ServerRoomStatus::Finished {
            self.opponent
        } else {
            match room.winning_submission {
                Some(winning) => match winning.source_code {
                    Some(source_code) => if Some(winning.player_id) == self.match_state.player_id
                        || source_code.len() == 0 {
                        None
                    } else {
                        Some(
                            OpponentSourceModel {
                                title: opponent_title(winning.atcoder_user),
                                source_code,
                            },
                        )
                    },
                    None => None,
                },
                None => None,
            }
        }
    }

    /// The name of the other player.
    pub open spec fn remote_name(self, room: ServerRoomModel) -> Seq<char> {
        if Some(room.players.0.id) != self.match_state.player_id {
            room.players.0.name
        } else if Some(room.players.1.id) != self.match_state.player_id {
            room.players.1.name
        } else {
            "opponent"@
        }
    }

    /// How the match ended, for the user, when they first hear of it.
    pub open spec fn outcome_message(self, room: ServerRoomModel) -> Option<Seq<char>> {
        if !self.is_playing() || room.status != ServerRoomStatus::Finished {
            None
        } else {
            let won = room.winner_player_id == self.match_state.player_id;
            let lost = !won && room.winner_player_id is Some;
            let name = self.remote_name(room);
            let left = room.finish_reason == Some(ServerRoomFinishReason::PlayerLeft);
            let manual = room.finish_reason == Some(ServerRoomFinishReason::ManualComplete);
            Some(
                if won && left {
                    "The match has finished. You won because "@ + name + " left the match."@
                } else if won {
                    "The match has finished. You won."@
                } else if lost && left {
                    "The match has finished. "@ + name + " won because you left the match."@
                } else if lost && manual {
                    "The match has finished. "@ + name + " completed first."@
                } else if lost {
                    "The match has finished. "@ + name + " got AC first."@
                } else {
                    "The match has finished."@
                },
            )
        }
    }

    /// The view once it is known how the match stands.
    pub open spec fn with_status(self, room: ServerRoomModel) -> Self {
        RduelViewModel {
            match_state: MatchStateModel {
                room_status: if room.status == ServerRoomStatus::Finished {
                    ServerRoomStatus::Finished
                } else {
                    self.match_state.room_status
                },
                ..self.match_state
            },
            opponent: self.opponent_after(room),
            ..self
        }
    }

    /// The view after a look at the match: when it ends, the code is handed in once more.
    pub open spec fn after_room(self, room: ServerRoomModel, now: u64) -> Self {
        let next = self.with_presence(room, now).with_status(room);
        if self.outcome_message(room) is Some {
            next.after_snapshot(now)
        } else {
            next
        }
    }

    /// What follows a look at the match.
    pub open spec fn room_actions(
        self,
        room: ServerRoomModel,
        now: u64,
        main_rs: Seq<char>,
        cargo_toml: Seq<char>,
    ) -> PollActionsModel {
        let next = self.with_presence(room, now).with_status(room);
        PollActionsModel {
            again: next.is_playing(),
            message: self.outcome_message(room),
            snapshot: if self.outcome_message(room) is Some {
                next.snapshot_request(now, main_rs, cargo_toml)
            } else {
                None
            },
        }
    }

    /// The view after the user left the match.
    pub open spec fn after_leave(self) -> Self {
        if self.is_playing() && self.match_state.player_id is Some {
            RduelViewModel {
                match_state: MatchStateModel {
                    player_id: None,
                    token: None,
                    room_id: None,
                    ..self.match_state
                },
                ..self
            }
        } else {
            self
        }
    }

    /// What is asked when the user leaves the match.
    pub open spec fn leave_request(self, main_rs: Seq<char>, cargo_toml: Seq<char>) -> Option<
        RduelMatchCommandModel,
    > {
        match self.match_state.player_id {
            Some(player_id) => if self.is_playing() {
                Some(
                    RduelMatchCommandModel::Leave {
                        server_url: self.match_state.server_url,
                        player_id,
                        token: match self.match_state.token {
                            Some(token) => token,
                            None => seq![],
                        },
                        main_rs: Some(main_rs),
                        cargo_toml: Some(cargo_toml),
                    },
                )
            } else {
                None
            },
            None => None,
        }
    }

    /// The submissions of the user from a second on.
    pub open spec fn watch_from(self, from_second: i64) -> Option<SubmissionWatchModel> {
        let state = self.match_state;
        match (state.room_id, state.player_id, state.token) {
            (Some(room_id), Some(player_id), Some(token)) => Some(
                SubmissionWatchModel {
                    room_id,
                    player_id,
                    token,
                    server_url: state.server_url,
                    from_second,
                },
            ),
            _ => None,
        }
    }

    /// The view while submissions from a second on are waited for.
    pub open spec fn after_watch_start(self, from_second: i64) -> Self {
        if !self.is_playing() {
            self
        } else if self.watch_from(from_second) is None {
            RduelViewModel {
                board: self.board.with_step(
                    "Submission"@,
                    output::single_item(
                        "Submission"@,
                        CommandOutputItemStatus::Failed,
                        "Could not start submission detection for this room."@,
                    ),
                ),
                ..self
            }
        } else {
            RduelViewModel {
                submission_watch_started_at: Some(from_second),
                board: self.board.with_step(
                    "Submission"@,
                    output::single_item(
                        "Submission"@,
                        CommandOutputItemStatus::Pending,
                        "Waiting for the next AtCoder submission..."@,
                    ),
                ),
                ..self
            }
        }
    }

    /// The view after an answer about submissions from a second on. An answer to a question that is
    /// no longer the last one does not count.
    pub open spec fn after_submission_poll(
        self,
        from_second: i64,
        result: Result<RduelMatchOutputModel, Seq<char>>,
        now_second: i64,
        now: u64,
    ) -> Self {
        if self.submission_watch_started_at != Some(from_second) {
            self
        } else {
            match result {
                Ok(RduelMatchOutputModel::SubmissionCheck { room, detected_submission }) => {
                    let next = self.after_room(room, now);
                    match detected_submission {
                        Some(submission) => RduelViewModel {
                            submission_watch_started_at: None,
                            board: next.board.with_step(
                                "Submission"@,
                                commands::submission_item(now_second, submission),
                            ),
                            ..next
                        },
                        None => next,
                    }
                },
                Ok(_) => self,
                Err(error) => RduelViewModel {
                    submission_watch_started_at: None,
                    board: self.board.with_step(
                        "Submission"@,
                        output::single_item(
                            "Submission"@,
                            CommandOutputItemStatus::Failed,
                            "Could not check AtCoder submissions:\n"@ + error,
                        ),
                    ),
                    ..self
                },
            }
        }
    }

    /// What follows an answer about submissions. Those in the same match, of the same player, are
    /// waited for further, wherever the user is meanwhile.
    pub open spec fn submission_poll_actions(
        self,
        watch: SubmissionWatchModel,
        result: Result<RduelMatchOutputModel, Seq<char>>,
        now: u64,
        main_rs: Seq<char>,
        cargo_toml: Seq<char>,
    ) -> WatchActionsModel {
        let nothing = WatchActionsModel { next: None, message: None, snapshot: None };
        if self.submission_watch_started_at != Some(watch.from_second) {
            nothing
        } else {
            match result {
                Ok(RduelMatchOutputModel::SubmissionCheck { room, detected_submission }) => {
                    let actions = self.room_actions(room, now, main_rs, cargo_toml);
                    WatchActionsModel {
                        next: if actions.again && detected_submission is None {
                            Some(watch)
                        } else {
                            None
                        },
                        message: actions.message,
                        snapshot: actions.snapshot,
                    }
                },
                _ => nothing,
            }
        }
    }

    /// Where the user can be told something at a time.
    pub open spec fn shown_flash(self, now: u64) -> Option<Seq<char>> {
        match self.opponent_flash {
            Some(flash) => if passed(now, flash.shown_at) <= OPPONENT_FLASH_DURATION {
                Some(flash.message)
            } else {
                None
            },
            None => None,
        }
    }

    /// The view a second later.
    pub open spec fn after_tick(self, now: u64) -> Self {
        if self.shown_flash(now) is None {
            RduelViewModel { opponent_flash: None, ..self }
        } else {
            self
        }
    }

    /// The view after a command was asked for: it runs, unless another one does or the test cases
    /// could not be written.
    pub open spec fn after_command_start(self, submit: bool, write_error: Option<Seq<char>>) -> Self {
        if self.command_status is Running {
            self
        } else {
            match write_error {
                Some(error) => RduelViewModel {
                    command_status: CommandStatus::Failed,
                    board: OutputBoardModel {
                        output_selection: OutputSelection::Step(0),
                        ..self.board.with_command(
                            "Test cases"@,
                            CommandOutputItemStatus::Failed,
                            "Failed to write test cases:\n"@ + error,
                        )
                    },
                    ..self
                },
                None => RduelViewModel {
                    command_status: CommandStatus::Running,
                    board: if submit {
                        self.board
                    } else {
                        OutputBoardModel {
                            output_selection: OutputSelection::Step(0),
                            ..self.board.with_command(
                                "Test"@,
                                CommandOutputItemStatus::Pending,
                                "Waiting for command output..."@,
                            )
                        }
                    },
                    ..self
                },
            }
        }
    }

    /// The view without a package to run anything in.
    pub open spec fn without_project(self) -> Self {
        RduelViewModel {
            command_status: CommandStatus::Failed,
            board: self.board.with_command(
                "Project"@,
                CommandOutputItemStatus::Failed,
                "Rduel project files are not available. Reopen Rduel after checking ~/.rduel."@,
            ),
            ..self
        }
    }

    /// The steps of a command that has ended.
    pub open spec fn finished_steps(
        self,
        result: Result<RduelCommandOutputModel, Seq<char>>,
        root_exists: bool,
    ) -> Seq<CommandOutputItemModel> {
        (match result {
            Ok(outcome) => outcome.items,
            Err(error) => seq![
                output::single_item(
                    "Command"@,
                    CommandOutputItemStatus::Failed,
                    "Failed before running command:\n"@ + error,
                ),
            ],
        }) + (if root_exists {
            seq![]
        } else {
            seq![
                output::single_item(
                    "Project"@,
                    CommandOutputItemStatus::Failed,
                    "Rduel project directory no longer exists: "@ + match self.project_root {
                        Some(root) => root,
                        None => seq![],
                    },
                ),
            ]
        })
    }

    /// The view with the outcome of a command that has ended.
    pub open spec fn with_outcome(
        self,
        result: Result<RduelCommandOutputModel, Seq<char>>,
        root_exists: bool,
    ) -> Self {
        let cleared = cases::without_results(self.board.test_cases);
        RduelViewModel {
            command_status: match result {
                Ok(outcome) => if outcome.success {
                    CommandStatus::Succeeded
                } else {
                    CommandStatus::Failed
                },
                Err(_) => CommandStatus::Failed,
            },
            board: OutputBoardModel {
                test_cases: match result {
                    Ok(outcome) => cases::with_results(cleared, outcome.case_results),
                    Err(_) => cleared,
                },
                command_output: CommandOutputStateModel {
                    items: self.finished_steps(result, root_exists),
                },
                ..self.board
            },
            ..self
        }
    }

    /// The view after a command has ended. When a solution is ready to be submitted, the code is
    /// handed in and submissions are waited for.
    pub open spec fn after_command(
        self,
        result: Result<RduelCommandOutputModel, Seq<char>>,
        root_exists: bool,
        now_second: i64,
        now: u64,
    ) -> Self {
        let ready = result matches Ok(outcome) && outcome.submit_ready is Some;
        let next = self.with_outcome(result, root_exists);
        let watched = if ready {
            next.after_snapshot(now).after_watch_start(now_second)
        } else {
            next
        };
        RduelViewModel { board: watched.board.focused_after_run(), ..watched }
    }

    /// What follows a command that has ended.
    pub open spec fn command_actions(
        self,
        result: Result<RduelCommandOutputModel, Seq<char>>,
        now_second: i64,
        now: u64,
        main_rs: Seq<char>,
        cargo_toml: Seq<char>,
    ) -> FinishActionsModel {
        match result {
            Ok(outcome) => match outcome.submit_ready {
                Some(ready) => FinishActionsModel {
                    clipboard: Some(ready.source_code),
                    snapshot: self.snapshot_request(now, main_rs, cargo_toml),
                    open_url: Some(ready.submit_url),
                    watch: if self.is_playing() {
                        self.watch_from(now_second)
                    } else {
                        None
                    },
                },
                None => FinishActionsModel {
                    clipboard: None,
                    snapshot: None,
                    open_url: None,
                    watch: None,
                },
            },
            Err(_) => FinishActionsModel {
                clipboard: None,
                snapshot: None,
                open_url: None,
                watch: None,
            },
        }
    }

    /// The editor of the code that is shown.
    pub open spec fn active_editor(self) -> Option<EditorId> {
        match self.active_code_tab {
            ActiveCodeTab::MainRs => Some(EditorId::MainRs),
            ActiveCodeTab::CargoToml => Some(EditorId::CargoToml),
            ActiveCodeTab::OpponentMainRs => if self.opponent is Some {
                Some(EditorId::OpponentMainRs)
            } else {
                None
            },
        }
    }

    /// The view without a test case. The search bar stays with its editor, be it that of the case.
    pub open spec fn without_case(self, index: usize) -> Self {
        if index >= self.board.test_cases.len() {
            self
        } else {
            RduelViewModel {
                board: self.board.without_case(index),
                search_target: match self.search_target {
                    Some(editor) => Some(editor_without(editor, index)),
                    None => None,
                },
                ..self
            }
        }
    }

    /// Where the search bar belongs: to the code that is shown or to a test case, if the focus is
    /// there, or else where it was.
    pub open spec fn search_editor(self, focused: Option<EditorId>) -> Option<EditorId> {
        let active = self.active_editor();
        let in_case = match focused {
            Some(EditorId::CaseInput(i)) => i < self.board.test_cases.len(),
            Some(EditorId::CaseExpected(i)) => i < self.board.test_cases.len(),
            _ => false,
        };
        if focused is Some && (focused == active || in_case) {
            focused
        } else if self.search_target is Some {
            self.search_target
        } else {
            active
        }
    }

    /// Whether the code of the opponent is shown only where there is some, and the case that is
    /// selected is there.
    pub open spec fn is_valid(self) -> bool {
        &&& self.active_code_tab is OpponentMainRs ==> self.opponent is Some
        &&& self.board.is_valid()
    }
}

impl RduelView {
    /// The view of a match as it opens.
    pub fn new(session: RduelSession, configured_atcoder_user: &str, project_root: Option<String>)
        -> (r: Self)
        ensures
            r.deep_view() == opened(
                session.deep_view(),
                configured_atcoder_user@,
                project_root.deep_view(),
            ),
            r.deep_view().is_valid(),
    {
        let problem = match &session.room {
            Some(room) => RduelProblem::from_server(&room.problem),
            None => {
                let none: Vec<Sample> = Vec::new();
                assert(none.deep_view() =~= seq![]);
                RduelProblem {
                    id: "Rduel".to_owned(),
                    title: "Rduel".to_owned(),
                    markdown: "No problem was received from the server.".to_owned(),
                    samples: none,
                }
            },
        };
        let (room_id, room_status) = match &session.room {
            Some(room) => (
                if session.is_history {
                    None
                } else {
                    Some(room.id.clone())
                },
                room.status,
            ),
            None => (None, ServerRoomStatus::Playing),
        };
        let local_atcoder_user = if session.is_history {
            match &session.room {
                Some(room) => if text::same(
                    room.players[0].id.as_str(),
                    session.player_id.as_str(),
                ) {
                    Some(room.players[0].name.clone())
                } else if text::same(room.players[1].id.as_str(), session.player_id.as_str()) {
                    Some(room.players[1].name.clone())
                } else {
                    None
                },
                None => None,
            }
        } else if text::is_blank_str(configured_atcoder_user) {
            None
        } else {
            Some(text::trim_str(configured_atcoder_user))
        };
        let player_id = match &session.room {
            Some(room) => resolve_local_player_id(
                room,
                session.player_id.clone(),
                &local_atcoder_user,
            ),
            None => session.player_id.clone(),
        };
        let local_id = Some(player_id);
        let presence = match &session.room {
            Some(room) => Some(RoomPresence::from_room(room, &local_id, &local_atcoder_user)),
            None => None,
        };
        let token = if session.token.as_str().is_empty() {
            None
        } else {
            Some(session.token)
        };
        let opponent = match &session.opponent_main_rs {
            Some(code) => Some(new_opponent_main_rs_editor(code.1.as_str(), code.0.as_str())),
            None => None,
        };
        let command_output = match session.initial_command_output {
            Some(shown) => shown,
            None => CommandOutputState::empty(),
        };
        let test_cases = cases_for_samples(&problem.samples);
        let output_selection = if command_output.items.len() > 0 || test_cases.len() == 0 {
            OutputSelection::Step(0)
        } else {
            OutputSelection::Case(0)
        };
        let view = RduelView {
            match_state: MatchState {
                player_id: local_id,
                token,
                room_id,
                server_url: session.server_url,
                local_atcoder_user,
                room_status,
            },
            problem,
            project_root,
            opponent,
            search_target: None,
            active_code_tab: ActiveCodeTab::MainRs,
            layout_order: LayoutOrder::ProblemLeft,
            command_status: CommandStatus::Idle,
            board: OutputBoard { test_cases, command_output, output_selection },
            presence,
            opponent_flash: None,
            last_snapshot_upload: None,
            submission_watch_started_at: None,
        };
        proof {
            let expected = opened(
                session.deep_view(),
                configured_atcoder_user@,
                project_root.deep_view(),
            );
            assert(view.deep_view().problem =~= expected.problem);
            assert(view.deep_view().board.command_output =~= expected.board.command_output);
            assert(command_output.items@.len() == command_output.items.deep_view().len());
            assert(test_cases@.len() == test_cases.deep_view().len());
        }
        view
    }

    /// Whether the match is not over, so that it has to be watched.
    pub fn is_playing(&self) -> (r: bool)
        ensures
            r == self.deep_view().is_playing(),
    {
        self.match_state.room_status == ServerRoomStatus::Playing
    }

    /// What is written to the package before a command runs: the test cases as the user sees them.
    /// Nothing, if a command is running.
    pub fn write_test_cases_to_disk(&self) -> (r: Option<Vec<(String, String)>>)
        ensures
            r.deep_view() == if self.command_status is Running {
                None
            } else {
                Some(cases::case_texts(self.deep_view().board.test_cases))
            },
    {
        if self.command_status.is_running() {
            None
        } else {
            Some(self.board.test_case_texts())
        }
    }

    fn show_missing_project(&mut self)
        ensures
            final(self).deep_view() == old(self).deep_view().without_project(),
    {
        self.command_status = CommandStatus::Failed;
        self.board.command_output =
        single_command_output_state(
            "Project".to_owned(),
            CommandOutputItemStatus::Failed,
            "Rduel project files are not available. Reopen Rduel after checking ~/.rduel.".to_owned(),
        );
        assert(self.deep_view().board.command_output
            =~= old(self).deep_view().without_project().board.command_output);
    }

    /// The user wants to test or to submit: whether there is a package for it.
    pub fn check_project(&mut self) -> (r: bool)
        ensures
            r == (old(self).project_root is Some),
            final(self).deep_view() == if r {
                old(self).deep_view()
            } else {
                old(self).deep_view().without_project()
            },
    {
        if self.project_root.is_some() {
            true
        } else {
            self.show_missing_project();
            false
        }
    }

    /// Starts a test or a submission, for which the test cases were written, unless that failed
    /// with an error: whether the command is to be run.
    pub fn spawn_rduel_command(&mut self, submit: bool, write_error: Option<String>) -> (r: bool)
        ensures
            final(self).deep_view() == old(self).deep_view().after_command_start(
                submit,
                write_error.deep_view(),
            ),
            r == (!(old(self).command_status is Running) && write_error is None),
    {
        if self.command_status.is_running() {
            return false;
        }
        let ghost expected = self.deep_view().after_command_start(submit, write_error.deep_view());
        if let Some(error) = write_error {
            self.command_status = CommandStatus::Failed;
            self.board.command_output =
            single_command_output_state(
                "Test cases".to_owned(),
                CommandOutputItemStatus::Failed,
                "Failed to write test cases:\n".to_owned().concat(error.as_str()),
            );
            self.board.output_selection = OutputSelection::Step(0);
            assert(self.deep_view().board.command_output =~= expected.board.command_output);
            return false;
        }
        self.command_status = CommandStatus::Running;
        if !submit {
            self.board.output_selection = OutputSelection::Step(0);
            self.board.command_output = CommandOutputState::running("Test");
            assert(self.deep_view().board.command_output =~= expected.board.command_output);
        }
        true
    }

    /// Hands in the code, unless that was done a short time ago: what is asked.
    pub fn upload_code_snapshot(&mut self, now: u64, main_rs: &str, cargo_toml: &str) -> (r: Option<
        RduelMatchCommand,
    >)
        ensures
            final(self).deep_view() == old(self).deep_view().after_snapshot(now),
            r.deep_view() == old(self).deep_view().snapshot_request(now, main_rs@, cargo_toml@),
    {
        let state = &self.match_state;
        match (&state.room_id, &state.player_id, &state.token) {
            (Some(room_id), Some(player_id), Some(token)) => {
                if let Some(last) = self.last_snapshot_upload {
                    if time_passed(now, last) < CODE_SNAPSHOT_INTERVAL {
                        return None;
                    }
                }
                let command = RduelMatchCommand::UploadCodeSnapshot {
                    server_url: state.server_url.clone(),
                    room_id: room_id.clone(),
                    player_id: player_id.clone(),
                    token: token.clone(),
                    main_rs: main_rs.to_owned(),
                    cargo_toml: cargo_toml.to_owned(),
                };
                self.last_snapshot_upload = Some(now);
                Some(command)
            },
            _ => None,
        }
    }

    /// The time for handing in the code has come: what is asked, if the match is not over.
    pub fn schedule_snapshot_upload(&mut self, now: u64, main_rs: &str, cargo_toml: &str) -> (r:
        Option<RduelMatchCommand>)
        ensures
            final(self).deep_view() == if old(self).deep_view().is_playing() {
                old(self).deep_view().after_snapshot(now)
            } else {
                old(self).deep_view()
            },
            r.deep_view() == if old(self).deep_view().is_playing() {
                old(self).deep_view().snapshot_request(now, main_rs@, cargo_toml@)
            } else {
                None
            },
    {
        if self.is_playing() {
            self.upload_code_snapshot(now, main_rs, cargo_toml)
        } else {
            None
        }
    }

    /// What is asked, after a while, about submissions that are waited for.
    pub fn poll_submission_after_delay(&self, watch: &SubmissionWatch) -> (r: RduelMatchCommand)
        ensures
            r.deep_view() == watch.deep_view().command(),
    {
        RduelMatchCommand::WatchSubmissions {
            server_url: watch.server_url.clone(),
            room_id: watch.room_id.clone(),
            player_id: watch.player_id.clone(),
            token: watch.token.clone(),
            from_second: watch.from_second,
        }
    }

    /// Waits for submissions from now on: which they are.
    pub fn start_server_submission_watch(&mut self, from_second: i64) -> (r: Option<
        SubmissionWatch,
    >)
        ensures
            final(self).deep_view() == old(self).deep_view().after_watch_start(from_second),
            r.deep_view() == if old(self).deep_view().is_playing() {
                old(self).deep_view().watch_from(from_second)
            } else {
                None
            },
    {
        if !self.is_playing() {
            return None;
        }
        let state = &self.match_state;
        let watch = match (&state.room_id, &state.player_id, &state.token) {
            (Some(room_id), Some(player_id), Some(token)) => Some(
                SubmissionWatch {
                    room_id: room_id.clone(),
                    player_id: player_id.clone(),
                    token: token.clone(),
                    server_url: state.server_url.clone(),
                    from_second,
                },
            ),
            _ => None,
        };
        if watch.is_none() {
            self.board.upsert_step(
                "Submission",
                plain_item(
                    "Submission",
                    CommandOutputItemStatus::Failed,
                    "Could not start submission detection for this room.".to_owned(),
                ),
            );
            return None;
        }
        self.submission_watch_started_at = Some(from_second);
        self.board.upsert_step(
            "Submission",
            plain_item(
                "Submission",
                CommandOutputItemStatus::Pending,
                "Waiting for the next AtCoder submission...".to_owned(),
            ),
        );
        watch
    }

    /// A command has ended: what follows. `root_exists` says whether the package is still there.
    pub fn finish_rduel_command(
        &mut self,
        result: Result<RduelCommandOutput, String>,
        root_exists: bool,
        now_second: i64,
        now: u64,
        main_rs: &str,
        cargo_toml: &str,
    ) -> (r: FinishActions)
        ensures
            final(self).deep_view() == old(self).deep_view().after_command(
                result_model(result),
                root_exists,
                now_second,
                now,
            ),
            r.deep_view() == old(self).deep_view().command_actions(
                result_model(result),
                now_second,
                now,
                main_rs@,
                cargo_toml@,
            ),
    {
        let ghost before = self.deep_view();
        let ghost model = result_model(result);
        let ghost outcome_view = before.with_outcome(model, root_exists);
        self.board.clear_results();
        let mut submit_ready = None;
        let mut items = match result {
            Ok(outcome) => {
                self.command_status = if outcome.success {
                    CommandStatus::Succeeded
                } else {
                    CommandStatus::Failed
                };
                self.board.set_results(&outcome.case_results);
                submit_ready = outcome.submit_ready;
                outcome.items
            },
            Err(error) => {
                self.command_status = CommandStatus::Failed;
                let detail = "Failed before running command:\n".to_owned().concat(error.as_str());
                let mut steps: Vec<CommandOutputItem> = Vec::new();
                steps.push(plain_item("Command", CommandOutputItemStatus::Failed, detail));
                assert(steps.deep_view() =~= seq![
                    output::single_item(
                        "Command"@,
                        CommandOutputItemStatus::Failed,
                        "Failed before running command:\n"@ + error@,
                    ),
                ]);
                steps
            },
        };
        let ghost first = items.deep_view();
        if !root_exists {
            let root = match &self.project_root {
                Some(root) => root.clone(),
                None => {
                    let none = String::new();
                    assert(none@ =~= seq![]);
                    none
                },
            };
            let detail = "Rduel project directory no longer exists: ".to_owned().concat(
                root.as_str(),
            );
            items.push(plain_item("Project", CommandOutputItemStatus::Failed, detail));
        }
        assert(items.deep_view() =~= before.finished_steps(model, root_exists));
        self.board.command_output = CommandOutputState { items };
        assert(self.deep_view() =~= outcome_view);
        let actions = match submit_ready {
            Some(ready) => {
                let snapshot = self.upload_code_snapshot(now, main_rs, cargo_toml);
                let watch = self.start_server_submission_watch(now_second);
                FinishActions {
                    clipboard: Some(ready.source_code),
                    snapshot,
                    open_url: Some(ready.submit_url),
                    watch,
                }
            },
            None => FinishActions { clipboard: None, snapshot: None, open_url: None, watch: None },
        };
        self.board.focus_after_run();
        actions
    }

    /// Shows the players as they are in `room`, and tells the user of a new submission of the
    /// opponent.
    pub fn update_room_presence(&mut self, room: &ServerRoom, now: u64)
        ensures
            final(self).deep_view() == old(self).deep_view().with_presence(room.deep_view(), now),
    {
        let next = RoomPresence::from_room(
            room,
            &self.match_state.player_id,
            &self.match_state.local_atcoder_user,
        );
        if let Some(message) = opponent_flash_message(&self.presence, &next) {
            self.opponent_flash = Some(OpponentFlash { message, shown_at: now });
        }
        self.presence = Some(next);
    }

    /// Shows the code with which the opponent won.
    pub fn add_opponent_solution_if_lost(&mut self, room: &ServerRoom)
        ensures
            final(self).deep_view() == (RduelViewModel {
                opponent: old(self).deep_view().opponent_after(room.deep_view()),
                ..old(self).deep_view()
            }),
    {
        if self.opponent.is_some() || room.status != ServerRoomStatus::Finished {
            return;
        }
        if let Some(winning) = &room.winning_submission {
            if let Some(player_id) = &self.match_state.player_id {
                if text::same(winning.player_id.as_str(), player_id.as_str()) {
                    return;
                }
            }
            if let Some(source_code) = &winning.source_code {
                if !source_code.as_str().is_empty() {
                    self.opponent = Some(
                        new_opponent_main_rs_editor(
                            source_code.as_str(),
                            winning.atcoder_user.as_str(),
                        ),
                    );
                }
            }
        }
    }

    /// Notes that the match is over: how it ended, for the user.
    pub fn apply_room_status(&mut self, room: &ServerRoom) -> (r: Option<String>)
        ensures
            r.deep_view() == old(self).deep_view().outcome_message(room.deep_view()),
            final(self).deep_view() == (RduelViewModel {
                opponent: old(self).deep_view().opponent,
                ..old(self).deep_view().with_status(room.deep_view())
            }),
    {
        if !self.is_playing() || room.status != ServerRoomStatus::Finished {
            return None;
        }
        let won = match (&room.winner_player_id, &self.match_state.player_id) {
            (Some(winner), Some(local)) => text::same(winner.as_str(), local.as_str()),
            (None, None) => true,
            _ => false,
        };
        let lost = !won && room.winner_player_id.is_some();
        let first_is_local = match &self.match_state.player_id {
            Some(local) => text::same(room.players[0].id.as_str(), local.as_str()),
            None => false,
        };
        let second_is_local = match &self.match_state.player_id {
            Some(local) => text::same(room.players[1].id.as_str(), local.as_str()),
            None => false,
        };
        let name = if !first_is_local {
            room.players[0].name.clone()
        } else if !second_is_local {
            room.players[1].name.clone()
        } else {
            "opponent".to_owned()
        };
        let left = match room.finish_reason {
            Some(ServerRoomFinishReason::PlayerLeft) => true,
            _ => false,
        };
        let manual = match room.finish_reason {
            Some(ServerRoomFinishReason::ManualComplete) => true,
            _ => false,
        };
        let message = if won && left {
            "The match has finished. You won because ".to_owned().concat(name.as_str()).concat(
                " left the match.",
            )
        } else if won {
            "The match has finished. You won.".to_owned()
        } else if lost && left {
            "The match has finished. ".to_owned().concat(name.as_str()).concat(
                " won because you left the match.",
            )
        } else if lost && manual {
            "The match has finished. ".to_owned().concat(name.as_str()).concat(" completed first.")
        } else if lost {
            "The match has finished. ".to_owned().concat(name.as_str()).concat(" got AC first.")
        } else {
            "The match has finished.".to_owned()
        };
        self.match_state.room_status = ServerRoomStatus::Finished;
        Some(message)
    }

    /// Notes how the match stands. When the user first hears that it is over, they are told how it
    /// ended, and the code is handed in once more.
    pub fn handle_room_status(
        &mut self,
        room: &ServerRoom,
        now: u64,
        main_rs: &str,
        cargo_toml: &str,
    ) -> (r: PollActions)
        ensures
            final(self).deep_view() == old(self).deep_view().after_room(room.deep_view(), now),
            r.deep_view() == old(self).deep_view().room_actions(
                room.deep_view(),
                now,
                main_rs@,
                cargo_toml@,
            ),
    {
        self.update_room_presence(room, now);
        self.add_opponent_solution_if_lost(room);
        let message = self.apply_room_status(room);
        let again = self.is_playing();
        let snapshot = if message.is_some() {
            self.upload_code_snapshot(now, main_rs, cargo_toml)
        } else {
            None
        };
        PollActions { again, message, snapshot }
    }

    /// What is asked about the match while it lasts.
    pub fn poll_room_after_delay(&self) -> (r: Option<RduelMatchCommand>)
        ensures
            r.deep_view() == match self.deep_view().match_state.room_id {
                Some(room_id) => Some(
                    RduelMatchCommandModel::PollRoom {
                        server_url: self.match_state.server_url@,
                        room_id,
                    },
                ),
                None => None,
            },
    {
        match &self.match_state.room_id {
            Some(room_id) => Some(
                RduelMatchCommand::PollRoom {
                    server_url: self.match_state.server_url.clone(),
                    room_id: room_id.clone(),
                },
            ),
            None => None,
        }
    }

    /// An answer about the match came, or none could be had: what follows.
    pub fn finish_room_poll(
        &mut self,
        result: Option<RduelMatchOutput>,
        now: u64,
        main_rs: &str,
        cargo_toml: &str,
    ) -> (r: PollActions)
        ensures
            match result.deep_view() {
                Some(RduelMatchOutputModel::RoomStatus { room }) => {
                    &&& final(self).deep_view() == old(self).deep_view().after_room(room, now)
                    &&& r.deep_view() == old(self).deep_view().room_actions(
                        room,
                        now,
                        main_rs@,
                        cargo_toml@,
                    )
                },
                _ => {
                    &&& final(self).deep_view() == old(self).deep_view()
                    &&& r.deep_view() == (PollActionsModel {
                        again: true,
                        message: None,
                        snapshot: None,
                    })
                },
            },
    {
        match result {
            Some(RduelMatchOutput::RoomStatus { room }) => self.handle_room_status(
                &room,
                now,
                main_rs,
                cargo_toml,
            ),
            _ => PollActions { again: true, message: None, snapshot: None },
        }
    }

    /// An answer about submissions that are waited for came, or an error: what follows.
    pub fn finish_submission_poll(
        &mut self,
        watch: SubmissionWatch,
        result: Result<RduelMatchOutput, String>,
        now_second: i64,
        now: u64,
        main_rs: &str,
        cargo_toml: &str,
    ) -> (r: WatchActions)
        ensures
            final(self).deep_view() == old(self).deep_view().after_submission_poll(
                watch.from_second,
                answer_model(result),
                now_second,
                now,
            ),
            r.deep_view() == old(self).deep_view().submission_poll_actions(
                watch.deep_view(),
                answer_model(result),
                now,
                main_rs@,
                cargo_toml@,
            ),
    {
        let current = match self.submission_watch_started_at {
            Some(started) => started == watch.from_second,
            None => false,
        };
        if !current {
            return WatchActions { next: None, message: None, snapshot: None };
        }
        match result {
            Ok(RduelMatchOutput::SubmissionCheck { room, detected_submission }) => {
                let actions = self.handle_room_status(&room, now, main_rs, cargo_toml);
                let next = match detected_submission {
                    Some(submission) => {
                        self.submission_watch_started_at = None;
                        self.board.upsert_step(
                            "Submission",
                            submission_output_item_at(now_second, &submission),
                        );
                        None
                    },
                    None => if actions.again {
                        Some(watch)
                    } else {
                        None
                    },
                };
                WatchActions { next, message: actions.message, snapshot: actions.snapshot }
            },
            Ok(_) => WatchActions { next: None, message: None, snapshot: None },
            Err(error) => {
                self.submission_watch_started_at = None;
                let heading = "Could not check AtCoder submissions:\n".to_owned().concat(
                    error.as_str(),
                );
                self.board.upsert_step(
                    "Submission",
                    plain_item("Submission", CommandOutputItemStatus::Failed, heading),
                );
                WatchActions { next: None, message: None, snapshot: None }
            },
        }
    }

    /// A second has passed: whether to wait for the next one.
    pub fn tick_match_timer(&mut self, now: u64) -> (r: bool)
        ensures
            final(self).deep_view() == old(self).deep_view().after_tick(now),
            r == old(self).deep_view().is_playing(),
    {
        if let Some(flash) = &self.opponent_flash {
            if time_passed(now, flash.shown_at) > OPPONENT_FLASH_DURATION {
                self.opponent_flash = None;
            }
        }
        self.is_playing()
    }

    /// The user leaves the match: what is asked.
    pub fn leave_active_match(&mut self, main_rs: &str, cargo_toml: &str) -> (r: Option<
        RduelMatchCommand,
    >)
        ensures
            final(self).deep_view() == old(self).deep_view().after_leave(),
            r.deep_view() == old(self).deep_view().leave_request(main_rs@, cargo_toml@),
    {
        if !self.is_playing() {
            return None;
        }
        match self.match_state.player_id.take() {
            None => None,
            Some(player_id) => {
                self.match_state.room_id = None;
                let token = match self.match_state.token.take() {
                    Some(token) => token,
                    None => {
                        let none = String::new();
                        assert(none@ =~= seq![]);
                        none
                    },
                };
                Some(
                    RduelMatchCommand::Leave {
                        server_url: self.match_state.server_url.clone(),
                        player_id,
                        token,
                        main_rs: Some(main_rs.to_owned()),
                        cargo_toml: Some(cargo_toml.to_owned()),
                    },
                )
            },
        }
    }

    /// Changes the sides of the problem and the code.
    pub fn toggle_layout(&mut self)
        ensures
            final(self).deep_view() == (RduelViewModel {
                layout_order: toggled(old(self).layout_order),
                ..old(self).deep_view()
            }),
    {
        self.layout_order = match self.layout_order {
            LayoutOrder::ProblemLeft => LayoutOrder::CodeLeft,
            LayoutOrder::CodeLeft => LayoutOrder::ProblemLeft,
        };
    }

    /// Shows the code of the user.
    pub fn select_main_rs(&mut self)
        ensures
            final(self).deep_view() == (RduelViewModel {
                active_code_tab: ActiveCodeTab::MainRs,
                ..old(self).deep_view()
            }),
    {
        self.active_code_tab = ActiveCodeTab::MainRs;
    }

    /// Shows the manifest.
    pub fn select_cargo_toml(&mut self)
        ensures
            final(self).deep_view() == (RduelViewModel {
                active_code_tab: ActiveCodeTab::CargoToml,
                ..old(self).deep_view()
            }),
    {
        self.active_code_tab = ActiveCodeTab::CargoToml;
    }

    /// Shows the code of the opponent, if there is some.
    pub fn select_opponent_main_rs(&mut self)
        ensures
            final(self).deep_view() == if old(self).opponent is Some {
                RduelViewModel {
                    active_code_tab: ActiveCodeTab::OpponentMainRs,
                    ..old(self).deep_view()
                }
            } else {
                old(self).deep_view()
            },
    {
        if self.opponent.is_some() {
            self.active_code_tab = ActiveCodeTab::OpponentMainRs;
        }
    }

    /// The editor of the code that is shown.
    pub fn active_code_editor(&self) -> (r: Option<EditorId>)
        ensures
            r == self.deep_view().active_editor(),
    {
        match self.active_code_tab {
            ActiveCodeTab::MainRs => Some(EditorId::MainRs),
            ActiveCodeTab::CargoToml => Some(EditorId::CargoToml),
            ActiveCodeTab::OpponentMainRs => if self.opponent.is_some() {
                Some(EditorId::OpponentMainRs)
            } else {
                None
            },
        }
    }

    /// The editor in which a name is changed: the one of the user's own with the focus, or else the
    /// one that is shown.
    pub fn focused_code_editor(&self, focused: Option<EditorId>) -> (r: Option<EditorId>)
        ensures
            r == match focused {
                Some(EditorId::MainRs) => focused,
                Some(EditorId::CargoToml) => focused,
                _ => self.deep_view().active_editor(),
            },
    {
        match focused {
            Some(EditorId::MainRs) => focused,
            Some(EditorId::CargoToml) => focused,
            _ => self.active_code_editor(),
        }
    }

    /// The editor in which a change of a name is confirmed: one of the user's own in which it is
    /// under way, or else the one in which a name would be changed.
    pub fn rename_editor(
        &self,
        main_rs_pending: bool,
        cargo_toml_pending: bool,
        focused: Option<EditorId>,
    ) -> (r: Option<EditorId>)
        ensures
            r == if main_rs_pending {
                Some(EditorId::MainRs)
            } else if cargo_toml_pending {
                Some(EditorId::CargoToml)
            } else {
                match focused {
                    Some(EditorId::MainRs) => focused,
                    Some(EditorId::CargoToml) => focused,
                    _ => self.deep_view().active_editor(),
                }
            },
    {
        if main_rs_pending {
            Some(EditorId::MainRs)
        } else if cargo_toml_pending {
            Some(EditorId::CargoToml)
        } else {
            self.focused_code_editor(focused)
        }
    }

    /// Where the search bar belongs.
    pub fn focused_search_editor(&self, focused: Option<EditorId>) -> (r: Option<EditorId>)
        ensures
            r == self.deep_view().search_editor(focused),
    {
        let active = self.active_code_editor();
        let length: usize = self.board.test_cases.len();
        let stays = match focused {
            Some(editor) => match editor {
                EditorId::CaseInput(i) => i < length,
                EditorId::CaseExpected(i) => i < length,
                _ => match active {
                    Some(shown) => shown == editor,
                    None => false,
                },
            },
            None => false,
        };
        if stays {
            focused
        } else if self.search_target.is_some() {
            self.search_target
        } else {
            active
        }
    }

    /// Moves the search bar to where it belongs: the editor that it is to search, if that is a new
    /// one or the bar was closed. `dismissed` says whether the bar is closed, if there is one.
    pub fn sync_search_target(&mut self, focused: Option<EditorId>, dismissed: Option<bool>) -> (r:
        Option<EditorId>)
        ensures
            ({
                let editor = old(self).deep_view().search_editor(focused);
                let moves = editor is Some && dismissed is Some && (old(self).search_target
                    != editor || dismissed == Some(true));
                &&& r == if moves {
                    editor
                } else {
                    None
                }
                &&& final(self).deep_view() == if moves {
                    RduelViewModel { search_target: editor, ..old(self).deep_view() }
                } else {
                    old(self).deep_view()
                }
            }),
    {
        let editor = match self.focused_search_editor(focused) {
            Some(editor) => editor,
            None => {
                return None;
            },
        };
        let dismissed = match dismissed {
            Some(dismissed) => dismissed,
            None => {
                return None;
            },
        };
        let same = match self.search_target {
            Some(target) => target == editor,
            None => false,
        };
        if same && !dismissed {
            return None;
        }
        self.search_target = Some(editor);
        Some(editor)
    }

    /// Removes a test case, if it is there.
    pub fn delete_test_case(&mut self, index: usize)
        ensures
            final(self).deep_view() == old(self).deep_view().without_case(index),
    {
        if index >= self.board.test_cases.len() {
            return;
        }
        self.board.delete_test_case(index);
        self.search_target = match self.search_target {
            Some(editor) => Some(without_case(editor, index)),
            None => None,
        };
    }

    /// The heading of the problem.
    pub fn problem_heading(&self) -> (r: String)
        ensures
            r@ == wording::problem_heading(self.problem.id@, self.problem.title@),
    {
        wording::format_problem_heading(self.problem.id.as_str(), self.problem.title.as_str())
    }

    /// What is shown of both players at a time.
    pub fn render_versus_header(&self, now_second: i64, now: u64) -> (r: VersusHeader)
        ensures
            r.deep_view() == (VersusHeaderModel {
                local: presence::player_line(
                    "你"@,
                    match self.deep_view().presence {
                        Some(presence) => presence.local,
                        None => None,
                    },
                    now_second,
                ),
                elapsed: wording::clock(
                    wording::seconds_since(
                        now_second,
                        match self.deep_view().presence {
                            Some(presence) => presence.started_at_second,
                            None => 0,
                        },
                    ),
                ),
                flash: self.deep_view().shown_flash(now),
                is_finished: !self.deep_view().is_playing(),
                opponent: presence::player_line(
                    "对手"@,
                    match self.deep_view().presence {
                        Some(presence) => presence.opponent,
                        None => None,
                    },
                    now_second,
                ),
            }),
    {
        let flash = match &self.opponent_flash {
            Some(flash) => if time_passed(now, flash.shown_at) <= OPPONENT_FLASH_DURATION {
                Some(flash.message.clone())
            } else {
                None
            },
            None => None,
        };
        let is_finished = !self.is_playing();
        match &self.presence {
            Some(presence) => VersusHeader {
                local: render_player_presence("你", &presence.local, now_second),
                elapsed: wording::format_elapsed_at(now_second, presence.started_at_second),
                flash,
                is_finished,
                opponent: render_player_presence("对手", &presence.opponent, now_second),
            },
            None => VersusHeader {
                local: render_player_presence("你", &None, now_second),
                elapsed: wording::format_elapsed_at(now_second, 0),
                flash,
                is_finished,
                opponent: render_player_presence("对手", &None, now_second),
            },
        }
    }

    fn code_tab(&self, label: &str, tab: ActiveCodeTab, is_dirty: bool) -> (r: CodeTab)
        ensures
            r.deep_view() == code_tab_model(label@, tab, is_dirty, self.active_code_tab),
    {
        CodeTab {
            label: if is_dirty {
                label.to_owned().concat(" *")
            } else {
                label.to_owned()
            },
            tab,
            selected: self.active_code_tab == tab,
        }
    }

    /// The list of the code that can be shown. An asterisk stands for changes that are not saved.
    pub fn render_code_tabs(&self, main_rs_dirty: bool, cargo_toml_dirty: bool) -> (r: Vec<CodeTab>)
        ensures
            r.deep_view() == seq![
                code_tab_model(
                    "src/main.rs"@,
                    ActiveCodeTab::MainRs,
                    main_rs_dirty,
                    self.active_code_tab,
                ),
                code_tab_model(
                    "Cargo.toml"@,
                    ActiveCodeTab::CargoToml,
                    cargo_toml_dirty,
                    self.active_code_tab,
                ),
            ] + (if self.opponent is Some {
                seq![
                    code_tab_model(
                        "opponent/main.rs"@,
                        ActiveCodeTab::OpponentMainRs,
                        false,
                        self.active_code_tab,
                    ),
                ]
            } else {
                seq![]
            }),
    {
        let mut tabs: Vec<CodeTab> = Vec::new();
        tabs.push(self.code_tab("src/main.rs", ActiveCodeTab::MainRs, main_rs_dirty));
        tabs.push(self.code_tab("Cargo.toml", ActiveCodeTab::CargoToml, cargo_toml_dirty));
        if self.opponent.is_some() {
            tabs.push(self.code_tab("opponent/main.rs", ActiveCodeTab::OpponentMainRs, false));
        }
        tabs
    }

    /// What is shown of the steps and the cases. While a command runs, no other one can be started.
    pub fn render_command_output(&self) -> (r: CommandPanel)
        ensures
            r.deep_view() == (CommandPanelModel {
                chips: self.deep_view().board.chips(),
                actions: seq![
                    ActionButtonModel { label: "Run"@, disabled: self.command_status is Running },
                    ActionButtonModel {
                        label: "Submit"@,
                        disabled: self.command_status is Running,
                    },
                ],
                detail: self.deep_view().board.selected_detail(),
            }),
    {
        let is_running = self.command_status.is_running();
        let mut actions: Vec<ActionButton> = Vec::new();
        actions.push(action_button("Run", is_running));
        actions.push(action_button("Submit", is_running));
        let panel = CommandPanel {
            chips: self.board.render_chips(),
            actions,
            detail: self.board.render_output_detail(),
        };
        assert(panel.actions.deep_view() =~= seq![
            ActionButtonModel { label: "Run"@, disabled: is_running },
            ActionButtonModel { label: "Submit"@, disabled: is_running },
        ]);
        panel
    }

    /// Whether closing the view would lose something: a match that is not over, or changes that are
    /// not saved.
    pub fn is_dirty(&self, main_rs_dirty: bool, cargo_toml_dirty: bool) -> (r: bool)
        ensures
            r == (self.deep_view().is_playing() || main_rs_dirty || cargo_toml_dirty),
    {
        self.is_playing() || main_rs_dirty || cargo_toml_dirty
    }
}

/// The code with changes that are not saved.
pub fn active_project_path(main_rs_dirty: bool, cargo_toml_dirty: bool) -> (r: Option<ActiveCodeTab>)
    ensures
        r == if main_rs_dirty {
            Some(ActiveCodeTab::MainRs)
        } else if cargo_toml_dirty {
            Some(ActiveCodeTab::CargoToml)
        } else {
            None
        },
{
    if main_rs_dirty {
        Some(ActiveCodeTab::MainRs)
    } else if cargo_toml_dirty {
        Some(ActiveCodeTab::CargoToml)
    } else {
        None
    }
}

/// Whether a figure of a statement is loaded from its address.
pub fn is_remote_image(url: &str) -> (r: bool)
    ensures
        r == (seqs::starts_with(url@, "http://"@) || seqs::starts_with(url@, "https://"@)),
{
    let chars = text::chars_of(url);
    text::starts_with(&chars, "http://") || text::starts_with(&chars, "https://")
}

/// A piece of code in the list of what can be shown.
pub open spec fn code_tab_model(
    label: Seq<char>,
    tab: ActiveCodeTab,
    is_dirty: bool,
    active: ActiveCodeTab,
) -> CodeTabModel {
    CodeTabModel {
        label: if is_dirty {
            label + " *"@
        } else {
            label
        },
        tab,
        selected: active == tab,
    }
}

/// The other side.
pub open spec fn toggled(order: LayoutOrder) -> LayoutOrder {
    match order {
        LayoutOrder::ProblemLeft => LayoutOrder::CodeLeft,
        LayoutOrder::CodeLeft => LayoutOrder::ProblemLeft,
    }
}

/// The outcome of a command, or why it could not be run.
pub open spec fn result_model(result: Result<RduelCommandOutput, String>) -> Result<
    RduelCommandOutputModel,
    Seq<char>,
> {
    match result {
        Ok(outcome) => Ok(outcome.deep_view()),
        Err(error) => Err(error@),
    }
}

/// The answer of the server, or why there is none.
pub open spec fn answer_model(result: Result<RduelMatchOutput, String>) -> Result<
    RduelMatchOutputModel,
    Seq<char>,
> {
    match result {
        Ok(answer) => Ok(answer.deep_view()),
        Err(error) => Err(error@),
    }
}

/// The problem is shown as the server sent it: its id, its title, its statement, and each of its
/// samples.
pub proof fn problem_is_shown_as_sent(problem: ServerProblemModel, i: int)
    ensures
        ({
            let shown = problem_from(problem);
            &&& shown.id == problem.id
            &&& shown.title == problem.title
            &&& shown.markdown == problem.statement_markdown
            &&& shown.samples.len() == problem.samples.len()
            &&& 0 <= i < problem.samples.len() ==> shown.samples[i].input
                == problem.samples[i].input && shown.samples[i].output == problem.samples[i].output
        }),
        missing_problem().samples.len() == 0,
        missing_problem().markdown == "No problem was received from the server."@,
{
}

/// The time that has passed is the difference of two times, and none if the clock stood still or
/// the later one comes first.
pub proof fn time_passes_forward(now: u64, then: u64)
    ensures
        now >= then ==> passed(now, then) == now - then,
        now < then ==> passed(now, then) == 0,
{
}

/// The code of the opponent stands under the opponent's name, without the white space around it.
pub proof fn opponent_code_is_named(user: Seq<char>)
    ensures
        seqs::is_blank(user) ==> opponent_title(user) == "opponent/main.rs"@,
        !seqs::is_blank(user) ==> opponent_title(user) == seqs::trim(user) + "/main.rs"@,
{
}

/// A match opens with its problem and its samples as test cases, as the player that the user is in
/// it, and with the token of the session. Nothing runs, nothing was handed in, and the user's own
/// code is shown.
pub proof fn match_opens(
    session: RduelSessionModel,
    configured: Seq<char>,
    root: Option<Seq<char>>,
    room: ServerRoomModel,
)
    requires
        session.room == Some(room),
        !session.is_history,
    ensures
        ({
            let view = opened(session, configured, root);
            let user = if seqs::is_blank(configured) {
                None
            } else {
                Some(seqs::trim(configured))
            };
            let items = if session.initial_command_output is Some {
                session.initial_command_output->0.items
            } else {
                seq![]
            };
            &&& view.match_state.local_atcoder_user == user
            &&& view.match_state.player_id == Some(
                presence::local_id(room, session.player_id, user),
            )
            &&& session.token.len() == 0 ==> view.match_state.token is None
            &&& session.token.len() > 0 ==> view.match_state.token == Some(session.token)
            &&& view.match_state.room_id == Some(room.id)
            &&& view.match_state.server_url == session.server_url
            &&& view.match_state.room_status == room.status
            &&& view.problem == problem_from(room.problem)
            &&& view.project_root == root
            &&& session.opponent_main_rs is None ==> view.opponent is None
            &&& session.opponent_main_rs matches Some((name, code)) ==> view.opponent == Some(
                OpponentSourceModel { title: opponent_title(name), source_code: code },
            )
            &&& view.search_target is None
            &&& view.active_code_tab == ActiveCodeTab::MainRs
            &&& view.layout_order == LayoutOrder::ProblemLeft
            &&& view.command_status == CommandStatus::Idle
            &&& view.board.test_cases == cases::provided_cases(problem_from(room.problem).samples)
            &&& view.board.command_output.items == items
            &&& items.len() > 0 || room.problem.samples.len() == 0 ==> view.board.output_selection
                == OutputSelection::Step(0)
            &&& items.len() == 0 && room.problem.samples.len() > 0 ==> view.board.output_selection
                == OutputSelection::Case(0)
            &&& view.presence == Some(
                presence::presence_of(room, view.match_state.player_id, user),
            )
            &&& view.opponent_flash is None
            &&& view.last_snapshot_upload is None
            &&& view.submission_watch_started_at is None
        }),
{
}

/// A match of the past opens for the player whose match it is, and is not played any more; without
/// a match there is no problem.
pub proof fn past_match_opens(
    session: RduelSessionModel,
    configured: Seq<char>,
    root: Option<Seq<char>>,
    room: ServerRoomModel,
)
    ensures
        session.is_history && session.room == Some(room) ==> {
            let view = opened(session, configured, root);
            &&& view.match_state.room_id is None
            &&& room.players.0.id == session.player_id ==> view.match_state.local_atcoder_user
                == Some(room.players.0.name)
            &&& room.players.0.id != session.player_id && room.players.1.id == session.player_id
                ==> view.match_state.local_atcoder_user == Some(room.players.1.name)
            &&& room.players.0.id != session.player_id && room.players.1.id != session.player_id
                ==> view.match_state.local_atcoder_user is None
            &&& view.problem == problem_from(room.problem)
            &&& view.match_state.room_status == room.status
        },
        session.room is None ==> {
            let view = opened(session, configured, root);
            &&& view.match_state.player_id == Some(session.player_id)
            &&& view.match_state.room_id is None
            &&& view.match_state.room_status == ServerRoomStatus::Playing
            &&& view.problem == missing_problem()
            &&& view.presence is None
        },
{
}

/// The code is handed in under the player's name and token, if the player is in a match and it was
/// not handed in for half a minute; then the time is noted, and nothing else of the view is changed.
pub proof fn code_is_handed_in(
    view: RduelViewModel,
    now: u64,
    main_rs: Seq<char>,
    cargo_toml: Seq<char>,
)
    ensures
        ({
            let state = view.match_state;
            let in_match = state.room_id is Some && state.player_id is Some && state.token is Some;
            let due = in_match && (view.last_snapshot_upload is None || now
                - view.last_snapshot_upload->0 >= 30000);
            &&& due ==> {
                &&& view.snapshot_request(now, main_rs, cargo_toml) == Some(
                    RduelMatchCommandModel::UploadCodeSnapshot {
                        server_url: state.server_url,
                        room_id: state.room_id->0,
                        player_id: state.player_id->0,
                        token: state.token->0,
                        main_rs,
                        cargo_toml,
                    },
                )
                &&& view.after_snapshot(now) == (RduelViewModel {
                    last_snapshot_upload: Some(now),
                    ..view
                })
            }
            &&& !due ==> view.snapshot_request(now, main_rs, cargo_toml) is None
                && view.after_snapshot(now) == view
        }),
{
}

/// Both players are shown as they are in the room, and the user is told of a new submission of the
/// opponent; an earlier message stays otherwise.
pub proof fn players_are_shown(view: RduelViewModel, room: ServerRoomModel, now: u64)
    ensures
        ({
            let after = view.with_presence(room, now);
            let next = presence::presence_of(
                room,
                view.match_state.player_id,
                view.match_state.local_atcoder_user,
            );
            let told = presence::flash_for(view.presence, next);
            &&& after == (RduelViewModel {
                presence: Some(next),
                opponent_flash: after.opponent_flash,
                ..view
            })
            &&& told is None ==> after.opponent_flash == view.opponent_flash
            &&& told is Some ==> after.opponent_flash == Some(
                OpponentFlashModel { message: told->0, shown_at: now },
            )
        }),
{
}

/// Once the opponent won, the code with which they did is shown; the user's own code is not taken
/// for it, an empty one is none, and code that is shown stays.
pub proof fn winning_code_is_shown(view: RduelViewModel, room: ServerRoomModel)
    ensures
        view.opponent is Some ==> view.opponent_after(room) == view.opponent,
        room.status != ServerRoomStatus::Finished ==> view.opponent_after(room) == view.opponent,
        view.opponent is None && room.status == ServerRoomStatus::Finished ==> {
            let shown = view.opponent_after(room);
            &&& room.winning_submission is None ==> shown is None
            &&& room.winning_submission matches Some(winning) ==> {
                let own = view.match_state.player_id == Some(winning.player_id);
                let empty = winning.source_code is None || winning.source_code->0.len() == 0;
                &&& own || empty ==> shown is None
                &&& !own && !empty ==> shown == Some(
                    OpponentSourceModel {
                        title: opponent_title(winning.atcoder_user),
                        source_code: winning.source_code->0,
                    },
                )
            }
        },
        view.with_status(room).opponent == view.opponent_after(room),
{
}

/// The user hears of the end of a match once: that they won or who did, and whether that was because
/// the other one left, completed it or was accepted first.
pub proof fn end_of_match_is_told(
    view: RduelViewModel,
    room: ServerRoomModel,
    own: ServerPlayerModel,
    other: ServerPlayerModel,
)
    requires
        room.players == (own, other) || room.players == (other, own),
        own.id != other.id,
        view.match_state.player_id == Some(own.id),
        view.match_state.room_status == ServerRoomStatus::Playing,
        room.status == ServerRoomStatus::Finished,
    ensures
        ({
            let told = view.outcome_message(room);
            let left = room.finish_reason == Some(ServerRoomFinishReason::PlayerLeft);
            let manual = room.finish_reason == Some(ServerRoomFinishReason::ManualComplete);
            &&& room.winner_player_id is None ==> told == Some("The match has finished."@)
            &&& room.winner_player_id == Some(own.id) && left ==> told == Some(
                "The match has finished. You won because "@ + other.name + " left the match."@,
            )
            &&& room.winner_player_id == Some(own.id) && !left ==> told == Some(
                "The match has finished. You won."@,
            )
            &&& room.winner_player_id == Some(other.id) && left ==> told == Some(
                "The match has finished. "@ + other.name + " won because you left the match."@,
            )
            &&& room.winner_player_id == Some(other.id) && manual ==> told == Some(
                "The match has finished. "@ + other.name + " completed first."@,
            )
            &&& room.winner_player_id == Some(other.id) && !left && !manual ==> told == Some(
                "The match has finished. "@ + other.name + " got AC first."@,
            )
        }),
{
}

/// Nothing is told of a match that goes on, nor again of one that is over.
pub proof fn end_of_match_is_told_once(view: RduelViewModel, room: ServerRoomModel, now: u64)
    ensures
        room.status != ServerRoomStatus::Finished ==> view.outcome_message(room) is None,
        view.match_state.room_status != ServerRoomStatus::Playing ==> view.outcome_message(
            room,
        ) is None,
        view.after_room(room, now).outcome_message(room) is None,
{
}

/// A look at a match notes whether it is over, and shows the players and the code of an opponent who
/// won; when it ends, the code is handed in once more. It is looked at again while it goes on.
pub proof fn look_at_match(
    view: RduelViewModel,
    room: ServerRoomModel,
    now: u64,
    main_rs: Seq<char>,
    cargo_toml: Seq<char>,
)
    ensures
        ({
            let shown = view.with_presence(room, now);
            let next = RduelViewModel {
                match_state: MatchStateModel {
                    room_status: if room.status == ServerRoomStatus::Finished {
                        ServerRoomStatus::Finished
                    } else {
                        view.match_state.room_status
                    },
                    ..view.match_state
                },
                opponent: view.opponent_after(room),
                ..shown
            };
            let over = view.match_state.room_status == ServerRoomStatus::Playing && room.status
                == ServerRoomStatus::Finished;
            let actions = view.room_actions(room, now, main_rs, cargo_toml);
            &&& over ==> view.after_room(room, now) == next.after_snapshot(now)
            &&& !over ==> view.after_room(room, now) == next
            &&& actions.again <==> room.status != ServerRoomStatus::Finished
                && view.match_state.room_status == ServerRoomStatus::Playing
            &&& actions.message == view.outcome_message(room)
            &&& actions.message is Some <==> over
            &&& over ==> actions.snapshot == view.snapshot_request(now, main_rs, cargo_toml)
            &&& !over ==> actions.snapshot is None
        }),
{
    let next = view.with_presence(room, now).with_status(room);
    assert(next.match_state.room_id == view.match_state.room_id);
}

/// A player who leaves a match that goes on hands in their code with their token, and is in no match
/// any more; one who is in none, or whose match is over, leaves nothing.
pub proof fn leaving_hands_in_code(
    view: RduelViewModel,
    main_rs: Seq<char>,
    cargo_toml: Seq<char>,
    player: Seq<char>,
)
    ensures
        view.match_state.room_status == ServerRoomStatus::Playing && view.match_state.player_id
            == Some(player) ==> {
            &&& view.leave_request(main_rs, cargo_toml) == Some(
                RduelMatchCommandModel::Leave {
                    server_url: view.match_state.server_url,
                    player_id: player,
                    token: if view.match_state.token is Some {
                        view.match_state.token->0
                    } else {
                        seq![]
                    },
                    main_rs: Some(main_rs),
                    cargo_toml: Some(cargo_toml),
                },
            )
            &&& view.after_leave() == (RduelViewModel {
                match_state: MatchStateModel {
                    player_id: None,
                    token: None,
                    room_id: None,
                    ..view.match_state
                },
                ..view
            })
        },
        view.match_state.room_status != ServerRoomStatus::Playing || view.match_state.player_id
            is None ==> view.leave_request(main_rs, cargo_toml) is None && view.after_leave()
            == view,
{
}

/// Submissions are waited for in the user's own match and with the user's own token, from the given
/// second on; where these are not known the view says so, and after the match nothing is waited for.
pub proof fn own_submissions_are_waited_for(view: RduelViewModel, from_second: i64)
    ensures
        ({
            let state = view.match_state;
            let known = state.room_id is Some && state.player_id is Some && state.token is Some;
            let watch = view.watch_from(from_second);
            let after = view.after_watch_start(from_second);
            &&& watch is Some <==> known
            &&& watch is Some ==> {
                &&& watch->0.room_id == state.room_id->0
                &&& watch->0.player_id == state.player_id->0
                &&& watch->0.token == state.token->0
                &&& watch->0.server_url == state.server_url
                &&& watch->0.from_second == from_second
                &&& watch->0.command() == (RduelMatchCommandModel::WatchSubmissions {
                    server_url: state.server_url,
                    room_id: state.room_id->0,
                    player_id: state.player_id->0,
                    token: state.token->0,
                    from_second,
                })
            }
            &&& state.room_status != ServerRoomStatus::Playing ==> after == view
            &&& state.room_status == ServerRoomStatus::Playing && known ==> after == (
            RduelViewModel {
                submission_watch_started_at: Some(from_second),
                board: view.board.with_step(
                    "Submission"@,
                    output::single_item(
                        "Submission"@,
                        CommandOutputItemStatus::Pending,
                        "Waiting for the next AtCoder submission..."@,
                    ),
                ),
                ..view
            })
            &&& state.room_status == ServerRoomStatus::Playing && !known ==> after == (
            RduelViewModel {
                board: view.board.with_step(
                    "Submission"@,
                    output::single_item(
                        "Submission"@,
                        CommandOutputItemStatus::Failed,
                        "Could not start submission detection for this room."@,
                    ),
                ),
                ..view
            })
        }),
{
}

/// A submission that was waited for is shown and ends the wait, and so does an error; as long as
/// there is none and the match goes on, it is waited for further. How the match stands is noted with
/// each answer.
pub proof fn awaited_submission_is_shown(
    view: RduelViewModel,
    watch: SubmissionWatchModel,
    room: ServerRoomModel,
    submission: ServerPlayerSubmissionRecordModel,
    error: Seq<char>,
    now_second: i64,
    now: u64,
    main_rs: Seq<char>,
    cargo_toml: Seq<char>,
)
    requires
        view.submission_watch_started_at == Some(watch.from_second),
    ensures
        ({
            let found = Ok::<RduelMatchOutputModel, Seq<char>>(
                RduelMatchOutputModel::SubmissionCheck {
                    room,
                    detected_submission: Some(submission),
                },
            );
            let none = Ok::<RduelMatchOutputModel, Seq<char>>(
                RduelMatchOutputModel::SubmissionCheck { room, detected_submission: None },
            );
            let looked = view.after_room(room, now);
            let acts = view.room_actions(room, now, main_rs, cargo_toml);
            let on_found = view.submission_poll_actions(watch, found, now, main_rs, cargo_toml);
            let on_none = view.submission_poll_actions(watch, none, now, main_rs, cargo_toml);
            let on_error = view.submission_poll_actions(
                watch,
                Err(error),
                now,
                main_rs,
                cargo_toml,
            );
            &&& view.after_submission_poll(watch.from_second, found, now_second, now) == (
            RduelViewModel {
                submission_watch_started_at: None,
                board: looked.board.with_step(
                    "Submission"@,
                    commands::submission_item(now_second, submission),
                ),
                ..looked
            })
            &&& view.after_submission_poll(watch.from_second, none, now_second, now) == looked
            &&& view.after_submission_poll(watch.from_second, Err(error), now_second, now) == (
            RduelViewModel {
                submission_watch_started_at: None,
                board: view.board.with_step(
                    "Submission"@,
                    output::single_item(
                        "Submission"@,
                        CommandOutputItemStatus::Failed,
                        "Could not check AtCoder submissions:\n"@ + error,
                    ),
                ),
                ..view
            })
            &&& on_found.next is None
            &&& on_error.next is None && on_error.message is None && on_error.snapshot is None
            &&& acts.again ==> on_none.next == Some(watch)
            &&& !acts.again ==> on_none.next is None
            &&& on_found.message == acts.message && on_none.message == acts.message
            &&& on_found.snapshot == acts.snapshot && on_none.snapshot == acts.snapshot
        }),
{
}

/// An answer about submissions that are no longer waited for changes nothing and asks nothing.
pub proof fn late_answer_is_not_shown(
    view: RduelViewModel,
    watch: SubmissionWatchModel,
    result: Result<RduelMatchOutputModel, Seq<char>>,
    now_second: i64,
    now: u64,
    main_rs: Seq<char>,
    cargo_toml: Seq<char>,
)
    requires
        view.submission_watch_started_at != Some(watch.from_second),
    ensures
        view.after_submission_poll(watch.from_second, result, now_second, now) == view,
        ({
            let actions = view.submission_poll_actions(watch, result, now, main_rs, cargo_toml);
            actions.next is None && actions.message is None && actions.snapshot is None
        }),
{
}

/// A message about the opponent is shown for five seconds, and is gone once they are over.
pub proof fn message_is_shown_for_a_while(view: RduelViewModel, flash: OpponentFlashModel, now: u64)
    ensures
        view.opponent_flash is None ==> view.shown_flash(now) is None,
        view.opponent_flash == Some(flash) && now <= flash.shown_at + 5000 ==> view.shown_flash(now)
            == Some(flash.message) && view.after_tick(now) == view,
        view.opponent_flash == Some(flash) && now > flash.shown_at + 5000 ==> view.shown_flash(
            now,
        ) is None && view.after_tick(now) == (RduelViewModel { opponent_flash: None, ..view }),
{
}

/// A command runs once its test cases are written; a test shows one step that is not done, and a
/// submission leaves the board as it is. If they could not be written the command fails with one
/// step that says why, and while another one runs nothing is started.
pub proof fn started_command_runs(view: RduelViewModel, submit: bool, error: Seq<char>)
    ensures
        view.command_status is Running ==> view.after_command_start(submit, None) == view
            && view.after_command_start(submit, Some(error)) == view,
        !(view.command_status is Running) ==> {
            let tested = view.after_command_start(false, None);
            let failed = view.after_command_start(submit, Some(error));
            &&& view.after_command_start(true, None) == (RduelViewModel {
                command_status: CommandStatus::Running,
                ..view
            })
            &&& tested == (RduelViewModel {
                command_status: CommandStatus::Running,
                board: tested.board,
                ..view
            })
            &&& tested.board.test_cases == view.board.test_cases
            &&& tested.board.output_selection == OutputSelection::Step(0)
            &&& tested.board.command_output.items == seq![
                output::single_item(
                    "Test"@,
                    CommandOutputItemStatus::Pending,
                    "Waiting for command output..."@,
                ),
            ]
            &&& failed == (RduelViewModel {
                command_status: CommandStatus::Failed,
                board: failed.board,
                ..view
            })
            &&& failed.board.test_cases == view.board.test_cases
            &&& failed.board.output_selection == OutputSelection::Step(0)
            &&& failed.board.command_output.items == seq![
                output::single_item(
                    "Test cases"@,
                    CommandOutputItemStatus::Failed,
                    "Failed to write test cases:\n"@ + error,
                ),
            ]
        },
{
}

/// Without a package every command fails with one step that says so.
pub proof fn command_needs_package(view: RduelViewModel)
    ensures
        ({
            let after = view.without_project();
            &&& after == (RduelViewModel {
                command_status: CommandStatus::Failed,
                board: after.board,
                ..view
            })
            &&& after.board.test_cases == view.board.test_cases
            &&& after.board.output_selection == view.board.output_selection
            &&& after.board.command_output.items == seq![
                output::single_item(
                    "Project"@,
                    CommandOutputItemStatus::Failed,
                    "Rduel project files are not available. Reopen Rduel after checking ~/.rduel."@,
                ),
            ]
        }),
{
}

/// A command that has ended has succeeded exactly if its outcome says so. Its steps are shown, with
/// one that says if the package is gone, and so are the results of the test cases, with the first
/// failure selected; earlier results are forgotten.
pub proof fn outcome_of_command_is_shown(
    view: RduelViewModel,
    outcome: RduelCommandOutputModel,
    error: Seq<char>,
    root_exists: bool,
    now_second: i64,
    now: u64,
)
    requires
        outcome.submit_ready is None,
    ensures
        ({
            let gone = if root_exists {
                Seq::<CommandOutputItemModel>::empty()
            } else {
                seq![
                    output::single_item(
                        "Project"@,
                        CommandOutputItemStatus::Failed,
                        "Rduel project directory no longer exists: "@
                            + if view.project_root is Some {
                            view.project_root->0
                        } else {
                            seq![]
                        },
                    ),
                ]
            };
            let cleared = cases::without_results(view.board.test_cases);
            let board = OutputBoardModel {
                test_cases: cases::with_results(cleared, outcome.case_results),
                command_output: CommandOutputStateModel { items: outcome.items + gone },
                output_selection: view.board.output_selection,
            };
            let failed = OutputBoardModel {
                test_cases: cleared,
                command_output: CommandOutputStateModel {
                    items: seq![
                        output::single_item(
                            "Command"@,
                            CommandOutputItemStatus::Failed,
                            "Failed before running command:\n"@ + error,
                        ),
                    ] + gone,
                },
                output_selection: view.board.output_selection,
            };
            &&& view.after_command(Ok(outcome), root_exists, now_second, now) == (RduelViewModel {
                command_status: if outcome.success {
                    CommandStatus::Succeeded
                } else {
                    CommandStatus::Failed
                },
                board: board.focused_after_run(),
                ..view
            })
            &&& view.after_command(Err(error), root_exists, now_second, now) == (RduelViewModel {
                command_status: CommandStatus::Failed,
                board: failed.focused_after_run(),
                ..view
            })
        }),
{
}

/// A solution that is ready to be submitted is copied, the page to submit it on is opened, the code
/// is handed in, and while the match goes on the submission is waited for from now on. After any
/// other outcome nothing follows.
pub proof fn ready_solution_is_submitted(
    view: RduelViewModel,
    outcome: RduelCommandOutputModel,
    error: Seq<char>,
    root_exists: bool,
    now_second: i64,
    now: u64,
    main_rs: Seq<char>,
    cargo_toml: Seq<char>,
)
    ensures
        ({
            let after = view.after_command(Ok(outcome), root_exists, now_second, now);
            let actions = view.command_actions(Ok(outcome), now_second, now, main_rs, cargo_toml);
            let failed = view.command_actions(Err(error), now_second, now, main_rs, cargo_toml);
            let playing = view.match_state.room_status == ServerRoomStatus::Playing;
            &&& outcome.submit_ready is Some ==> {
                &&& actions.clipboard == Some(outcome.submit_ready->0.source_code)
                &&& actions.open_url == Some(outcome.submit_ready->0.submit_url)
                &&& actions.snapshot == view.snapshot_request(now, main_rs, cargo_toml)
                &&& playing ==> actions.watch == view.watch_from(now_second)
                &&& !playing ==> actions.watch is None
                &&& playing && view.watch_from(now_second) is Some
                    ==> after.submission_watch_started_at == Some(now_second)
                &&& !playing || view.watch_from(now_second) is None
                    ==> after.submission_watch_started_at == view.submission_watch_started_at
                &&& after.last_snapshot_upload == view.after_snapshot(now).last_snapshot_upload
                &&& after.match_state == view.match_state
                &&& after.problem == view.problem
                &&& after.opponent == view.opponent
            }
            &&& outcome.submit_ready is None ==> actions.clipboard is None && actions.open_url
                is None && actions.snapshot is None && actions.watch is None
            &&& failed.clipboard is None && failed.open_url is None && failed.snapshot is None
                && failed.watch is None
        }),
{
}

/// The code that is shown is the one that was chosen; that of the opponent only where there is some.
pub proof fn chosen_code_is_shown(view: RduelViewModel)
    ensures
        view.active_code_tab == ActiveCodeTab::MainRs ==> view.active_editor() == Some(
            EditorId::MainRs,
        ),
        view.active_code_tab == ActiveCodeTab::CargoToml ==> view.active_editor() == Some(
            EditorId::CargoToml,
        ),
        view.active_code_tab == ActiveCodeTab::OpponentMainRs && view.opponent is Some
            ==> view.active_editor() == Some(EditorId::OpponentMainRs),
        view.active_code_tab == ActiveCodeTab::OpponentMainRs && view.opponent is None
            ==> view.active_editor() is None,
{
}

/// The search bar goes to the editor with the focus, if that is the code that is shown or the text
/// of a test case that is there; otherwise it stays where it is, and without a place it goes to the
/// code that is shown.
pub proof fn search_goes_to_focus(view: RduelViewModel, i: usize, other: Option<EditorId>)
    ensures
        view.active_editor() is Some ==> view.search_editor(view.active_editor())
            == view.active_editor(),
        i < view.board.test_cases.len() ==> view.search_editor(Some(EditorId::CaseInput(i)))
            == Some(EditorId::CaseInput(i)) && view.search_editor(Some(EditorId::CaseExpected(i)))
            == Some(EditorId::CaseExpected(i)),
        ({
            let elsewhere = match other {
                None => true,
                Some(EditorId::CaseInput(k)) => k >= view.board.test_cases.len(),
                Some(EditorId::CaseExpected(k)) => k >= view.board.test_cases.len(),
                Some(editor) => view.active_editor() != Some(editor),
            };
            &&& elsewhere && view.search_target is Some ==> view.search_editor(other)
                == view.search_target
            &&& elsewhere && view.search_target is None ==> view.search_editor(other)
                == view.active_editor()
        }),
{
}

/// Removing a test case that is not there changes nothing, and removing one changes only the board
/// and the search bar, and that only if it is with a test case.
pub proof fn only_board_and_search_are_changed(view: RduelViewModel, index: usize)
    ensures
        index >= view.board.test_cases.len() ==> view.without_case(index) == view,
        index < view.board.test_cases.len() ==> view.without_case(index) == (RduelViewModel {
            board: view.board.without_case(index),
            search_target: view.without_case(index).search_target,
            ..view
        }),
        view.search_target is None ==> view.without_case(index).search_target is None,
        view.search_target == Some(EditorId::MainRs) ==> view.without_case(index).search_target
            == Some(EditorId::MainRs),
        view.search_target == Some(EditorId::CargoToml) ==> view.without_case(index).search_target
            == Some(EditorId::CargoToml),
        view.search_target == Some(EditorId::OpponentMainRs) ==> view.without_case(
            index,
        ).search_target == Some(EditorId::OpponentMainRs),
{
}

/// A piece of code is listed under its name, with an asterisk if it has changes that are not saved,
/// and is marked exactly if it is shown.
pub proof fn code_is_listed(label: Seq<char>, tab: ActiveCodeTab, active: ActiveCodeTab)
    ensures
        code_tab_model(label, tab, false, active).label == label,
        code_tab_model(label, tab, true, active).label == label + " *"@,
        code_tab_model(label, tab, true, active).tab == tab,
        code_tab_model(label, tab, false, active).tab == tab,
        code_tab_model(label, tab, true, active).selected <==> active == tab,
        code_tab_model(label, tab, false, active).selected <==> active == tab,
{
}
/// The models hold what the values hold, each part under its own name.
pub proof fn models_hold_their_parts(
    rduel_problem: RduelProblem,
    match_state: MatchState,
    opponent_flash: OpponentFlash,
    opponent_source: OpponentSource,
    rduel_view: RduelView,
    poll_actions: PollActions,
    submission_watch: SubmissionWatch,
    watch_actions: WatchActions,
    finish_actions: FinishActions,
    versus_header: VersusHeader,
    code_tab: CodeTab,
)
    ensures
        rduel_problem.deep_view() == (RduelProblemModel {
            id: rduel_problem.id@,
            title: rduel_problem.title@,
            markdown: rduel_problem.markdown@,
            samples: rduel_problem.samples.deep_view(),
        }),
        match_state.deep_view() == (MatchStateModel {
            player_id: match_state.player_id.deep_view(),
            token: match_state.token.deep_view(),
            room_id: match_state.room_id.deep_view(),
            server_url: match_state.server_url@,
            local_atcoder_user: match_state.local_atcoder_user.deep_view(),
            room_status: match_state.room_status,
        }),
        opponent_flash.deep_view() == (OpponentFlashModel {
            message: opponent_flash.message@,
            shown_at: opponent_flash.shown_at,
        }),
        opponent_source.deep_view() == (OpponentSourceModel {
            title: opponent_source.title@,
            source_code: opponent_source.source_code@,
        }),
        rduel_view.deep_view() == (RduelViewModel {
            match_state: rduel_view.match_state.deep_view(),
            problem: rduel_view.problem.deep_view(),
            project_root: rduel_view.project_root.deep_view(),
            opponent: rduel_view.opponent.deep_view(),
            search_target: rduel_view.search_target,
            active_code_tab: rduel_view.active_code_tab,
            layout_order: rduel_view.layout_order,
            command_status: rduel_view.command_status,
            board: rduel_view.board.deep_view(),
            presence: rduel_view.presence.deep_view(),
            opponent_flash: rduel_view.opponent_flash.deep_view(),
            last_snapshot_upload: rduel_view.last_snapshot_upload,
            submission_watch_started_at: rduel_view.submission_watch_started_at,
        }),
        poll_actions.deep_view() == (PollActionsModel {
            again: poll_actions.again,
            message: poll_actions.message.deep_view(),
            snapshot: poll_actions.snapshot.deep_view(),
        }),
        submission_watch.deep_view() == (SubmissionWatchModel {
            room_id: submission_watch.room_id@,
            player_id: submission_watch.player_id@,
            token: submission_watch.token@,
            server_url: submission_watch.server_url@,
            from_second: submission_watch.from_second,
        }),
        watch_actions.deep_view() == (WatchActionsModel {
            next: watch_actions.next.deep_view(),
            message: watch_actions.message.deep_view(),
            snapshot: watch_actions.snapshot.deep_view(),
        }),
        finish_actions.deep_view() == (FinishActionsModel {
            clipboard: finish_actions.clipboard.deep_view(),
            snapshot: finish_actions.snapshot.deep_view(),
            open_url: finish_actions.open_url.deep_view(),
            watch: finish_actions.watch.deep_view(),
        }),
        versus_header.deep_view() == (VersusHeaderModel {
            local: versus_header.local.deep_view(),
            elapsed: versus_header.elapsed@,
            flash: versus_header.flash.deep_view(),
            is_finished: versus_header.is_finished,
            opponent: versus_header.opponent.deep_view(),
        }),
        code_tab.deep_view() == (CodeTabModel {
            label: code_tab.label@,
            tab: code_tab.tab,
            selected: code_tab.selected,
        }),
{
}
/// Answers are passed on as they are.
pub proof fn answers_are_passed_on(
    outcome: RduelCommandOutput,
    answer: RduelMatchOutput,
    error: String,
)
    ensures
        result_model(Ok(outcome)) == Ok::<RduelCommandOutputModel, Seq<char>>(outcome.deep_view()),
        result_model(Err(error)) == Err::<RduelCommandOutputModel, Seq<char>>(error@),
        answer_model(Ok(answer)) == Ok::<RduelMatchOutputModel, Seq<char>>(answer.deep_view()),
        answer_model(Err(error)) == Err::<RduelMatchOutputModel, Seq<char>>(error@),
{
}
/// The test cases are written as the user sees them, unless a command is running.
pub proof fn shown_cases_are_written(view: RduelView, written: Option<Vec<(String, String)>>)
    requires
        call_ensures(RduelView::write_test_cases_to_disk, (&view,), written),
    ensures
        written is None <==> view.command_status is Running,
        written is Some ==> written->0.deep_view() == cases::case_texts(
            view.board.test_cases.deep_view(),
        ),
{
}

/// Code is handed in on time only while the match goes on.
pub proof fn code_is_handed_in_during_match(
    view: &mut RduelView,
    now: u64,
    main_rs: &str,
    cargo_toml: &str,
    asked: Option<RduelMatchCommand>,
)
    requires
        call_ensures(RduelView::schedule_snapshot_upload, (view, now, main_rs, cargo_toml), asked),
    ensures
        old(view).match_state.room_status != ServerRoomStatus::Playing ==> asked is None
            && final(view).deep_view() == old(view).deep_view(),
        old(view).match_state.room_status == ServerRoomStatus::Playing ==> asked.deep_view() == old(view).deep_view().snapshot_request(now, main_rs@, cargo_toml@) && final(view).deep_view() == old(view).deep_view().after_snapshot(now),
{
}

/// An answer about the match is noted, and without one the match is looked at again and nothing is
/// changed.
pub proof fn missing_answer_changes_nothing(
    view: &mut RduelView,
    now: u64,
    main_rs: &str,
    cargo_toml: &str,
    actions: PollActions,
)
    requires
        call_ensures(
            RduelView::finish_room_poll,
            (view, None::<RduelMatchOutput>, now, main_rs, cargo_toml),
            actions,
        ),
    ensures
        final(view).deep_view() == old(view).deep_view(),
        actions.again,
        actions.message is None,
        actions.snapshot is None,
{
}

/// An answer about the match is noted as a look at it.
pub proof fn answer_about_match_is_noted(
    view: &mut RduelView,
    room: ServerRoom,
    now: u64,
    main_rs: &str,
    cargo_toml: &str,
    actions: PollActions,
)
    requires
        call_ensures(
            RduelView::finish_room_poll,
            (view, Some(RduelMatchOutput::RoomStatus { room }), now, main_rs, cargo_toml),
            actions,
        ),
    ensures
        final(view).deep_view() == old(view).deep_view().after_room(room.deep_view(), now),
        actions.deep_view() == old(view).deep_view().room_actions(
            room.deep_view(),
            now,
            main_rs@,
            cargo_toml@,
        ),
{
}

/// While the user is in a match they ask about that match.
pub proof fn own_match_is_asked_about(view: RduelView, asked: Option<RduelMatchCommand>)
    requires
        call_ensures(RduelView::poll_room_after_delay, (&view,), asked),
    ensures
        asked is Some <==> view.match_state.room_id is Some,
        asked is Some ==> asked->0.deep_view() == (RduelMatchCommandModel::PollRoom {
            server_url: view.match_state.server_url@,
            room_id: view.match_state.room_id->0@,
        }),
{
}

/// The code that the user chooses is shown; that of the opponent only where there is some. Nothing
/// else is changed.
pub proof fn choosing_code_shows_it(view: &mut RduelView)
    ensures
        call_ensures(RduelView::select_main_rs, (view,), ()) ==> final(view).active_code_tab
            == ActiveCodeTab::MainRs && final(view).deep_view().board == old(view).deep_view().board,
        call_ensures(RduelView::select_cargo_toml, (view,), ()) ==> final(view).active_code_tab
            == ActiveCodeTab::CargoToml && final(view).deep_view().board == old(view).deep_view().board,
        call_ensures(RduelView::select_opponent_main_rs, (view,), ()) ==> final(view).active_code_tab == if old(view).opponent is Some {
            ActiveCodeTab::OpponentMainRs
        } else {
            old(view).active_code_tab
        },
        call_ensures(RduelView::toggle_layout, (view,), ()) ==> final(view).layout_order != old(view).layout_order,
{
}

/// A name is changed in the user's own code with the focus, or else in the code that is shown; it is
/// confirmed where the change is under way.
pub proof fn name_is_changed_in_focused_code(
    view: RduelView,
    main_rs_pending: bool,
    cargo_toml_pending: bool,
    focused: Option<EditorId>,
    editor: Option<EditorId>,
    confirmed: Option<EditorId>,
)
    requires
        call_ensures(RduelView::focused_code_editor, (&view, focused), editor),
        call_ensures(
            RduelView::rename_editor,
            (&view, main_rs_pending, cargo_toml_pending, focused),
            confirmed,
        ),
    ensures
        focused == Some(EditorId::MainRs) || focused == Some(EditorId::CargoToml) ==> editor
            == focused,
        focused != Some(EditorId::MainRs) && focused != Some(EditorId::CargoToml) ==> editor
            == view.deep_view().active_editor(),
        main_rs_pending ==> confirmed == Some(EditorId::MainRs),
        !main_rs_pending && cargo_toml_pending ==> confirmed == Some(EditorId::CargoToml),
        !main_rs_pending && !cargo_toml_pending ==> confirmed == editor,
{
}

/// The search bar moves where it belongs, if there is one and it is elsewhere or was closed;
/// otherwise nothing is changed.
pub proof fn search_bar_moves_once(
    view: &mut RduelView,
    focused: Option<EditorId>,
    dismissed: Option<bool>,
    moved: Option<EditorId>,
)
    requires
        call_ensures(RduelView::sync_search_target, (view, focused, dismissed), moved),
    ensures
        ({
            let editor = old(view).deep_view().search_editor(focused);
            let moves = editor is Some && dismissed is Some && (old(view).search_target != editor
                || dismissed == Some(true));
            &&& moves ==> moved == editor && final(view).search_target == editor
            &&& !moves ==> moved is None && final(view).deep_view() == old(view).deep_view()
        }),
{
}

/// The header shows the user on one side and the opponent on the other, how long the match lasts,
/// and whether it is over.
pub proof fn header_shows_both_sides(
    view: RduelView,
    presence: RoomPresence,
    now_second: i64,
    now: u64,
    header: VersusHeader,
)
    requires
        call_ensures(RduelView::render_versus_header, (&view, now_second, now), header),
        view.presence == Some(presence),
    ensures
        header.is_finished <==> view.match_state.room_status != ServerRoomStatus::Playing,
        header.local.deep_view() == presence::player_line(
            "你"@,
            presence.local.deep_view(),
            now_second,
        ),
        header.opponent.deep_view() == presence::player_line(
            "对手"@,
            presence.opponent.deep_view(),
            now_second,
        ),
        header.elapsed@ == wording::clock(
            if now_second > presence.started_at_second {
                (now_second - presence.started_at_second) as nat
            } else {
                0
            },
        ),
        header.flash.deep_view() == view.deep_view().shown_flash(now),
{
    assert(view.presence.deep_view() == Some(presence.deep_view()));
}

/// The user's code, the manifest and the opponent's code are listed in this order, the last only
/// where there is some.
pub proof fn code_is_listed_in_order(
    view: RduelView,
    main_rs_dirty: bool,
    cargo_toml_dirty: bool,
    tabs: Vec<CodeTab>,
)
    requires
        call_ensures(
            RduelView::render_code_tabs,
            (&view, main_rs_dirty, cargo_toml_dirty),
            tabs,
        ),
    ensures
        tabs@.len() == if view.opponent is Some {
            3int
        } else {
            2int
        },
        tabs@[0].tab == ActiveCodeTab::MainRs,
        tabs@[0].label@ == if main_rs_dirty {
            "src/main.rs"@ + " *"@
        } else {
            "src/main.rs"@
        },
        tabs@[1].tab == ActiveCodeTab::CargoToml,
        tabs@[1].label@ == if cargo_toml_dirty {
            "Cargo.toml"@ + " *"@
        } else {
            "Cargo.toml"@
        },
        view.opponent is Some ==> tabs@[2].tab == ActiveCodeTab::OpponentMainRs && tabs@[2].label@
            == "opponent/main.rs"@,
        forall|i: int|
            0 <= i < tabs@.len() ==> ((#[trigger] tabs@[i]).selected <==> view.active_code_tab
                == tabs@[i].tab),
{
    let shown = tabs.deep_view();
    assert(shown.len() == tabs@.len());
    assert forall|i: int| 0 <= i < tabs@.len() implies ((#[trigger] tabs@[i]).selected
        <==> view.active_code_tab == tabs@[i].tab) by {
        assert(shown[i] == tabs@[i].deep_view());
    }
    assert(shown[0] == tabs@[0].deep_view());
    assert(shown[1] == tabs@[1].deep_view());
    if view.opponent is Some {
        assert(shown[2] == tabs@[2].deep_view());
    }
}

/// Closing the view would lose something exactly while the match goes on or something is not saved;
/// the user's code is named before the manifest.
pub proof fn unsaved_work_is_known(
    view: RduelView,
    main_rs_dirty: bool,
    cargo_toml_dirty: bool,
    dirty: bool,
    unsaved: Option<ActiveCodeTab>,
)
    requires
        call_ensures(RduelView::is_dirty, (&view, main_rs_dirty, cargo_toml_dirty), dirty),
        call_ensures(active_project_path, (main_rs_dirty, cargo_toml_dirty), unsaved),
    ensures
        dirty <==> view.match_state.room_status == ServerRoomStatus::Playing || main_rs_dirty
            || cargo_toml_dirty,
        unsaved is Some <==> main_rs_dirty || cargo_toml_dirty,
        main_rs_dirty ==> unsaved == Some(ActiveCodeTab::MainRs),
        !main_rs_dirty && cargo_toml_dirty ==> unsaved == Some(ActiveCodeTab::CargoToml),
{
}

/// No other command can be started while one runs, and a command needs a package.
pub proof fn commands_run_one_at_a_time(
    view: &mut RduelView,
    submit: bool,
    error: Option<String>,
    started: bool,
    ready: bool,
)
    ensures
        call_ensures(RduelView::spawn_rduel_command, (view, submit, error), started) ==> (started
            <==> !(old(view).command_status is Running) && error is None),
        call_ensures(RduelView::check_project, (view,), ready) ==> (ready <==> old(view).project_root is Some) && (ready ==> final(view).deep_view() == old(view).deep_view()),
{
}
} // verus!
