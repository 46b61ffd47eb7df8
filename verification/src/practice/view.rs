//! Practising as the user sees it.

use vstd::prelude::*;

use crate::cases;
use crate::cases::{
    action_button, cases_for_samples, ActionButton, ActionButtonModel, CommandPanel,
    CommandPanelModel, OutputBoard, OutputBoardModel,
};
use crate::copying::Duplicate;
use crate::duel::matchmaking::CommandStatus;
use crate::duel::wording;
use crate::output;
use crate::output::{
    plain_item, single_command_output_state, CommandOutputItemStatus, CommandOutputState,
    CommandOutputStateModel, OutputSelection,
};
use crate::practice::files::{RpracticeProblemFiles, RpracticeProblemFilesModel};
use crate::practice::list;
use crate::practice::list::{refresh_filtered_problems, ExpandedRows, ExpandedRowsModel};
use crate::practice::results;
use crate::practice::results::{
    detected_submission_output_item_at, problem_needs_list_refresh, submissions_output_item_at,
    PracticeCommandOutput, PracticeCommandOutputModel,
};
use crate::practice::tree;
use crate::practice::tree::{render_sidebar, SidebarView};
use crate::problems::{Problem, ProblemModel};
use crate::seqs;
use crate::statement::{ProblemDetail, ProblemDetailModel};
use crate::submissions::{ProblemSubmission, ProblemSubmissionModel};
use crate::text;

verus! {

/// How many submissions are looked at.
pub const SUBMISSION_FETCH_LIMIT: usize = 10;

/// An editor of the view.
#[derive(Clone, Copy, Debug, PartialEq, Eq, Structural)]
pub enum PracticeEditor {
    Source,
    /// The editor for the input of a test case.
    CaseInput(usize),
    /// The editor for the expected output of a test case.
    CaseExpected(usize),
    /// An editor of a test case that was removed since.
    RemovedCase,
}

/// Practising as the user sees it.
pub struct RpracticeView {
    /// Whether there is a place where problems and sessions are stored.
    pub has_storage: bool,
    pub problems: Vec<Problem>,
    /// The places of the problems that are listed.
    pub filtered_problem_indices: Vec<usize>,
    pub selected_problem: Option<Problem>,
    pub selected_files: Option<RpracticeProblemFiles>,
    pub problem_markdown: Option<String>,
    /// What the user searches for.
    pub query: String,
    pub expanded: ExpandedRows,
    pub sidebar_open: bool,
    pub command_status: CommandStatus,
    pub board: OutputBoard,
    pub is_fetching_submissions: bool,
    pub submission_fetch_problem_id: Option<String>,
    /// The second from which on a submission is waited for.
    pub submission_watch_started_at: Option<i64>,
    pub submission_watch_problem_id: Option<String>,
    pub status: String,
    pub is_loading_list: bool,
    pub is_loading_problem: bool,
    pub session_id: Option<String>,
    pub session_started_at: Option<i64>,
    /// The editor to which the search bar belongs.
    pub search_target: Option<PracticeEditor>,
}

/// What a `RpracticeView` holds.
#[verifier::ext_equal]
pub struct RpracticeViewModel {
    pub has_storage: bool,
    pub problems: Seq<ProblemModel>,
    pub filtered_problem_indices: Seq<usize>,
    pub selected_problem: Option<ProblemModel>,
    pub selected_files: Option<RpracticeProblemFilesModel>,
    pub problem_markdown: Option<Seq<char>>,
    pub query: Seq<char>,
    pub expanded: ExpandedRowsModel,
    pub sidebar_open: bool,
    pub command_status: CommandStatus,
    pub board: OutputBoardModel,
    pub is_fetching_submissions: bool,
    pub submission_fetch_problem_id: Option<Seq<char>>,
    pub submission_watch_started_at: Option<i64>,
    pub submission_watch_problem_id: Option<Seq<char>>,
    pub status: Seq<char>,
    pub is_loading_list: bool,
    pub is_loading_problem: bool,
    pub session_id: Option<Seq<char>>,
    pub session_started_at: Option<i64>,
    pub search_target: Option<PracticeEditor>,
}

impl DeepView for RpracticeView {
    type V = RpracticeViewModel;

    open spec fn deep_view(&self) -> RpracticeViewModel {
        RpracticeViewModel {
            has_storage: self.has_storage,
            problems: self.problems.deep_view(),
            filtered_problem_indices: self.filtered_problem_indices@,
            selected_problem: self.selected_problem.deep_view(),
            selected_files: self.selected_files.deep_view(),
            problem_markdown: self.problem_markdown.deep_view(),
            query: self.query@,
            expanded: self.expanded.deep_view(),
            sidebar_open: self.sidebar_open,
            command_status: self.command_status,
            board: self.board.deep_view(),
            is_fetching_submissions: self.is_fetching_submissions,
            submission_fetch_problem_id: self.submission_fetch_problem_id.deep_view(),
            submission_watch_started_at: self.submission_watch_started_at,
            submission_watch_problem_id: self.submission_watch_problem_id.deep_view(),
            status: self.status@,
            is_loading_list: self.is_loading_list,
            is_loading_problem: self.is_loading_problem,
            session_id: self.session_id.deep_view(),
            session_started_at: self.session_started_at,
            search_target: self.search_target,
        }
    }
}

/// A question for the submissions of a user for a problem.
pub struct SubmissionQuery {
    pub atcoder_user: String,
    pub problem: Problem,
}

/// What a `SubmissionQuery` holds.
#[verifier::ext_equal]
pub struct SubmissionQueryModel {
    pub atcoder_user: Seq<char>,
    pub problem: ProblemModel,
}

impl DeepView for SubmissionQuery {
    type V = SubmissionQueryModel;

    open spec fn deep_view(&self) -> SubmissionQueryModel {
        SubmissionQueryModel {
            atcoder_user: self.atcoder_user@,
            problem: self.problem.deep_view(),
        }
    }
}

/// A session that is over.
pub struct FinishedSession {
    pub session_id: String,
    pub finished_at: i64,
    pub duration_seconds: i64,
}

/// What a `FinishedSession` holds.
#[verifier::ext_equal]
pub struct FinishedSessionModel {
    pub session_id: Seq<char>,
    pub finished_at: i64,
    pub duration_seconds: i64,
}

impl DeepView for FinishedSession {
    type V = FinishedSessionModel;

    open spec fn deep_view(&self) -> FinishedSessionModel {
        FinishedSessionModel {
            session_id: self.session_id@,
            finished_at: self.finished_at,
            duration_seconds: self.duration_seconds,
        }
    }
}

/// What follows when a problem was opened.
pub struct OpenedActions {
    /// When the session started, if it is to be stored.
    pub started_at: Option<i64>,
    pub fetch: Option<SubmissionQuery>,
}

/// What a `OpenedActions` holds.
#[verifier::ext_equal]
pub struct OpenedActionsModel {
    pub started_at: Option<i64>,
    pub fetch: Option<SubmissionQueryModel>,
}

impl DeepView for OpenedActions {
    type V = OpenedActionsModel;

    open spec fn deep_view(&self) -> OpenedActionsModel {
        OpenedActionsModel {
            started_at: self.started_at,
            fetch: self.fetch.deep_view(),
        }
    }
}

/// What follows a command.
pub struct PracticeActions {
    pub clipboard: Option<String>,
    pub open_url: Option<String>,
    /// What to ask about submissions after a while.
    pub watch: Option<SubmissionQuery>,
}

/// What a `PracticeActions` holds.
#[verifier::ext_equal]
pub struct PracticeActionsModel {
    pub clipboard: Option<Seq<char>>,
    pub open_url: Option<Seq<char>>,
    pub watch: Option<SubmissionQueryModel>,
}

impl DeepView for PracticeActions {
    type V = PracticeActionsModel;

    open spec fn deep_view(&self) -> PracticeActionsModel {
        PracticeActionsModel {
            clipboard: self.clipboard.deep_view(),
            open_url: self.open_url.deep_view(),
            watch: self.watch.deep_view(),
        }
    }
}

/// What follows a look at the submissions.
pub struct WatchActions {
    /// Whether to ask again after a while.
    pub again: bool,
    pub finished: Option<FinishedSession>,
}

/// What a `WatchActions` holds.
#[verifier::ext_equal]
pub struct WatchActionsModel {
    pub again: bool,
    pub finished: Option<FinishedSessionModel>,
}

impl DeepView for WatchActions {
    type V = WatchActionsModel;

    open spec fn deep_view(&self) -> WatchActionsModel {
        WatchActionsModel {
            again: self.again,
            finished: self.finished.deep_view(),
        }
    }
}

/// Whether the stored list has to be fetched anew.
pub open spec fn needs_fetch(cached: Seq<ProblemModel>) -> bool {
    cached.len() == 0 || exists|i: int|
        0 <= i < cached.len() && results::lacks_place(#[trigger] cached[i])
}

fn list_needs_fetch(cached: &Vec<Problem>) -> (r: bool)
    ensures
        r == needs_fetch(cached.deep_view()),
{
    let ghost all = cached.deep_view();
    let mut i: usize = 0;
    while i < cached.len()
        invariant
            i <= cached@.len(),
            all == cached.deep_view(),
            forall|k: int| 0 <= k < i ==> !results::lacks_place(#[trigger] all[k]),
        decreases cached@.len() - i,
    {
        assert(all[i as int] == cached@[i as int].deep_view());
        if problem_needs_list_refresh(&cached[i]) {
            return true;
        }
        i += 1;
    }
    cached.len() == 0
}

/// The list that was read or fetched, or why it could not be.
pub open spec fn list_model(result: Result<Vec<Problem>, String>) -> Result<
    Seq<ProblemModel>,
    Seq<char>,
> {
    match result {
        Ok(problems) => Ok(problems.deep_view()),
        Err(error) => Err(error@),
    }
}

/// The outcome of a command, or why it could not be run.
pub open spec fn outcome_model(result: Result<PracticeCommandOutput, String>) -> Result<
    PracticeCommandOutputModel,
    Seq<char>,
> {
    match result {
        Ok(outcome) => Ok(outcome.deep_view()),
        Err(error) => Err(error@),
    }
}

/// The submission that was seen and whether its verdict is final, or why none could be looked for.
pub open spec fn seen_model(result: Result<Option<(ProblemSubmission, bool)>, String>) -> Result<
    Option<(ProblemSubmissionModel, bool)>,
    Seq<char>,
> {
    match result {
        Ok(seen) => Ok(
            match seen {
                Some(pair) => Some((pair.0.deep_view(), pair.1)),
                None => None,
            },
        ),
        Err(error) => Err(error@),
    }
}

/// The same editor once the test case with the number `index` is removed.
pub open spec fn editor_without(editor: PracticeEditor, index: usize) -> PracticeEditor {
    match editor {
        PracticeEditor::CaseInput(i) => match cases::number_without(i, index) {
            Some(k) => PracticeEditor::CaseInput(k),
            None => PracticeEditor::RemovedCase,
        },
        PracticeEditor::CaseExpected(i) => match cases::number_without(i, index) {
            Some(k) => PracticeEditor::CaseExpected(k),
            None => PracticeEditor::RemovedCase,
        },
        _ => editor,
    }
}

fn without_case(editor: PracticeEditor, index: usize) -> (r: PracticeEditor)
    ensures
        r == editor_without(editor, index),
{
    match editor {
        PracticeEditor::CaseInput(i) => match cases::case_number_without(i, index) {
            Some(k) => PracticeEditor::CaseInput(k),
            None => PracticeEditor::RemovedCase,
        },
        PracticeEditor::CaseExpected(i) => match cases::case_number_without(i, index) {
            Some(k) => PracticeEditor::CaseExpected(k),
            None => PracticeEditor::RemovedCase,
        },
        _ => editor,
    }
}

impl RpracticeViewModel {
    /// Whether the listed problems are those that are found with what the user searches for.
    pub open spec fn is_listed(self) -> bool {
        list::is_listing(self.problems, self.query, self.filtered_problem_indices)
    }

    /// The view with other problems; which of them are listed is said by `is_listed`.
    pub open spec fn with_problems(
        self,
        problems: Seq<ProblemModel>,
        places: Seq<usize>,
        status: Seq<char>,
    ) -> Self {
        RpracticeViewModel {
            problems,
            filtered_problem_indices: places,
            is_loading_list: false,
            status,
            ..self
        }
    }

    /// The view without a list to show.
    pub open spec fn without_list(self, status: Seq<char>) -> Self {
        RpracticeViewModel { is_loading_list: false, status, ..self }
    }

    /// The view while the list is fetched.
    pub open spec fn fetching_list(self) -> Self {
        RpracticeViewModel {
            is_loading_list: true,
            status: "Fetching problem index..."@,
            ..self
        }
    }

    /// The view with a step about submissions.
    pub open spec fn with_submissions_step(
        self,
        status: CommandOutputItemStatus,
        heading: Seq<char>,
    ) -> Self {
        RpracticeViewModel {
            board: self.board.with_step(
                "Submissions"@,
                output::single_item("Submissions"@, status, heading),
            ),
            ..self
        }
    }

    /// The id of the problem that is open.
    pub open spec fn selected_id(self) -> Option<Seq<char>> {
        match self.selected_problem {
            Some(problem) => Some(problem.id),
            None => None,
        }
    }

    /// Whether submissions for the problem that is open are being fetched or waited for.
    pub open spec fn is_busy_with_submissions(self) -> bool {
        self.submission_watch_started_at is Some || (self.is_fetching_submissions
            && self.selected_problem is Some && self.submission_fetch_problem_id
            == self.selected_id())
    }

    /// The view after submissions were asked for.
    pub open spec fn after_fetch_start(self, user: Option<Seq<char>>) -> Self {
        if self.is_busy_with_submissions() {
            self
        } else {
            match self.selected_problem {
                None => self.with_submissions_step(
                    CommandOutputItemStatus::Failed,
                    "Open a problem before fetching submissions."@,
                ),
                Some(problem) => match user {
                    None => self.with_submissions_step(
                        CommandOutputItemStatus::Failed,
                        "AtCoder user is not configured. Set it in Rduel first."@,
                    ),
                    Some(_) => RpracticeViewModel {
                        is_fetching_submissions: true,
                        submission_fetch_problem_id: Some(problem.id),
                        ..self
                    }.with_submissions_step(
                        CommandOutputItemStatus::Pending,
                        "Fetching AtCoder submissions..."@,
                    ),
                },
            }
        }
    }

    /// What is asked when submissions are asked for.
    pub open spec fn fetch_query(self, user: Option<Seq<char>>) -> Option<SubmissionQueryModel> {
        match (self.selected_problem, user) {
            (Some(problem), Some(atcoder_user)) => if self.is_busy_with_submissions() {
                None
            } else {
                Some(SubmissionQueryModel { atcoder_user, problem })
            },
            _ => None,
        }
    }

    /// The view after an answer to a question for submissions. An answer for a problem that is no
    /// longer open, or that is not asked for any more, is not shown.
    pub open spec fn after_fetch(
        self,
        query: SubmissionQueryModel,
        result: Result<Seq<ProblemSubmissionModel>, Seq<char>>,
        now: i64,
    ) -> Self {
        if self.submission_fetch_problem_id != Some(query.problem.id) {
            self
        } else {
            let next = RpracticeViewModel {
                is_fetching_submissions: false,
                submission_fetch_problem_id: None,
                ..self
            };
            if self.submission_watch_started_at is Some || self.selected_id() != Some(
                query.problem.id,
            ) {
                next
            } else {
                RpracticeViewModel {
                    board: next.board.with_step(
                        "Submissions"@,
                        results::submissions_item(
                            now,
                            query.atcoder_user,
                            query.problem.id,
                            result,
                        ),
                    ),
                    ..next
                }
            }
        }
    }

    /// The view while a submission from a second on is waited for.
    pub open spec fn after_watch_start(self, user: Option<Seq<char>>, from_second: i64) -> Self {
        match self.selected_problem {
            None => self,
            Some(problem) => match user {
                None => self.with_submissions_step(
                    CommandOutputItemStatus::Failed,
                    "AtCoder user is not configured. Set it in Rduel first."@,
                ),
                Some(_) => RpracticeViewModel {
                    submission_fetch_problem_id: None,
                    submission_watch_started_at: Some(from_second),
                    submission_watch_problem_id: Some(problem.id),
                    is_fetching_submissions: true,
                    ..self
                }.with_submissions_step(
                    CommandOutputItemStatus::Pending,
                    "Waiting for the next AtCoder submission..."@,
                ),
            },
        }
    }

    /// What is asked about submissions after a while.
    pub open spec fn watch_query(self, user: Option<Seq<char>>) -> Option<SubmissionQueryModel> {
        match (self.selected_problem, user) {
            (Some(problem), Some(atcoder_user)) => Some(
                SubmissionQueryModel { atcoder_user, problem },
            ),
            _ => None,
        }
    }

    /// Whether a submission for a problem from a second on is still waited for.
    pub open spec fn watches(self, problem_id: Seq<char>, from_second: i64) -> bool {
        self.submission_watch_started_at == Some(from_second) && self.submission_watch_problem_id
            == Some(problem_id)
    }

    /// The view that waits for no submission.
    pub open spec fn without_watch(self) -> Self {
        RpracticeViewModel {
            submission_watch_started_at: None,
            submission_watch_problem_id: None,
            is_fetching_submissions: false,
            ..self
        }
    }

    /// The view without a session.
    pub open spec fn without_session(self) -> Self {
        RpracticeViewModel { session_id: None, session_started_at: None, ..self }
    }

    /// The session that is over at a second.
    pub open spec fn finished_session(self, now: i64) -> Option<FinishedSessionModel> {
        match (self.session_id, self.session_started_at) {
            (Some(session_id), Some(started_at)) => if self.has_storage {
                Some(
                    FinishedSessionModel {
                        session_id,
                        finished_at: now,
                        duration_seconds: if now - started_at > i64::MAX {
                            i64::MAX
                        } else if now - started_at < i64::MIN {
                            i64::MIN
                        } else {
                            (now - started_at) as i64
                        },
                    },
                )
            } else {
                None
            },
            _ => None,
        }
    }

    /// The view after a look at the submissions for a problem from a second on. A submission whose
    /// verdict is not final is waited for further; one that is accepted ends the session.
    pub open spec fn after_watch(
        self,
        problem_id: Seq<char>,
        from_second: i64,
        seen: Result<Option<(ProblemSubmissionModel, bool)>, Seq<char>>,
        now: i64,
    ) -> Self {
        if !self.watches(problem_id, from_second) {
            self
        } else if self.selected_id() != Some(problem_id) {
            self.without_watch()
        } else {
            match seen {
                Ok(Some((submission, is_final))) => if is_final {
                    let shown = RpracticeViewModel {
                        board: self.board.with_step(
                            "Submissions"@,
                            results::detected_item(now, submission),
                        ),
                        ..self.without_watch()
                    };
                    if seqs::trim(submission.verdict) == "AC"@ {
                        shown.without_session()
                    } else {
                        shown
                    }
                } else {
                    self
                },
                Ok(None) => self,
                Err(error) => self.without_watch().with_submissions_step(
                    CommandOutputItemStatus::Failed,
                    "Could not fetch submissions:\n"@ + error,
                ),
            }
        }
    }

    /// What follows a look at the submissions for a problem from a second on.
    pub open spec fn watch_actions(
        self,
        problem_id: Seq<char>,
        from_second: i64,
        seen: Result<Option<(ProblemSubmissionModel, bool)>, Seq<char>>,
        now: i64,
    ) -> WatchActionsModel {
        let nothing = WatchActionsModel { again: false, finished: None };
        if !self.watches(problem_id, from_second) || self.selected_id() != Some(problem_id) {
            nothing
        } else {
            match seen {
                Ok(Some((submission, is_final))) => if is_final {
                    WatchActionsModel {
                        again: false,
                        finished: if seqs::trim(submission.verdict) == "AC"@ {
                            self.finished_session(now)
                        } else {
                            None
                        },
                    }
                } else {
                    WatchActionsModel { again: true, finished: None }
                },
                Ok(None) => WatchActionsModel { again: true, finished: None },
                Err(_) => nothing,
            }
        }
    }

    /// The view while a problem is opened.
    pub open spec fn opening(self, problem: ProblemModel) -> Self {
        RpracticeViewModel {
            is_loading_problem: true,
            status: "Fetching statement for "@ + problem.id + "..."@,
            selected_problem: Some(problem),
            ..self
        }
    }

    /// The view after a problem could not be opened.
    pub open spec fn not_opened(self, status: Seq<char>) -> Self {
        RpracticeViewModel { is_loading_problem: false, status, ..self }
    }

    /// The view of a problem that was opened, before its submissions are asked for.
    pub open spec fn opened(
        self,
        problem: ProblemModel,
        files: RpracticeProblemFilesModel,
        detail: ProblemDetailModel,
        now: i64,
    ) -> Self {
        RpracticeViewModel {
            selected_problem: Some(with_page_title(problem, detail)),
            selected_files: Some(files),
            problem_markdown: Some(detail.statement_markdown),
            board: OutputBoardModel {
                test_cases: cases::provided_cases(detail.samples),
                command_output: CommandOutputStateModel { items: seq![] },
                output_selection: if detail.samples.len() == 0 {
                    OutputSelection::Step(0)
                } else {
                    OutputSelection::Case(0)
                },
            },
            is_fetching_submissions: false,
            command_status: CommandStatus::Idle,
            is_loading_problem: false,
            status: seq![],
            search_target: Some(PracticeEditor::Source),
            session_started_at: if self.has_storage {
                Some(now)
            } else {
                self.session_started_at
            },
            ..self
        }
    }

    /// The editor of the code, if there is a problem to work on.
    pub open spec fn source_editor(self) -> Option<PracticeEditor> {
        if self.selected_files is Some {
            Some(PracticeEditor::Source)
        } else {
            None
        }
    }

    /// The view without a test case. The search bar stays with its editor, be it that of the case.
    pub open spec fn without_case(self, index: usize) -> Self {
        if index >= self.board.test_cases.len() {
            self
        } else {
            RpracticeViewModel {
                board: self.board.without_case(index),
                search_target: match self.search_target {
                    Some(editor) => Some(editor_without(editor, index)),
                    None => None,
                },
                ..self
            }
        }
    }

    /// Where the search bar belongs: to the code or to a test case, if the focus is there, or else
    /// where it was.
    pub open spec fn search_editor(self, focused: Option<PracticeEditor>) -> Option<
        PracticeEditor,
    > {
        let is_there = match focused {
            Some(PracticeEditor::Source) => self.selected_files is Some,
            Some(PracticeEditor::CaseInput(i)) => i < self.board.test_cases.len(),
            Some(PracticeEditor::CaseExpected(i)) => i < self.board.test_cases.len(),
            _ => false,
        };
        if is_there {
            focused
        } else if self.search_target is Some {
            self.search_target
        } else {
            self.source_editor()
        }
    }

    /// The view without a problem to work on.
    pub open spec fn without_problem(self, heading: Seq<char>) -> Self {
        RpracticeViewModel {
            command_status: CommandStatus::Failed,
            board: OutputBoardModel {
                output_selection: OutputSelection::Step(0),
                ..self.board.with_command("Problem"@, CommandOutputItemStatus::Failed, heading)
            },
            ..self
        }
    }

    /// The view after a command was asked for: it runs, unless another one does.
    pub open spec fn after_command_start(self, label: Seq<char>) -> Self {
        if self.command_status is Running {
            self
        } else {
            RpracticeViewModel {
                command_status: CommandStatus::Running,
                board: OutputBoardModel {
                    test_cases: cases::without_results(self.board.test_cases),
                    command_output: CommandOutputStateModel {
                        items: seq![
                            output::single_item(
                                label,
                                CommandOutputItemStatus::Pending,
                                "Waiting for command output..."@,
                            ),
                        ],
                    },
                    output_selection: OutputSelection::Step(0),
                },
                ..self
            }
        }
    }

    /// The view with the outcome of a command that has ended.
    pub open spec fn with_outcome(self, result: Result<PracticeCommandOutputModel, Seq<char>>) -> Self {
        match result {
            Ok(outcome) => RpracticeViewModel {
                command_status: if outcome.success {
                    CommandStatus::Succeeded
                } else {
                    CommandStatus::Failed
                },
                board: OutputBoardModel {
                    test_cases: cases::with_results(self.board.test_cases, outcome.case_results),
                    command_output: CommandOutputStateModel { items: outcome.items },
                    ..self.board
                },
                ..self
            },
            Err(error) => RpracticeViewModel {
                command_status: CommandStatus::Failed,
                board: self.board.with_command(
                    "Command"@,
                    CommandOutputItemStatus::Failed,
                    "Failed before running command:\n"@ + error,
                ),
                ..self
            },
        }
    }

    /// The view after a command has ended. When a solution is ready to be submitted, a submission is
    /// waited for.
    pub open spec fn after_command(
        self,
        result: Result<PracticeCommandOutputModel, Seq<char>>,
        user: Option<Seq<char>>,
        now: i64,
    ) -> Self {
        let next = self.with_outcome(result);
        let watched = if result matches Ok(outcome) && outcome.submit_ready is Some {
            next.after_watch_start(user, now)
        } else {
            next
        };
        RpracticeViewModel { board: watched.board.focused_after_run(), ..watched }
    }

    /// What follows a command that has ended.
    pub open spec fn command_actions(
        self,
        result: Result<PracticeCommandOutputModel, Seq<char>>,
        user: Option<Seq<char>>,
    ) -> PracticeActionsModel {
        match result {
            Ok(outcome) => match outcome.submit_ready {
                Some(ready) => PracticeActionsModel {
                    clipboard: Some(ready.source_code),
                    open_url: Some(ready.submit_url),
                    watch: self.watch_query(user),
                },
                None => PracticeActionsModel { clipboard: None, open_url: None, watch: None },
            },
            Err(_) => PracticeActionsModel { clipboard: None, open_url: None, watch: None },
        }
    }
}

/// A problem under the title of its page, if that has one.
pub open spec fn with_page_title(problem: ProblemModel, detail: ProblemDetailModel) -> ProblemModel {
    match detail.title {
        Some(title) => if seqs::is_blank(title) {
            problem
        } else {
            ProblemModel { title, ..problem }
        },
        None => problem,
    }
}

fn is_id(id: &Option<String>, other: &str) -> (r: bool)
    ensures
        r == (id.deep_view() == Some(other@)),
{
    match id {
        Some(id) => text::same(id.as_str(), other),
        None => false,
    }
}

impl RpracticeView {
    /// The view as it opens, before there is a list.
    pub fn new() -> (r: Self)
        ensures
            r.deep_view() == (RpracticeViewModel {
                has_storage: false,
                problems: seq![],
                filtered_problem_indices: seq![],
                selected_problem: None,
                selected_files: None,
                problem_markdown: None,
                query: seq![],
                expanded: ExpandedRowsModel { groups: Set::empty(), contests: Set::empty() },
                sidebar_open: true,
                command_status: CommandStatus::Idle,
                board: OutputBoardModel {
                    test_cases: seq![],
                    command_output: CommandOutputStateModel { items: seq![] },
                    output_selection: OutputSelection::Step(0),
                },
                is_fetching_submissions: false,
                submission_fetch_problem_id: None,
                submission_watch_started_at: None,
                submission_watch_problem_id: None,
                status: "Loading problem list..."@,
                is_loading_list: true,
                is_loading_problem: false,
                session_id: None,
                session_started_at: None,
                search_target: None,
            }),
    {
        let view = RpracticeView {
            has_storage: false,
            problems: Vec::new(),
            filtered_problem_indices: Vec::new(),
            selected_problem: None,
            selected_files: None,
            problem_markdown: None,
            query: String::new(),
            expanded: ExpandedRows::new(),
            sidebar_open: true,
            command_status: CommandStatus::Idle,
            board: OutputBoard {
                test_cases: Vec::new(),
                command_output: CommandOutputState::empty(),
                output_selection: OutputSelection::Step(0),
            },
            is_fetching_submissions: false,
            submission_fetch_problem_id: None,
            submission_watch_started_at: None,
            submission_watch_problem_id: None,
            status: "Loading problem list...".to_owned(),
            is_loading_list: true,
            is_loading_problem: false,
            session_id: None,
            session_started_at: None,
            search_target: None,
        };
        assert(view.deep_view().problems =~= seq![]);
        assert(view.deep_view().filtered_problem_indices =~= seq![]);
        assert(view.deep_view().query =~= seq![]);
        assert(view.deep_view().board.test_cases =~= seq![]);
        assert(view.deep_view().board.command_output.items =~= seq![]);
        view
    }

    fn refresh_list(&mut self)
        ensures
            final(self).deep_view().is_listed(),
            final(self).deep_view() == (RpracticeViewModel {
                filtered_problem_indices: final(self).filtered_problem_indices@,
                ..old(self).deep_view()
            }),
    {
        self.filtered_problem_indices =
        refresh_filtered_problems(&self.problems, self.query.as_str());
    }

    /// The user searches for something else.
    pub fn on_filter_editor_event(&mut self, query: String)
        ensures
            final(self).deep_view().is_listed(),
            final(self).deep_view() == (RpracticeViewModel {
                query: query@,
                filtered_problem_indices: final(self).filtered_problem_indices@,
                ..old(self).deep_view()
            }),
    {
        self.query = query;
        self.refresh_list();
    }

    fn show_problems(&mut self, problems: Vec<Problem>, status: String)
        ensures
            final(self).deep_view().is_listed(),
            final(self).deep_view() == old(self).deep_view().with_problems(
                problems.deep_view(),
                final(self).filtered_problem_indices@,
                status@,
            ),
    {
        self.problems = problems;
        self.is_loading_list = false;
        self.status = status;
        self.refresh_list();
    }

    /// The place where problems are stored was opened, with the list in it, or could not be: whether
    /// the list has to be fetched.
    pub fn load_problem_list(&mut self, cached: Result<Vec<Problem>, String>) -> (r: bool)
        ensures
            match list_model(cached) {
                Ok(problems) => {
                    let stored = RpracticeViewModel { has_storage: true, ..old(self).deep_view() };
                    if needs_fetch(problems) {
                        &&& r
                        &&& final(self).deep_view() == stored.fetching_list()
                    } else {
                        &&& !r
                        &&& final(self).deep_view().is_listed()
                        &&& final(self).deep_view() == stored.with_problems(
                            problems,
                            final(self).filtered_problem_indices@,
                            "Loaded "@ + seqs::decimal(problems.len()) + " cached problems."@,
                        )
                    }
                },
                Err(error) => {
                    &&& !r
                    &&& final(self).deep_view() == old(self).deep_view().without_list(
                        "Could not open Rpractice storage: "@ + error,
                    )
                },
            },
    {
        match cached {
            Ok(problems) => {
                self.has_storage = true;
                if list_needs_fetch(&problems) {
                    self.fetch_problem_list();
                    true
                } else {
                    let count = wording::number(problems.len() as u64);
                    self.show_problems(
                        problems,
                        "Loaded ".to_owned().concat(count.as_str()).concat(" cached problems."),
                    );
                    false
                }
            },
            Err(error) => {
                self.is_loading_list = false;
                self.status =
                "Could not open Rpractice storage: ".to_owned().concat(error.as_str());
                false
            },
        }
    }

    /// The list is fetched.
    pub fn fetch_problem_list(&mut self)
        ensures
            final(self).deep_view() == old(self).deep_view().fetching_list(),
    {
        self.is_loading_list = true;
        self.status = "Fetching problem index...".to_owned();
    }

    /// The list was fetched, or could not be: whether it is to be stored.
    pub fn finish_list_fetch(&mut self, result: Result<Vec<Problem>, String>) -> (r: bool)
        ensures
            match list_model(result) {
                Ok(problems) => {
                    &&& r == old(self).has_storage
                    &&& final(self).deep_view().is_listed()
                    &&& final(self).deep_view() == old(self).deep_view().with_problems(
                        problems,
                        final(self).filtered_problem_indices@,
                        "Loaded "@ + seqs::decimal(problems.len()) + " problems."@,
                    )
                },
                Err(error) => {
                    &&& !r
                    &&& final(self).deep_view() == old(self).deep_view().without_list(
                        "Could not fetch problem list: "@ + error,
                    )
                },
            },
    {
        match result {
            Ok(problems) => {
                let count = wording::number(problems.len() as u64);
                self.show_problems(
                    problems,
                    "Loaded ".to_owned().concat(count.as_str()).concat(" problems."),
                );
                self.has_storage
            },
            Err(error) => {
                self.is_loading_list = false;
                self.status = "Could not fetch problem list: ".to_owned().concat(error.as_str());
                false
            },
        }
    }

    /// The user opens a problem of the list: which one.
    pub fn open_problem_at_index(&mut self, problem_index: usize) -> (r: Option<Problem>)
        ensures
            r.deep_view() == if problem_index < old(self).problems@.len() {
                Some(old(self).deep_view().problems[problem_index as int])
            } else {
                None
            },
            final(self).deep_view() == match r.deep_view() {
                Some(problem) => old(self).deep_view().opening(problem),
                None => old(self).deep_view(),
            },
    {
        if problem_index >= self.problems.len() {
            return None;
        }
        let problem = self.problems[problem_index].duplicate();
        assert(self.deep_view().problems[problem_index as int] == problem.deep_view());
        self.is_loading_problem = true;
        self.status =
        "Fetching statement for ".to_owned().concat(problem.id.as_str()).concat("...");
        self.selected_problem = Some(problem.duplicate());
        Some(problem)
    }

    /// A problem could not be opened.
    pub fn fail_to_open(&mut self, error: &str)
        ensures
            final(self).deep_view() == old(self).deep_view().not_opened(
                "Could not open problem: "@ + error@,
            ),
    {
        self.is_loading_problem = false;
        self.status = "Could not open problem: ".to_owned().concat(error);
    }

    /// The code for a problem could not be opened.
    pub fn fail_to_open_source(&mut self)
        ensures
            final(self).deep_view() == old(self).deep_view().not_opened(
                "Could not open the local source buffer."@,
            ),
    {
        self.is_loading_problem = false;
        self.status = "Could not open the local source buffer.".to_owned();
    }

    /// A problem was opened: what follows.
    pub fn apply_opened_problem(
        &mut self,
        problem: Problem,
        files: RpracticeProblemFiles,
        detail: ProblemDetail,
        user: &Option<String>,
        now: i64,
    ) -> (r: OpenedActions)
        ensures
            ({
                let opened = old(self).deep_view().opened(
                    problem.deep_view(),
                    files.deep_view(),
                    detail.deep_view(),
                    now,
                );
                &&& final(self).deep_view() == opened.after_fetch_start(user.deep_view())
                &&& r.deep_view() == (OpenedActionsModel {
                    started_at: if old(self).has_storage {
                        Some(now)
                    } else {
                        None
                    },
                    fetch: opened.fetch_query(user.deep_view()),
                })
            }),
    {
        let ghost expected = self.deep_view().opened(
            problem.deep_view(),
            files.deep_view(),
            detail.deep_view(),
            now,
        );
        let mut problem = problem;
        if let Some(title) = &detail.title {
            if !text::is_blank_str(title.as_str()) {
                problem.title = title.clone();
            }
        }
        let test_cases = cases_for_samples(&detail.samples);
        assert(test_cases@.len() == test_cases.deep_view().len());
        let output_selection = if test_cases.len() == 0 {
            OutputSelection::Step(0)
        } else {
            OutputSelection::Case(0)
        };
        self.selected_problem = Some(problem);
        self.selected_files = Some(files);
        self.problem_markdown = Some(detail.statement_markdown);
        self.board = OutputBoard {
            test_cases,
            command_output: CommandOutputState::empty(),
            output_selection,
        };
        self.is_fetching_submissions = false;
        self.command_status = CommandStatus::Idle;
        self.is_loading_problem = false;
        self.status = String::new();
        self.search_target = Some(PracticeEditor::Source);
        let started_at = self.start_practice_session(now);
        assert(self.deep_view().status =~= seq![]);
        assert(self.deep_view().board.command_output.items =~= seq![]);
        assert(self.deep_view() =~= expected);
        let fetch = self.fetch_submissions(user);
        OpenedActions { started_at, fetch }
    }

    /// A session starts: when, if it is to be stored.
    pub fn start_practice_session(&mut self, now: i64) -> (r: Option<i64>)
        ensures
            r == if old(self).has_storage {
                Some(now)
            } else {
                None
            },
            final(self).deep_view() == (RpracticeViewModel {
                session_started_at: if old(self).has_storage {
                    Some(now)
                } else {
                    old(self).session_started_at
                },
                ..old(self).deep_view()
            }),
    {
        if self.has_storage {
            self.session_started_at = Some(now);
            Some(now)
        } else {
            None
        }
    }

    /// A session was stored under a name.
    pub fn note_session(&mut self, session_id: String)
        ensures
            final(self).deep_view() == (RpracticeViewModel {
                session_id: Some(session_id@),
                ..old(self).deep_view()
            }),
    {
        self.session_id = Some(session_id);
    }

    /// The session is over: what is stored.
    pub fn finish_practice_session(&mut self, now: i64) -> (r: Option<FinishedSession>)
        ensures
            final(self).deep_view() == old(self).deep_view().without_session(),
            r.deep_view() == old(self).deep_view().finished_session(now),
    {
        let session_id = self.session_id.take();
        let started_at = self.session_started_at.take();
        if !self.has_storage {
            return None;
        }
        match (session_id, started_at) {
            (Some(session_id), Some(started_at)) => {
                let wide: i128 = now as i128 - started_at as i128;
                let duration_seconds: i64 = if wide > i64::MAX as i128 {
                    i64::MAX
                } else if wide < i64::MIN as i128 {
                    i64::MIN
                } else {
                    wide as i64
                };
                Some(FinishedSession { session_id, finished_at: now, duration_seconds })
            },
            _ => None,
        }
    }

    /// Asks for the submissions of a user, unless that is being done: what is asked.
    pub fn fetch_submissions(&mut self, user: &Option<String>) -> (r: Option<SubmissionQuery>)
        ensures
            final(self).deep_view() == old(self).deep_view().after_fetch_start(user.deep_view()),
            r.deep_view() == old(self).deep_view().fetch_query(user.deep_view()),
    {
        if self.submission_watch_started_at.is_some() {
            return None;
        }
        let problem = match &self.selected_problem {
            None => {
                self.board.upsert_step(
                    "Submissions",
                    plain_item(
                        "Submissions",
                        CommandOutputItemStatus::Failed,
                        "Open a problem before fetching submissions.".to_owned(),
                    ),
                );
                return None;
            },
            Some(problem) => problem.duplicate(),
        };
        if self.is_fetching_submissions && is_id(
            &self.submission_fetch_problem_id,
            problem.id.as_str(),
        ) {
            return None;
        }
        match user {
            None => {
                self.board.upsert_step(
                    "Submissions",
                    plain_item(
                        "Submissions",
                        CommandOutputItemStatus::Failed,
                        "AtCoder user is not configured. Set it in Rduel first.".to_owned(),
                    ),
                );
                None
            },
            Some(atcoder_user) => {
                self.is_fetching_submissions = true;
                self.submission_fetch_problem_id = Some(problem.id.clone());
                self.board.upsert_step(
                    "Submissions",
                    plain_item(
                        "Submissions",
                        CommandOutputItemStatus::Pending,
                        "Fetching AtCoder submissions...".to_owned(),
                    ),
                );
                Some(SubmissionQuery { atcoder_user: atcoder_user.clone(), problem })
            },
        }
    }

    fn is_selected(&self, problem_id: &str) -> (r: bool)
        ensures
            r == (self.deep_view().selected_id() == Some(problem_id@)),
    {
        match &self.selected_problem {
            Some(problem) => text::same(problem.id.as_str(), problem_id),
            None => false,
        }
    }

    /// Submissions were fetched, or could not be.
    pub fn finish_submission_fetch(
        &mut self,
        query: &SubmissionQuery,
        result: Result<Vec<ProblemSubmission>, String>,
        now: i64,
    )
        ensures
            final(self).deep_view() == old(self).deep_view().after_fetch(
                query.deep_view(),
                results::fetched_model(result),
                now,
            ),
    {
        let id = query.problem.id.as_str();
        if !is_id(&self.submission_fetch_problem_id, id) {
            return;
        }
        self.is_fetching_submissions = false;
        self.submission_fetch_problem_id = None;
        if self.submission_watch_started_at.is_some() || !self.is_selected(id) {
            return;
        }
        let item = submissions_output_item_at(now, query.atcoder_user.as_str(), id, result);
        self.board.upsert_step("Submissions", item);
    }

    /// Waits for a submission from now on: what is asked after a while.
    pub fn start_submission_watch(&mut self, user: &Option<String>, from_second: i64) -> (r: Option<
        SubmissionQuery,
    >)
        ensures
            final(self).deep_view() == old(self).deep_view().after_watch_start(
                user.deep_view(),
                from_second,
            ),
            r.deep_view() == old(self).deep_view().watch_query(user.deep_view()),
    {
        let problem = match &self.selected_problem {
            None => {
                return None;
            },
            Some(problem) => problem.duplicate(),
        };
        match user {
            None => {
                self.board.upsert_step(
                    "Submissions",
                    plain_item(
                        "Submissions",
                        CommandOutputItemStatus::Failed,
                        "AtCoder user is not configured. Set it in Rduel first.".to_owned(),
                    ),
                );
                None
            },
            Some(atcoder_user) => {
                self.submission_fetch_problem_id = None;
                self.submission_watch_started_at = Some(from_second);
                self.submission_watch_problem_id = Some(problem.id.clone());
                self.is_fetching_submissions = true;
                self.board.upsert_step(
                    "Submissions",
                    plain_item(
                        "Submissions",
                        CommandOutputItemStatus::Pending,
                        "Waiting for the next AtCoder submission...".to_owned(),
                    ),
                );
                Some(SubmissionQuery { atcoder_user: atcoder_user.clone(), problem })
            },
        }
    }

    /// Submissions for a problem from a second on were looked at: what follows. The submission that
    /// was seen comes with whether its verdict is final.
    pub fn finish_submission_poll(
        &mut self,
        problem_id: &str,
        from_second: i64,
        result: Result<Option<(ProblemSubmission, bool)>, String>,
        now: i64,
    ) -> (r: WatchActions)
        ensures
            final(self).deep_view() == old(self).deep_view().after_watch(
                problem_id@,
                from_second,
                seen_model(result),
                now,
            ),
            r.deep_view() == old(self).deep_view().watch_actions(
                problem_id@,
                from_second,
                seen_model(result),
                now,
            ),
    {
        let started = match self.submission_watch_started_at {
            Some(started) => started == from_second,
            None => false,
        };
        if !started || !is_id(&self.submission_watch_problem_id, problem_id) {
            return WatchActions { again: false, finished: None };
        }
        if !self.is_selected(problem_id) {
            self.stop_watch();
            return WatchActions { again: false, finished: None };
        }
        match result {
            Ok(Some((submission, is_final))) => {
                if !is_final {
                    return WatchActions { again: true, finished: None };
                }
                let verdict = text::trim_str(submission.verdict.as_str());
                self.stop_watch();
                self.board.upsert_step(
                    "Submissions",
                    detected_submission_output_item_at(now, &submission),
                );
                if text::same(verdict.as_str(), "AC") {
                    let finished = self.finish_practice_session(now);
                    WatchActions { again: false, finished }
                } else {
                    WatchActions { again: false, finished: None }
                }
            },
            Ok(None) => WatchActions { again: true, finished: None },
            Err(error) => {
                self.stop_watch();
                let heading = "Could not fetch submissions:\n".to_owned().concat(error.as_str());
                self.board.upsert_step(
                    "Submissions",
                    plain_item("Submissions", CommandOutputItemStatus::Failed, heading),
                );
                WatchActions { again: false, finished: None }
            },
        }
    }

    fn stop_watch(&mut self)
        ensures
            final(self).deep_view() == old(self).deep_view().without_watch(),
    {
        self.submission_watch_started_at = None;
        self.submission_watch_problem_id = None;
        self.is_fetching_submissions = false;
    }

    fn show_missing_problem(&mut self, heading: &str)
        ensures
            final(self).deep_view() == old(self).deep_view().without_problem(heading@),
    {
        let ghost expected = self.deep_view().without_problem(heading@);
        self.command_status = CommandStatus::Failed;
        self.board.command_output =
        single_command_output_state(
            "Problem".to_owned(),
            CommandOutputItemStatus::Failed,
            heading.to_owned(),
        );
        self.board.output_selection = OutputSelection::Step(0);
        assert(self.deep_view().board.command_output =~= expected.board.command_output);
    }

    fn spawn_practice_command(&mut self, label: &str) -> (r: bool)
        ensures
            final(self).deep_view() == old(self).deep_view().after_command_start(label@),
            r == !(old(self).command_status is Running),
    {
        if self.command_status.is_running() {
            return false;
        }
        let ghost expected = self.deep_view().after_command_start(label@);
        self.command_status = CommandStatus::Running;
        self.board.output_selection = OutputSelection::Step(0);
        self.board.command_output = CommandOutputState::running(label);
        self.board.clear_results();
        assert(self.deep_view().board.command_output =~= expected.board.command_output);
        true
    }

    /// The user wants to test: whether the test is to be run.
    pub fn run_samples(&mut self) -> (r: bool)
        ensures
            r == (old(self).selected_files is Some && !(old(self).command_status is Running)),
            final(self).deep_view() == if old(self).selected_files is Some {
                old(self).deep_view().after_command_start("Test"@)
            } else {
                old(self).deep_view().without_problem("Open a problem before running samples."@)
            },
    {
        if self.selected_files.is_some() {
            self.spawn_practice_command("Test")
        } else {
            self.show_missing_problem("Open a problem before running samples.");
            false
        }
    }

    /// The user wants to submit: whether the solution is to be tested for it.
    pub fn submit_solution(&mut self) -> (r: bool)
        ensures
            ({
                let open = old(self).selected_files is Some && old(self).selected_problem is Some;
                &&& r == (open && !(old(self).command_status is Running))
                &&& final(self).deep_view() == if open {
                    old(self).deep_view().after_command_start("Submit"@)
                } else {
                    old(self).deep_view().without_problem("Open a problem before submitting."@)
                }
            }),
    {
        if self.selected_files.is_some() && self.selected_problem.is_some() {
            self.spawn_practice_command("Submit")
        } else {
            self.show_missing_problem("Open a problem before submitting.");
            false
        }
    }

    /// A command has ended: what follows.
    pub fn finish_practice_command(
        &mut self,
        result: Result<PracticeCommandOutput, String>,
        user: &Option<String>,
        now: i64,
    ) -> (r: PracticeActions)
        ensures
            final(self).deep_view() == old(self).deep_view().after_command(
                outcome_model(result),
                user.deep_view(),
                now,
            ),
            r.deep_view() == old(self).deep_view().command_actions(
                outcome_model(result),
                user.deep_view(),
            ),
    {
        let ghost expected = self.deep_view().with_outcome(outcome_model(result));
        let mut actions = PracticeActions { clipboard: None, open_url: None, watch: None };
        match result {
            Ok(outcome) => {
                self.command_status = if outcome.success {
                    CommandStatus::Succeeded
                } else {
                    CommandStatus::Failed
                };
                self.board.set_results(&outcome.case_results);
                self.board.command_output = CommandOutputState { items: outcome.items };
                assert(self.deep_view() =~= expected);
                if let Some(ready) = outcome.submit_ready {
                    let watch = self.start_submission_watch(user, now);
                    actions =
                    PracticeActions {
                        clipboard: Some(ready.source_code),
                        open_url: Some(ready.submit_url),
                        watch,
                    };
                }
            },
            Err(error) => {
                self.command_status = CommandStatus::Failed;
                self.board.command_output =
                single_command_output_state(
                    "Command".to_owned(),
                    CommandOutputItemStatus::Failed,
                    "Failed before running command:\n".to_owned().concat(error.as_str()),
                );
                assert(self.deep_view().board.command_output =~= expected.board.command_output);
                assert(self.deep_view() =~= expected);
            },
        }
        self.board.focus_after_run();
        actions
    }

    /// Shows the list, or shows it no longer.
    pub fn toggle_sidebar(&mut self)
        ensures
            final(self).deep_view() == (RpracticeViewModel {
                sidebar_open: !old(self).sidebar_open,
                ..old(self).deep_view()
            }),
    {
        self.sidebar_open = !self.sidebar_open;
    }

    /// Shows the list, or shows it no longer, as the status bar asks for it.
    pub fn toggle_sidebar_from_status_bar(&mut self)
        ensures
            final(self).deep_view() == (RpracticeViewModel {
                sidebar_open: !old(self).sidebar_open,
                ..old(self).deep_view()
            }),
    {
        self.sidebar_open = !self.sidebar_open;
    }

    /// Whether the list is shown.
    pub fn sidebar_open(&self) -> (r: bool)
        ensures
            r == self.sidebar_open,
    {
        self.sidebar_open
    }

    /// What is shown of the list.
    pub fn render_sidebar(&self) -> (r: SidebarView)
        ensures
            r.deep_view() == tree::sidebar(
                self.deep_view().problems,
                self.filtered_problem_indices@,
                self.deep_view().expanded,
                self.query@,
                self.deep_view().selected_id(),
                self.is_loading_list,
                self.status@,
            ),
    {
        let selected = match &self.selected_problem {
            Some(problem) => Some(problem.id.clone()),
            None => None,
        };
        render_sidebar(
            &self.problems,
            &self.filtered_problem_indices,
            &self.expanded,
            self.query.as_str(),
            &selected,
            self.is_loading_list,
            self.status.as_str(),
        )
    }

    /// The editor in which a name is changed.
    pub fn focused_code_editor(&self) -> (r: Option<PracticeEditor>)
        ensures
            r == self.deep_view().source_editor(),
    {
        if self.selected_files.is_some() {
            Some(PracticeEditor::Source)
        } else {
            None
        }
    }

    /// The editor in which a change of a name is confirmed, whether or not it is under way there.
    pub fn rename_editor(&self, source_pending: bool) -> (r: Option<PracticeEditor>)
        ensures
            r == self.deep_view().source_editor(),
    {
        if source_pending && self.selected_files.is_some() {
            Some(PracticeEditor::Source)
        } else {
            self.focused_code_editor()
        }
    }

    /// Where the search bar belongs.
    pub fn focused_search_editor(&self, focused: Option<PracticeEditor>) -> (r: Option<
        PracticeEditor,
    >)
        ensures
            r == self.deep_view().search_editor(focused),
    {
        let length: usize = self.board.test_cases.len();
        let is_there = match focused {
            Some(editor) => match editor {
                PracticeEditor::Source => self.selected_files.is_some(),
                PracticeEditor::CaseInput(i) => i < length,
                PracticeEditor::CaseExpected(i) => i < length,
                PracticeEditor::RemovedCase => false,
            },
            None => false,
        };
        if is_there {
            focused
        } else if self.search_target.is_some() {
            self.search_target
        } else {
            self.focused_code_editor()
        }
    }

    /// Moves the search bar to where it belongs: the editor that it is to search, if that is a new
    /// one or the bar was closed. `dismissed` says whether the bar is closed, if there is one.
    pub fn sync_search_target(
        &mut self,
        focused: Option<PracticeEditor>,
        dismissed: Option<bool>,
    ) -> (r: Option<PracticeEditor>)
        ensures
            ({
                let editor = old(self).deep_view().search_editor(focused);
                let moves = editor is Some && dismissed is Some && (old(self).search_target
                    != editor || dismissed == Some(true));
                &&& r == if moves {
                    editor
                } else {
                    None
                }
                &&& final(self).deep_view() == if moves {
                    RpracticeViewModel { search_target: editor, ..old(self).deep_view() }
                } else {
                    old(self).deep_view()
                }
            }),
    {
        let editor = match self.focused_search_editor(focused) {
            Some(editor) => editor,
            None => {
                return None;
            },
        };
        let dismissed = match dismissed {
            Some(dismissed) => dismissed,
            None => {
                return None;
            },
        };
        let same = match self.search_target {
            Some(target) => target == editor,
            None => false,
        };
        if same && !dismissed {
            return None;
        }
        self.search_target = Some(editor);
        Some(editor)
    }

    /// Removes a test case, if it is there.
    pub fn delete_test_case(&mut self, index: usize)
        ensures
            final(self).deep_view() == old(self).deep_view().without_case(index),
    {
        if index >= self.board.test_cases.len() {
            return;
        }
        self.board.delete_test_case(index);
        self.search_target = match self.search_target {
            Some(editor) => Some(without_case(editor, index)),
            None => None,
        };
    }

    /// The heading of the problem.
    pub fn problem_heading(&self) -> (r: String)
        ensures
            r@ == match self.deep_view().selected_problem {
                Some(problem) => wording::problem_heading(problem.id, problem.title),
                None => "Select a problem"@,
            },
    {
        match &self.selected_problem {
            Some(problem) => wording::format_problem_heading(
                problem.id.as_str(),
                problem.title.as_str(),
            ),
            None => "Select a problem".to_owned(),
        }
    }

    /// The heading and the text of the problem.
    pub fn render_problem_panel(&self) -> (r: (String, String))
        ensures
            r.0@ == match self.deep_view().selected_problem {
                Some(problem) => wording::problem_heading(problem.id, problem.title),
                None => "Select a problem"@,
            },
            r.1@ == match self.deep_view().problem_markdown {
                Some(markdown) => markdown,
                None => "Choose a problem from the list."@,
            },
    {
        let body = match &self.problem_markdown {
            Some(markdown) => markdown.clone(),
            None => "Choose a problem from the list.".to_owned(),
        };
        (self.problem_heading(), body)
    }

    /// What is shown of the steps and the cases. While a command runs, no other one can be started,
    /// and submissions cannot be asked for while they are being fetched.
    pub fn render_command_output(&self) -> (r: CommandPanel)
        ensures
            r.deep_view() == (CommandPanelModel {
                chips: self.deep_view().board.chips(),
                actions: seq![
                    ActionButtonModel { label: "Run"@, disabled: self.command_status is Running },
                    ActionButtonModel {
                        label: "Submit"@,
                        disabled: self.command_status is Running,
                    },
                    ActionButtonModel {
                        label: "Submissions"@,
                        disabled: self.command_status is Running || self.is_fetching_submissions,
                    },
                ],
                detail: self.deep_view().board.selected_detail(),
            }),
    {
        let is_running = self.command_status.is_running();
        let is_fetching = is_running || self.is_fetching_submissions;
        let mut actions: Vec<ActionButton> = Vec::new();
        actions.push(action_button("Run", is_running));
        actions.push(action_button("Submit", is_running));
        actions.push(action_button("Submissions", is_fetching));
        let panel = CommandPanel {
            chips: self.board.render_chips(),
            actions,
            detail: self.board.render_output_detail(),
        };
        assert(panel.actions.deep_view() =~= seq![
            ActionButtonModel { label: "Run"@, disabled: is_running },
            ActionButtonModel { label: "Submit"@, disabled: is_running },
            ActionButtonModel { label: "Submissions"@, disabled: is_fetching },
        ]);
        panel
    }

    /// The name of the code. An asterisk stands for changes that are not saved.
    pub fn render_source_tab(&self, is_dirty: bool) -> (r: String)
        ensures
            r@ == (match self.deep_view().selected_files {
                Some(files) => files.source_file_name,
                None => "source.rs"@,
            }) + (if is_dirty {
                " *"@
            } else {
                seq![]
            }),
    {
        let label = match &self.selected_files {
            Some(files) => files.source_file_name.clone(),
            None => "source.rs".to_owned(),
        };
        if is_dirty {
            label.concat(" *")
        } else {
            assert(label@ + Seq::<char>::empty() =~= label@);
            label
        }
    }

    /// The title of the view.
    pub fn tab_content_text(&self) -> (r: String)
        ensures
            r@ == match self.deep_view().selected_problem {
                Some(problem) => "Rpractice "@ + problem.id,
                None => "Rpractice"@,
            },
    {
        match &self.selected_problem {
            Some(problem) => "Rpractice ".to_owned().concat(problem.id.as_str()),
            None => "Rpractice".to_owned(),
        }
    }
}

/// The answer about a problem that is no longer open changes nothing of what is shown.
pub proof fn other_problems_answers_are_not_shown(
    view: RpracticeViewModel,
    query: SubmissionQueryModel,
    result: Result<Seq<ProblemSubmissionModel>, Seq<char>>,
    now: i64,
)
    requires
        view.selected_id() != Some(query.problem.id),
    ensures
        view.after_fetch(query, result, now).board == view.board,
{
}

/// While a submission is waited for, submissions are not asked for otherwise.
pub proof fn watch_comes_first(
    view: RpracticeViewModel,
    user: Seq<char>,
    from_second: i64,
    other: Option<Seq<char>>,
)
    requires
        view.selected_problem is Some,
    ensures
        view.after_watch_start(Some(user), from_second).fetch_query(other) is None,
        view.after_watch_start(Some(user), from_second).after_fetch_start(other)
            == view.after_watch_start(Some(user), from_second),
{
}

/// A session ends once: when it has ended, there is nothing left to store.
pub proof fn session_ends_once(view: RpracticeViewModel, now: i64)
    ensures
        view.without_session().finished_session(now) is None,
{
}

/// Only a submission that is accepted ends the session.
pub proof fn only_accepted_ends_session(
    view: RpracticeViewModel,
    problem_id: Seq<char>,
    from_second: i64,
    seen: Result<Option<(ProblemSubmissionModel, bool)>, Seq<char>>,
    now: i64,
)
    requires
        !(seen matches Ok(Some((submission, true))) && seqs::trim(submission.verdict) == "AC"@),
    ensures
        view.after_watch(problem_id, from_second, seen, now).session_id == view.session_id,
        view.after_watch(problem_id, from_second, seen, now).session_started_at
            == view.session_started_at,
        view.watch_actions(problem_id, from_second, seen, now).finished is None,
{
}

/// As long as a watch goes on, it stays the one that is waited for.
pub proof fn watch_goes_on_unchanged(
    view: RpracticeViewModel,
    problem_id: Seq<char>,
    from_second: i64,
    seen: Result<Option<(ProblemSubmissionModel, bool)>, Seq<char>>,
    now: i64,
)
    requires
        view.watch_actions(problem_id, from_second, seen, now).again,
    ensures
        view.after_watch(problem_id, from_second, seen, now) == view,
{
}

/// When a test case is removed, the search bar stays with the test case that it is at, if that is
/// another one, and moves to no other, if it is not.
pub proof fn search_stays_with_case(view: RpracticeViewModel, index: usize, i: usize)
    requires
        index < view.board.test_cases.len(),
        i < view.board.test_cases.len(),
    ensures
        ({
            let next = view.without_case(index);
            let k = if i > index {
                (i - 1) as usize
            } else {
                i
            };
            &&& i != index ==> next.board.test_cases[k as int] == view.board.test_cases[i as int]
            &&& view.search_target == Some(PracticeEditor::CaseInput(i)) ==> next.search_target
                == Some(
                if i == index {
                    PracticeEditor::RemovedCase
                } else {
                    PracticeEditor::CaseInput(k)
                },
            )
            &&& view.search_target == Some(PracticeEditor::CaseExpected(i)) ==> next.search_target
                == Some(
                if i == index {
                    PracticeEditor::RemovedCase
                } else {
                    PracticeEditor::CaseExpected(k)
                },
            )
            &&& next.search_editor(None) == match view.search_target {
                Some(_) => next.search_target,
                None => view.search_editor(None),
            }
        }),
{
    if i != index {
        cases::other_cases_stay(view.board, index, i);
    }
}

/// The stored list is fetched anew exactly if it is empty or one of its problems has no place in the
/// tree.
pub proof fn incomplete_list_is_fetched(cached: Seq<ProblemModel>)
    ensures
        !needs_fetch(cached) <==> cached.len() > 0 && forall|i: int|
            0 <= i < cached.len() ==> !seqs::is_blank((#[trigger] cached[i]).contest_group)
                && !seqs::is_blank(cached[i].contest_segment) && !seqs::is_blank(
                cached[i].contest_title,
            ),
{
    if !needs_fetch(cached) {
        assert forall|i: int| 0 <= i < cached.len() implies !seqs::is_blank(
            (#[trigger] cached[i]).contest_group,
        ) && !seqs::is_blank(cached[i].contest_segment) && !seqs::is_blank(
            cached[i].contest_title,
        ) by {
            assert(!results::lacks_place(cached[i]));
        }
    }
}

/// A list that was loaded is shown with its problems, one that was not leaves those that are there,
/// and while it is fetched the view says so; nothing else of the view is changed.
pub proof fn list_is_loaded(
    view: RpracticeViewModel,
    problems: Seq<ProblemModel>,
    places: Seq<usize>,
    status: Seq<char>,
)
    ensures
        view.with_problems(problems, places, status) == (RpracticeViewModel {
            problems,
            filtered_problem_indices: places,
            is_loading_list: false,
            status,
            ..view
        }),
        view.without_list(status) == (RpracticeViewModel { is_loading_list: false, status, ..view }),
        view.fetching_list() == (RpracticeViewModel {
            is_loading_list: true,
            status: "Fetching problem index..."@,
            ..view
        }),
        view.is_listed() <==> list::is_listing(
            view.problems,
            view.query,
            view.filtered_problem_indices,
        ),
{
}

/// Submissions are asked for once a problem is open and the user is known, and only if none are
/// fetched for the problem or waited for. What is asked is about that user and that problem, and
/// nothing but the step about submissions and the note of what is asked is changed.
pub proof fn submissions_are_asked_for(view: RpracticeViewModel, problem: ProblemModel, user: Seq<char>)
    requires
        view.selected_problem == Some(problem),
    ensures
        view.submission_watch_started_at is Some || (view.is_fetching_submissions
            && view.submission_fetch_problem_id == Some(problem.id)) ==> {
            &&& view.after_fetch_start(Some(user)) == view
            &&& view.after_fetch_start(None) == view
            &&& view.fetch_query(Some(user)) is None
        },
        view.submission_watch_started_at is None && (!view.is_fetching_submissions
            || view.submission_fetch_problem_id != Some(problem.id)) ==> {
            &&& view.fetch_query(Some(user)) is Some
            &&& view.fetch_query(Some(user))->0.atcoder_user == user
            &&& view.fetch_query(Some(user))->0.problem == problem
            &&& view.fetch_query(None) is None
            &&& view.after_fetch_start(Some(user)) == (RpracticeViewModel {
                is_fetching_submissions: true,
                submission_fetch_problem_id: Some(problem.id),
                board: view.board.with_step(
                    "Submissions"@,
                    output::single_item(
                        "Submissions"@,
                        CommandOutputItemStatus::Pending,
                        "Fetching AtCoder submissions..."@,
                    ),
                ),
                ..view
            })
            &&& view.after_fetch_start(None) == (RpracticeViewModel {
                board: view.board.with_step(
                    "Submissions"@,
                    output::single_item(
                        "Submissions"@,
                        CommandOutputItemStatus::Failed,
                        "AtCoder user is not configured. Set it in Rduel first."@,
                    ),
                ),
                ..view
            })
        },
{
}

/// Without a problem that is open no submissions are asked for, and the view says why.
pub proof fn submissions_need_problem(view: RpracticeViewModel, user: Option<Seq<char>>)
    requires
        view.selected_problem is None,
    ensures
        view.fetch_query(user) is None,
        view.watch_query(user) is None,
        view.submission_watch_started_at is None ==> view.after_fetch_start(user) == (
        RpracticeViewModel {
            board: view.board.with_step(
                "Submissions"@,
                output::single_item(
                    "Submissions"@,
                    CommandOutputItemStatus::Failed,
                    "Open a problem before fetching submissions."@,
                ),
            ),
            ..view
        }),
{
}

/// The answer that is waited for is shown, if its problem is still open and no submission is waited
/// for; then nothing is fetched any more. Any other answer changes nothing.
pub proof fn awaited_answer_is_shown(
    view: RpracticeViewModel,
    query: SubmissionQueryModel,
    result: Result<Seq<ProblemSubmissionModel>, Seq<char>>,
    now: i64,
)
    ensures
        ({
            let after = view.after_fetch(query, result, now);
            let awaited = view.submission_fetch_problem_id == Some(query.problem.id);
            let open = view.selected_problem is Some && view.selected_problem->0.id
                == query.problem.id && view.submission_watch_started_at is None;
            &&& !awaited ==> after == view
            &&& awaited ==> after == (RpracticeViewModel {
                is_fetching_submissions: false,
                submission_fetch_problem_id: None,
                board: if open {
                    view.board.with_step(
                        "Submissions"@,
                        results::submissions_item(
                            now,
                            query.atcoder_user,
                            query.problem.id,
                            result,
                        ),
                    )
                } else {
                    view.board
                },
                ..view
            })
        }),
{
}

/// A submission from a second on is waited for if a problem is open and the user is known: then that
/// second and that problem are noted, and the submissions are asked about.
pub proof fn submission_is_waited_for(
    view: RpracticeViewModel,
    problem: ProblemModel,
    user: Seq<char>,
    from_second: i64,
)
    requires
        view.selected_problem == Some(problem),
    ensures
        view.watch_query(Some(user)) is Some,
        view.watch_query(Some(user))->0.atcoder_user == user,
        view.watch_query(Some(user))->0.problem == problem,
        view.watch_query(None) is None,
        view.after_watch_start(Some(user), from_second) == (RpracticeViewModel {
            submission_fetch_problem_id: None,
            submission_watch_started_at: Some(from_second),
            submission_watch_problem_id: Some(problem.id),
            is_fetching_submissions: true,
            board: view.board.with_step(
                "Submissions"@,
                output::single_item(
                    "Submissions"@,
                    CommandOutputItemStatus::Pending,
                    "Waiting for the next AtCoder submission..."@,
                ),
            ),
            ..view
        }),
        view.after_watch_start(Some(user), from_second).watches(problem.id, from_second),
        view.after_watch_start(None, from_second) == (RpracticeViewModel {
            board: view.board.with_step(
                "Submissions"@,
                output::single_item(
                    "Submissions"@,
                    CommandOutputItemStatus::Failed,
                    "AtCoder user is not configured. Set it in Rduel first."@,
                ),
            ),
            ..view
        }),
        view.watches(problem.id, from_second) <==> view.submission_watch_started_at is Some
            && view.submission_watch_started_at->0 == from_second
            && view.submission_watch_problem_id == Some(problem.id),
{
}

/// A final submission that was waited for is shown and ends the wait, and if it is accepted it ends
/// the session too; a submission whose verdict is not final, and none, are waited for further, and
/// an error ends the wait. Once the problem is no longer open, the wait ends without a trace.
pub proof fn final_submission_ends_wait(
    view: RpracticeViewModel,
    problem_id: Seq<char>,
    from_second: i64,
    submission: ProblemSubmissionModel,
    error: Seq<char>,
    now: i64,
)
    requires
        view.submission_watch_started_at == Some(from_second),
        view.submission_watch_problem_id == Some(problem_id),
    ensures
        ({
            let open = view.selected_problem is Some && view.selected_problem->0.id == problem_id;
            let accepted = seqs::trim(submission.verdict) == "AC"@;
            let shown = view.after_watch(problem_id, from_second, Ok(Some((submission, true))), now);
            let failed = view.after_watch(problem_id, from_second, Err(error), now);
            let acts = view.watch_actions(
                problem_id,
                from_second,
                Ok(Some((submission, true))),
                now,
            );
            &&& open ==> view.after_watch(
                problem_id,
                from_second,
                Ok(Some((submission, false))),
                now,
            ) == view
            &&& open ==> view.after_watch(problem_id, from_second, Ok(None), now) == view
            &&& open ==> view.watch_actions(problem_id, from_second, Ok(None), now).again
            &&& open ==> view.watch_actions(
                problem_id,
                from_second,
                Ok(Some((submission, false))),
                now,
            ).again
            &&& !acts.again
            &&& !view.watch_actions(problem_id, from_second, Err(error), now).again
            &&& view.watch_actions(problem_id, from_second, Err(error), now).finished is None
            &&& open ==> shown == (RpracticeViewModel {
                submission_watch_started_at: None,
                submission_watch_problem_id: None,
                is_fetching_submissions: false,
                board: view.board.with_step(
                    "Submissions"@,
                    results::detected_item(now, submission),
                ),
                session_id: if accepted {
                    None
                } else {
                    view.session_id
                },
                session_started_at: if accepted {
                    None
                } else {
                    view.session_started_at
                },
                ..view
            })
            &&& open && accepted ==> acts.finished == view.finished_session(now)
            &&& open && !accepted ==> acts.finished is None
            &&& open ==> failed == (RpracticeViewModel {
                submission_watch_started_at: None,
                submission_watch_problem_id: None,
                is_fetching_submissions: false,
                board: view.board.with_step(
                    "Submissions"@,
                    output::single_item(
                        "Submissions"@,
                        CommandOutputItemStatus::Failed,
                        "Could not fetch submissions:\n"@ + error,
                    ),
                ),
                ..view
            })
            &&& !open ==> shown == (RpracticeViewModel {
                submission_watch_started_at: None,
                submission_watch_problem_id: None,
                is_fetching_submissions: false,
                ..view
            }) && failed == shown && acts.finished is None
        }),
{
}

/// What is seen of a submission that is not waited for changes nothing.
pub proof fn stray_submission_is_not_shown(
    view: RpracticeViewModel,
    problem_id: Seq<char>,
    from_second: i64,
    seen: Result<Option<(ProblemSubmissionModel, bool)>, Seq<char>>,
    now: i64,
)
    requires
        view.submission_watch_started_at != Some(from_second) || view.submission_watch_problem_id
            != Some(problem_id),
    ensures
        view.after_watch(problem_id, from_second, seen, now) == view,
        !view.watch_actions(problem_id, from_second, seen, now).again,
        view.watch_actions(problem_id, from_second, seen, now).finished is None,
{
}

/// A session lasts from its start until now, and is stored only where there is a place for it and it
/// was stored when it started.
pub proof fn session_lasts_until_now(view: RpracticeViewModel, now: i64)
    ensures
        view.finished_session(now) is Some <==> view.has_storage && view.session_id is Some
            && view.session_started_at is Some,
        view.finished_session(now) matches Some(session) ==> {
            let lasted = now - view.session_started_at->0;
            &&& session.session_id == view.session_id->0
            &&& session.finished_at == now
            &&& i64::MIN <= lasted <= i64::MAX ==> session.duration_seconds == lasted
            &&& lasted > i64::MAX ==> session.duration_seconds == i64::MAX
            &&& lasted < i64::MIN ==> session.duration_seconds == i64::MIN
        },
        view.without_session() == (RpracticeViewModel {
            session_id: None,
            session_started_at: None,
            ..view
        }),
{
}

/// A problem that was opened is shown under the title of its page, if that has one, with its
/// statement, its files and its samples as test cases, of which the first is selected; no command
/// was run on it, and a session on it starts where there is a place to store it.
pub proof fn opened_problem_is_shown(
    view: RpracticeViewModel,
    problem: ProblemModel,
    files: RpracticeProblemFilesModel,
    detail: ProblemDetailModel,
    now: i64,
)
    ensures
        ({
            let after = view.opened(problem, files, detail, now);
            &&& after == (RpracticeViewModel {
                selected_problem: after.selected_problem,
                selected_files: Some(files),
                problem_markdown: Some(detail.statement_markdown),
                board: after.board,
                is_fetching_submissions: false,
                command_status: CommandStatus::Idle,
                is_loading_problem: false,
                status: seq![],
                search_target: Some(PracticeEditor::Source),
                session_started_at: if view.has_storage {
                    Some(now)
                } else {
                    view.session_started_at
                },
                ..view
            })
            &&& after.selected_problem is Some
            &&& after.selected_problem->0 == (ProblemModel {
                title: after.selected_problem->0.title,
                ..problem
            })
            &&& detail.title is Some && !seqs::is_blank(detail.title->0)
                ==> after.selected_problem->0.title == detail.title->0
            &&& detail.title is None || seqs::is_blank(detail.title->0)
                ==> after.selected_problem->0.title == problem.title
            &&& after.board.test_cases == cases::provided_cases(detail.samples)
            &&& after.board.command_output.items.len() == 0
            &&& detail.samples.len() > 0 ==> after.board.output_selection == OutputSelection::Case(
                0,
            )
            &&& detail.samples.len() == 0 ==> after.board.output_selection == OutputSelection::Step(
                0,
            )
        }),
{
}

/// While a problem is opened the view says so, and if it cannot be the view says why; the problem
/// stays the one that is chosen.
pub proof fn opening_is_shown(view: RpracticeViewModel, problem: ProblemModel, status: Seq<char>)
    ensures
        view.opening(problem) == (RpracticeViewModel {
            is_loading_problem: true,
            status: "Fetching statement for "@ + problem.id + "..."@,
            selected_problem: Some(problem),
            ..view
        }),
        view.not_opened(status) == (RpracticeViewModel {
            is_loading_problem: false,
            status,
            ..view
        }),
        view.opening(problem).selected_id() == Some(problem.id),
{
}

/// The search bar goes to the editor with the focus, if that is the code of a problem that is open
/// or the text of a test case that is there; otherwise it stays where it is, and without a place it
/// goes to the code.
pub proof fn search_goes_to_focus(view: RpracticeViewModel, i: usize, other: Option<PracticeEditor>)
    ensures
        view.selected_files is Some ==> view.search_editor(Some(PracticeEditor::Source)) == Some(
            PracticeEditor::Source,
        ),
        i < view.board.test_cases.len() ==> view.search_editor(
            Some(PracticeEditor::CaseInput(i)),
        ) == Some(PracticeEditor::CaseInput(i)) && view.search_editor(
            Some(PracticeEditor::CaseExpected(i)),
        ) == Some(PracticeEditor::CaseExpected(i)),
        ({
            let elsewhere = match other {
                Some(PracticeEditor::Source) => view.selected_files is None,
                Some(PracticeEditor::CaseInput(k)) => k >= view.board.test_cases.len(),
                Some(PracticeEditor::CaseExpected(k)) => k >= view.board.test_cases.len(),
                _ => true,
            };
            &&& elsewhere && view.search_target is Some ==> view.search_editor(other)
                == view.search_target
            &&& elsewhere && view.search_target is None && view.selected_files is Some
                ==> view.search_editor(other) == Some(PracticeEditor::Source)
            &&& elsewhere && view.search_target is None && view.selected_files is None
                ==> view.search_editor(other) is None
        }),
        view.source_editor() is Some <==> view.selected_files is Some,
        view.source_editor() is Some ==> view.source_editor() == Some(PracticeEditor::Source),
{
}

/// Removing a test case that is not there changes nothing, and removing one changes only the board
/// and the search bar.
pub proof fn only_board_and_search_are_changed(view: RpracticeViewModel, index: usize)
    ensures
        index >= view.board.test_cases.len() ==> view.without_case(index) == view,
        index < view.board.test_cases.len() ==> view.without_case(index) == (RpracticeViewModel {
            board: view.board.without_case(index),
            search_target: view.without_case(index).search_target,
            ..view
        }),
        view.search_target is None ==> view.without_case(index).search_target is None,
        view.search_target == Some(PracticeEditor::Source) ==> view.without_case(
            index,
        ).search_target == Some(PracticeEditor::Source),
{
}

/// A command that is started runs: it is the only step, which is not done and is selected, and no
/// test case has a result. While another one runs nothing is started.
pub proof fn started_command_runs(view: RpracticeViewModel, label: Seq<char>)
    ensures
        view.command_status is Running ==> view.after_command_start(label) == view,
        !(view.command_status is Running) ==> {
            let after = view.after_command_start(label);
            &&& after == (RpracticeViewModel {
                command_status: CommandStatus::Running,
                board: after.board,
                ..view
            })
            &&& after.board.output_selection == OutputSelection::Step(0)
            &&& after.board.command_output.items == seq![
                output::single_item(
                    label,
                    CommandOutputItemStatus::Pending,
                    "Waiting for command output..."@,
                ),
            ]
            &&& after.board.test_cases == cases::without_results(view.board.test_cases)
        },
{
}

/// Without a problem that is open a command fails with one step, which is selected and says why; the
/// test cases stay as they are.
pub proof fn command_needs_problem(view: RpracticeViewModel, heading: Seq<char>)
    ensures
        ({
            let after = view.without_problem(heading);
            &&& after == (RpracticeViewModel {
                command_status: CommandStatus::Failed,
                board: after.board,
                ..view
            })
            &&& after.board.test_cases == view.board.test_cases
            &&& after.board.output_selection == OutputSelection::Step(0)
            &&& after.board.command_output.items == seq![
                output::single_item("Problem"@, CommandOutputItemStatus::Failed, heading),
            ]
        }),
{
}

/// A command that has ended has succeeded exactly if its outcome says so; its steps and the results
/// of the test cases are shown, with the first failure selected. One that could not be run has
/// failed, and its one step says why.
pub proof fn outcome_of_command_is_shown(
    view: RpracticeViewModel,
    outcome: PracticeCommandOutputModel,
    error: Seq<char>,
    user: Option<Seq<char>>,
    now: i64,
)
    requires
        outcome.submit_ready is None,
    ensures
        ({
            let board = OutputBoardModel {
                test_cases: cases::with_results(view.board.test_cases, outcome.case_results),
                command_output: CommandOutputStateModel { items: outcome.items },
                output_selection: view.board.output_selection,
            };
            view.after_command(Ok(outcome), user, now) == (RpracticeViewModel {
                command_status: if outcome.success {
                    CommandStatus::Succeeded
                } else {
                    CommandStatus::Failed
                },
                board: board.focused_after_run(),
                ..view
            })
        }),
        ({
            let board = OutputBoardModel {
                test_cases: view.board.test_cases,
                command_output: CommandOutputStateModel {
                    items: seq![
                        output::single_item(
                            "Command"@,
                            CommandOutputItemStatus::Failed,
                            "Failed before running command:\n"@ + error,
                        ),
                    ],
                },
                output_selection: view.board.output_selection,
            };
            view.after_command(Err(error), user, now) == (RpracticeViewModel {
                command_status: CommandStatus::Failed,
                board: board.focused_after_run(),
                ..view
            })
        }),
        view.command_actions(Ok(outcome), user).clipboard is None,
        view.command_actions(Ok(outcome), user).open_url is None,
        view.command_actions(Ok(outcome), user).watch is None,
        view.command_actions(Err(error), user).clipboard is None,
        view.command_actions(Err(error), user).open_url is None,
        view.command_actions(Err(error), user).watch is None,
{
}

/// A solution that is ready to be submitted is copied, the page to submit it on is opened, and its
/// submission is waited for from now on, if a problem is open and the user is known.
pub proof fn ready_solution_is_submitted(
    view: RpracticeViewModel,
    outcome: PracticeCommandOutputModel,
    problem: ProblemModel,
    user: Seq<char>,
    now: i64,
)
    requires
        outcome.submit_ready is Some,
        view.selected_problem == Some(problem),
    ensures
        ({
            let actions = view.command_actions(Ok(outcome), Some(user));
            let after = view.after_command(Ok(outcome), Some(user), now);
            &&& actions.clipboard == Some(outcome.submit_ready->0.source_code)
            &&& actions.open_url == Some(outcome.submit_ready->0.submit_url)
            &&& actions.watch is Some
            &&& actions.watch->0.atcoder_user == user
            &&& actions.watch->0.problem == problem
            &&& after.watches(problem.id, now)
            &&& after.is_fetching_submissions
            &&& after.submission_fetch_problem_id is None
            &&& after.command_status == if outcome.success {
                CommandStatus::Succeeded
            } else {
                CommandStatus::Failed
            }
            &&& after.selected_problem == view.selected_problem
            &&& after.selected_files == view.selected_files
            &&& after.session_id == view.session_id
            &&& after.session_started_at == view.session_started_at
        }),
{
}
/// The models hold what the values hold, each part under its own name.
pub proof fn models_hold_their_parts(
    rpractice_view: RpracticeView,
    submission_query: SubmissionQuery,
    finished_session: FinishedSession,
    opened_actions: OpenedActions,
    practice_actions: PracticeActions,
    watch_actions: WatchActions,
)
    ensures
        rpractice_view.deep_view() == (RpracticeViewModel {
            has_storage: rpractice_view.has_storage,
            problems: rpractice_view.problems.deep_view(),
            filtered_problem_indices: rpractice_view.filtered_problem_indices@,
            selected_problem: rpractice_view.selected_problem.deep_view(),
            selected_files: rpractice_view.selected_files.deep_view(),
            problem_markdown: rpractice_view.problem_markdown.deep_view(),
            query: rpractice_view.query@,
            expanded: rpractice_view.expanded.deep_view(),
            sidebar_open: rpractice_view.sidebar_open,
            command_status: rpractice_view.command_status,
            board: rpractice_view.board.deep_view(),
            is_fetching_submissions: rpractice_view.is_fetching_submissions,
            submission_fetch_problem_id: rpractice_view.submission_fetch_problem_id.deep_view(),
            submission_watch_started_at: rpractice_view.submission_watch_started_at,
            submission_watch_problem_id: rpractice_view.submission_watch_problem_id.deep_view(),
            status: rpractice_view.status@,
            is_loading_list: rpractice_view.is_loading_list,
            is_loading_problem: rpractice_view.is_loading_problem,
            session_id: rpractice_view.session_id.deep_view(),
            session_started_at: rpractice_view.session_started_at,
            search_target: rpractice_view.search_target,
        }),
        submission_query.deep_view() == (SubmissionQueryModel {
            atcoder_user: submission_query.atcoder_user@,
            problem: submission_query.problem.deep_view(),
        }),
        finished_session.deep_view() == (FinishedSessionModel {
            session_id: finished_session.session_id@,
            finished_at: finished_session.finished_at,
            duration_seconds: finished_session.duration_seconds,
        }),
        opened_actions.deep_view() == (OpenedActionsModel {
            started_at: opened_actions.started_at,
            fetch: opened_actions.fetch.deep_view(),
        }),
        practice_actions.deep_view() == (PracticeActionsModel {
            clipboard: practice_actions.clipboard.deep_view(),
            open_url: practice_actions.open_url.deep_view(),
            watch: practice_actions.watch.deep_view(),
        }),
        watch_actions.deep_view() == (WatchActionsModel {
            again: watch_actions.again,
            finished: watch_actions.finished.deep_view(),
        }),
{
}
/// Answers are passed on as they are.
pub proof fn answers_are_passed_on(
    problems: Vec<Problem>,
    outcome: PracticeCommandOutput,
    submission: ProblemSubmission,
    is_final: bool,
    error: String,
)
    ensures
        list_model(Ok(problems)) == Ok::<Seq<ProblemModel>, Seq<char>>(problems.deep_view()),
        list_model(Err(error)) == Err::<Seq<ProblemModel>, Seq<char>>(error@),
        outcome_model(Ok(outcome)) == Ok::<PracticeCommandOutputModel, Seq<char>>(
            outcome.deep_view(),
        ),
        outcome_model(Err(error)) == Err::<PracticeCommandOutputModel, Seq<char>>(error@),
        seen_model(Ok(Some((submission, is_final)))) == Ok::<
            Option<(ProblemSubmissionModel, bool)>,
            Seq<char>,
        >(Some((submission.deep_view(), is_final))),
        seen_model(Ok(None)) == Ok::<Option<(ProblemSubmissionModel, bool)>, Seq<char>>(None),
        seen_model(Err(error)) == Err::<Option<(ProblemSubmissionModel, bool)>, Seq<char>>(error@),
{
}
/// Searching for something else lists what is found with it, and changes nothing else.
pub proof fn search_lists_what_is_found(view: &mut RpracticeView, query: String)
    requires
        call_ensures(RpracticeView::on_filter_editor_event, (view, query), ()),
    ensures
        final(view).query@ == query@,
        list::is_listing(
            old(view).deep_view().problems,
            query@,
            final(view).filtered_problem_indices@,
        ),
        final(view).deep_view().problems == old(view).deep_view().problems,
        final(view).deep_view().board == old(view).deep_view().board,
        final(view).deep_view().selected_problem == old(view).deep_view().selected_problem,
{
}

/// A stored list is shown, or fetched anew if it lacks something; without a place to store it the
/// view says why.
pub proof fn stored_list_is_shown_or_fetched(
    view: &mut RpracticeView,
    cached: Result<Vec<Problem>, String>,
    fetches: bool,
)
    requires
        call_ensures(RpracticeView::load_problem_list, (view, cached), fetches),
    ensures
        cached matches Err(error) ==> {
            &&& !fetches
            &&& final(view).has_storage == old(view).has_storage
            &&& !final(view).is_loading_list
            &&& final(view).status@ == "Could not open Rpractice storage: "@ + error@
        },
        cached matches Ok(problems) ==> {
            &&& final(view).has_storage
            &&& fetches <==> needs_fetch(problems.deep_view())
            &&& fetches ==> final(view).is_loading_list && final(view).deep_view().problems == old(view).deep_view().problems
            &&& !fetches ==> {
                &&& !final(view).is_loading_list
                &&& final(view).deep_view().problems == problems.deep_view()
                &&& final(view).status@ == "Loaded "@ + seqs::decimal(problems@.len())
                    + " cached problems."@
                &&& list::is_listing(
                    problems.deep_view(),
                    old(view).query@,
                    final(view).filtered_problem_indices@,
                )
            }
        },
{
    if let Ok(problems) = cached {
        assert(problems.deep_view().len() == problems@.len());
    }
}

/// A list that was fetched is shown, and stored where there is a place for it; one that could not be
/// fetched leaves what is there.
pub proof fn fetched_list_is_shown(
    view: &mut RpracticeView,
    fetched: Result<Vec<Problem>, String>,
    stored: bool,
)
    requires
        call_ensures(RpracticeView::finish_list_fetch, (view, fetched), stored),
    ensures
        !final(view).is_loading_list,
        fetched matches Err(error) ==> {
            &&& !stored
            &&& final(view).deep_view().problems == old(view).deep_view().problems
            &&& final(view).status@ == "Could not fetch problem list: "@ + error@
        },
        fetched matches Ok(problems) ==> {
            &&& stored == old(view).has_storage
            &&& final(view).deep_view().problems == problems.deep_view()
            &&& final(view).status@ == "Loaded "@ + seqs::decimal(problems@.len()) + " problems."@
            &&& list::is_listing(
                problems.deep_view(),
                old(view).query@,
                final(view).filtered_problem_indices@,
            )
        },
{
    if let Ok(problems) = fetched {
        assert(problems.deep_view().len() == problems@.len());
    }
}

/// The problem that the user chose is opened, and none if there is none in that place.
pub proof fn chosen_problem_is_opened(view: &mut RpracticeView, index: usize, chosen: Option<Problem>)
    requires
        call_ensures(RpracticeView::open_problem_at_index, (view, index), chosen),
    ensures
        chosen is Some <==> index < old(view).problems@.len(),
        chosen is Some ==> {
            &&& chosen->0.deep_view() == old(view).problems@[index as int].deep_view()
            &&& final(view).is_loading_problem
            &&& final(view).deep_view().selected_problem == Some(chosen->0.deep_view())
            &&& final(view).status@ == "Fetching statement for "@ + chosen->0.id@ + "..."@
        },
        chosen is None ==> final(view).deep_view() == old(view).deep_view(),
{
    assert(old(view).problems.deep_view().len() == old(view).problems@.len());
    if index < old(view).problems@.len() {
        assert(old(view).problems.deep_view()[index as int]
            == old(view).problems@[index as int].deep_view());
    }
}

/// A session starts now where there is a place to store it, and is kept under the name that it was
/// stored under.
pub proof fn session_starts_now(view: &mut RpracticeView, now: i64, started: Option<i64>, id: String)
    ensures
        call_ensures(RpracticeView::start_practice_session, (view, now), started) ==> {
            &&& started is Some <==> old(view).has_storage
            &&& started is Some ==> started == Some(now) && final(view).session_started_at == Some(
                now,
            )
            &&& started is None ==> final(view).session_started_at == old(view).session_started_at
        },
        call_ensures(RpracticeView::note_session, (view, id), ()) ==> final(view).deep_view().session_id == Some(id@) && final(view).session_started_at == old(view).session_started_at,
{
}

/// A test runs once a problem is open and no command runs, and so does a submission.
pub proof fn command_runs_on_open_problem(view: &mut RpracticeView, tests: bool, submits: bool)
    ensures
        call_ensures(RpracticeView::run_samples, (view,), tests) ==> (tests <==> old(view).selected_files is Some && !(old(view).command_status is Running)) && (tests ==> final(view).command_status is Running),
        call_ensures(RpracticeView::submit_solution, (view,), submits) ==> (submits <==> old(view).selected_files is Some && old(view).selected_problem is Some && !(old(view).command_status is Running)) && (submits ==> final(view).command_status is Running),
{
}

/// The list is shown and hidden in turn.
pub proof fn list_is_shown_and_hidden(view: &mut RpracticeView)
    ensures
        call_ensures(RpracticeView::toggle_sidebar, (view,), ()) ==> final(view).sidebar_open
            != old(view).sidebar_open && final(view).deep_view().board == old(view).deep_view().board,
        call_ensures(RpracticeView::toggle_sidebar_from_status_bar, (view,), ()) ==> final(view).sidebar_open != old(view).sidebar_open,
{
}

/// The search bar moves where it belongs, if there is one and it is elsewhere or was closed;
/// otherwise nothing is changed.
pub proof fn search_bar_moves_once(
    view: &mut RpracticeView,
    focused: Option<PracticeEditor>,
    dismissed: Option<bool>,
    moved: Option<PracticeEditor>,
)
    requires
        call_ensures(RpracticeView::sync_search_target, (view, focused, dismissed), moved),
    ensures
        ({
            let editor = old(view).deep_view().search_editor(focused);
            let moves = editor is Some && dismissed is Some && (old(view).search_target != editor
                || dismissed == Some(true));
            &&& moves ==> moved == editor && final(view).search_target == editor
            &&& !moves ==> moved is None && final(view).deep_view() == old(view).deep_view()
        }),
{
}

/// The problem that is open is shown with its heading and its statement, its id is in the title of
/// the view, and its code under its own name, with an asterisk if it has changes that are not saved.
pub proof fn open_problem_is_shown(
    view: RpracticeView,
    problem: Problem,
    panel: (String, String),
    title: String,
    dirty: bool,
    tab: String,
)
    requires
        call_ensures(RpracticeView::render_problem_panel, (&view,), panel),
        call_ensures(RpracticeView::tab_content_text, (&view,), title),
        call_ensures(RpracticeView::render_source_tab, (&view, dirty), tab),
    ensures
        view.selected_problem == Some(problem) ==> panel.0@ == wording::problem_heading(
            problem.id@,
            problem.title@,
        ) && title@ == "Rpractice "@ + problem.id@,
        view.selected_problem is None ==> panel.0@ == "Select a problem"@ && title@ == "Rpractice"@,
        view.problem_markdown is Some ==> panel.1@ == view.problem_markdown->0@,
        view.problem_markdown is None ==> panel.1@ == "Choose a problem from the list."@,
        view.selected_files is Some && !dirty ==> tab@ == view.selected_files->0.source_file_name@,
        view.selected_files is Some && dirty ==> tab@ == view.selected_files->0.source_file_name@
            + " *"@,
        view.selected_files is None && !dirty ==> tab@ == "source.rs"@,
{
    if view.selected_problem == Some(problem) {
        assert(view.deep_view().selected_problem == Some(problem.deep_view()));
    }
    if view.selected_files is Some {
        assert(view.deep_view().selected_files == Some(view.selected_files->0.deep_view()));
        let name = view.selected_files->0.source_file_name@;
        assert(name + Seq::<char>::empty() =~= name);
    } else {
        assert("source.rs"@ + Seq::<char>::empty() =~= "source.rs"@);
    }
}
} // verus!
