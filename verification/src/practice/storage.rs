//! What is stored of problems and of the time spent on them.

use vstd::prelude::*;

use crate::copying::Duplicate;
use crate::duel::wording;
use crate::markdown;
use crate::outside;
use crate::practice::list;
use crate::problems::{Problem, ProblemModel};
use crate::seqs;
use crate::statement::{ProblemDetail, ProblemDetailModel, Sample, SampleModel};
use crate::strmap::StrMap;
use crate::text;

verus! {

/// What the page of a problem says, as it was stored.
pub struct CachedProblemDetail {
    pub detail: ProblemDetail,
    /// Whether what is stored is out of date, because it was written before statements were tidied
    /// up as they are now.
    pub normalized: bool,
}

/// What a `CachedProblemDetail` holds.
#[verifier::ext_equal]
pub struct CachedProblemDetailModel {
    pub detail: ProblemDetailModel,
    pub normalized: bool,
}

impl DeepView for CachedProblemDetail {
    type V = CachedProblemDetailModel;

    open spec fn deep_view(&self) -> CachedProblemDetailModel {
        CachedProblemDetailModel { detail: self.detail.deep_view(), normalized: self.normalized }
    }
}

/// What was stored of the page of a problem, with its statement tidied up.
pub open spec fn cached(
    statement_markdown: Seq<char>,
    samples: Seq<SampleModel>,
    title: Seq<char>,
) -> CachedProblemDetailModel {
    CachedProblemDetailModel {
        detail: ProblemDetailModel {
            title: Some(title),
            statement_markdown: markdown::normalized(statement_markdown),
            samples,
        },
        normalized: markdown::normalized(statement_markdown) != statement_markdown,
    }
}

fn cached_detail(statement_markdown: &str, samples: &Vec<Sample>, title: &str) -> (r:
    CachedProblemDetail)
    ensures
        r.deep_view() == cached(statement_markdown@, samples.deep_view(), title@),
{
    let tidy = markdown::normalize_statement_markdown(statement_markdown);
    let normalized = !text::same(tidy.as_str(), statement_markdown);
    CachedProblemDetail {
        detail: ProblemDetail {
            title: Some(title.to_owned()),
            statement_markdown: tidy,
            samples: samples.duplicate(),
        },
        normalized,
    }
}

/// The title under which a problem is stored: that of its page, or else that of the list.
pub open spec fn stored_title(problem: ProblemModel, detail: ProblemDetailModel) -> Seq<char> {
    match detail.title {
        Some(title) => title,
        None => problem.title,
    }
}

/// The name of a session on a problem.
pub open spec fn session_name(problem_id: Seq<char>, started_at: i64, now: i64) -> Seq<char> {
    problem_id + "-"@ + seqs::signed_decimal(started_at as int) + "-"@ + seqs::signed_decimal(
        now as int,
    )
}

/// A problem as it is stored, with its statement and its samples, if its page was read.
pub struct StoredProblem {
    pub problem: Problem,
    pub statement_markdown: Option<String>,
    pub fetched_at: i64,
    pub samples: Option<Vec<Sample>>,
}

/// What a `StoredProblem` holds.
#[verifier::ext_equal]
pub struct StoredProblemModel {
    pub problem: ProblemModel,
    pub statement_markdown: Option<Seq<char>>,
    pub fetched_at: i64,
    pub samples: Option<Seq<SampleModel>>,
}

impl DeepView for StoredProblem {
    type V = StoredProblemModel;

    open spec fn deep_view(&self) -> StoredProblemModel {
        StoredProblemModel {
            problem: self.problem.deep_view(),
            statement_markdown: self.statement_markdown.deep_view(),
            fetched_at: self.fetched_at,
            samples: self.samples.deep_view(),
        }
    }
}

impl Duplicate for StoredProblem {
    fn duplicate(&self) -> (r: Self) {
        StoredProblem {
            problem: self.problem.duplicate(),
            statement_markdown: self.statement_markdown.duplicate(),
            fetched_at: self.fetched_at,
            samples: self.samples.duplicate(),
        }
    }
}

/// The time spent on a problem.
pub struct StoredSession {
    pub problem_id: String,
    pub started_at: i64,
    pub finished_at: Option<i64>,
    pub duration_seconds: i64,
}

/// What a `StoredSession` holds.
#[verifier::ext_equal]
pub struct StoredSessionModel {
    pub problem_id: Seq<char>,
    pub started_at: i64,
    pub finished_at: Option<i64>,
    pub duration_seconds: i64,
}

impl DeepView for StoredSession {
    type V = StoredSessionModel;

    open spec fn deep_view(&self) -> StoredSessionModel {
        StoredSessionModel {
            problem_id: self.problem_id@,
            started_at: self.started_at,
            finished_at: self.finished_at,
            duration_seconds: self.duration_seconds,
        }
    }
}

/// What is stored of problems and of the time spent on them.
pub struct PracticeStorage {
    /// The problems by their ids.
    pub problems: StrMap<StoredProblem>,
    /// The sessions by their names.
    pub sessions: StrMap<StoredSession>,
}

/// What a `PracticeStorage` holds.
#[verifier::ext_equal]
pub struct PracticeStorageModel {
    pub problems: Map<Seq<char>, StoredProblemModel>,
    pub sessions: Map<Seq<char>, StoredSessionModel>,
}

impl DeepView for PracticeStorage {
    type V = PracticeStorageModel;

    open spec fn deep_view(&self) -> PracticeStorageModel {
        PracticeStorageModel {
            problems: self.problems.deep_view(),
            sessions: self.sessions.deep_view(),
        }
    }
}

/// Whether a problem does not come after another in the order of their groups, their segments and
/// their places in the contest.
pub open spec fn not_after(a: ProblemModel, b: ProblemModel) -> bool {
    if a.contest_group != b.contest_group {
        seqs::less(a.contest_group, b.contest_group)
    } else if a.contest_segment != b.contest_segment {
        seqs::less(a.contest_segment, b.contest_segment)
    } else {
        a.task_index == b.task_index || seqs::less(a.task_index, b.task_index)
    }
}

/// Whether the list holds each stored problem once, in the order of their groups, their segments
/// and their places in the contest.
pub open spec fn is_stored_list(
    list: Seq<ProblemModel>,
    problems: Map<Seq<char>, StoredProblemModel>,
    ids: Set<Seq<char>>,
) -> bool {
    &&& forall|i: int, j: int|
        0 <= i < j < list.len() ==> not_after(#[trigger] list[i], #[trigger] list[j]) && list[i].id
            != list[j].id
    &&& forall|i: int|
        0 <= i < list.len() ==> ids.contains((#[trigger] list[i]).id) && problems.contains_key(
            list[i].id,
        ) && problems[list[i].id].problem == list[i]
    &&& forall|id: Seq<char>| #[trigger]
        ids.contains(id) && problems.contains_key(id) ==> exists|i: int|
            0 <= i < list.len() && (#[trigger] list[i]).id == id
}

impl PracticeStorageModel {
    /// Whether each problem is stored under its id.
    pub open spec fn is_valid(self) -> bool {
        forall|id: Seq<char>| #[trigger]
            self.problems.contains_key(id) ==> self.problems[id].problem.id == id
    }

    /// With a problem of the list stored; what was stored of its page stays.
    pub open spec fn with_problem(self, problem: ProblemModel) -> Self {
        let stored = if self.problems.contains_key(problem.id) {
            StoredProblemModel { problem, ..self.problems[problem.id] }
        } else {
            StoredProblemModel {
                problem,
                statement_markdown: None,
                fetched_at: 0,
                samples: None,
            }
        };
        PracticeStorageModel { problems: self.problems.insert(problem.id, stored), ..self }
    }

    /// With the problems of a list stored.
    pub open spec fn with_list(self, list: Seq<ProblemModel>) -> Self
        decreases list.len(),
    {
        if list.len() == 0 {
            self
        } else {
            self.with_list(list.drop_last()).with_problem(list.last())
        }
    }

    /// With what the page of a problem says stored, read at the second `now`.
    pub open spec fn with_detail(
        self,
        problem: ProblemModel,
        detail: ProblemDetailModel,
        now: i64,
    ) -> Self {
        let stored = StoredProblemModel {
            problem: ProblemModel { title: stored_title(problem, detail), ..problem },
            statement_markdown: Some(detail.statement_markdown),
            fetched_at: now,
            samples: Some(detail.samples),
        };
        PracticeStorageModel { problems: self.problems.insert(problem.id, stored), ..self }
    }

    /// With another statement for a problem that is stored.
    pub open spec fn with_statement(self, id: Seq<char>, statement_markdown: Seq<char>) -> Self {
        if self.problems.contains_key(id) {
            PracticeStorageModel {
                problems: self.problems.insert(
                    id,
                    StoredProblemModel {
                        statement_markdown: Some(statement_markdown),
                        ..self.problems[id]
                    },
                ),
                ..self
            }
        } else {
            self
        }
    }

    /// What is stored of the page of a problem, if it was read.
    pub open spec fn detail(self, id: Seq<char>) -> Option<CachedProblemDetailModel> {
        if self.problems.contains_key(id) {
            let stored = self.problems[id];
            match (stored.statement_markdown, stored.samples) {
                (Some(statement_markdown), Some(samples)) => Some(
                    cached(statement_markdown, samples, stored.problem.title),
                ),
                _ => None,
            }
        } else {
            None
        }
    }

    /// With a session on a problem started.
    pub open spec fn with_session(
        self,
        session_id: Seq<char>,
        problem_id: Seq<char>,
        started_at: i64,
    ) -> Self {
        PracticeStorageModel {
            sessions: self.sessions.insert(
                session_id,
                StoredSessionModel {
                    problem_id,
                    started_at,
                    finished_at: None,
                    duration_seconds: 0,
                },
            ),
            ..self
        }
    }

    /// With a session finished, if there is one with that name.
    pub open spec fn with_finished_session(
        self,
        session_id: Seq<char>,
        finished_at: i64,
        duration_seconds: i64,
    ) -> Self {
        if self.sessions.contains_key(session_id) {
            PracticeStorageModel {
                sessions: self.sessions.insert(
                    session_id,
                    StoredSessionModel {
                        finished_at: Some(finished_at),
                        duration_seconds,
                        ..self.sessions[session_id]
                    },
                ),
                ..self
            }
        } else {
            self
        }
    }
}

fn comes_not_after(a: &Problem, b: &Problem) -> (r: bool)
    ensures
        r == not_after(a.deep_view(), b.deep_view()),
{
    if !text::same(a.contest_group.as_str(), b.contest_group.as_str()) {
        list::less_text(&a.contest_group, &b.contest_group)
    } else if !text::same(a.contest_segment.as_str(), b.contest_segment.as_str()) {
        list::less_text(&a.contest_segment, &b.contest_segment)
    } else {
        text::same(a.task_index.as_str(), b.task_index.as_str()) || list::less_text(&a.task_index, &b.task_index)
    }
}

proof fn not_after_is_order(a: ProblemModel, b: ProblemModel, c: ProblemModel)
    ensures
        not_after(a, b) && not_after(b, c) ==> not_after(a, c),
        not_after(a, b) || not_after(b, a),
{
    list::less_is_order(a.contest_group, b.contest_group, c.contest_group);
    list::less_is_order(a.contest_segment, b.contest_segment, c.contest_segment);
    list::less_is_order(a.task_index, b.task_index, c.task_index);
    list::less_is_order(b.contest_group, a.contest_group, c.contest_group);
    list::less_is_order(b.contest_segment, a.contest_segment, c.contest_segment);
    list::less_is_order(b.task_index, a.task_index, c.task_index);
}

fn add_to_list(found: &mut Vec<Problem>, problem: Problem)
    ensures
        forall|problems: Map<Seq<char>, StoredProblemModel>, ids: Set<Seq<char>>|
            is_stored_list(old(found).deep_view(), problems, ids) && !ids.contains(
                problem.deep_view().id,
            ) && problems.contains_key(problem.deep_view().id)
                && problems[problem.deep_view().id].problem == problem.deep_view()
                ==> #[trigger] is_stored_list(
                final(found).deep_view(),
                problems,
                ids.insert(problem.deep_view().id),
            ),
{
    let ghost before = found.deep_view();
    let ghost new = problem.deep_view();
    let mut low: usize = 0;
    let mut high: usize = found.len();
    while low < high
        invariant
            low <= high <= found@.len(),
            found.deep_view() == before,
            problem.deep_view() == new,
            low > 0 ==> not_after(before[low - 1], new),
            high < before.len() ==> not_after(new, before[high as int]),
        decreases high - low,
    {
        let middle: usize = low + (high - low) / 2;
        assert(before[middle as int] == found@[middle as int].deep_view());
        if comes_not_after(&found[middle], &problem) {
            low = middle + 1;
        } else {
            proof {
                not_after_is_order(before[middle as int], new, new);
            }
            high = middle;
        }
    }
    found.insert(low, problem);
    assert(found.deep_view() =~= before.insert(low as int, new));
    proof {
        let after = found.deep_view();
        assert forall|problems: Map<Seq<char>, StoredProblemModel>, ids: Set<Seq<char>>|
            is_stored_list(before, problems, ids) && !ids.contains(new.id)
                && problems.contains_key(new.id) && problems[new.id].problem == new implies
            #[trigger] is_stored_list(after, problems, ids.insert(new.id)) by {
            list_with_one_more(before, problems, ids, low as int, new);
        }
    }
}

proof fn list_with_one_more(
    list: Seq<ProblemModel>,
    problems: Map<Seq<char>, StoredProblemModel>,
    ids: Set<Seq<char>>,
    at: int,
    problem: ProblemModel,
)
    requires
        is_stored_list(list, problems, ids),
        !ids.contains(problem.id),
        problems.contains_key(problem.id),
        problems[problem.id].problem == problem,
        0 <= at <= list.len(),
        at > 0 ==> not_after(list[at - 1], problem),
        at < list.len() ==> not_after(problem, list[at]),
    ensures
        is_stored_list(list.insert(at, problem), problems, ids.insert(problem.id)),
{
    let after = list.insert(at, problem);
    let more = ids.insert(problem.id);
    assert forall|i: int, j: int| 0 <= i < j < after.len() implies not_after(
        #[trigger] after[i],
        #[trigger] after[j],
    ) && after[i].id != after[j].id by {
        let was_i = if i < at {
            i
        } else {
            i - 1
        };
        let was_j = if j < at {
            j
        } else {
            j - 1
        };
        if i == at {
            assert(after[j] == list[was_j]);
            if was_j > at {
                not_after_is_order(problem, list[at], list[was_j]);
            }
        } else if j == at {
            assert(after[i] == list[was_i]);
            if was_i < at - 1 {
                not_after_is_order(list[was_i], list[at - 1], problem);
            }
        } else {
            assert(after[i] == list[was_i] && after[j] == list[was_j]);
        }
    }
    assert forall|i: int| 0 <= i < after.len() implies more.contains((#[trigger] after[i]).id)
        && problems.contains_key(after[i].id) && problems[after[i].id].problem == after[i] by {
        if i < at {
            assert(after[i] == list[i]);
        } else if i > at {
            assert(after[i] == list[i - 1]);
        }
    }
    assert forall|id: Seq<char>| #[trigger] more.contains(id) && problems.contains_key(id) implies exists|
        i: int,
    |
        0 <= i < after.len() && (#[trigger] after[i]).id == id by {
        if id == problem.id {
            assert(after[at].id == id);
        } else {
            assert(ids.contains(id));
            let i = choose|i: int| 0 <= i < list.len() && (#[trigger] list[i]).id == id;
            if i < at {
                assert(after[i].id == id);
            } else {
                assert(after[i + 1].id == id);
            }
        }
    }
}

impl PracticeStorage {
    /// Nothing.
    pub fn new() -> (r: Self)
        ensures
            r.deep_view() == (PracticeStorageModel {
                problems: Map::empty(),
                sessions: Map::empty(),
            }),
            r.deep_view().is_valid(),
    {
        PracticeStorage { problems: StrMap::new(), sessions: StrMap::new() }
    }

    /// The stored problems, in the order of the list.
    pub fn load_problem_list(&self) -> (r: Vec<Problem>)
        requires
            self.deep_view().is_valid(),
        ensures
            is_stored_list(
                r.deep_view(),
                self.deep_view().problems,
                self.deep_view().problems.dom(),
            ),
    {
        let ghost problems = self.deep_view().problems;
        let ghost mut ids = Set::<Seq<char>>::empty();
        let keys = self.problems.keys();
        let mut found: Vec<Problem> = Vec::new();
        let mut i: usize = 0;
        assert(found.deep_view() =~= seq![]);
        while i < keys.len()
            invariant
                i <= keys@.len(),
                self.deep_view().is_valid(),
                problems == self.deep_view().problems,
                forall|k: int|
                    0 <= k < keys@.len() ==> problems.contains_key((#[trigger] keys@[k])@),
                forall|j: int, k: int|
                    0 <= j < k < keys@.len() ==> (#[trigger] keys@[j])@ != (#[trigger] keys@[k])@,
                forall|id: Seq<char>| #[trigger]
                    ids.contains(id) <==> exists|k: int|
                        0 <= k < i && (#[trigger] keys@[k])@ == id,
                is_stored_list(found.deep_view(), problems, ids),
            decreases keys@.len() - i,
        {
            let ghost key = keys@[i as int]@;
            assert(!ids.contains(key));
            proof {
                ids = ids.insert(key);
            }
            if let Some(stored) = self.problems.get(keys[i].as_str()) {
                assert(problems[key] == stored.deep_view());
                add_to_list(&mut found, stored.problem.duplicate());
            }
            i += 1;
        }
        assert(ids =~= problems.dom());
        found
    }

    /// What is stored of the page of a problem, if it was read, with its statement tidied up.
    pub fn load_problem_detail(&self, problem_id: &str) -> (r: Option<CachedProblemDetail>)
        ensures
            r.deep_view() == self.deep_view().detail(problem_id@),
    {
        match self.problems.get(problem_id) {
            None => None,
            Some(stored) => match (&stored.statement_markdown, &stored.samples) {
                (Some(statement_markdown), Some(samples)) => Some(
                    cached_detail(
                        statement_markdown.as_str(),
                        samples,
                        stored.problem.title.as_str(),
                    ),
                ),
                _ => None,
            },
        }
    }

    /// Stores another statement for a problem, if the problem is stored.
    pub fn normalize_cached_problem_detail(&mut self, problem_id: &str, statement_markdown: String)
        ensures
            final(self).deep_view() == old(self).deep_view().with_statement(
                problem_id@,
                statement_markdown@,
            ),
    {
        let stored = match self.problems.get(problem_id) {
            None => {
                return;
            },
            Some(stored) => StoredProblem {
                problem: stored.problem.duplicate(),
                statement_markdown: Some(statement_markdown),
                fetched_at: stored.fetched_at,
                samples: stored.samples.duplicate(),
            },
        };
        self.problems.insert(problem_id.to_owned(), stored);
    }

    fn save_problem(&mut self, problem: &Problem)
        ensures
            final(self).deep_view() == old(self).deep_view().with_problem(problem.deep_view()),
    {
        let stored = match self.problems.get(problem.id.as_str()) {
            None => StoredProblem {
                problem: problem.duplicate(),
                statement_markdown: None,
                fetched_at: 0,
                samples: None,
            },
            Some(stored) => StoredProblem {
                problem: problem.duplicate(),
                statement_markdown: stored.statement_markdown.duplicate(),
                fetched_at: stored.fetched_at,
                samples: stored.samples.duplicate(),
            },
        };
        self.problems.insert(problem.id.clone(), stored);
    }

    /// Stores the problems of a list. What was stored of their pages stays.
    pub fn save_problem_list(&mut self, problems: &Vec<Problem>)
        ensures
            final(self).deep_view() == old(self).deep_view().with_list(problems.deep_view()),
    {
        let ghost before = self.deep_view();
        let ghost all = problems.deep_view();
        let mut i: usize = 0;
        assert(all.take(0) =~= seq![]);
        while i < problems.len()
            invariant
                i <= problems@.len(),
                all == problems.deep_view(),
                before == old(self).deep_view(),
                self.deep_view() == before.with_list(all.take(i as int)),
            decreases problems@.len() - i,
        {
            assert(all.take(i + 1).drop_last() =~= all.take(i as int));
            assert(all[i as int] == problems@[i as int].deep_view());
            self.save_problem(&problems[i]);
            i += 1;
        }
        assert(all.take(i as int) =~= all);
    }

    /// Stores what the page of a problem says, read at the second `now`.
    pub fn save_problem_detail_at(&mut self, problem: &Problem, detail: &ProblemDetail, now: i64)
        ensures
            final(self).deep_view() == old(self).deep_view().with_detail(
                problem.deep_view(),
                detail.deep_view(),
                now,
            ),
    {
        let mut stored_problem = problem.duplicate();
        if let Some(title) = &detail.title {
            stored_problem.title = title.clone();
        }
        let stored = StoredProblem {
            problem: stored_problem,
            statement_markdown: Some(detail.statement_markdown.clone()),
            fetched_at: now,
            samples: Some(detail.samples.duplicate()),
        };
        self.problems.insert(problem.id.clone(), stored);
    }

    /// Stores what the page of a problem says, read now.
    pub fn save_problem_detail(&mut self, problem: &Problem, detail: &ProblemDetail)
        ensures
            exists|now: i64|
                final(self).deep_view() == #[trigger] old(self).deep_view().with_detail(
                    problem.deep_view(),
                    detail.deep_view(),
                    now,
                ),
    {
        let now: i64 = outside::current_second();
        self.save_problem_detail_at(problem, detail, now);
    }

    /// Starts a session on a problem that is stored at the second `now`, and returns its name.
    pub fn start_session_at(&mut self, problem_id: &str, started_at: i64, now: i64) -> (r: String)
        ensures
            r@ == session_name(problem_id@, started_at, now),
            final(self).deep_view() == old(self).deep_view().with_session(
                r@,
                problem_id@,
                started_at,
            ),
    {
        let started = wording::signed_number(started_at);
        let stored = wording::signed_number(now);
        let session_id = problem_id.to_owned().concat("-").concat(started.as_str()).concat(
            "-",
        ).concat(stored.as_str());
        self.sessions.insert(
            session_id.clone(),
            StoredSession {
                problem_id: problem_id.to_owned(),
                started_at,
                finished_at: None,
                duration_seconds: 0,
            },
        );
        session_id
    }

    /// Starts a session on a problem, and returns its name.
    pub fn start_session(&mut self, problem_id: &str, started_at: i64) -> (r: String)
        ensures
            exists|now: i64| r@ == #[trigger] session_name(problem_id@, started_at, now),
            final(self).deep_view() == old(self).deep_view().with_session(
                r@,
                problem_id@,
                started_at,
            ),
    {
        let now: i64 = outside::current_second();
        self.start_session_at(problem_id, started_at, now)
    }

    /// Finishes a session, if there is one with that name.
    pub fn finish_session(&mut self, session_id: &str, finished_at: i64, duration_seconds: i64)
        ensures
            final(self).deep_view() == old(self).deep_view().with_finished_session(
                session_id@,
                finished_at,
                duration_seconds,
            ),
    {
        let finished = match self.sessions.get(session_id) {
            None => {
                return;
            },
            Some(session) => StoredSession {
                problem_id: session.problem_id.clone(),
                started_at: session.started_at,
                finished_at: Some(finished_at),
                duration_seconds,
            },
        };
        self.sessions.insert(session_id.to_owned(), finished);
    }
}

/// Where it is stored, as the parts of a path below the home directory.
pub fn default_db_path() -> (r: Vec<String>)
    ensures
        r.deep_view() == seq![".rpractice"@, "practice.sqlite"@],
{
    let r = text::strings_of(&[".rpractice", "practice.sqlite"]);
    assert(r.deep_view() =~= seq![".rpractice"@, "practice.sqlite"@]);
    r
}

/// What was stored of the page of a problem is given back, under the title of the page, with its
/// statement tidied up, until something else is stored of it.
pub proof fn stored_detail_is_loaded(
    storage: PracticeStorageModel,
    problem: ProblemModel,
    detail: ProblemDetailModel,
    now: i64,
)
    ensures
        storage.with_detail(problem, detail, now).detail(problem.id) == Some(
            cached(detail.statement_markdown, detail.samples, stored_title(problem, detail)),
        ),
        forall|id: Seq<char>|
            id != problem.id ==> #[trigger] storage.with_detail(problem, detail, now).detail(id)
                == storage.detail(id),
{
}

/// Storing the list anew keeps what was stored of the pages, up to the titles, and everything that
/// is stored stays under its id.
pub proof fn new_list_keeps_pages(
    storage: PracticeStorageModel,
    problems: Seq<ProblemModel>,
    id: Seq<char>,
)
    requires
        storage.problems.contains_key(id),
    ensures
        ({
            let after = storage.with_list(problems);
            &&& after.problems.contains_key(id)
            &&& after.problems[id].statement_markdown == storage.problems[id].statement_markdown
            &&& after.problems[id].samples == storage.problems[id].samples
            &&& after.problems[id].fetched_at == storage.problems[id].fetched_at
            &&& after.sessions == storage.sessions
        }),
    decreases problems.len(),
{
    if problems.len() > 0 {
        new_list_keeps_pages(storage, problems.drop_last(), id);
    }
}

/// Of a list without two problems of one id, each problem is stored as it is.
pub proof fn stored_list_is_loaded(
    storage: PracticeStorageModel,
    problems: Seq<ProblemModel>,
    k: int,
)
    requires
        0 <= k < problems.len(),
        forall|i: int, j: int|
            0 <= i < j < problems.len() ==> (#[trigger] problems[i]).id != (
            #[trigger] problems[j]).id,
    ensures
        storage.with_list(problems).problems.contains_key(problems[k].id),
        storage.with_list(problems).problems[problems[k].id].problem == problems[k],
    decreases problems.len(),
{
    let before = problems.drop_last();
    if k < before.len() {
        assert forall|i: int, j: int| 0 <= i < j < before.len() implies (#[trigger] before[i]).id
            != (#[trigger] before[j]).id by {
            assert(problems[i].id != problems[j].id);
        }
        stored_list_is_loaded(storage, before, k);
        assert(problems[k].id != problems[problems.len() - 1].id);
    }
}

/// Whatever is stored, each problem stays under its id.
pub proof fn storage_stays_valid(
    storage: PracticeStorageModel,
    problems: Seq<ProblemModel>,
    problem: ProblemModel,
    detail: ProblemDetailModel,
    id: Seq<char>,
    statement_markdown: Seq<char>,
    session_id: Seq<char>,
    now: i64,
    duration_seconds: i64,
)
    requires
        storage.is_valid(),
    ensures
        storage.with_list(problems).is_valid(),
        storage.with_detail(problem, detail, now).is_valid(),
        storage.with_statement(id, statement_markdown).is_valid(),
        storage.with_session(session_id, id, now).is_valid(),
        storage.with_finished_session(session_id, now, duration_seconds).is_valid(),
    decreases problems.len(),
{
    if problems.len() > 0 {
        storage_stays_valid(
            storage,
            problems.drop_last(),
            problem,
            detail,
            id,
            statement_markdown,
            session_id,
            now,
            duration_seconds,
        );
    }
}

/// A session that was started is finished with the times it is given, and no other one is changed.
pub proof fn session_is_finished(
    storage: PracticeStorageModel,
    session_id: Seq<char>,
    problem_id: Seq<char>,
    started_at: i64,
    finished_at: i64,
    duration_seconds: i64,
)
    ensures
        ({
            let started = storage.with_session(session_id, problem_id, started_at);
            let finished = started.with_finished_session(session_id, finished_at, duration_seconds);
            &&& finished.sessions == storage.sessions.insert(
                session_id,
                StoredSessionModel {
                    problem_id,
                    started_at,
                    finished_at: Some(finished_at),
                    duration_seconds,
                },
            )
            &&& finished.problems == storage.problems
        }),
{
    let started = storage.with_session(session_id, problem_id, started_at);
    let finished = started.with_finished_session(session_id, finished_at, duration_seconds);
    assert(finished.sessions =~= storage.sessions.insert(
        session_id,
        StoredSessionModel {
            problem_id,
            started_at,
            finished_at: Some(finished_at),
            duration_seconds,
        },
    ));
}

/// What is stored of a page is given back with its statement tidied up, and is marked exactly if
/// tidying up changed it; it has the samples that were stored, and the title of the page or else
/// that of the list.
pub proof fn stored_page_is_given_back(
    storage: PracticeStorageModel,
    problem: ProblemModel,
    detail: ProblemDetailModel,
    now: i64,
)
    ensures
        ({
            let after = storage.with_detail(problem, detail, now);
            let found = after.detail(problem.id);
            &&& after.sessions == storage.sessions
            &&& after.problems.contains_key(problem.id)
            &&& after.problems[problem.id].fetched_at == now
            &&& after.problems[problem.id].problem.id == problem.id
            &&& after.problems[problem.id].problem.url == problem.url
            &&& after.problems[problem.id].problem.contest_group == problem.contest_group
            &&& after.problems[problem.id].problem.contest_segment == problem.contest_segment
            &&& after.problems[problem.id].problem.contest_title == problem.contest_title
            &&& after.problems[problem.id].problem.task_index == problem.task_index
            &&& found is Some
            &&& found->0.detail.samples == detail.samples
            &&& found->0.detail.statement_markdown == markdown::normalized(
                detail.statement_markdown,
            )
            &&& found->0.normalized <==> markdown::normalized(detail.statement_markdown)
                != detail.statement_markdown
            &&& detail.title is Some ==> found->0.detail.title == detail.title
            &&& detail.title is None ==> found->0.detail.title == Some(problem.title)
        }),
{
}

/// Of a problem whose page was not read nothing is given back, be it stored or not.
pub proof fn unread_page_is_not_given_back(storage: PracticeStorageModel, id: Seq<char>)
    ensures
        !storage.problems.contains_key(id) ==> storage.detail(id) is None,
        storage.problems.contains_key(id) && (storage.problems[id].statement_markdown is None
            || storage.problems[id].samples is None) ==> storage.detail(id) is None,
{
}

/// A new problem of the list is stored without a page, and a known one keeps its page; no other
/// problem is changed.
pub proof fn listed_problem_is_stored(
    storage: PracticeStorageModel,
    list: Seq<ProblemModel>,
    problem: ProblemModel,
    other: Seq<char>,
)
    ensures
        storage.with_list(seq![]) == storage,
        ({
            let before = storage.with_list(list);
            let after = storage.with_list(list.push(problem));
            &&& after.sessions == before.sessions
            &&& after.problems.contains_key(problem.id)
            &&& after.problems[problem.id].problem == problem
            &&& !before.problems.contains_key(problem.id) ==> {
                &&& after.problems[problem.id].statement_markdown is None
                &&& after.problems[problem.id].samples is None
                &&& after.problems[problem.id].fetched_at == 0
            }
            &&& before.problems.contains_key(problem.id) ==> {
                &&& after.problems[problem.id].statement_markdown
                    == before.problems[problem.id].statement_markdown
                &&& after.problems[problem.id].samples == before.problems[problem.id].samples
                &&& after.problems[problem.id].fetched_at == before.problems[problem.id].fetched_at
            }
            &&& other != problem.id ==> after.problems.contains_key(other)
                == before.problems.contains_key(other)
            &&& other != problem.id && before.problems.contains_key(other) ==> after.problems[other]
                == before.problems[other]
        }),
{
    assert(list.push(problem).drop_last() =~= list);
}

/// Another statement for a stored problem changes nothing but that statement, and one for a problem
/// that is not stored changes nothing.
pub proof fn only_statement_is_changed(
    storage: PracticeStorageModel,
    id: Seq<char>,
    statement: Seq<char>,
    other: Seq<char>,
)
    ensures
        ({
            let after = storage.with_statement(id, statement);
            &&& after.sessions == storage.sessions
            &&& !storage.problems.contains_key(id) ==> after == storage
            &&& storage.problems.contains_key(id) ==> {
                &&& after.problems[id].statement_markdown == Some(statement)
                &&& after.problems[id].samples == storage.problems[id].samples
                &&& after.problems[id].problem == storage.problems[id].problem
                &&& after.problems[id].fetched_at == storage.problems[id].fetched_at
            }
            &&& after.problems.contains_key(other) == storage.problems.contains_key(other)
            &&& other != id && storage.problems.contains_key(other) ==> after.problems[other]
                == storage.problems[other]
        }),
{
}

/// A session that was started is open and has lasted no time; finishing one that was not started
/// changes nothing, and no session but the named one is changed by either.
pub proof fn started_session_is_open(
    storage: PracticeStorageModel,
    session_id: Seq<char>,
    problem_id: Seq<char>,
    started_at: i64,
    finished_at: i64,
    duration: i64,
    other: Seq<char>,
)
    ensures
        ({
            let started = storage.with_session(session_id, problem_id, started_at);
            &&& started.problems == storage.problems
            &&& started.sessions.contains_key(session_id)
            &&& started.sessions[session_id].problem_id == problem_id
            &&& started.sessions[session_id].started_at == started_at
            &&& started.sessions[session_id].finished_at is None
            &&& started.sessions[session_id].duration_seconds == 0
            &&& other != session_id && storage.sessions.contains_key(other)
                ==> started.sessions.contains_key(other) && started.sessions[other]
                == storage.sessions[other]
        }),
        ({
            let finished = storage.with_finished_session(session_id, finished_at, duration);
            &&& finished.problems == storage.problems
            &&& !storage.sessions.contains_key(session_id) ==> finished == storage
            &&& storage.sessions.contains_key(session_id) ==> {
                &&& finished.sessions[session_id].finished_at == Some(finished_at)
                &&& finished.sessions[session_id].duration_seconds == duration
                &&& finished.sessions[session_id].started_at
                    == storage.sessions[session_id].started_at
                &&& finished.sessions[session_id].problem_id
                    == storage.sessions[session_id].problem_id
            }
            &&& other != session_id && storage.sessions.contains_key(other)
                ==> finished.sessions.contains_key(other) && finished.sessions[other]
                == storage.sessions[other]
        }),
{
}

/// A session is named after its problem, the second in which it started, and the second in which it
/// was stored.
pub proof fn session_is_named_after_problem(problem_id: Seq<char>, started_at: i64, now: i64)
    ensures
        session_name(problem_id, started_at, now) == problem_id + "-"@ + seqs::signed_decimal(
            started_at as int,
        ) + "-"@ + seqs::signed_decimal(now as int),
        seqs::starts_with(session_name(problem_id, started_at, now), problem_id + "-"@),
{
    let rest = seqs::signed_decimal(started_at as int) + "-"@ + seqs::signed_decimal(now as int);
    assert(session_name(problem_id, started_at, now) =~= (problem_id + "-"@) + rest);
    seqs::found_text_stands_inside(rest, problem_id + "-"@, seq![], rest);
}

/// The stored problems are listed by group, in a group by segment, and in a segment by their places
/// in the contest, each once.
pub proof fn stored_problems_are_listed_in_order(
    list: Seq<ProblemModel>,
    problems: Map<Seq<char>, StoredProblemModel>,
    i: int,
    j: int,
    id: Seq<char>,
)
    requires
        is_stored_list(list, problems, problems.dom()),
        0 <= i < j < list.len(),
    ensures
        list[i].id != list[j].id,
        problems.contains_key(list[i].id) && problems[list[i].id].problem == list[i],
        problems.contains_key(id) ==> list.contains(problems[id].problem),
        list[i].contest_group == list[j].contest_group || seqs::less(
            list[i].contest_group,
            list[j].contest_group,
        ),
        list[i].contest_group == list[j].contest_group ==> list[i].contest_segment
            == list[j].contest_segment || seqs::less(
            list[i].contest_segment,
            list[j].contest_segment,
        ),
        list[i].contest_group == list[j].contest_group && list[i].contest_segment
            == list[j].contest_segment ==> list[i].task_index == list[j].task_index || seqs::less(
            list[i].task_index,
            list[j].task_index,
        ),
{
    assert(not_after(list[i], list[j]));
    if problems.contains_key(id) {
        assert(problems.dom().contains(id) && problems.contains_key(id));
        let k = choose|k: int| 0 <= k < list.len() && (#[trigger] list[k]).id == id;
        assert(list[k] == problems[id].problem);
    }
}
/// The models hold what the values hold, each part under its own name.
pub proof fn models_hold_their_parts(
    cached_problem_detail: CachedProblemDetail,
    stored_problem: StoredProblem,
    stored_session: StoredSession,
    practice_storage: PracticeStorage,
)
    ensures
        cached_problem_detail.deep_view() == (CachedProblemDetailModel { detail: cached_problem_detail.detail.deep_view(), normalized: cached_problem_detail.normalized }
),
        stored_problem.deep_view() == (StoredProblemModel {
            problem: stored_problem.problem.deep_view(),
            statement_markdown: stored_problem.statement_markdown.deep_view(),
            fetched_at: stored_problem.fetched_at,
            samples: stored_problem.samples.deep_view(),
        }),
        stored_session.deep_view() == (StoredSessionModel {
            problem_id: stored_session.problem_id@,
            started_at: stored_session.started_at,
            finished_at: stored_session.finished_at,
            duration_seconds: stored_session.duration_seconds,
        }),
        practice_storage.deep_view() == (PracticeStorageModel {
            problems: practice_storage.problems.deep_view(),
            sessions: practice_storage.sessions.deep_view(),
        }),
{
}
} // verus!
