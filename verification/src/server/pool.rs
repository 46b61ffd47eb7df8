//! The problems that matches are played on.

use vstd::prelude::*;

use rand::seq::IndexedRandom;

use crate::conversion;
use crate::conversion::StatementError;
use crate::copying::Duplicate;
use crate::problems;
use crate::samples;
use crate::seqs;
use crate::server::model::{Problem, ProblemModel};
use crate::statement;
use crate::text;

verus! {

/// Which problems matches are played on.
pub struct ProblemConfig {
    pub contest_prefix: String,
    pub contest_start: u32,
    pub contest_end: u32,
    pub tasks: Vec<String>,
}

/// What a `ProblemConfig` holds.
#[verifier::ext_equal]
pub struct ProblemConfigModel {
    pub contest_prefix: Seq<char>,
    pub contest_start: u32,
    pub contest_end: u32,
    pub tasks: Seq<Seq<char>>,
}

impl DeepView for ProblemConfig {
    type V = ProblemConfigModel;

    open spec fn deep_view(&self) -> ProblemConfigModel {
        ProblemConfigModel {
            contest_prefix: self.contest_prefix@,
            contest_start: self.contest_start,
            contest_end: self.contest_end,
            tasks: self.tasks.deep_view(),
        }
    }
}

/// A problem of which nothing but the id is known yet.
pub open spec fn bare_problem(contest_id: Seq<char>, task: Seq<char>) -> ProblemModel {
    let id = contest_id + "_"@ + task;
    ProblemModel {
        id,
        title: id,
        url: problems::task_url(contest_id, id),
        statement_markdown: seq![],
        samples: seq![],
    }
}

/// The id of a contest: the prefix and its number, with at least three digits.
pub open spec fn contest_id_of(prefix: Seq<char>, number: nat) -> Seq<char> {
    prefix + seqs::pad_left(seqs::decimal(number), '0', 3)
}

/// The problems of one contest.
pub open spec fn contest_problems(contest_id: Seq<char>, tasks: Seq<Seq<char>>) -> Seq<
    ProblemModel,
> {
    Seq::new(tasks.len(), |i: int| bare_problem(contest_id, tasks[i]))
}

/// The problems of the contests with the numbers from `start` up to, but not including, `end`.
pub open spec fn pool_problems(
    prefix: Seq<char>,
    start: nat,
    end: nat,
    tasks: Seq<Seq<char>>,
) -> Seq<ProblemModel>
    decreases end,
{
    if start >= end {
        seq![]
    } else {
        pool_problems(prefix, start, (end - 1) as nat, tasks) + contest_problems(
            contest_id_of(prefix, (end - 1) as nat),
            tasks,
        )
    }
}

/// All problems of a configuration.
pub open spec fn configured_problems(config: ProblemConfigModel) -> Seq<ProblemModel> {
    pool_problems(
        config.contest_prefix,
        config.contest_start as nat,
        (config.contest_end + 1) as nat,
        config.tasks,
    )
}

/// How a problem is called.
pub open spec fn display_title(problem_id: Seq<char>, title: Seq<char>) -> Seq<char> {
    problem_id + " 「"@ + title + "」"@
}

/// What stands in for a statement that could not be read.
pub open spec fn fallback_statement(url: Seq<char>) -> Seq<char> {
    "## Problem Statement\n\nCould not fetch the AtCoder statement before matchmaking completed.\n\n[Open the problem on AtCoder]("@
        + problems::english_url(url) + ")\n"@
}

/// How a problem is called.
pub fn format_problem_display_title(problem_id: &str, title: &str) -> (r: String)
    ensures
        r@ == display_title(problem_id@, title@),
{
    problem_id.to_owned().concat(" 「").concat(title).concat("」")
}

/// What stands in for a statement that could not be read.
pub fn fallback_statement_markdown(problem: &Problem) -> (r: String)
    ensures
        r@ == fallback_statement(problem.url@),
{
    let url = problems::english_problem_url(problem.url.as_str());
    "## Problem Statement\n\nCould not fetch the AtCoder statement before matchmaking completed.\n\n[Open the problem on AtCoder](".to_owned().concat(
        url.as_str(),
    ).concat(")\n")
}

fn bare(contest_id: &str, task: &str) -> (r: Problem)
    ensures
        r.deep_view() == bare_problem(contest_id@, task@),
{
    let id = contest_id.to_owned().concat("_").concat(task);
    let url = "https://atcoder.jp/contests/".to_owned().concat(contest_id).concat(
        "/tasks/",
    ).concat(id.as_str());
    let r = Problem {
        title: id.clone(),
        id,
        url,
        statement_markdown: String::new(),
        samples: Vec::new(),
    };
    assert(r.deep_view() =~= bare_problem(contest_id@, task@));
    r
}

/// The problems of a configuration; an error, if there are none.
pub fn load_problem_pool(config: &ProblemConfig) -> (r: Result<Vec<Problem>, ()>)
    ensures
        match r {
            Ok(pool) => configured_problems(config.deep_view()).len() > 0 && pool.deep_view()
                == configured_problems(config.deep_view()),
            Err(_) => configured_problems(config.deep_view()).len() == 0,
        },
{
    let ghost model = config.deep_view();
    let mut out: Vec<Problem> = Vec::new();
    let end: u64 = config.contest_end as u64 + 1;
    let mut number: u64 = config.contest_start as u64;
    assert(out.deep_view() =~= pool_problems(
        model.contest_prefix,
        number as nat,
        number as nat,
        model.tasks,
    ));
    while number < end
        invariant
            model == config.deep_view(),
            end == model.contest_end + 1,
            model.contest_start <= number,
            number <= end || number == model.contest_start,
            out.deep_view() == pool_problems(
                model.contest_prefix,
                model.contest_start as nat,
                number as nat,
                model.tasks,
            ),
        decreases end - number,
    {
        let digits = text::decimal(number);
        let digits = text::pad_left(&digits, '0', 3);
        let digits = text::string_of(&digits);
        let contest_id = config.contest_prefix.clone().concat(digits.as_str());
        let ghost before = out.deep_view();
        let ghost batch = contest_problems(contest_id@, model.tasks);
        let mut i: usize = 0;
        assert(before + batch.take(0) =~= before);
        while i < config.tasks.len()
            invariant
                i <= config.tasks@.len(),
                model == config.deep_view(),
                batch == contest_problems(contest_id@, model.tasks),
                out.deep_view() == before + batch.take(i as int),
            decreases config.tasks@.len() - i,
        {
            let ghost shown = out.deep_view();
            out.push(bare(contest_id.as_str(), config.tasks[i].as_str()));
            assert(out.deep_view() =~= shown.push(batch[i as int]));
            assert(batch.take(i + 1) =~= batch.take(i as int).push(batch[i as int]));
            i += 1;
        }
        assert(batch.take(i as int) =~= batch);
        number += 1;
    }
    proof {
        if number > end {
            assert(pool_problems(
                model.contest_prefix,
                model.contest_start as nat,
                end as nat,
                model.tasks,
            ) =~= seq![]);
            assert(out.deep_view() =~= seq![]);
        }
        assert(out.deep_view().len() == out@.len());
    }
    if out.len() == 0 {
        Err(())
    } else {
        Ok(out)
    }
}

/// A problem after its page was read: with the title and the samples that the page has, and with
/// its statement.
pub open spec fn filled_problem(
    problem: ProblemModel,
    html: Seq<char>,
    prepared_html: Seq<char>,
    statement_markdown: Seq<char>,
) -> ProblemModel {
    let in_markdown = samples::markdown_samples(statement_markdown);
    let found = if in_markdown.len() == 0 {
        samples::html_samples(prepared_html)
    } else {
        in_markdown
    };
    ProblemModel {
        id: problem.id,
        title: match statement::problem_title(html) {
            Some(title) => display_title(problem.id, title),
            None => problem.title,
        },
        url: problem.url,
        statement_markdown,
        samples: if found.len() == 0 {
            problem.samples
        } else {
            found
        },
    }
}

/// A problem after its page was read, given its statement in HTML and in Markdown.
pub fn fill_problem(
    problem: Problem,
    html: &str,
    prepared_html: &str,
    statement_markdown: String,
) -> (r: Problem)
    ensures
        r.deep_view() == filled_problem(
            problem.deep_view(),
            html@,
            prepared_html@,
            statement_markdown@,
        ),
{
    let in_markdown = samples::extract_markdown_samples(statement_markdown.as_str());
    assert(in_markdown.deep_view().len() == in_markdown@.len());
    let found = if in_markdown.len() == 0 {
        samples::extract_html_samples(prepared_html)
    } else {
        in_markdown
    };
    assert(found.deep_view().len() == found@.len());
    let title = match statement::extract_problem_title(html) {
        Some(title) => format_problem_display_title(problem.id.as_str(), title.as_str()),
        None => problem.title,
    };
    Problem {
        id: problem.id,
        title,
        url: problem.url,
        statement_markdown,
        samples: if found.len() == 0 {
            problem.samples
        } else {
            found
        },
    }
}

/// A problem after its page `html` was read.
pub fn fetch_problem(problem: Problem, html: &str) -> (r: Result<Problem, StatementError>)
    ensures
        match statement::task_statement(html@) {
            None => r matches Err(StatementError::NotFound),
            Some(statement_html) => match conversion::server_markdown(
                conversion::prepared_server_html(statement_html),
            ) {
                Err(error) => r matches Err(found) && found == error,
                Ok(markdown) => r matches Ok(filled) && filled.deep_view() == filled_problem(
                    problem.deep_view(),
                    html@,
                    conversion::prepared_server_html(statement_html),
                    markdown,
                ),
            },
        },
{
    let statement_html = match statement::extract_task_statement_html(html) {
        None => {
            return Err(StatementError::NotFound);
        },
        Some(statement_html) => statement_html,
    };
    let prepared = conversion::prepare_server_html(statement_html.as_str());
    match conversion::convert_server_html(prepared.as_str()) {
        Err(error) => Err(error),
        Ok(statement_markdown) => Ok(
            fill_problem(problem, html, prepared.as_str(), statement_markdown),
        ),
    }
}

/// `IndexedRandom::choose` with `rand::rng()`: one of the problems, unless there is none. Which one
/// is a matter of chance, so nothing is said of that.
#[verifier::external_body]
fn choose_problem(problems: &[Problem]) -> (r: Option<&Problem>)
    ensures
        match r {
            Some(problem) => exists|i: int|
                0 <= i < problems@.len() && #[trigger] problems@[i] == *problem,
            None => problems@.len() == 0,
        },
{
    problems.choose(&mut rand::rng())
}

/// The choice of a problem for a match: problems are picked at random until the page of one could
/// be read, but only so often.
pub struct ProblemSelection {
    /// The problem that is being tried.
    pub candidate: Problem,
    /// How often another problem may be tried after this one.
    pub attempts_left: usize,
}

/// Whether a read problem can be played on: it has a statement.
pub open spec fn is_playable(fetched: Option<ProblemModel>) -> bool {
    fetched is Some && !seqs::is_blank(fetched->0.statement_markdown)
}

/// The problem with the stand-in for its statement.
pub open spec fn with_fallback(problem: ProblemModel) -> ProblemModel {
    ProblemModel { statement_markdown: fallback_statement(problem.url), ..problem }
}

impl ProblemSelection {
    /// Starts with `candidate` as the first problem to try, out of `count` problems.
    pub fn begin_with(candidate: Problem, count: usize) -> (r: Self)
        requires
            count > 0,
        ensures
            r.candidate.deep_view() == candidate.deep_view(),
            r.attempts_left == if count < 3 {
                count - 1
            } else {
                2
            },
    {
        ProblemSelection {
            candidate,
            attempts_left: if count < 3 {
                count - 1
            } else {
                2
            },
        }
    }

    /// Starts with one of `problems`; nothing, if there are none.
    pub fn begin(problems: &Vec<Problem>) -> (r: Option<Self>)
        ensures
            match r {
                Some(selection) => {
                    &&& problems.deep_view().contains(selection.candidate.deep_view())
                    &&& selection.attempts_left == if problems@.len() < 3 {
                        problems@.len() - 1
                    } else {
                        2
                    }
                },
                None => problems@.len() == 0,
            },
    {
        match choose_problem(problems.as_slice()) {
            None => None,
            Some(problem) => {
                proof {
                    let i = choose|i: int|
                        0 <= i < problems@.len() && #[trigger] problems@[i] == *problem;
                    assert(problems.deep_view()[i] == problem.deep_view());
                }
                Some(ProblemSelection::begin_with(problem.duplicate(), problems.len()))
            },
        }
    }

    /// Goes on after the page of the candidate was read, with `next` as the problem to try if it
    /// comes to that. Returns the problem once the choice is made: the one that was read, if it can
    /// be played on, else the last candidate with a stand-in for its statement.
    pub fn fetched_with(&mut self, fetched: Option<Problem>, next: Problem) -> (r: Option<Problem>)
        ensures
            match r {
                Some(problem) => {
                    &&& is_playable(fetched.deep_view()) || old(self).attempts_left == 0
                    &&& problem.deep_view() == if is_playable(fetched.deep_view()) {
                        fetched.deep_view()->0
                    } else {
                        with_fallback(old(self).candidate.deep_view())
                    }
                    &&& *final(self) == *old(self)
                },
                None => {
                    &&& !is_playable(fetched.deep_view()) && old(self).attempts_left > 0
                    &&& final(self).candidate.deep_view() == next.deep_view()
                    &&& final(self).attempts_left == old(self).attempts_left - 1
                },
            },
    {
        if let Some(problem) = fetched {
            if !text::is_blank_str(problem.statement_markdown.as_str()) {
                return Some(problem);
            }
        }
        if self.attempts_left == 0 {
            let statement_markdown = fallback_statement_markdown(&self.candidate);
            let mut problem = self.candidate.duplicate();
            problem.statement_markdown = statement_markdown;
            assert(problem.deep_view() =~= with_fallback(old(self).candidate.deep_view()));
            Some(problem)
        } else {
            self.candidate = next;
            self.attempts_left = self.attempts_left - 1;
            None
        }
    }

    /// Goes on after the page of the candidate was read. The next problem to try, if it comes to
    /// that, is one of `problems`; the candidate again, if there are none.
    pub fn fetched(&mut self, fetched: Option<Problem>, problems: &Vec<Problem>) -> (r: Option<
        Problem,
    >)
        ensures
            match r {
                Some(problem) => {
                    &&& is_playable(fetched.deep_view()) || old(self).attempts_left == 0
                    &&& problem.deep_view() == if is_playable(fetched.deep_view()) {
                        fetched.deep_view()->0
                    } else {
                        with_fallback(old(self).candidate.deep_view())
                    }
                    &&& *final(self) == *old(self)
                },
                None => {
                    &&& !is_playable(fetched.deep_view()) && old(self).attempts_left > 0
                    &&& final(self).attempts_left == old(self).attempts_left - 1
                    &&& if problems@.len() > 0 {
                        problems.deep_view().contains(final(self).candidate.deep_view())
                    } else {
                        final(self).candidate.deep_view() == old(self).candidate.deep_view()
                    }
                },
            },
    {
        let next = match choose_problem(problems.as_slice()) {
            None => self.candidate.duplicate(),
            Some(problem) => {
                proof {
                    let i = choose|i: int|
                        0 <= i < problems@.len() && #[trigger] problems@[i] == *problem;
                    assert(problems.deep_view()[i] == problem.deep_view());
                }
                problem.duplicate()
            },
        };
        self.fetched_with(fetched, next)
    }
}

/// There is a problem for each number of the range and each task, and no other.
pub proof fn pool_size(config: ProblemConfigModel)
    ensures
        configured_problems(config).len() == if config.contest_start <= config.contest_end {
            (config.contest_end - config.contest_start + 1) * config.tasks.len()
        } else {
            0
        },
{
    pool_size_to(
        config.contest_prefix,
        config.contest_start as nat,
        (config.contest_end + 1) as nat,
        config.tasks,
    );
}

proof fn pool_size_to(prefix: Seq<char>, start: nat, end: nat, tasks: Seq<Seq<char>>)
    ensures
        pool_problems(prefix, start, end, tasks).len() == if start <= end {
            (end - start) * tasks.len()
        } else {
            0
        },
    decreases end,
{
    if start < end {
        pool_size_to(prefix, start, (end - 1) as nat, tasks);
        let n = tasks.len();
        assert((end - start) * n == (end - 1 - start) * n + n) by (nonlinear_arith);
    } else if start == end {
        assert(0int * tasks.len() == 0) by (nonlinear_arith);
    }
}

proof fn contest_in_pool(
    prefix: Seq<char>,
    start: nat,
    end: nat,
    tasks: Seq<Seq<char>>,
    number: nat,
    t: int,
)
    requires
        start <= number < end,
        0 <= t < tasks.len(),
    ensures
        ({
            let pool = pool_problems(prefix, start, end, tasks);
            let at = (number - start) * tasks.len() + t;
            &&& 0 <= at < pool.len()
            &&& pool[at] == bare_problem(contest_id_of(prefix, number), tasks[t])
        }),
    decreases end,
{
    let before = pool_problems(prefix, start, (end - 1) as nat, tasks);
    pool_len(prefix, start, (end - 1) as nat, tasks);
    let last = contest_problems(contest_id_of(prefix, (end - 1) as nat), tasks);
    if number == end - 1 {
        assert(before.len() == (number - start) * tasks.len());
        assert((before + last)[before.len() + t] == last[t]);
    } else {
        contest_in_pool(prefix, start, (end - 1) as nat, tasks, number, t);
    }
    assert(0 <= (number - start) * tasks.len()) by (nonlinear_arith)
        requires
            start <= number,
    ;
}

proof fn pool_len(prefix: Seq<char>, start: nat, end: nat, tasks: Seq<Seq<char>>)
    ensures
        start <= end ==> pool_problems(prefix, start, end, tasks).len() == (end - start)
            * tasks.len(),
        start >= end ==> pool_problems(prefix, start, end, tasks).len() == 0,
    decreases end,
{
    if start < end {
        pool_len(prefix, start, (end - 1) as nat, tasks);
        assert((end - start) * tasks.len() == (end - 1 - start) * tasks.len() + tasks.len())
            by (nonlinear_arith);
    } else if start == end {
        assert((end - start) * tasks.len() == 0) by (nonlinear_arith)
            requires
                start == end,
        ;
    }
}

/// The pool holds the problem of each contest and task, contest by contest, and in each by task: its
/// id is that of the contest, an underscore and the task, it is called by its id, and its address is
/// that of the task. Its statement is not read yet.
pub proof fn pool_holds_every_task(config: ProblemConfigModel, number: u32, t: int)
    requires
        config.contest_start <= number <= config.contest_end,
        0 <= t < config.tasks.len(),
    ensures
        ({
            let pool = configured_problems(config);
            let problem = pool[(number - config.contest_start) * config.tasks.len() + t];
            let digits = seqs::decimal(number as nat);
            let contest = config.contest_prefix + if digits.len() == 1 {
                seq!['0', '0'] + digits
            } else if digits.len() == 2 {
                seq!['0'] + digits
            } else {
                digits
            };
            &&& 0 <= (number - config.contest_start) * config.tasks.len() + t < pool.len()
            &&& problem.id == contest + "_"@ + config.tasks[t]
            &&& problem.title == problem.id
            &&& problem.url == "https://atcoder.jp/contests/"@ + contest + "/tasks/"@ + problem.id
            &&& problem.statement_markdown.len() == 0
            &&& problem.samples.len() == 0
        }),
{
    contest_in_pool(
        config.contest_prefix,
        config.contest_start as nat,
        (config.contest_end + 1) as nat,
        config.tasks,
        number as nat,
        t,
    );
    let digits = seqs::decimal(number as nat);
    assert(digits.len() > 0);
    let padded = seqs::pad_left(digits, '0', 3);
    if digits.len() == 1 {
        assert(padded =~= seq!['0', '0'] + digits);
    } else if digits.len() == 2 {
        assert(padded =~= seq!['0'] + digits);
    }
}

/// A problem keeps its id and its address when its page is read. It is called by its id and the
/// title on the page; its samples are those of the Markdown, or of the HTML, if there are none, or
/// those that it had.
pub proof fn page_fills_problem(
    problem: ProblemModel,
    html: Seq<char>,
    prepared: Seq<char>,
    markdown: Seq<char>,
)
    ensures
        ({
            let filled = filled_problem(problem, html, prepared, markdown);
            let in_markdown = samples::markdown_samples(markdown);
            let in_html = samples::html_samples(prepared);
            &&& filled.id == problem.id
            &&& filled.url == problem.url
            &&& filled.statement_markdown == markdown
            &&& in_markdown.len() > 0 ==> filled.samples == in_markdown
            &&& in_markdown.len() == 0 && in_html.len() > 0 ==> filled.samples == in_html
            &&& in_markdown.len() == 0 && in_html.len() == 0 ==> filled.samples == problem.samples
            &&& statement::problem_title(html) is None ==> filled.title == problem.title
            &&& statement::problem_title(html) matches Some(title) ==> filled.title == problem.id
                + " 「"@ + title + "」"@
        }),
{
}

/// A problem whose statement could not be read is played on all the same: with a text that leads to
/// its page in English.
pub proof fn fallback_leads_to_page(problem: ProblemModel)
    ensures
        ({
            let shown = with_fallback(problem);
            &&& shown.id == problem.id && shown.title == problem.title && shown.url == problem.url
                && shown.samples == problem.samples
            &&& seqs::contains(
                shown.statement_markdown,
                problems::english_url(problem.url) + ")"@,
            )
        }),
{
    let text = with_fallback(problem).statement_markdown;
    let url = problems::english_url(problem.url);
    let lead = "## Problem Statement\n\nCould not fetch the AtCoder statement before matchmaking completed.\n\n[Open the problem on AtCoder]("@;
    reveal_strlit(")");
    reveal_strlit(")\n");
    let middle = url + ")"@;
    assert(text =~= lead + middle + seq!['\n']);
    seqs::found_text_stands_inside(text, middle, lead, seq!['\n']);
}

/// A problem can be played on exactly if its page was read and has more than white space for a
/// statement.
pub proof fn blank_statement_is_not_played(problem: ProblemModel)
    ensures
        !is_playable(None),
        is_playable(Some(problem)) <==> !seqs::is_blank(problem.statement_markdown),
{
}

/// The models hold what the values hold, each part under its own name.
pub proof fn models_hold_their_parts(problem_config: ProblemConfig)
    ensures
        problem_config.deep_view() == (ProblemConfigModel {
            contest_prefix: problem_config.contest_prefix@,
            contest_start: problem_config.contest_start,
            contest_end: problem_config.contest_end,
            tasks: problem_config.tasks.deep_view(),
        }),
{
}
/// The title of a problem is shown behind its id, in corner brackets.
pub proof fn title_stands_in_brackets(problem_id: Seq<char>, title: Seq<char>)
    ensures
        display_title(problem_id, title) == problem_id + (" 「"@ + title + "」"@),
{
}
/// At most three problems are tried, and no more than there are.
pub proof fn few_problems_are_tried(candidate: Problem, count: usize, selection: ProblemSelection)
    requires
        call_ensures(ProblemSelection::begin_with, (candidate, count), selection),
        count > 0,
    ensures
        selection.candidate.deep_view() == candidate.deep_view(),
        selection.attempts_left + 1 <= count,
        count >= 3 ==> selection.attempts_left == 2,
        count < 3 ==> selection.attempts_left + 1 == count,
{
}

/// A problem whose page has a statement is chosen; otherwise the next one is tried, and when no more
/// may be tried the last one is chosen with a text in the place of its statement.
pub proof fn readable_problem_is_chosen(
    selection: &mut ProblemSelection,
    fetched: Option<Problem>,
    next: Problem,
    chosen: Option<Problem>,
)
    requires
        call_ensures(ProblemSelection::fetched_with, (selection, fetched, next), chosen),
    ensures
        ({
            let readable = fetched is Some && !seqs::is_blank(fetched->0.statement_markdown@);
            let left = old(selection).attempts_left;
            &&& readable ==> chosen is Some && chosen->0.deep_view() == fetched->0.deep_view()
            &&& !readable && left > 0 ==> chosen is None
                && final(selection).candidate.deep_view() == next.deep_view()
                && final(selection).attempts_left == left - 1
            &&& !readable && left == 0 ==> chosen is Some && chosen->0.deep_view()
                == with_fallback(old(selection).candidate.deep_view())
        }),
{
}
} // verus!
