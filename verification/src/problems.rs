//! The problem list, and the addresses of problems.

use vstd::prelude::*;

use crate::copying::Duplicate;
use crate::seqs;
use crate::strmap::StrMap;
use crate::text;

verus! {

/// A problem of the problem list.
pub struct Problem {
    pub id: String,
    pub contest_id: String,
    pub contest_title: String,
    pub contest_group: String,
    pub contest_segment: String,
    pub task_index: String,
    pub title: String,
    pub url: String,
}

/// What a `Problem` holds.
#[verifier::ext_equal]
pub struct ProblemModel {
    pub id: Seq<char>,
    pub contest_id: Seq<char>,
    pub contest_title: Seq<char>,
    pub contest_group: Seq<char>,
    pub contest_segment: Seq<char>,
    pub task_index: Seq<char>,
    pub title: Seq<char>,
    pub url: Seq<char>,
}

impl DeepView for Problem {
    type V = ProblemModel;

    open spec fn deep_view(&self) -> ProblemModel {
        ProblemModel {
            id: self.id@,
            contest_id: self.contest_id@,
            contest_title: self.contest_title@,
            contest_group: self.contest_group@,
            contest_segment: self.contest_segment@,
            task_index: self.task_index@,
            title: self.title@,
            url: self.url@,
        }
    }
}

impl Duplicate for Problem {
    fn duplicate(&self) -> (r: Self) {
        Problem {
            id: self.id.clone(),
            contest_id: self.contest_id.clone(),
            contest_title: self.contest_title.clone(),
            contest_group: self.contest_group.clone(),
            contest_segment: self.contest_segment.clone(),
            task_index: self.task_index.clone(),
            title: self.title.clone(),
            url: self.url.clone(),
        }
    }
}

/// A problem as the problem service lists it.
pub struct RawProblem {
    pub id: String,
    pub contest_id: String,
    pub problem_index: String,
    pub title: String,
    pub name: String,
}

/// What a `RawProblem` holds.
#[verifier::ext_equal]
pub struct RawProblemModel {
    pub id: Seq<char>,
    pub contest_id: Seq<char>,
    pub problem_index: Seq<char>,
    pub title: Seq<char>,
    pub name: Seq<char>,
}

impl DeepView for RawProblem {
    type V = RawProblemModel;

    open spec fn deep_view(&self) -> RawProblemModel {
        RawProblemModel {
            id: self.id@,
            contest_id: self.contest_id@,
            problem_index: self.problem_index@,
            title: self.title@,
            name: self.name@,
        }
    }
}

/// A contest as the problem service lists it.
pub struct RawContest {
    pub id: String,
    pub title: String,
}

/// What a `RawContest` holds.
#[verifier::ext_equal]
pub struct RawContestModel {
    pub id: Seq<char>,
    pub title: Seq<char>,
}

impl DeepView for RawContest {
    type V = RawContestModel;

    open spec fn deep_view(&self) -> RawContestModel {
        RawContestModel {
            id: self.id@,
            title: self.title@,
        }
    }
}

/// The address under which a problem is shown in English.
pub open spec fn english_url(url: Seq<char>) -> Seq<char> {
    if seqs::contains(url, "?"@) {
        url + "&lang=en"@
    } else {
        url + "?lang=en"@
    }
}

/// The name of the task in the part of a problem's address behind `/tasks/`.
pub open spec fn task_name(rest: Seq<char>) -> Option<Seq<char>> {
    let name = seqs::before_query(rest);
    if name.len() == 0 {
        None
    } else {
        Some(name)
    }
}

/// The address of the form to submit a solution, with the task of the problem chosen.
pub open spec fn submit_url(url: Seq<char>) -> Option<Seq<char>> {
    match seqs::split_once(url, "/tasks/"@) {
        None => None,
        Some((contest_url, rest)) => match task_name(rest) {
            None => None,
            Some(name) => Some(contest_url + "/submit?taskScreenName="@ + name),
        },
    }
}

/// The part of a problem's id before the first underscore: the id of its contest.
pub open spec fn contest_of(problem_id: Seq<char>) -> Option<Seq<char>> {
    match seqs::split_once(problem_id, "_"@) {
        None => None,
        Some(parts) => Some(parts.0),
    }
}

/// The length of the run of ASCII letters at the start of `s`.
pub open spec fn letters_len(s: Seq<char>) -> int
    decreases s.len(),
{
    if s.len() > 0 && seqs::is_ascii_letter(s[0]) {
        1 + letters_len(s.skip(1))
    } else {
        0
    }
}

/// `s` without underscores and hyphens at its start.
pub open spec fn trim_marks_start(s: Seq<char>) -> Seq<char>
    decreases s.len(),
{
    if s.len() > 0 && (s[0] == '_' || s[0] == '-') {
        trim_marks_start(s.skip(1))
    } else {
        s
    }
}

/// `s` without underscores and hyphens at its end.
pub open spec fn trim_marks_end(s: Seq<char>) -> Seq<char>
    decreases s.len(),
{
    if s.len() > 0 && (s.last() == '_' || s.last() == '-') {
        trim_marks_end(s.drop_last())
    } else {
        s
    }
}

/// The group of a contest and its place in the group: the letters that its id starts with and
/// what follows them, if both are there; else the first word of its title and its whole id.
pub open spec fn group_and_segment(contest_id: Seq<char>, contest_title: Seq<char>) -> (
    Seq<char>,
    Seq<char>,
) {
    let n = letters_len(contest_id);
    let remainder = trim_marks_end(trim_marks_start(contest_id.skip(n)));
    if n > 0 && remainder.len() > 0 {
        (seqs::ascii_lower(contest_id.take(n)), seqs::ascii_lower(remainder))
    } else {
        (
            seqs::ascii_lower(
                match seqs::first_word(contest_title) {
                    Some(word) => word,
                    None => contest_id,
                },
            ),
            seqs::ascii_lower(contest_id),
        )
    }
}

/// The title of a problem: its title, else its name, else its id.
pub open spec fn preferred_title(problem: RawProblemModel) -> Seq<char> {
    if !seqs::is_blank(problem.title) {
        seqs::trim(problem.title)
    } else if !seqs::is_blank(problem.name) {
        seqs::trim(problem.name)
    } else {
        problem.id
    }
}

/// Whether a listed problem has all that identifies it.
pub open spec fn is_identified(problem: RawProblemModel) -> bool {
    !seqs::is_blank(problem.id) && !seqs::is_blank(problem.contest_id) && !seqs::is_blank(
        problem.problem_index,
    )
}

/// The title of each contest; of several with one id, the last one's.
pub open spec fn contest_titles(contests: Seq<RawContestModel>) -> Map<Seq<char>, Seq<char>>
    decreases contests.len(),
{
    if contests.len() == 0 {
        Map::empty()
    } else {
        contest_titles(contests.drop_last()).insert(contests.last().id, contests.last().title)
    }
}

/// The address of a problem.
pub open spec fn task_url(contest_id: Seq<char>, problem_id: Seq<char>) -> Seq<char> {
    "https://atcoder.jp/contests/"@ + contest_id + "/tasks/"@ + problem_id
}

/// The entry of the problem list for a listed problem.
pub open spec fn list_entry(
    problem: RawProblemModel,
    titles: Map<Seq<char>, Seq<char>>,
) -> ProblemModel {
    let contest_title = if titles.contains_key(problem.contest_id) {
        titles[problem.contest_id]
    } else {
        problem.contest_id
    };
    let (contest_group, contest_segment) = group_and_segment(problem.contest_id, contest_title);
    ProblemModel {
        id: seqs::trim(problem.id),
        contest_id: seqs::trim(problem.contest_id),
        contest_title,
        contest_group,
        contest_segment,
        task_index: seqs::trim(problem.problem_index),
        title: preferred_title(problem),
        url: task_url(seqs::trim(problem.contest_id), seqs::trim(problem.id)),
    }
}

/// The problem list: an entry for each problem that has all that identifies it.
pub open spec fn problem_list(
    problems: Seq<RawProblemModel>,
    titles: Map<Seq<char>, Seq<char>>,
) -> Seq<ProblemModel>
    decreases problems.len(),
{
    if problems.len() == 0 {
        seq![]
    } else {
        let before = problem_list(problems.drop_last(), titles);
        if is_identified(problems.last()) {
            before.push(list_entry(problems.last(), titles))
        } else {
            before
        }
    }
}

/// The address under which a problem is shown in English.
pub fn english_problem_url(problem_url: &str) -> (r: String)
    ensures
        r@ == english_url(problem_url@),
{
    if text::contains_str(problem_url, "?") {
        problem_url.to_owned().concat("&lang=en")
    } else {
        problem_url.to_owned().concat("?lang=en")
    }
}

/// The address of the form to submit a solution, with the task of the problem chosen; nothing, if
/// `problem_url` is not the address of a task.
pub fn atcoder_submit_url(problem_url: &str) -> (r: Option<String>)
    ensures
        r.deep_view() == submit_url(problem_url@),
{
    let chars = text::chars_of(problem_url);
    match text::split_once(&chars, "/tasks/") {
        None => None,
        Some((contest_url, rest)) => {
            let name = text::before_query(rest);
            if name.len() == 0 {
                None
            } else {
                let name = text::string_of(name);
                Some(
                    text::string_of(contest_url).concat("/submit?taskScreenName=").concat(
                        name.as_str(),
                    ),
                )
            }
        },
    }
}

/// The id of the contest that a problem belongs to.
pub fn contest_id_from_problem_id(problem_id: &str) -> (r: Option<String>)
    ensures
        r.deep_view() == contest_of(problem_id@),
{
    let chars = text::chars_of(problem_id);
    match text::split_once(&chars, "_") {
        None => None,
        Some((contest_id, _)) => Some(text::string_of(contest_id)),
    }
}

fn trim_marks(s: &[char]) -> (r: &[char])
    ensures
        r@ == trim_marks_end(trim_marks_start(s@)),
{
    let mut i: usize = 0;
    assert(s@.skip(0) =~= s@);
    while i < s.len() && (s[i] == '_' || s[i] == '-')
        invariant
            i <= s@.len(),
            trim_marks_start(s@) == trim_marks_start(s@.skip(i as int)),
        decreases s@.len() - i,
    {
        assert(s@.skip(i as int).skip(1) =~= s@.skip(i + 1));
        i += 1;
    }
    let rest = text::skip(s, i);
    let mut end: usize = rest.len();
    assert(rest@.take(end as int) =~= rest@);
    while end > 0 && (rest[end - 1] == '_' || rest[end - 1] == '-')
        invariant
            end <= rest@.len(),
            trim_marks_end(rest@) == trim_marks_end(rest@.take(end as int)),
        decreases end,
    {
        assert(rest@.take(end as int).drop_last() =~= rest@.take(end - 1));
        end -= 1;
    }
    text::take(rest, end)
}

/// The group of a contest and its place in the group.
pub fn contest_group_and_segment(contest_id: &str, contest_title: &str) -> (r: (String, String))
    ensures
        (r.0@, r.1@) == group_and_segment(contest_id@, contest_title@),
{
    let id = text::chars_of(contest_id);
    let mut n: usize = 0;
    assert(id@.skip(0) =~= id@);
    while n < id.len() && (('a' <= id[n] && id[n] <= 'z') || ('A' <= id[n] && id[n] <= 'Z'))
        invariant
            n <= id@.len(),
            letters_len(id@) == n + letters_len(id@.skip(n as int)),
        decreases id@.len() - n,
    {
        assert(id@.skip(n as int).skip(1) =~= id@.skip(n + 1));
        n += 1;
    }
    if n > 0 {
        let remainder = trim_marks(text::skip(&id, n));
        if remainder.len() > 0 {
            let group = text::ascii_lower(text::take(&id, n));
            let segment = text::ascii_lower(remainder);
            return (text::string_of(&group), text::string_of(&segment));
        }
    }
    let title = text::chars_of(contest_title);
    let group = match text::first_word(&title) {
        Some(word) => text::ascii_lower(word),
        None => text::ascii_lower(&id),
    };
    let segment = text::ascii_lower(&id);
    (text::string_of(&group), text::string_of(&segment))
}

/// The title of a problem: its title, else its name, else its id.
pub fn preferred_problem_title(problem: &RawProblem) -> (r: String)
    ensures
        r@ == preferred_title(problem.deep_view()),
{
    let title = text::trim_str(problem.title.as_str());
    if !title.as_str().is_empty() {
        return title;
    }
    let name = text::trim_str(problem.name.as_str());
    if !name.as_str().is_empty() {
        return name;
    }
    problem.id.clone()
}

fn titles_of(contests: &Vec<RawContest>) -> (r: StrMap<String>)
    ensures
        r.deep_view() == contest_titles(contests.deep_view()),
{
    let mut titles: StrMap<String> = StrMap::new();
    let mut i: usize = 0;
    while i < contests.len()
        invariant
            i <= contests@.len(),
            titles.deep_view() == contest_titles(contests.deep_view().take(i as int)),
        decreases contests@.len() - i,
    {
        titles.insert(contests[i].id.clone(), contests[i].title.clone());
        assert(contests.deep_view().take(i + 1).drop_last() =~= contests.deep_view().take(
            i as int,
        ));
        assert(contests.deep_view().take(i + 1).last() == contests@[i as int].deep_view());
        i += 1;
    }
    assert(contests.deep_view().take(i as int) =~= contests.deep_view());
    titles
}

fn entry_of(problem: &RawProblem, titles: &StrMap<String>) -> (r: Problem)
    ensures
        r.deep_view() == list_entry(problem.deep_view(), titles.deep_view()),
{
    let contest_title = match titles.get(problem.contest_id.as_str()) {
        Some(title) => title.clone(),
        None => problem.contest_id.clone(),
    };
    let (contest_group, contest_segment) = contest_group_and_segment(
        problem.contest_id.as_str(),
        contest_title.as_str(),
    );
    let id = text::trim_str(problem.id.as_str());
    let contest_id = text::trim_str(problem.contest_id.as_str());
    let url = "https://atcoder.jp/contests/".to_owned().concat(contest_id.as_str()).concat(
        "/tasks/",
    ).concat(id.as_str());
    Problem {
        id,
        contest_id,
        contest_title,
        contest_group,
        contest_segment,
        task_index: text::trim_str(problem.problem_index.as_str()),
        title: preferred_problem_title(problem),
        url,
    }
}

/// The problem list, from the lists of problems and contests that were fetched.
pub fn fetch_problem_list(problems: &Vec<RawProblem>, contests: &Vec<RawContest>) -> (r: Vec<
    Problem,
>)
    ensures
        r.deep_view() == problem_list(
            problems.deep_view(),
            contest_titles(contests.deep_view()),
        ),
{
    let titles = titles_of(contests);
    let ghost all = problems.deep_view();
    let mut out: Vec<Problem> = Vec::new();
    let mut i: usize = 0;
    assert(out.deep_view() =~= problem_list(all.take(0), titles.deep_view()));
    while i < problems.len()
        invariant
            i <= problems@.len(),
            all == problems.deep_view(),
            out.deep_view() == problem_list(all.take(i as int), titles.deep_view()),
        decreases problems@.len() - i,
    {
        let problem = &problems[i];
        let ghost before = out.deep_view();
        proof {
            assert(all.take(i + 1).drop_last() =~= all.take(i as int));
            assert(all.take(i + 1).last() == problem.deep_view());
        }
        if !text::is_blank_str(problem.id.as_str()) && !text::is_blank_str(
            problem.contest_id.as_str(),
        ) && !text::is_blank_str(problem.problem_index.as_str()) {
            out.push(entry_of(problem, &titles));
            assert(out.deep_view() =~= before.push(
                list_entry(problem.deep_view(), titles.deep_view()),
            ));
        }
        i += 1;
    }
    assert(all.take(i as int) =~= all);
    out
}

/// Whatever the address, the English one starts with it and asks for English at its end.
pub proof fn english_url_asks_for_english(url: Seq<char>)
    ensures
        seqs::ends_with(english_url(url), "lang=en"@),
        english_url(url).len() == url.len() + 8,
        english_url(url).take(url.len() as int) == url,
{
    reveal_strlit("&lang=en");
    reveal_strlit("?lang=en");
    reveal_strlit("lang=en");
    let whole = english_url(url);
    assert(whole.subrange(whole.len() - 7, whole.len() as int) =~= "lang=en"@);
    assert(whole.take(url.len() as int) =~= url);
}

/// The form for submitting a solution exists for the address of a task that has a name, and for no
/// other address.
pub proof fn submit_url_needs_task(url: Seq<char>)
    ensures
        !seqs::contains(url, "/tasks/"@) ==> submit_url(url) is None,
        seqs::contains(url, "/tasks/"@) ==> (submit_url(url) is Some <==> seqs::before_query(
            url.skip(seqs::find(url, "/tasks/"@)->0 + "/tasks/"@.len()),
        ).len() > 0),
{
    seqs::contains_is_find(url, "/tasks/"@);
}

/// The address of an entry of the problem list is that of its task, so that a solution can be
/// submitted for each entry whose ids hold no slash, question mark or hash sign and whose contest
/// is not called `tasks`.
pub proof fn listed_problems_can_be_submitted(
    problem: RawProblemModel,
    titles: Map<Seq<char>, Seq<char>>,
)
    requires
        is_identified(problem),
        forall|i: int|
            0 <= i < problem.id.len() ==> #[trigger] problem.id[i] != '/' && problem.id[i] != '?'
                && problem.id[i] != '#',
        forall|i: int| 0 <= i < problem.contest_id.len() ==> #[trigger] problem.contest_id[i] != '/',
        seqs::trim(problem.contest_id) != "tasks"@,
    ensures
        submit_url(list_entry(problem, titles).url) == Some(
            "https://atcoder.jp/contests/"@ + seqs::trim(problem.contest_id)
                + "/submit?taskScreenName="@ + seqs::trim(problem.id),
        ),
{
    let id = seqs::trim(problem.id);
    let contest_id = seqs::trim(problem.contest_id);
    seqs::trim_is_part(problem.id);
    seqs::trim_is_part(problem.contest_id);
    let prefix = "https://atcoder.jp/contests/"@ + contest_id;
    let url = task_url(contest_id, id);
    reveal_strlit("https://atcoder.jp/contests/");
    reveal_strlit("/tasks/");
    assert forall|j: int| 0 <= j < prefix.len() implies !#[trigger] seqs::matches_at(
        url,
        "/tasks/"@,
        j,
    ) by {
        if seqs::matches_at(url, "/tasks/"@, j) {
            let part = url.subrange(j, j + 7);
            assert(part[0] == '/' && part[1] == 't' && part[6] == '/');
            assert(url[j] == '/' && url[j + 1] == 't' && url[j + 6] == '/');
            if j < 28 {
                assert(url[j] == "https://atcoder.jp/contests/"@[j]);
                if j + 1 < 28 {
                    assert(url[j + 1] == "https://atcoder.jp/contests/"@[j + 1]);
                } else {
                    assert(j == 27);
                    assert(part[2] == 'a' && part[3] == 's' && part[4] == 'k' && part[5] == 's');
                    assert(url[28] == 't' && url[29] == 'a' && url[30] == 's' && url[31] == 'k'
                        && url[32] == 's' && url[33] == '/');
                    if contest_id.len() > 5 {
                        assert(url[33] == contest_id[5]);
                    } else if contest_id.len() == 5 {
                        reveal_strlit("tasks");
                        assert(url[28] == contest_id[0] && url[29] == contest_id[1] && url[30]
                            == contest_id[2] && url[31] == contest_id[3] && url[32]
                            == contest_id[4]);
                        assert(contest_id =~= "tasks"@);
                    } else {
                        assert(url[28int + contest_id.len()] == '/');
                    }
                }
            } else {
                assert(url[j] == contest_id[j - 28]);
            }
        }
    }
    assert(seqs::matches_at(url, "/tasks/"@, prefix.len() as int)) by {
        assert(url.subrange(prefix.len() as int, (prefix.len() + 7) as int) =~= "/tasks/"@);
    }
    seqs::find_from_is_first(url, "/tasks/"@, 0);
    assert(seqs::find(url, "/tasks/"@) == Some(prefix.len() as int));
    assert(url.take(prefix.len() as int) =~= prefix);
    assert(url.skip((prefix.len() + 7) as int) =~= id);
    seqs::path_len_whole(id);
    assert(id.take(id.len() as int) =~= id);
}

/// The English address asks in a query of its own, or as one more question in the query that the
/// address has.
pub proof fn english_url_adds_one_question(url: Seq<char>)
    ensures
        english_url(url).len() > url.len(),
        url.contains('?') ==> english_url(url)[url.len() as int] == '&',
        !url.contains('?') ==> english_url(url)[url.len() as int] == '?',
{
    reveal_strlit("?");
    reveal_strlit("&lang=en");
    reveal_strlit("?lang=en");
    if seqs::contains(url, "?"@) {
        let i = choose|i: int| seqs::matches_at(url, "?"@, i);
        assert(url.subrange(i, i + 1)[0] == '?');
        assert(url[i] == '?');
    }
    if url.contains('?') {
        let i = choose|i: int| 0 <= i < url.len() && url[i] == '?';
        assert(url.subrange(i, i + 1) =~= "?"@);
        assert(seqs::matches_at(url, "?"@, i));
    }
}

/// The form for a task is that of its contest, with the task chosen; what the address of the task
/// has behind its path does not count.
pub proof fn form_chooses_task(contest_url: Seq<char>, task: Seq<char>, query: Seq<char>)
    requires
        seqs::find(contest_url + "/tasks/"@ + (task + query), "/tasks/"@) == Some(
            contest_url.len() as int,
        ),
        task.len() > 0,
        forall|i: int| 0 <= i < task.len() ==> #[trigger] task[i] != '?' && task[i] != '#',
        query.len() == 0 || query[0] == '?' || query[0] == '#',
    ensures
        submit_url(contest_url + "/tasks/"@ + (task + query)) == Some(
            contest_url + "/submit?taskScreenName="@ + task,
        ),
{
    let url = contest_url + "/tasks/"@ + (task + query);
    assert(url.take(contest_url.len() as int) =~= contest_url);
    assert(url.skip((contest_url.len() + "/tasks/"@.len()) as int) =~= task + query);
    seqs::path_ends_at_query(task, query);
}

/// The contest of a problem is named by what stands before the first underscore of its id.
pub proof fn id_names_contest(contest: Seq<char>, task: Seq<char>)
    requires
        !contest.contains('_'),
    ensures
        contest_of(contest + "_"@ + task) == Some(contest),
        contest_of(contest) is None,
{
    reveal_strlit("_");
    let id = contest + "_"@ + task;
    seqs::find_from_is_first(id, "_"@, 0);
    seqs::find_from_is_first(contest, "_"@, 0);
    assert(id.subrange(contest.len() as int, contest.len() as int + 1) =~= "_"@);
    assert(seqs::matches_at(id, "_"@, contest.len() as int));
    assert forall|j: int| 0 <= j < contest.len() implies !#[trigger] seqs::matches_at(
        id,
        "_"@,
        j,
    ) by {
        assert(id.subrange(j, j + 1)[0] == contest[j]);
    }
    assert forall|j: int| 0 <= j implies !#[trigger] seqs::matches_at(contest, "_"@, j) by {
        if seqs::matches_at(contest, "_"@, j) {
            assert(contest.subrange(j, j + 1)[0] == contest[j]);
        }
    }
    assert(id.take(contest.len() as int) =~= contest);
}

spec fn is_mark(c: char) -> bool {
    c == '_' || c == '-'
}

proof fn letters_are_counted(letters: Seq<char>, rest: Seq<char>)
    requires
        forall|i: int| 0 <= i < letters.len() ==> seqs::is_ascii_letter(#[trigger] letters[i]),
        rest.len() == 0 || !seqs::is_ascii_letter(rest[0]),
    ensures
        letters_len(letters + rest) == letters.len(),
    decreases letters.len(),
{
    let s = letters + rest;
    if letters.len() > 0 {
        assert(s[0] == letters[0]);
        assert(s.skip(1) =~= letters.skip(1) + rest);
        letters_are_counted(letters.skip(1), rest);
    } else {
        assert(s =~= rest);
    }
}

proof fn marks_come_off(before: Seq<char>, s: Seq<char>, after: Seq<char>)
    requires
        forall|i: int| 0 <= i < before.len() ==> is_mark(#[trigger] before[i]),
        forall|i: int| 0 <= i < after.len() ==> is_mark(#[trigger] after[i]),
        s.len() > 0 && !is_mark(s[0]) && !is_mark(s.last()),
    ensures
        trim_marks_end(trim_marks_start(before + s + after)) == s,
    decreases before.len() + after.len(),
{
    let all = before + s + after;
    if before.len() > 0 {
        assert(all[0] == before[0]);
        assert(all.skip(1) =~= before.skip(1) + s + after);
        marks_come_off(before.skip(1), s, after);
    } else {
        assert(all =~= s + after);
        assert(all[0] == s[0]);
        if after.len() > 0 {
            assert(all.last() == after.last());
            assert(all.drop_last() =~= before + s + after.drop_last());
            marks_come_off(before, s, after.drop_last());
            assert(trim_marks_start(all.drop_last()) == all.drop_last());
        } else {
            assert(all =~= s);
        }
    }
}

/// The letters with which the id of a contest begins are its group, and what follows them, without
/// the underscores and hyphens around it, is its place there, both in lower case.
pub proof fn id_is_grouped(
    letters: Seq<char>,
    before: Seq<char>,
    place: Seq<char>,
    after: Seq<char>,
    title: Seq<char>,
)
    requires
        letters.len() > 0,
        forall|i: int|
            0 <= i < letters.len() ==> ('a' <= #[trigger] letters[i] <= 'z') || ('A' <= letters[i]
                <= 'Z'),
        forall|i: int| 0 <= i < before.len() ==> #[trigger] before[i] == '_' || before[i] == '-',
        forall|i: int| 0 <= i < after.len() ==> #[trigger] after[i] == '_' || after[i] == '-',
        place.len() > 0,
        place[0] != '_' && place[0] != '-' && place.last() != '_' && place.last() != '-',
        before.len() > 0 || !('a' <= place[0] <= 'z' || 'A' <= place[0] <= 'Z'),
    ensures
        group_and_segment(letters + (before + place + after), title) == (
            seqs::ascii_lower(letters),
            seqs::ascii_lower(place),
        ),
{
    let rest = before + place + after;
    let id = letters + rest;
    assert(rest[0] == if before.len() > 0 {
        before[0]
    } else {
        place[0]
    });
    letters_are_counted(letters, rest);
    assert(id.take(letters.len() as int) =~= letters);
    assert(id.skip(letters.len() as int) =~= rest);
    marks_come_off(before, place, after);
}

/// The id of a contest that does not begin with a letter is its place as a whole, in the group of
/// the first word of its title, both in lower case; so is an id of letters alone.
pub proof fn title_groups_other_contests(id: Seq<char>, word: Seq<char>, rest: Seq<char>)
    requires
        id.len() > 0 && !('a' <= id[0] <= 'z' || 'A' <= id[0] <= 'Z') || forall|i: int|
            0 <= i < id.len() ==> ('a' <= #[trigger] id[i] <= 'z') || ('A' <= id[i] <= 'Z'),
        word.len() > 0,
        forall|i: int| 0 <= i < word.len() ==> !seqs::is_white(#[trigger] word[i]),
        rest.len() == 0 || seqs::is_white(rest[0]),
    ensures
        group_and_segment(id, word + rest) == (seqs::ascii_lower(word), seqs::ascii_lower(id)),
{
    let nothing: Seq<char> = seq![];
    seqs::first_word_ends_at_white_space(nothing, word, rest);
    assert(nothing + word + rest =~= word + rest);
    if id.len() > 0 && !('a' <= id[0] <= 'z' || 'A' <= id[0] <= 'Z') {
        assert(letters_len(id) == 0);
    } else {
        letters_are_counted(id, nothing);
        assert(id + nothing =~= id);
        assert(id.skip(id.len() as int) =~= nothing);
    }
}

/// A problem is called by its title, or, where that is blank, by its name, or else by its id.
pub proof fn title_is_preferred(problem: RawProblemModel)
    ensures
        !seqs::is_blank(problem.title) ==> preferred_title(problem) == seqs::trim(problem.title),
        seqs::is_blank(problem.title) && !seqs::is_blank(problem.name) ==> preferred_title(problem)
            == seqs::trim(problem.name),
        seqs::is_blank(problem.title) && seqs::is_blank(problem.name) ==> preferred_title(problem)
            == problem.id,
{
}

/// Of several contests with one id the last one's title counts.
pub proof fn last_title_counts(contests: Seq<RawContestModel>, i: int)
    requires
        0 <= i < contests.len(),
        forall|k: int| i < k < contests.len() ==> (#[trigger] contests[k]).id != contests[i].id,
    ensures
        contest_titles(contests).contains_key(contests[i].id),
        contest_titles(contests)[contests[i].id] == contests[i].title,
    decreases contests.len(),
{
    if i < contests.len() - 1 {
        let front = contests.drop_last();
        assert forall|k: int| i < k < front.len() implies (#[trigger] front[k]).id != front[i].id by {
            assert(front[k] == contests[k]);
        }
        last_title_counts(front, i);
        assert(contests[contests.len() - 1].id != contests[i].id);
    }
}

/// Only contests that are listed have a title.
pub proof fn titles_are_of_contests(contests: Seq<RawContestModel>, id: Seq<char>)
    requires
        contest_titles(contests).contains_key(id),
    ensures
        exists|i: int| 0 <= i < contests.len() && (#[trigger] contests[i]).id == id,
    decreases contests.len(),
{
    if contests.len() > 0 {
        let n = contests.len() - 1;
        if contests[n].id != id {
            titles_are_of_contests(contests.drop_last(), id);
            let i = choose|i: int| 0 <= i < n && (#[trigger] contests.drop_last()[i]).id == id;
            assert(contests[i].id == id);
        }
    }
}

/// Every problem of which the id, the contest and the place in it are known is listed, in order, as
/// what it is, under the address of its task and with the title of its contest; no other is.
pub proof fn known_problems_are_listed(
    first: Seq<RawProblemModel>,
    problem: RawProblemModel,
    rest: Seq<RawProblemModel>,
    titles: Map<Seq<char>, Seq<char>>,
)
    ensures
        problem_list(first + rest, titles) == problem_list(first, titles) + problem_list(
            rest,
            titles,
        ),
        seqs::is_blank(problem.id) || seqs::is_blank(problem.contest_id) || seqs::is_blank(
            problem.problem_index,
        ) ==> problem_list(seq![problem], titles).len() == 0,
        !seqs::is_blank(problem.id) && !seqs::is_blank(problem.contest_id) && !seqs::is_blank(
            problem.problem_index,
        ) ==> {
            let listed = problem_list(seq![problem], titles);
            &&& listed.len() == 1
            &&& listed[0].id == seqs::trim(problem.id)
            &&& listed[0].contest_id == seqs::trim(problem.contest_id)
            &&& listed[0].task_index == seqs::trim(problem.problem_index)
            &&& listed[0].title == preferred_title(problem)
            &&& listed[0].url == "https://atcoder.jp/contests/"@ + seqs::trim(problem.contest_id)
                + "/tasks/"@ + seqs::trim(problem.id)
            &&& titles.contains_key(problem.contest_id) ==> listed[0].contest_title
                == titles[problem.contest_id]
            &&& !titles.contains_key(problem.contest_id) ==> listed[0].contest_title
                == problem.contest_id
            &&& (listed[0].contest_group, listed[0].contest_segment) == group_and_segment(
                problem.contest_id,
                listed[0].contest_title,
            )
        },
    decreases rest.len(),
{
    reveal_with_fuel(problem_list, 2);
    assert(seq![problem].drop_last() =~= seq![]);
    if rest.len() == 0 {
        assert(first + rest =~= first);
        assert(problem_list(first + rest, titles) =~= problem_list(first, titles) + problem_list(
            rest,
            titles,
        ));
    } else {
        assert((first + rest).drop_last() =~= first + rest.drop_last());
        known_problems_are_listed(first, problem, rest.drop_last(), titles);
        assert(problem_list(first + rest, titles) =~= problem_list(first, titles) + problem_list(
            rest,
            titles,
        ));
    }
}

/// The models hold what the values hold, each part under its own name.
pub proof fn models_hold_their_parts(
    problem: Problem,
    raw_problem: RawProblem,
    raw_contest: RawContest,
)
    ensures
        problem.deep_view() == (ProblemModel {
            id: problem.id@,
            contest_id: problem.contest_id@,
            contest_title: problem.contest_title@,
            contest_group: problem.contest_group@,
            contest_segment: problem.contest_segment@,
            task_index: problem.task_index@,
            title: problem.title@,
            url: problem.url@,
        }),
        raw_problem.deep_view() == (RawProblemModel {
            id: raw_problem.id@,
            contest_id: raw_problem.contest_id@,
            problem_index: raw_problem.problem_index@,
            title: raw_problem.title@,
            name: raw_problem.name@,
        }),
        raw_contest.deep_view() == (RawContestModel {
            id: raw_contest.id@,
            title: raw_contest.title@,
        }),
{
}
/// A contest without a word in its title is a group of its own, named by its id; the letters of an
/// id that nothing but underscores and hyphens follow are no group.
pub proof fn contest_without_title_is_its_group(
    letters: Seq<char>,
    marks: Seq<char>,
    title: Seq<char>,
)
    requires
        forall|i: int|
            0 <= i < letters.len() ==> ('a' <= #[trigger] letters[i] <= 'z') || ('A' <= letters[i]
                <= 'Z'),
        forall|i: int| 0 <= i < marks.len() ==> #[trigger] marks[i] == '_' || marks[i] == '-',
        forall|i: int| 0 <= i < title.len() ==> seqs::is_white(#[trigger] title[i]),
    ensures
        group_and_segment(letters + marks, title) == (
            seqs::ascii_lower(letters + marks),
            seqs::ascii_lower(letters + marks),
        ),
{
    let id = letters + marks;
    letters_are_counted(letters, marks);
    assert(id.skip(letters.len() as int) =~= marks);
    marks_are_taken_off(marks);
    seqs::first_word_ends_at_white_space(title, seq![], seq![]);
}

proof fn marks_are_taken_off(marks: Seq<char>)
    requires
        forall|i: int| 0 <= i < marks.len() ==> #[trigger] marks[i] == '_' || marks[i] == '-',
    ensures
        trim_marks_start(marks).len() == 0,
    decreases marks.len(),
{
    if marks.len() > 0 {
        marks_are_taken_off(marks.skip(1));
    }
}
} // verus!
