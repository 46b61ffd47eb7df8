//! Which problems to practise on are listed, and in what order.

use vstd::prelude::*;

use crate::outside;
use crate::problems::{Problem, ProblemModel};
use crate::seqs;
use crate::text;

verus! {

/// What has rows below it that are shown: groups, and contests in them.
pub struct ExpandedRows {
    groups: Vec<String>,
    contests: Vec<(String, String)>,
}

/// What an `ExpandedRows` holds.
#[verifier::ext_equal]
pub struct ExpandedRowsModel {
    pub groups: Set<Seq<char>>,
    pub contests: Set<(Seq<char>, Seq<char>)>,
}

spec fn pair(contest: (String, String)) -> (Seq<char>, Seq<char>) {
    (contest.0@, contest.1@)
}

impl DeepView for ExpandedRows {
    type V = ExpandedRowsModel;

    closed spec fn deep_view(&self) -> ExpandedRowsModel {
        ExpandedRowsModel {
            groups: Set::new(
                |group: Seq<char>|
                    exists|i: int| 0 <= i < self.groups@.len() && (#[trigger] self.groups@[i])@ == group,
            ),
            contests: Set::new(
                |contest: (Seq<char>, Seq<char>)|
                    exists|i: int|
                        0 <= i < self.contests@.len() && pair(#[trigger] self.contests@[i]) == contest,
            ),
        }
    }
}

impl ExpandedRows {
    #[verifier::type_invariant]
    spec fn holds_nothing_twice(self) -> bool {
        &&& forall|i: int, j: int|
            0 <= i < j < self.groups@.len() ==> (#[trigger] self.groups@[i])@ != (
            #[trigger] self.groups@[j])@
        &&& forall|i: int, j: int|
            0 <= i < j < self.contests@.len() ==> pair(#[trigger] self.contests@[i]) != pair(
                #[trigger] self.contests@[j],
            )
    }

    /// No row is shown below another.
    pub fn new() -> (r: Self)
        ensures
            r.deep_view() == (ExpandedRowsModel { groups: Set::empty(), contests: Set::empty() }),
    {
        let r = ExpandedRows { groups: Vec::new(), contests: Vec::new() };
        assert(r.deep_view().groups =~= Set::empty());
        assert(r.deep_view().contests =~= Set::empty());
        r
    }

    fn group_index(&self, group: &str) -> (r: Option<usize>)
        ensures
            match r {
                Some(i) => i < self.groups@.len() && self.groups@[i as int]@ == group@,
                None => forall|i: int|
                    0 <= i < self.groups@.len() ==> (#[trigger] self.groups@[i])@ != group@,
            },
    {
        let mut i: usize = 0;
        while i < self.groups.len()
            invariant
                i <= self.groups@.len(),
                forall|k: int| 0 <= k < i ==> (#[trigger] self.groups@[k])@ != group@,
            decreases self.groups@.len() - i,
        {
            if text::same(self.groups[i].as_str(), group) {
                return Some(i);
            }
            i += 1;
        }
        None
    }

    fn contest_index(&self, group: &str, segment: &str) -> (r: Option<usize>)
        ensures
            match r {
                Some(i) => i < self.contests@.len() && pair(self.contests@[i as int]) == (
                    group@,
                    segment@,
                ),
                None => forall|i: int|
                    0 <= i < self.contests@.len() ==> pair(#[trigger] self.contests@[i]) != (
                        group@,
                        segment@,
                    ),
            },
    {
        let mut i: usize = 0;
        while i < self.contests.len()
            invariant
                i <= self.contests@.len(),
                forall|k: int|
                    0 <= k < i ==> pair(#[trigger] self.contests@[k]) != (group@, segment@),
            decreases self.contests@.len() - i,
        {
            if text::same(self.contests[i].0.as_str(), group) && text::same(
                self.contests[i].1.as_str(),
                segment,
            ) {
                return Some(i);
            }
            i += 1;
        }
        None
    }

    /// Whether the rows below a group are shown.
    pub fn has_group(&self, group: &str) -> (r: bool)
        ensures
            r == self.deep_view().groups.contains(group@),
    {
        self.group_index(group).is_some()
    }

    /// Whether the rows below a contest are shown.
    pub fn has_contest(&self, group: &str, segment: &str) -> (r: bool)
        ensures
            r == self.deep_view().contests.contains((group@, segment@)),
    {
        self.contest_index(group, segment).is_some()
    }

    /// Shows the rows below a group, or shows them no longer.
    pub fn toggle_problem_group(&mut self, group: &str)
        ensures
            final(self).deep_view() == old(self).deep_view().with_group_toggled(group@),
    {
        proof {
            use_type_invariant(&*self);
        }
        let ghost before = self.deep_view();
        let ghost kept = self.groups@;
        let mut groups: Vec<String> = Vec::new();
        let place = self.group_index(group);
        std::mem::swap(&mut groups, &mut self.groups);
        match place {
            Some(i) => {
                let _ = groups.remove(i);
                self.groups = groups;
                proof {
                    let expected = before.groups.remove(group@);
                    assert forall|name: Seq<char>| expected.contains(name) implies
                        self.deep_view().groups.contains(name) by {
                        let k = choose|k: int| 0 <= k < kept.len() && (#[trigger] kept[k])@ == name;
                        let now = if k < i {
                            k
                        } else {
                            k - 1
                        };
                        assert(self.groups@[now]@ == name);
                    }
                    assert forall|name: Seq<char>| self.deep_view().groups.contains(name) implies
                        expected.contains(name) by {
                        let k = choose|k: int|
                            0 <= k < self.groups@.len() && (#[trigger] self.groups@[k])@ == name;
                        let was = if k < i {
                            k
                        } else {
                            k + 1
                        };
                        assert(kept[was]@ == name);
                        assert(kept[i as int]@ == group@);
                    }
                    assert(self.deep_view().groups =~= expected);
                }
            },
            None => {
                groups.push(group.to_owned());
                self.groups = groups;
                proof {
                    let expected = before.groups.insert(group@);
                    assert forall|name: Seq<char>| expected.contains(name) implies
                        self.deep_view().groups.contains(name) by {
                        if name == group@ {
                            assert(self.groups@[kept.len() as int]@ == name);
                        } else {
                            let k = choose|k: int|
                                0 <= k < kept.len() && (#[trigger] kept[k])@ == name;
                            assert(self.groups@[k]@ == name);
                        }
                    }
                    assert forall|name: Seq<char>| self.deep_view().groups.contains(name) implies
                        expected.contains(name) by {
                        let k = choose|k: int|
                            0 <= k < self.groups@.len() && (#[trigger] self.groups@[k])@ == name;
                        if k < kept.len() {
                            assert(kept[k]@ == name);
                        }
                    }
                    assert(self.deep_view().groups =~= expected);
                }
            },
        }
        assert(self.deep_view().contests =~= before.contests);
    }

    /// Shows the rows below a contest, or shows them no longer.
    pub fn toggle_problem_contest(&mut self, group: &str, segment: &str)
        ensures
            final(self).deep_view() == old(self).deep_view().with_contest_toggled(
                group@,
                segment@,
            ),
    {
        proof {
            use_type_invariant(&*self);
        }
        let ghost before = self.deep_view();
        let ghost kept = self.contests@;
        let ghost key = (group@, segment@);
        let mut contests: Vec<(String, String)> = Vec::new();
        let place = self.contest_index(group, segment);
        std::mem::swap(&mut contests, &mut self.contests);
        match place {
            Some(i) => {
                let _ = contests.remove(i);
                self.contests = contests;
                proof {
                    let expected = before.contests.remove(key);
                    assert forall|contest: (Seq<char>, Seq<char>)|
                        expected.contains(contest) implies self.deep_view().contests.contains(
                        contest,
                    ) by {
                        let k = choose|k: int|
                            0 <= k < kept.len() && pair(#[trigger] kept[k]) == contest;
                        let now = if k < i {
                            k
                        } else {
                            k - 1
                        };
                        assert(pair(self.contests@[now]) == contest);
                    }
                    assert forall|contest: (Seq<char>, Seq<char>)|
                        self.deep_view().contests.contains(contest) implies expected.contains(
                        contest,
                    ) by {
                        let k = choose|k: int|
                            0 <= k < self.contests@.len() && pair(#[trigger] self.contests@[k])
                                == contest;
                        let was = if k < i {
                            k
                        } else {
                            k + 1
                        };
                        assert(pair(kept[was]) == contest);
                        assert(pair(kept[i as int]) == key);
                    }
                    assert(self.deep_view().contests =~= expected);
                }
            },
            None => {
                contests.push((group.to_owned(), segment.to_owned()));
                self.contests = contests;
                proof {
                    let expected = before.contests.insert(key);
                    assert forall|contest: (Seq<char>, Seq<char>)|
                        expected.contains(contest) implies self.deep_view().contests.contains(
                        contest,
                    ) by {
                        if contest == key {
                            assert(pair(self.contests@[kept.len() as int]) == contest);
                        } else {
                            let k = choose|k: int|
                                0 <= k < kept.len() && pair(#[trigger] kept[k]) == contest;
                            assert(pair(self.contests@[k]) == contest);
                        }
                    }
                    assert forall|contest: (Seq<char>, Seq<char>)|
                        self.deep_view().contests.contains(contest) implies expected.contains(
                        contest,
                    ) by {
                        let k = choose|k: int|
                            0 <= k < self.contests@.len() && pair(#[trigger] self.contests@[k])
                                == contest;
                        if k < kept.len() {
                            assert(pair(kept[k]) == contest);
                        }
                    }
                    assert(self.deep_view().contests =~= expected);
                }
            },
        }
        assert(self.deep_view().groups =~= before.groups);
    }
}

impl ExpandedRowsModel {
    pub open spec fn with_group_toggled(self, group: Seq<char>) -> Self {
        ExpandedRowsModel {
            groups: if self.groups.contains(group) {
                self.groups.remove(group)
            } else {
                self.groups.insert(group)
            },
            ..self
        }
    }

    pub open spec fn with_contest_toggled(self, group: Seq<char>, segment: Seq<char>) -> Self {
        ExpandedRowsModel {
            contests: if self.contests.contains((group, segment)) {
                self.contests.remove((group, segment))
            } else {
                self.contests.insert((group, segment))
            },
            ..self
        }
    }
}

/// Showing and hiding the rows below a row changes nothing.
pub proof fn toggling_twice_changes_nothing(
    rows: ExpandedRowsModel,
    group: Seq<char>,
    segment: Seq<char>,
)
    ensures
        rows.with_group_toggled(group).with_group_toggled(group) == rows,
        rows.with_contest_toggled(group, segment).with_contest_toggled(group, segment) == rows,
{
    assert(rows.with_group_toggled(group).with_group_toggled(group).groups =~= rows.groups);
    assert(rows.with_contest_toggled(group, segment).with_contest_toggled(group, segment).contests
        =~= rows.contests);
}

/// What is searched for a problem.
pub open spec fn haystack(problem: ProblemModel) -> Seq<char> {
    problem.contest_group + " "@ + problem.contest_segment + " "@ + problem.task_index + " "@
        + problem.id + " "@ + problem.title + " "@ + problem.contest_title
}

/// Whether a problem is found with a query, in which case does not count.
pub open spec fn is_found(problem: ProblemModel, query: Seq<char>) -> bool {
    let query = outside::lowercased(query);
    seqs::is_blank(query) || seqs::contains(
        outside::lowercased(haystack(problem)),
        seqs::trim(query),
    )
}

/// Whether a problem comes before another in the order of their groups, their segments, their
/// places in the contest and their ids.
pub open spec fn key_less(a: ProblemModel, b: ProblemModel) -> bool {
    if a.contest_group != b.contest_group {
        seqs::less(a.contest_group, b.contest_group)
    } else if a.contest_segment != b.contest_segment {
        seqs::less(a.contest_segment, b.contest_segment)
    } else if a.task_index != b.task_index {
        seqs::less(a.task_index, b.task_index)
    } else {
        seqs::less(a.id, b.id)
    }
}

/// Whether nothing in that order tells two problems apart.
pub open spec fn same_key(a: ProblemModel, b: ProblemModel) -> bool {
    a.contest_group == b.contest_group && a.contest_segment == b.contest_segment && a.task_index
        == b.task_index && a.id == b.id
}

/// Whether a place in the list comes before another in the tree.
pub open spec fn comes_before(problems: Seq<ProblemModel>, i: usize, j: usize) -> bool {
    key_less(problems[i as int], problems[j as int]) || (same_key(
        problems[i as int],
        problems[j as int],
    ) && i < j)
}

pub open spec fn is_sorted(problems: Seq<ProblemModel>, places: Seq<usize>) -> bool {
    forall|i: int, j: int|
        0 <= i < j < places.len() ==> comes_before(
            problems,
            #[trigger] places[i],
            #[trigger] places[j],
        )
}

/// Whether the places are those of the problems that are found with a query, in the order of the
/// tree.
pub open spec fn is_listing(problems: Seq<ProblemModel>, query: Seq<char>, places: Seq<usize>) -> bool {
    &&& is_sorted(problems, places)
    &&& forall|i: usize| #[trigger]
        places.contains(i) <==> i < problems.len() && is_found(problems[i as int], query)
}

/// The order of texts is a strict total order.
pub proof fn less_is_order(a: Seq<char>, b: Seq<char>, c: Seq<char>)
    ensures
        !seqs::less(a, a),
        seqs::less(a, b) && seqs::less(b, c) ==> seqs::less(a, c),
        a == b || seqs::less(a, b) || seqs::less(b, a),
    decreases a.len() + b.len() + c.len(),
{
    if a.len() > 0 && b.len() > 0 {
        less_is_order(
            a.skip(1),
            b.skip(1),
            if c.len() > 0 {
                c.skip(1)
            } else {
                c
            },
        );
        if a[0] == b[0] && a.skip(1) == b.skip(1) {
            assert(a =~= seq![a[0]] + a.skip(1));
            assert(b =~= seq![b[0]] + b.skip(1));
        }
    } else if a.len() > 0 {
        less_is_order(a.skip(1), b, c);
    } else if a.len() == 0 && b.len() == 0 {
        assert(a =~= b);
    }
}

proof fn before_is_order(problems: Seq<ProblemModel>, i: usize, j: usize, k: usize)
    requires
        i < problems.len(),
        j < problems.len(),
        k < problems.len(),
    ensures
        !comes_before(problems, i, i),
        comes_before(problems, i, j) && comes_before(problems, j, k) ==> comes_before(
            problems,
            i,
            k,
        ),
        i == j || comes_before(problems, i, j) || comes_before(problems, j, i),
{
    let (a, b, c) = (problems[i as int], problems[j as int], problems[k as int]);
    less_is_order(a.contest_group, b.contest_group, c.contest_group);
    less_is_order(a.contest_segment, b.contest_segment, c.contest_segment);
    less_is_order(a.task_index, b.task_index, c.task_index);
    less_is_order(a.id, b.id, c.id);
    less_is_order(b.contest_group, c.contest_group, a.contest_group);
    less_is_order(b.contest_segment, c.contest_segment, a.contest_segment);
    less_is_order(b.task_index, c.task_index, a.task_index);
    less_is_order(b.id, c.id, a.id);
    less_is_order(a.contest_group, c.contest_group, b.contest_group);
    less_is_order(a.contest_segment, c.contest_segment, b.contest_segment);
    less_is_order(a.task_index, c.task_index, b.task_index);
    less_is_order(a.id, c.id, b.id);
}

pub(crate) fn less_text(a: &String, b: &String) -> (r: bool)
    ensures
        r == seqs::less(a@, b@),
{
    let a_chars = text::chars_of(a.as_str());
    let b_chars = text::chars_of(b.as_str());
    text::less(&a_chars, &b_chars)
}

fn is_before(problems: &Vec<Problem>, i: usize, j: usize) -> (r: bool)
    requires
        i < problems@.len(),
        j < problems@.len(),
    ensures
        r == comes_before(problems.deep_view(), i, j),
{
    let a = &problems[i];
    let b = &problems[j];
    proof {
        less_is_order(a.id@, a.id@, a.id@);
    }
    if !text::same(a.contest_group.as_str(), b.contest_group.as_str()) {
        less_text(&a.contest_group, &b.contest_group)
    } else if !text::same(a.contest_segment.as_str(), b.contest_segment.as_str()) {
        less_text(&a.contest_segment, &b.contest_segment)
    } else if !text::same(a.task_index.as_str(), b.task_index.as_str()) {
        less_text(&a.task_index, &b.task_index)
    } else if !text::same(a.id.as_str(), b.id.as_str()) {
        less_text(&a.id, &b.id)
    } else {
        i < j
    }
}

proof fn pushed_contains(places: Seq<usize>, place: usize)
    ensures
        forall|x: usize| #[trigger]
            places.push(place).contains(x) <==> places.contains(x) || x == place,
{
    assert forall|x: usize| #[trigger] places.push(place).contains(x) <==> places.contains(x) || x
        == place by {
        let pushed = places.push(place);
        if places.contains(x) {
            let k = choose|k: int| 0 <= k < places.len() && places[k] == x;
            assert(pushed[k] == x);
        }
        if x == place {
            assert(pushed[places.len() as int] == x);
        }
        if pushed.contains(x) {
            let k = choose|k: int| 0 <= k < pushed.len() && pushed[k] == x;
            if k < places.len() {
                assert(places[k] == x);
            }
        }
    }
}

proof fn added_contains(first: Seq<usize>, second: Seq<usize>)
    ensures
        forall|x: usize| #[trigger]
            (first + second).contains(x) <==> first.contains(x) || second.contains(x),
{
    assert forall|x: usize| #[trigger] (first + second).contains(x) <==> first.contains(x)
        || second.contains(x) by {
        let both = first + second;
        if first.contains(x) {
            let k = choose|k: int| 0 <= k < first.len() && first[k] == x;
            assert(both[k] == x);
        }
        if second.contains(x) {
            let k = choose|k: int| 0 <= k < second.len() && second[k] == x;
            assert(both[first.len() + k] == x);
        }
        if both.contains(x) {
            let k = choose|k: int| 0 <= k < both.len() && both[k] == x;
            if k < first.len() {
                assert(first[k] == x);
            } else {
                assert(second[k - first.len()] == x);
            }
        }
    }
}

/// Whether all of the places are places of problems.
spec fn are_places(problems: Seq<ProblemModel>, places: Seq<usize>) -> bool {
    forall|i: int| 0 <= i < places.len() ==> #[trigger] places[i] < problems.len()
}

/// Whether what is sorted so far comes before what is left of a sorted part.
spec fn precedes(problems: Seq<ProblemModel>, sorted: Seq<usize>, rest: Seq<usize>, from: int) -> bool {
    forall|k: int, m: int|
        0 <= k < sorted.len() && from <= m < rest.len() ==> comes_before(
            problems,
            #[trigger] sorted[k],
            #[trigger] rest[m],
        )
}

fn merge(problems: &Vec<Problem>, first: Vec<usize>, second: Vec<usize>) -> (r: Vec<usize>)
    requires
        are_places(problems.deep_view(), first@),
        are_places(problems.deep_view(), second@),
        is_sorted(problems.deep_view(), first@),
        is_sorted(problems.deep_view(), second@),
        forall|x: usize| #[trigger] first@.contains(x) ==> !second@.contains(x),
    ensures
        are_places(problems.deep_view(), r@),
        is_sorted(problems.deep_view(), r@),
        forall|x: usize| #[trigger]
            r@.contains(x) <==> first@.contains(x) || second@.contains(x),
{
    let ghost all = problems.deep_view();
    let mut out: Vec<usize> = Vec::new();
    let mut i: usize = 0;
    let mut j: usize = 0;
    assert(first@.take(0) + second@.take(0) =~= Seq::<usize>::empty());
    while i < first.len() || j < second.len()
        invariant
            all == problems.deep_view(),
            i <= first@.len(),
            j <= second@.len(),
            are_places(all, first@),
            are_places(all, second@),
            is_sorted(all, first@),
            is_sorted(all, second@),
            forall|x: usize| #[trigger] first@.contains(x) ==> !second@.contains(x),
            are_places(all, out@),
            is_sorted(all, out@),
            precedes(all, out@, first@, i as int),
            precedes(all, out@, second@, j as int),
            forall|x: usize| #[trigger]
                out@.contains(x) <==> (first@.take(i as int) + second@.take(j as int)).contains(x),
        decreases first@.len() - i + second@.len() - j,
    {
        let ghost before = out@;
        let from_first = if i >= first.len() {
            false
        } else if j >= second.len() {
            true
        } else {
            is_before(problems, first[i], second[j])
        };
        let ghost next = if from_first {
            first@[i as int]
        } else {
            second@[j as int]
        };
        proof {
            pushed_contains(before, next);
            added_contains(first@.take(i as int), second@.take(j as int));
            pushed_contains(first@.take(i as int), next);
            pushed_contains(second@.take(j as int), next);
            if i < first@.len() && j < second@.len() {
                assert(first@.contains(first@[i as int]));
                assert(second@.contains(second@[j as int]));
                before_is_order(all, first@[i as int], second@[j as int], first@[i as int]);
            }
        }
        if from_first {
            out.push(first[i]);
            proof {
                assert(first@.take(i + 1) =~= first@.take(i as int).push(next));
                added_contains(first@.take(i + 1), second@.take(j as int));
                assert forall|m: int| j <= m < second@.len() implies comes_before(
                    all,
                    next,
                    #[trigger] second@[m],
                ) by {
                    before_is_order(all, next, second@[j as int], second@[m]);
                }
            }
            i += 1;
        } else {
            out.push(second[j]);
            proof {
                assert(second@.take(j + 1) =~= second@.take(j as int).push(next));
                added_contains(first@.take(i as int), second@.take(j + 1));
                assert forall|m: int| i <= m < first@.len() implies comes_before(
                    all,
                    next,
                    #[trigger] first@[m],
                ) by {
                    before_is_order(all, next, first@[i as int], first@[m]);
                }
            }
            j += 1;
        }
    }
    proof {
        assert(first@.take(i as int) =~= first@);
        assert(second@.take(j as int) =~= second@);
        added_contains(first@, second@);
    }
    out
}

fn sorted_part(problems: &Vec<Problem>, places: &Vec<usize>, start: usize, end: usize) -> (r: Vec<
    usize,
>)
    requires
        start <= end <= places@.len(),
        are_places(problems.deep_view(), places@),
        forall|i: int, j: int|
            0 <= i < j < places@.len() ==> #[trigger] places@[i] != #[trigger] places@[j],
    ensures
        are_places(problems.deep_view(), r@),
        is_sorted(problems.deep_view(), r@),
        forall|x: usize| #[trigger]
            r@.contains(x) <==> places@.subrange(start as int, end as int).contains(x),
    decreases end - start,
{
    let ghost part = places@.subrange(start as int, end as int);
    if end == start {
        assert(part =~= Seq::<usize>::empty());
        return Vec::new();
    }
    if end - start == 1 {
        let mut one: Vec<usize> = Vec::new();
        one.push(places[start]);
        assert(part =~= one@);
        return one;
    }
    let middle: usize = start + (end - start) / 2;
    let first = sorted_part(problems, places, start, middle);
    let second = sorted_part(problems, places, middle, end);
    proof {
        let left = places@.subrange(start as int, middle as int);
        let right = places@.subrange(middle as int, end as int);
        assert(part =~= left + right);
        added_contains(left, right);
        assert forall|x: usize| #[trigger] first@.contains(x) implies !second@.contains(x) by {
            if second@.contains(x) {
                assert(left.contains(x) && right.contains(x));
                let i = choose|i: int| 0 <= i < left.len() && left[i] == x;
                let j = choose|j: int| 0 <= j < right.len() && right[j] == x;
                assert(places@[start + i] == x && places@[middle + j] == x);
            }
        }
    }
    merge(problems, first, second)
}

fn haystack_of(problem: &Problem) -> (r: String)
    ensures
        r@ == haystack(problem.deep_view()),
{
    problem.contest_group.clone().concat(" ").concat(problem.contest_segment.as_str()).concat(
        " ",
    ).concat(problem.task_index.as_str()).concat(" ").concat(problem.id.as_str()).concat(
        " ",
    ).concat(problem.title.as_str()).concat(" ").concat(problem.contest_title.as_str())
}

/// The places of the problems that are found with a query, in the order of the tree.
pub fn refresh_filtered_problems(problems: &Vec<Problem>, query: &str) -> (r: Vec<usize>)
    ensures
        is_listing(problems.deep_view(), query@, r@),
{
    let lower = outside::to_lowercase(query);
    let lower_chars = text::chars_of(lower.as_str());
    let needle = text::string_of(text::trim(&lower_chars));
    let blank = text::is_blank(&lower_chars);
    let ghost all = problems.deep_view();
    let mut found: Vec<usize> = Vec::new();
    let mut i: usize = 0;
    while i < problems.len()
        invariant
            i <= problems@.len(),
            all == problems.deep_view(),
            blank == seqs::is_blank(outside::lowercased(query@)),
            needle@ == seqs::trim(outside::lowercased(query@)),
            forall|k: int| 0 <= k < found@.len() ==> #[trigger] found@[k] < i,
            forall|j: int, k: int|
                0 <= j < k < found@.len() ==> #[trigger] found@[j] != #[trigger] found@[k],
            forall|x: usize| #[trigger]
                found@.contains(x) <==> x < i && is_found(all[x as int], query@),
        decreases problems@.len() - i,
    {
        assert(all[i as int] == problems@[i as int].deep_view());
        let matching = if blank {
            true
        } else {
            let content = haystack_of(&problems[i]);
            let content = outside::to_lowercase(content.as_str());
            text::contains_str(content.as_str(), needle.as_str())
        };
        if matching {
            proof {
                pushed_contains(found@, i);
            }
            found.push(i);
        }
        i += 1;
    }
    let length: usize = found.len();
    let r = sorted_part(problems, &found, 0, length);
    assert(found@.subrange(0, length as int) =~= found@);
    r
}

proof fn sorted_first_is_least(problems: Seq<ProblemModel>, places: Seq<usize>, other: Seq<usize>)
    requires
        are_places(problems, places),
        are_places(problems, other),
        is_sorted(problems, places),
        is_sorted(problems, other),
        forall|x: usize| #[trigger] places.contains(x) <==> other.contains(x),
    ensures
        places == other,
    decreases places.len(),
{
    if places.len() == 0 {
        if other.len() > 0 {
            assert(other.contains(other[0]));
            assert(places.contains(other[0]));
        }
        assert(places =~= other);
    } else {
        assert(places.contains(places[0]));
        let k = choose|k: int| 0 <= k < other.len() && other[k] == places[0];
        assert(other.contains(other[0]));
        assert(places.contains(other[0]));
        let m = choose|m: int| 0 <= m < places.len() && places[m] == other[0];
        if k > 0 {
            if m > 0 {
                before_is_order(problems, places[0], other[0], places[0]);
            }
        }
        assert(places[0] == other[0]);
        let (a, b) = (places.skip(1), other.skip(1));
        assert forall|x: usize| #[trigger] a.contains(x) <==> b.contains(x) by {
            if a.contains(x) {
                let i = choose|i: int| 0 <= i < a.len() && a[i] == x;
                assert(places[i + 1] == x && places.contains(x));
                before_is_order(problems, places[0], x, x);
                let j = choose|j: int| 0 <= j < other.len() && other[j] == x;
                assert(j > 0);
                assert(b[j - 1] == x);
            }
            if b.contains(x) {
                let i = choose|i: int| 0 <= i < b.len() && b[i] == x;
                assert(other[i + 1] == x && other.contains(x));
                assert(places.contains(x));
                before_is_order(problems, other[0], x, x);
                let j = choose|j: int| 0 <= j < places.len() && places[j] == x;
                assert(j > 0);
                assert(a[j - 1] == x);
            }
        }
        sorted_first_is_least(problems, a, b);
        assert(places =~= seq![places[0]] + a);
        assert(other =~= seq![other[0]] + b);
    }
}

/// There is only one way to list the problems that are found with a query.
pub proof fn listing_is_unique(
    problems: Seq<ProblemModel>,
    query: Seq<char>,
    places: Seq<usize>,
    other: Seq<usize>,
)
    requires
        is_listing(problems, query, places),
        is_listing(problems, query, other),
    ensures
        places == other,
{
    assert forall|i: int| 0 <= i < places.len() implies #[trigger] places[i] < problems.len() by {
        assert(places.contains(places[i]));
    }
    assert forall|i: int| 0 <= i < other.len() implies #[trigger] other[i] < problems.len() by {
        assert(other.contains(other[i]));
    }
    assert forall|x: usize| #[trigger] places.contains(x) <==> other.contains(x) by {
        let found = x < problems.len() && is_found(problems[x as int], query);
        assert(places.contains(x) <==> found);
        assert(other.contains(x) <==> found);
    }
    sorted_first_is_least(problems, places, other);
}

proof fn part_is_found(before: Seq<char>, s: Seq<char>, after: Seq<char>, p: Seq<char>)
    requires
        seqs::contains(s, p),
    ensures
        seqs::contains(before + s + after, p),
{
    let i = choose|i: int| seqs::matches_at(s, p, i);
    let at: int = before.len() + i;
    assert((before + s + after).subrange(at, at + p.len()) =~= s.subrange(i, i + p.len()));
    assert(seqs::matches_at(before + s + after, p, at));
}

proof fn word_is_found_in_part(a: Seq<char>, b: Seq<char>, p: Seq<char>)
    requires
        seqs::contains(a + " "@ + b, p),
        !p.contains(' '),
    ensures
        seqs::contains(a, p) || seqs::contains(b, p),
{
    reveal_strlit(" ");
    let all = a + " "@ + b;
    let i = choose|i: int| seqs::matches_at(all, p, i);
    assert(all[a.len() as int] == ' ');
    if i + p.len() <= a.len() {
        assert(a.subrange(i, i + p.len()) =~= all.subrange(i, i + p.len()));
        assert(seqs::matches_at(a, p, i));
    } else if i > a.len() {
        let k: int = i - a.len() - 1;
        assert(b.subrange(k, k + p.len()) =~= all.subrange(i, i + p.len()));
        assert(seqs::matches_at(b, p, k));
    } else {
        assert(all.subrange(i, i + p.len())[a.len() - i] == ' ');
        assert(p[a.len() - i] == ' ');
    }
}

/// Whether lower case goes word by word: what stands on one side of a space does not depend on the
/// other side.
pub open spec fn lower_case_goes_by_words() -> bool {
    forall|a: Seq<char>, b: Seq<char>| #[trigger]
        outside::lowercased(a + " "@ + b) == outside::lowercased(a) + " "@ + outside::lowercased(b)
}

/// Whether a text stands in one of the parts of a problem that are searched, in lower case.
pub open spec fn stands_in_part(problem: ProblemModel, p: Seq<char>) -> bool {
    ||| seqs::contains(outside::lowercased(problem.id), p)
    ||| seqs::contains(outside::lowercased(problem.title), p)
    ||| seqs::contains(outside::lowercased(problem.contest_title), p)
    ||| seqs::contains(outside::lowercased(problem.contest_group), p)
    ||| seqs::contains(outside::lowercased(problem.contest_segment), p)
    ||| seqs::contains(outside::lowercased(problem.task_index), p)
}

/// A problem is found with a query that stands in its id, its title, the title of its contest, its
/// group, its segment or its place in the contest, where neither case nor white space around the
/// query counts. A query of one word finds nothing else, and a blank one finds every problem.
pub proof fn problem_is_found_by_its_parts(problem: ProblemModel, query: Seq<char>)
    ensures
        ({
            let words = seqs::trim(outside::lowercased(query));
            &&& words.len() == 0 ==> is_found(problem, query)
            &&& lower_case_goes_by_words() && stands_in_part(problem, words) ==> is_found(
                problem,
                query,
            )
            &&& lower_case_goes_by_words() && is_found(problem, query) && words.len() > 0
                && !words.contains(' ') ==> stands_in_part(problem, words)
        }),
{
    let words = seqs::trim(outside::lowercased(query));
    if lower_case_goes_by_words() {
        let group = outside::lowercased(problem.contest_group);
        let segment = outside::lowercased(problem.contest_segment);
        let task = outside::lowercased(problem.task_index);
        let id = outside::lowercased(problem.id);
        let title = outside::lowercased(problem.title);
        let contest = outside::lowercased(problem.contest_title);
        let one = problem.contest_group + " "@ + problem.contest_segment;
        let two = one + " "@ + problem.task_index;
        let three = two + " "@ + problem.id;
        let four = three + " "@ + problem.title;
        let low_one = group + " "@ + segment;
        let low_two = low_one + " "@ + task;
        let low_three = low_two + " "@ + id;
        let low_four = low_three + " "@ + title;
        assert(outside::lowercased(one) == low_one);
        assert(outside::lowercased(two) == low_two);
        assert(outside::lowercased(three) == low_three);
        assert(outside::lowercased(four) == low_four);
        let all = low_four + " "@ + contest;
        assert(outside::lowercased(haystack(problem)) == all);
        if stands_in_part(problem, words) {
            if seqs::contains(contest, words) {
                part_is_found(low_four + " "@, contest, seq![], words);
                assert(low_four + " "@ + contest + Seq::<char>::empty() =~= all);
            } else if seqs::contains(title, words) {
                part_is_found(low_three + " "@, title, " "@ + contest, words);
                assert(low_three + " "@ + title + (" "@ + contest) =~= all);
            } else if seqs::contains(id, words) {
                part_is_found(low_two + " "@, id, " "@ + title + " "@ + contest, words);
                assert(low_two + " "@ + id + (" "@ + title + " "@ + contest) =~= all);
            } else if seqs::contains(task, words) {
                let rest = " "@ + id + " "@ + title + " "@ + contest;
                part_is_found(low_one + " "@, task, rest, words);
                assert(low_one + " "@ + task + rest =~= all);
            } else if seqs::contains(segment, words) {
                let rest = " "@ + task + " "@ + id + " "@ + title + " "@ + contest;
                part_is_found(group + " "@, segment, rest, words);
                assert(group + " "@ + segment + rest =~= all);
            } else {
                let rest = " "@ + segment + " "@ + task + " "@ + id + " "@ + title + " "@ + contest;
                part_is_found(seq![], group, rest, words);
                assert(Seq::<char>::empty() + group + rest =~= all);
            }
        }
        if is_found(problem, query) && words.len() > 0 && !words.contains(' ') {
            word_is_found_in_part(low_four, contest, words);
            if !seqs::contains(contest, words) {
                word_is_found_in_part(low_three, title, words);
                if !seqs::contains(title, words) {
                    word_is_found_in_part(low_two, id, words);
                    if !seqs::contains(id, words) {
                        word_is_found_in_part(low_one, task, words);
                        if !seqs::contains(task, words) {
                            word_is_found_in_part(group, segment, words);
                        }
                    }
                }
            }
        }
    }
}

/// Every part of a problem that is searched stands in what is searched.
pub proof fn parts_are_searched(problem: ProblemModel)
    ensures
        seqs::contains(haystack(problem), problem.id),
        seqs::contains(haystack(problem), problem.title),
        seqs::contains(haystack(problem), problem.contest_title),
        seqs::contains(haystack(problem), problem.contest_group),
        seqs::contains(haystack(problem), problem.contest_segment),
        seqs::contains(haystack(problem), problem.task_index),
        seqs::contains(
            haystack(problem),
            problem.contest_group + " "@ + problem.contest_segment + " "@ + problem.task_index,
        ),
{
    let all = haystack(problem);
    let group = problem.contest_group;
    let segment = problem.contest_segment;
    let task = problem.task_index;
    let id = problem.id;
    let title = problem.title;
    let contest = problem.contest_title;
    let from_title = " "@ + title + " "@ + contest;
    let from_id = " "@ + id + " "@ + title + " "@ + contest;
    let from_task = " "@ + task + " "@ + id + " "@ + title + " "@ + contest;
    let from_segment = " "@ + segment + " "@ + task + " "@ + id + " "@ + title + " "@ + contest;
    let one = group + " "@ + segment + " "@ + task;
    assert(seqs::contains(all, group)) by {
        let before = Seq::<char>::empty();
        let after = from_segment;
        assert(all =~= before + group + after);
        stands_inside(before, group, after);
    }
    assert(seqs::contains(all, segment)) by {
        let before = group + " "@;
        let after = from_task;
        assert(all =~= before + segment + after);
        stands_inside(before, segment, after);
    }
    assert(seqs::contains(all, task)) by {
        let before = group + " "@ + segment + " "@;
        let after = from_id;
        assert(all =~= before + task + after);
        stands_inside(before, task, after);
    }
    assert(seqs::contains(all, id)) by {
        let before = one + " "@;
        let after = from_title;
        assert(all =~= before + id + after);
        stands_inside(before, id, after);
    }
    assert(seqs::contains(all, title)) by {
        let before = one + " "@ + id + " "@;
        let after = " "@ + contest;
        assert(all =~= before + title + after);
        stands_inside(before, title, after);
    }
    assert(seqs::contains(all, contest)) by {
        let before = one + " "@ + id + " "@ + title + " "@;
        let after = Seq::<char>::empty();
        assert(all =~= before + contest + after);
        stands_inside(before, contest, after);
    }
    assert(seqs::contains(all, one)) by {
        let before = Seq::<char>::empty();
        let after = from_id;
        assert(all =~= before + one + after);
        stands_inside(before, one, after);
    }
}

proof fn stands_inside(before: Seq<char>, p: Seq<char>, after: Seq<char>)
    ensures
        seqs::contains(before + p + after, p),
{
    seqs::found_text_stands_inside(p, p, before, after);
}

/// Exactly the problems that are found are listed, each once: by group, in a group by segment, in a
/// segment by place in the contest, there by id, and those that agree in all of it in the order in
/// which they are known.
pub proof fn found_problems_are_listed_in_order(
    problems: Seq<ProblemModel>,
    query: Seq<char>,
    places: Seq<usize>,
    i: int,
    j: int,
)
    requires
        is_listing(problems, query, places),
        0 <= i < j < places.len(),
    ensures
        places[i] < problems.len(),
        places[j] < problems.len(),
        places[i] != places[j],
        is_found(problems[places[i] as int], query),
        forall|k: usize|
            k < problems.len() && is_found(#[trigger] problems[k as int], query)
                ==> places.contains(k),
        ({
            let a = problems[places[i] as int];
            let b = problems[places[j] as int];
            &&& a.contest_group == b.contest_group || seqs::less(a.contest_group, b.contest_group)
            &&& a.contest_group == b.contest_group ==> a.contest_segment == b.contest_segment
                || seqs::less(a.contest_segment, b.contest_segment)
            &&& a.contest_group == b.contest_group && a.contest_segment == b.contest_segment
                ==> a.task_index == b.task_index || seqs::less(a.task_index, b.task_index)
            &&& a.contest_group == b.contest_group && a.contest_segment == b.contest_segment
                && a.task_index == b.task_index ==> a.id == b.id || seqs::less(a.id, b.id)
            &&& a.contest_group == b.contest_group && a.contest_segment == b.contest_segment
                && a.task_index == b.task_index && a.id == b.id ==> places[i] < places[j]
        }),
{
    assert(places.contains(places[i]));
    assert(places.contains(places[j]));
    let a = problems[places[i] as int];
    let b = problems[places[j] as int];
    less_is_order(a.contest_group, a.contest_group, a.contest_group);
    less_is_order(a.contest_segment, a.contest_segment, a.contest_segment);
    less_is_order(a.task_index, a.task_index, a.task_index);
    less_is_order(a.id, a.id, a.id);
    assert(comes_before(problems, places[i], places[j]));
}

/// Toggling a row changes whether the rows below it are shown, and nothing of any other row.
pub proof fn toggling_changes_one_row(
    rows: ExpandedRowsModel,
    group: Seq<char>,
    segment: Seq<char>,
    other: Seq<char>,
    other_segment: Seq<char>,
)
    ensures
        ({
            let toggled = rows.with_group_toggled(group);
            &&& toggled.contests == rows.contests
            &&& toggled.groups.contains(group) != rows.groups.contains(group)
            &&& other != group ==> toggled.groups.contains(other) == rows.groups.contains(other)
        }),
        ({
            let toggled = rows.with_contest_toggled(group, segment);
            &&& toggled.groups == rows.groups
            &&& toggled.contests.contains((group, segment)) != rows.contests.contains(
                (group, segment),
            )
            &&& other != group || other_segment != segment ==> toggled.contests.contains(
                (other, other_segment),
            ) == rows.contests.contains((other, other_segment))
        }),
{
}
/// A problem is listed whenever what is searched for stands in its id, its title, the title of its
/// contest, its group, its segment or its place in the contest, where neither case nor white space
/// around the query counts; and every problem is listed if nothing is searched for.
pub proof fn search_lists_problem(
    problems: Vec<Problem>,
    query: &str,
    places: Vec<usize>,
    i: usize,
)
    requires
        call_ensures(refresh_filtered_problems, (&problems, query), places),
        i < problems@.len(),
    ensures
        ({
            let words = seqs::trim(outside::lowercased(query@));
            let problem = problems@[i as int];
            &&& words.len() == 0 ==> places@.contains(i)
            &&& lower_case_goes_by_words() && (seqs::contains(
                outside::lowercased(problem.id@),
                words,
            ) || seqs::contains(outside::lowercased(problem.title@), words) || seqs::contains(
                outside::lowercased(problem.contest_title@),
                words,
            ) || seqs::contains(outside::lowercased(problem.contest_group@), words)
                || seqs::contains(outside::lowercased(problem.contest_segment@), words)
                || seqs::contains(outside::lowercased(problem.task_index@), words))
                ==> places@.contains(i)
        }),
        forall|k: int| 0 <= k < places@.len() ==> #[trigger] places@[k] < problems@.len(),
{
    let problem = problems@[i as int];
    assert(problems.deep_view()[i as int] == problem.deep_view());
    assert(problems.deep_view().len() == problems@.len());
    problem_is_found_by_its_parts(problem.deep_view(), query@);
    assert forall|k: int| 0 <= k < places@.len() implies #[trigger] places@[k] < problems@.len() by {
        assert(places@.contains(places@[k]));
    }
}
} // verus!
