//! The list of problems to practise on, as a tree.

use vstd::prelude::*;

use crate::copying::Duplicate;
use crate::practice::list;
use crate::practice::list::{ExpandedRows, ExpandedRowsModel};
use crate::problems::{Problem, ProblemModel};
use crate::seqs;
use crate::text;

verus! {

/// A row of the tree.
pub enum ProblemListEntry {
    Group { group: String, is_expanded: bool },
    Contest { group: String, segment: String, is_expanded: bool },
    Problem { problem_index: usize },
}

/// What a `ProblemListEntry` holds.
#[verifier::ext_equal]
pub enum ProblemListEntryModel {
    Group { group: Seq<char>, is_expanded: bool },
    Contest { group: Seq<char>, segment: Seq<char>, is_expanded: bool },
    Problem { problem_index: usize },
}

impl DeepView for ProblemListEntry {
    type V = ProblemListEntryModel;

    open spec fn deep_view(&self) -> ProblemListEntryModel {
        match self {
            ProblemListEntry::Group { group, is_expanded } => ProblemListEntryModel::Group {
                group: group@,
                is_expanded: *is_expanded,
            },
            ProblemListEntry::Contest {
                group,
                segment,
                is_expanded,
            } => ProblemListEntryModel::Contest {
                group: group@,
                segment: segment@,
                is_expanded: *is_expanded,
            },
            ProblemListEntry::Problem { problem_index } => ProblemListEntryModel::Problem {
                problem_index: *problem_index,
            },
        }
    }
}

impl Duplicate for ProblemListEntry {
    fn duplicate(&self) -> (r: Self) {
        match self {
            ProblemListEntry::Group { group, is_expanded } => ProblemListEntry::Group {
                group: group.clone(),
                is_expanded: *is_expanded,
            },
            ProblemListEntry::Contest { group, segment, is_expanded } => ProblemListEntry::Contest {
                group: group.clone(),
                segment: segment.clone(),
                is_expanded: *is_expanded,
            },
            ProblemListEntry::Problem { problem_index } => ProblemListEntry::Problem {
                problem_index: *problem_index,
            },
        }
    }
}

/// What is shown of a row of the tree.
pub struct ProblemRow {
    pub depth: usize,
    pub is_selected: bool,
    /// Whether the rows below it are shown, for a row that has some.
    pub is_expanded: Option<bool>,
    pub text: String,
    pub is_muted: bool,
}

/// What a `ProblemRow` holds.
#[verifier::ext_equal]
pub struct ProblemRowModel {
    pub depth: usize,
    pub is_selected: bool,
    pub is_expanded: Option<bool>,
    pub text: Seq<char>,
    pub is_muted: bool,
}

impl DeepView for ProblemRow {
    type V = ProblemRowModel;

    open spec fn deep_view(&self) -> ProblemRowModel {
        ProblemRowModel {
            depth: self.depth,
            is_selected: self.is_selected,
            is_expanded: self.is_expanded,
            text: self.text@,
            is_muted: self.is_muted,
        }
    }
}

/// What is shown of the list.
pub struct SidebarView {
    /// How many problems there are.
    pub problem_count: String,
    pub rows: Vec<ProblemRow>,
    /// What stands for the rows, if there are none.
    pub placeholder: Option<String>,
    pub status: Option<String>,
}

/// What a `SidebarView` holds.
#[verifier::ext_equal]
pub struct SidebarViewModel {
    pub problem_count: Seq<char>,
    pub rows: Seq<ProblemRowModel>,
    pub placeholder: Option<Seq<char>>,
    pub status: Option<Seq<char>>,
}

impl DeepView for SidebarView {
    type V = SidebarViewModel;

    open spec fn deep_view(&self) -> SidebarViewModel {
        SidebarViewModel {
            problem_count: self.problem_count@,
            rows: self.rows.deep_view(),
            placeholder: self.placeholder.deep_view(),
            status: self.status.deep_view(),
        }
    }
}

/// The last problem before a place among the places that are listed.
pub open spec fn last_before(problems: Seq<ProblemModel>, places: Seq<usize>, n: nat) -> Option<
    ProblemModel,
>
    decreases n,
{
    if n == 0 {
        None
    } else if places[n - 1] < problems.len() {
        Some(problems[places[n - 1] as int])
    } else {
        last_before(problems, places, (n - 1) as nat)
    }
}

/// Whether the rows below a group are shown.
pub open spec fn shows_group(expanded: ExpandedRowsModel, expand_all: bool, group: Seq<char>) -> bool {
    expand_all || expanded.groups.contains(group)
}

/// Whether the rows below a contest are shown.
pub open spec fn shows_contest(
    expanded: ExpandedRowsModel,
    expand_all: bool,
    problem: ProblemModel,
) -> bool {
    expand_all || expanded.contests.contains((problem.contest_group, problem.contest_segment))
}

/// The row of the group of a problem.
pub open spec fn group_row(expanded: ExpandedRowsModel, expand_all: bool, problem: ProblemModel)
    -> ProblemListEntryModel {
    ProblemListEntryModel::Group {
        group: problem.contest_group,
        is_expanded: shows_group(expanded, expand_all, problem.contest_group),
    }
}

/// The row of the contest of a problem.
pub open spec fn contest_row(expanded: ExpandedRowsModel, expand_all: bool, problem: ProblemModel)
    -> ProblemListEntryModel {
    ProblemListEntryModel::Contest {
        group: problem.contest_group,
        segment: problem.contest_segment,
        is_expanded: shows_contest(expanded, expand_all, problem),
    }
}

/// The rows that a problem adds to those of the problems before it: that of its group and that of
/// its contest, where these begin, and its own, as far as the rows above it show what is below.
pub open spec fn rows_for(
    previous: Option<ProblemModel>,
    problem: ProblemModel,
    place: usize,
    expanded: ExpandedRowsModel,
    expand_all: bool,
) -> Seq<ProblemListEntryModel> {
    let new_group = match previous {
        Some(previous) => previous.contest_group != problem.contest_group,
        None => true,
    };
    let new_contest = new_group || previous->0.contest_segment != problem.contest_segment;
    (if new_group {
        seq![group_row(expanded, expand_all, problem)]
    } else {
        seq![]
    }) + (if shows_group(expanded, expand_all, problem.contest_group) {
        (if new_contest {
            seq![contest_row(expanded, expand_all, problem)]
        } else {
            seq![]
        }) + (if shows_contest(expanded, expand_all, problem) {
            seq![ProblemListEntryModel::Problem { problem_index: place }]
        } else {
            seq![]
        })
    } else {
        seq![]
    })
}

/// The rows for the first `n` places.
pub open spec fn rows_before(
    problems: Seq<ProblemModel>,
    places: Seq<usize>,
    expanded: ExpandedRowsModel,
    expand_all: bool,
    n: nat,
) -> Seq<ProblemListEntryModel>
    decreases n,
{
    if n == 0 {
        seq![]
    } else {
        let m = (n - 1) as nat;
        let before = rows_before(problems, places, expanded, expand_all, m);
        if places[m as int] < problems.len() {
            before + rows_for(
                last_before(problems, places, m),
                problems[places[m as int] as int],
                places[m as int],
                expanded,
                expand_all,
            )
        } else {
            before
        }
    }
}

/// The rows of the tree.
pub open spec fn tree(
    problems: Seq<ProblemModel>,
    places: Seq<usize>,
    expanded: ExpandedRowsModel,
    expand_all: bool,
) -> Seq<ProblemListEntryModel> {
    rows_before(problems, places, expanded, expand_all, places.len())
}

/// The rows of the tree.
pub fn problem_list_entries(
    problems: &Vec<Problem>,
    filtered_problem_indices: &Vec<usize>,
    expanded: &ExpandedRows,
    expand_all: bool,
) -> (r: Vec<ProblemListEntry>)
    ensures
        r.deep_view() == tree(
            problems.deep_view(),
            filtered_problem_indices@,
            expanded.deep_view(),
            expand_all,
        ),
{
    let ghost all = problems.deep_view();
    let ghost places = filtered_problem_indices@;
    let ghost model = expanded.deep_view();
    let mut entries: Vec<ProblemListEntry> = Vec::new();
    let mut previous: Option<usize> = None;
    let mut i: usize = 0;
    assert(entries.deep_view() =~= rows_before(all, places, model, expand_all, 0));
    while i < filtered_problem_indices.len()
        invariant
            i <= places.len(),
            all == problems.deep_view(),
            places == filtered_problem_indices@,
            model == expanded.deep_view(),
            match previous {
                Some(k) => k < problems@.len() && last_before(all, places, i as nat) == Some(
                    problems@[k as int].deep_view(),
                ),
                None => last_before(all, places, i as nat) is None,
            },
            entries.deep_view() == rows_before(all, places, model, expand_all, i as nat),
        decreases places.len() - i,
    {
        let place: usize = filtered_problem_indices[i];
        if place < problems.len() {
            let ghost before = entries.deep_view();
            let problem = &problems[place];
            assert(all[place as int] == problem.deep_view());
            let group = problem.contest_group.as_str();
            let segment = problem.contest_segment.as_str();
            let (new_group, new_contest) = match previous {
                Some(k) => {
                    let new_group = !text::same(problems[k].contest_group.as_str(), group);
                    (
                        new_group,
                        new_group || !text::same(problems[k].contest_segment.as_str(), segment),
                    )
                },
                None => (true, true),
            };
            let group_open = expand_all || expanded.has_group(group);
            let contest_open = expand_all || expanded.has_contest(group, segment);
            if new_group {
                entries.push(
                    ProblemListEntry::Group { group: group.to_owned(), is_expanded: group_open },
                );
            }
            if group_open {
                if new_contest {
                    entries.push(
                        ProblemListEntry::Contest {
                            group: group.to_owned(),
                            segment: segment.to_owned(),
                            is_expanded: contest_open,
                        },
                    );
                }
                if contest_open {
                    entries.push(ProblemListEntry::Problem { problem_index: place });
                }
            }
            assert(entries.deep_view() =~= before + rows_for(
                last_before(all, places, i as nat),
                all[place as int],
                place,
                model,
                expand_all,
            ));
            previous = Some(place);
        }
        i += 1;
    }
    entries
}

impl ProblemListEntryModel {
    /// How far a row is indented.
    pub open spec fn depth(self) -> usize {
        match self {
            ProblemListEntryModel::Group { .. } => 0,
            ProblemListEntryModel::Contest { .. } => 1,
            ProblemListEntryModel::Problem { .. } => 2,
        }
    }
}

impl ProblemListEntry {
    /// How far a row is indented.
    pub fn depth(&self) -> (r: usize)
        ensures
            r == self.deep_view().depth(),
    {
        match self {
            ProblemListEntry::Group { .. } => 0,
            ProblemListEntry::Contest { .. } => 1,
            ProblemListEntry::Problem { .. } => 2,
        }
    }
}

/// The end of a part of the rows that begins at `start` and is meant to end at `end`.
pub open spec fn clamped(start: usize, end: usize, length: nat) -> nat {
    if start >= end || start >= length {
        start as nat
    } else if end <= length {
        end as nat
    } else {
        length
    }
}

/// How far the rows of a part of the tree are indented.
pub fn problem_list_entry_depths(entries: &Vec<ProblemListEntry>, start: usize, end: usize) -> (r:
    Vec<usize>)
    ensures
        r@ == Seq::new(
            (clamped(start, end, entries@.len()) - start) as nat,
            |i: int| entries.deep_view()[start + i].depth(),
        ),
{
    let ghost all = entries.deep_view();
    let mut depths: Vec<usize> = Vec::new();
    let mut i: usize = start;
    while i < end && i < entries.len()
        invariant
            all == entries.deep_view(),
            start <= i,
            i <= clamped(start, end, entries@.len()),
            depths@ == Seq::new((i - start) as nat, |k: int| all[start + k].depth()),
        decreases end - i,
    {
        assert(all[i as int] == entries@[i as int].deep_view());
        depths.push(entries[i].depth());
        i += 1;
        assert(depths@ =~= Seq::new((i - start) as nat, |k: int| all[start + k].depth()));
    }
    depths
}

/// The rows of a part of the tree with how far each is indented.
pub fn problem_list_sticky_candidates(entries: &Vec<ProblemListEntry>, start: usize, end: usize)
    -> (r: Vec<(usize, usize)>)
    ensures
        r@ == Seq::new(
            (clamped(start, end, entries@.len()) - start) as nat,
            |i: int| ((start + i) as usize, entries.deep_view()[start + i].depth()),
        ),
{
    let ghost all = entries.deep_view();
    let mut candidates: Vec<(usize, usize)> = Vec::new();
    let mut i: usize = start;
    while i < end && i < entries.len()
        invariant
            all == entries.deep_view(),
            start <= i,
            i <= clamped(start, end, entries@.len()),
            candidates@ == Seq::new(
                (i - start) as nat,
                |k: int| ((start + k) as usize, all[start + k].depth()),
            ),
        decreases end - i,
    {
        assert(all[i as int] == entries@[i as int].deep_view());
        candidates.push((i, entries[i].depth()));
        i += 1;
        assert(candidates@ =~= Seq::new(
            (i - start) as nat,
            |k: int| ((start + k) as usize, all[start + k].depth()),
        ));
    }
    candidates
}

/// The last row of a group before a row.
pub open spec fn group_above(entries: Seq<ProblemListEntryModel>, group: Seq<char>, end: int) -> Seq<
    ProblemListEntryModel,
>
    decreases end,
{
    if end <= 0 {
        seq![]
    } else if entries[end - 1] is Group && entries[end - 1]->Group_group == group {
        seq![entries[end - 1]]
    } else {
        group_above(entries, group, end - 1)
    }
}

/// The last row of a contest before a row.
pub open spec fn contest_above(
    entries: Seq<ProblemListEntryModel>,
    group: Seq<char>,
    segment: Seq<char>,
    end: int,
) -> Seq<ProblemListEntryModel>
    decreases end,
{
    if end <= 0 {
        seq![]
    } else if entries[end - 1] is Contest && entries[end - 1]->Contest_group == group
        && entries[end - 1]->Contest_segment == segment {
        seq![entries[end - 1]]
    } else {
        contest_above(entries, group, segment, end - 1)
    }
}

/// The rows above a row that it belongs to, from the outermost on.
pub open spec fn ancestors(
    problems: Seq<ProblemModel>,
    entries: Seq<ProblemListEntryModel>,
    child: usize,
) -> Seq<ProblemListEntryModel> {
    if child >= entries.len() {
        seq![]
    } else {
        match entries[child as int] {
            ProblemListEntryModel::Group { .. } => seq![],
            ProblemListEntryModel::Contest { group, .. } => group_above(
                entries,
                group,
                child as int,
            ),
            ProblemListEntryModel::Problem { problem_index } => if problem_index < problems.len() {
                let problem = problems[problem_index as int];
                group_above(entries, problem.contest_group, child as int) + contest_above(
                    entries,
                    problem.contest_group,
                    problem.contest_segment,
                    child as int,
                )
            } else {
                seq![]
            },
        }
    }
}

fn push_group_above(
    entries: &Vec<ProblemListEntry>,
    group: &str,
    end: usize,
    out: &mut Vec<ProblemListEntry>,
)
    requires
        end <= entries@.len(),
    ensures
        final(out).deep_view() == old(out).deep_view() + group_above(
            entries.deep_view(),
            group@,
            end as int,
        ),
{
    let ghost all = entries.deep_view();
    let ghost before = out.deep_view();
    let mut i: usize = end;
    while i > 0
        invariant
            i <= end <= entries@.len(),
            all == entries.deep_view(),
            before == old(out).deep_view(),
            out.deep_view() == before,
            group_above(all, group@, end as int) == group_above(all, group@, i as int),
        decreases i,
    {
        assert(all[i - 1] == entries@[i - 1].deep_view());
        if let ProblemListEntry::Group { group: candidate, .. } = &entries[i - 1] {
            if text::same(candidate.as_str(), group) {
                out.push(entries[i - 1].duplicate());
                assert(out.deep_view() =~= before + group_above(all, group@, i as int));
                return;
            }
        }
        i -= 1;
    }
    assert(out.deep_view() =~= before + group_above(all, group@, 0));
}

fn push_contest_above(
    entries: &Vec<ProblemListEntry>,
    group: &str,
    segment: &str,
    end: usize,
    out: &mut Vec<ProblemListEntry>,
)
    requires
        end <= entries@.len(),
    ensures
        final(out).deep_view() == old(out).deep_view() + contest_above(
            entries.deep_view(),
            group@,
            segment@,
            end as int,
        ),
{
    let ghost all = entries.deep_view();
    let ghost before = out.deep_view();
    let mut i: usize = end;
    while i > 0
        invariant
            i <= end <= entries@.len(),
            all == entries.deep_view(),
            before == old(out).deep_view(),
            out.deep_view() == before,
            contest_above(all, group@, segment@, end as int) == contest_above(
                all,
                group@,
                segment@,
                i as int,
            ),
        decreases i,
    {
        assert(all[i - 1] == entries@[i - 1].deep_view());
        if let ProblemListEntry::Contest { group: candidate, segment: part, .. } = &entries[i - 1] {
            if text::same(candidate.as_str(), group) && text::same(part.as_str(), segment) {
                out.push(entries[i - 1].duplicate());
                assert(out.deep_view() =~= before + contest_above(all, group@, segment@, i as int));
                return;
            }
        }
        i -= 1;
    }
    assert(out.deep_view() =~= before + contest_above(all, group@, segment@, 0));
}

/// The rows above a row that it belongs to, from the outermost on.
pub fn problem_list_sticky_ancestors(
    problems: &Vec<Problem>,
    entries: &Vec<ProblemListEntry>,
    child: usize,
) -> (r: Vec<ProblemListEntry>)
    ensures
        r.deep_view() == ancestors(problems.deep_view(), entries.deep_view(), child),
{
    let mut out: Vec<ProblemListEntry> = Vec::new();
    assert(out.deep_view() =~= Seq::<ProblemListEntryModel>::empty());
    if child >= entries.len() {
        return out;
    }
    assert(entries.deep_view()[child as int] == entries@[child as int].deep_view());
    match &entries[child] {
        ProblemListEntry::Group { .. } => {},
        ProblemListEntry::Contest { group, .. } => {
            push_group_above(entries, group.as_str(), child, &mut out);
        },
        ProblemListEntry::Problem { problem_index } => {
            if *problem_index < problems.len() {
                let problem = &problems[*problem_index];
                assert(problems.deep_view()[*problem_index as int] == problem.deep_view());
                push_group_above(entries, problem.contest_group.as_str(), child, &mut out);
                push_contest_above(
                    entries,
                    problem.contest_group.as_str(),
                    problem.contest_segment.as_str(),
                    child,
                    &mut out,
                );
            }
        },
    }
    assert(out.deep_view() =~= ancestors(problems.deep_view(), entries.deep_view(), child));
    out
}

/// What is shown of a row of the tree. A problem without a title is shown by its id.
pub open spec fn row_of(
    problems: Seq<ProblemModel>,
    selected: Option<Seq<char>>,
    entry: ProblemListEntryModel,
) -> Option<ProblemRowModel> {
    match entry {
        ProblemListEntryModel::Group { group, is_expanded } => Some(
            ProblemRowModel {
                depth: 0,
                is_selected: false,
                is_expanded: Some(is_expanded),
                text: group,
                is_muted: false,
            },
        ),
        ProblemListEntryModel::Contest { group, segment, is_expanded } => Some(
            ProblemRowModel {
                depth: 1,
                is_selected: false,
                is_expanded: Some(is_expanded),
                text: segment,
                is_muted: true,
            },
        ),
        ProblemListEntryModel::Problem { problem_index } => if problem_index < problems.len() {
            let problem = problems[problem_index as int];
            Some(
                ProblemRowModel {
                    depth: 2,
                    is_selected: selected == Some(problem.id),
                    is_expanded: None,
                    text: if seqs::is_blank(problem.title) {
                        problem.id
                    } else {
                        problem.title
                    },
                    is_muted: false,
                },
            )
        } else {
            None
        },
    }
}

/// What is shown of a row of the tree; `selected` is the id of the problem that is open.
pub fn render_problem_list_entry(
    problems: &Vec<Problem>,
    selected: &Option<String>,
    entry: &ProblemListEntry,
) -> (r: Option<ProblemRow>)
    ensures
        r.deep_view() == row_of(problems.deep_view(), selected.deep_view(), entry.deep_view()),
{
    match entry {
        ProblemListEntry::Group { group, is_expanded } => Some(
            ProblemRow {
                depth: 0,
                is_selected: false,
                is_expanded: Some(*is_expanded),
                text: group.clone(),
                is_muted: false,
            },
        ),
        ProblemListEntry::Contest { group: _, segment, is_expanded } => Some(
            ProblemRow {
                depth: 1,
                is_selected: false,
                is_expanded: Some(*is_expanded),
                text: segment.clone(),
                is_muted: true,
            },
        ),
        ProblemListEntry::Problem { problem_index } => {
            if *problem_index >= problems.len() {
                return None;
            }
            let problem = &problems[*problem_index];
            assert(problems.deep_view()[*problem_index as int] == problem.deep_view());
            let is_selected = match selected {
                Some(id) => text::same(id.as_str(), problem.id.as_str()),
                None => false,
            };
            Some(
                ProblemRow {
                    depth: 2,
                    is_selected,
                    is_expanded: None,
                    text: if text::is_blank_str(problem.title.as_str()) {
                        problem.id.clone()
                    } else {
                        problem.title.clone()
                    },
                    is_muted: false,
                },
            )
        },
    }
}

/// What is shown of the rows of the tree.
pub open spec fn shown_rows(
    problems: Seq<ProblemModel>,
    selected: Option<Seq<char>>,
    entries: Seq<ProblemListEntryModel>,
) -> Seq<ProblemRowModel>
    decreases entries.len(),
{
    if entries.len() == 0 {
        seq![]
    } else {
        let before = shown_rows(problems, selected, entries.drop_last());
        match row_of(problems, selected, entries.last()) {
            Some(row) => before.push(row),
            None => before,
        }
    }
}

/// What is shown of the list. All rows are shown while the user searches for something.
pub open spec fn sidebar(
    problems: Seq<ProblemModel>,
    places: Seq<usize>,
    expanded: ExpandedRowsModel,
    query: Seq<char>,
    selected: Option<Seq<char>>,
    is_loading: bool,
    status: Seq<char>,
) -> SidebarViewModel {
    let entries = tree(problems, places, expanded, !seqs::is_blank(query));
    SidebarViewModel {
        problem_count: seqs::decimal(problems.len()) + " problems"@,
        rows: shown_rows(problems, selected, entries),
        placeholder: if entries.len() == 0 {
            Some(
                if is_loading {
                    "Loading problems..."@
                } else {
                    "No problems found."@
                },
            )
        } else {
            None
        },
        status: if status.len() == 0 {
            None
        } else {
            Some(status)
        },
    }
}

/// What is shown of the list.
pub fn render_sidebar(
    problems: &Vec<Problem>,
    filtered_problem_indices: &Vec<usize>,
    expanded: &ExpandedRows,
    query: &str,
    selected: &Option<String>,
    is_loading: bool,
    status: &str,
) -> (r: SidebarView)
    ensures
        r.deep_view() == sidebar(
            problems.deep_view(),
            filtered_problem_indices@,
            expanded.deep_view(),
            query@,
            selected.deep_view(),
            is_loading,
            status@,
        ),
{
    let expand_all = !text::is_blank_str(query);
    let entries = problem_list_entries(problems, filtered_problem_indices, expanded, expand_all);
    let ghost all = entries.deep_view();
    let ghost listed = problems.deep_view();
    let ghost id = selected.deep_view();
    let mut rows: Vec<ProblemRow> = Vec::new();
    let mut i: usize = 0;
    assert(rows.deep_view() =~= shown_rows(listed, id, all.take(0)));
    while i < entries.len()
        invariant
            i <= entries@.len(),
            all == entries.deep_view(),
            listed == problems.deep_view(),
            id == selected.deep_view(),
            rows.deep_view() == shown_rows(listed, id, all.take(i as int)),
        decreases entries@.len() - i,
    {
        let ghost before = rows.deep_view();
        assert(all.take(i + 1).drop_last() =~= all.take(i as int));
        assert(all.take(i + 1).last() == entries@[i as int].deep_view());
        if let Some(row) = render_problem_list_entry(problems, selected, &entries[i]) {
            rows.push(row);
            assert(rows.deep_view() =~= before.push(row.deep_view()));
        }
        i += 1;
    }
    assert(all.take(i as int) =~= all);
    let count = text::decimal(problems.len() as u64);
    let placeholder = if entries.len() == 0 {
        Some(
            if is_loading {
                "Loading problems...".to_owned()
            } else {
                "No problems found.".to_owned()
            },
        )
    } else {
        None
    };
    let status = if status.is_empty() {
        None
    } else {
        Some(status.to_owned())
    };
    SidebarView {
        problem_count: text::string_of(&count).concat(" problems"),
        rows,
        placeholder,
        status,
    }
}

/// Whether a row is that of a group.
pub open spec fn is_row_of_group(entry: ProblemListEntryModel, group: Seq<char>) -> bool {
    entry matches ProblemListEntryModel::Group { group: name, .. } && name == group
}

/// Whether a row is that of a contest.
pub open spec fn is_row_of_contest(entry: ProblemListEntryModel, problem: ProblemModel) -> bool {
    entry matches ProblemListEntryModel::Contest { group, segment, .. } && group
        == problem.contest_group && segment == problem.contest_segment
}

proof fn group_above_finds(entries: Seq<ProblemListEntryModel>, group: Seq<char>, end: int, k: int)
    requires
        0 <= k < end <= entries.len(),
        is_row_of_group(entries[k], group),
    ensures
        group_above(entries, group, end).len() == 1,
        is_row_of_group(group_above(entries, group, end)[0], group),
    decreases end,
{
    if !(entries[end - 1] is Group && entries[end - 1]->Group_group == group) {
        group_above_finds(entries, group, end - 1, k);
    }
}

proof fn contest_above_finds(
    entries: Seq<ProblemListEntryModel>,
    problem: ProblemModel,
    end: int,
    k: int,
)
    requires
        0 <= k < end <= entries.len(),
        is_row_of_contest(entries[k], problem),
    ensures
        contest_above(entries, problem.contest_group, problem.contest_segment, end).len() == 1,
        is_row_of_contest(
            contest_above(entries, problem.contest_group, problem.contest_segment, end)[0],
            problem,
        ),
    decreases end,
{
    if !(entries[end - 1] is Contest && entries[end - 1]->Contest_group == problem.contest_group
        && entries[end - 1]->Contest_segment == problem.contest_segment) {
        contest_above_finds(entries, problem, end - 1, k);
    }
}

/// Whether the row of a group is among the first `end` rows.
spec fn has_group_row(entries: Seq<ProblemListEntryModel>, group: Seq<char>, end: int) -> bool {
    exists|k: int| 0 <= k < end && is_row_of_group(#[trigger] entries[k], group)
}

/// Whether the row of a contest is among the first `end` rows.
spec fn has_contest_row(entries: Seq<ProblemListEntryModel>, problem: ProblemModel, end: int) -> bool {
    exists|k: int| 0 <= k < end && is_row_of_contest(#[trigger] entries[k], problem)
}

/// Whether what a row belongs to is above it.
spec fn belongs(
    problems: Seq<ProblemModel>,
    entries: Seq<ProblemListEntryModel>,
    k: int,
) -> bool {
    match entries[k] {
        ProblemListEntryModel::Group { .. } => true,
        ProblemListEntryModel::Contest { group, .. } => has_group_row(entries, group, k),
        ProblemListEntryModel::Problem { problem_index } => {
            &&& problem_index < problems.len()
            &&& has_group_row(entries, problems[problem_index as int].contest_group, k)
            &&& has_contest_row(entries, problems[problem_index as int], k)
        },
    }
}

proof fn rows_are_kept(
    first: Seq<ProblemListEntryModel>,
    second: Seq<ProblemListEntryModel>,
    problems: Seq<ProblemModel>,
)
    ensures
        forall|group: Seq<char>, end: int|
            0 <= end <= first.len() && #[trigger] has_group_row(first, group, end)
                ==> has_group_row(first + second, group, end),
        forall|problem: ProblemModel, end: int|
            0 <= end <= first.len() && #[trigger] has_contest_row(first, problem, end)
                ==> has_contest_row(first + second, problem, end),
        forall|k: int|
            0 <= k < first.len() && #[trigger] belongs(problems, first, k) ==> belongs(
                problems,
                first + second,
                k,
            ),
{
    let both = first + second;
    assert forall|group: Seq<char>, end: int|
        0 <= end <= first.len() && #[trigger] has_group_row(first, group, end) implies has_group_row(
        both,
        group,
        end,
    ) by {
        let k = choose|k: int| 0 <= k < end && is_row_of_group(#[trigger] first[k], group);
        assert(is_row_of_group(both[k], group));
    }
    assert forall|problem: ProblemModel, end: int|
        0 <= end <= first.len() && #[trigger] has_contest_row(
            first,
            problem,
            end,
        ) implies has_contest_row(both, problem, end) by {
        let k = choose|k: int| 0 <= k < end && is_row_of_contest(#[trigger] first[k], problem);
        assert(is_row_of_contest(both[k], problem));
    }
    assert forall|k: int| 0 <= k < first.len() && #[trigger] belongs(problems, first, k) implies
        belongs(problems, both, k) by {
        assert(both[k] == first[k]);
    }
}

proof fn rows_belong(
    problems: Seq<ProblemModel>,
    places: Seq<usize>,
    expanded: ExpandedRowsModel,
    expand_all: bool,
    n: nat,
)
    requires
        n <= places.len(),
    ensures
        ({
            let rows = rows_before(problems, places, expanded, expand_all, n);
            &&& forall|k: int| 0 <= k < rows.len() ==> #[trigger] belongs(problems, rows, k)
            &&& last_before(problems, places, n) matches Some(last) ==> {
                &&& has_group_row(rows, last.contest_group, rows.len() as int)
                &&& shows_group(expanded, expand_all, last.contest_group) ==> has_contest_row(
                    rows,
                    last,
                    rows.len() as int,
                )
            }
        }),
    decreases n,
{
    if n > 0 {
        let m = (n - 1) as nat;
        rows_belong(problems, places, expanded, expand_all, m);
        let before = rows_before(problems, places, expanded, expand_all, m);
        let place = places[m as int];
        if place < problems.len() {
            let problem = problems[place as int];
            let previous = last_before(problems, places, m);
            let added = rows_for(previous, problem, place, expanded, expand_all);
            let rows = before + added;
            rows_are_kept(before, added, problems);
            let new_group = match previous {
                Some(previous) => previous.contest_group != problem.contest_group,
                None => true,
            };
            let new_contest = new_group || previous->0.contest_segment != problem.contest_segment;
            let group_open = shows_group(expanded, expand_all, problem.contest_group);
            let group_place = before.len() as int;
            let contest_place = if new_group {
                before.len() + 1int
            } else {
                before.len() as int
            };
            if new_group {
                assert(rows[group_place] == group_row(expanded, expand_all, problem));
                assert(is_row_of_group(rows[group_place], problem.contest_group));
            } else {
                let k = choose|k: int|
                    0 <= k < before.len() && is_row_of_group(
                        #[trigger] before[k],
                        problem.contest_group,
                    );
                assert(is_row_of_group(rows[k], problem.contest_group));
            }
            assert(has_group_row(rows, problem.contest_group, contest_place));
            if group_open {
                if new_contest {
                    assert(rows[contest_place] == contest_row(expanded, expand_all, problem));
                    assert(is_row_of_contest(rows[contest_place], problem));
                } else {
                    let last = previous->0;
                    let k = choose|k: int|
                        0 <= k < before.len() && is_row_of_contest(#[trigger] before[k], last);
                    assert(is_row_of_contest(rows[k], problem));
                }
            }
            assert forall|k: int| 0 <= k < rows.len() implies #[trigger] belongs(
                problems,
                rows,
                k,
            ) by {
                if k < before.len() {
                    assert(belongs(problems, before, k));
                } else {
                    assert(rows[k] == added[k - before.len()]);
                }
            }
        }
    }
}

/// Each row of the tree belongs to rows above it: the row of a contest to that of its group, the
/// row of a problem to that of its group and that of its contest, and those are what is shown while
/// the user scrolls through what is below them.
pub proof fn rows_have_ancestors(
    problems: Seq<ProblemModel>,
    places: Seq<usize>,
    expanded: ExpandedRowsModel,
    expand_all: bool,
    child: usize,
)
    requires
        child < tree(problems, places, expanded, expand_all).len(),
    ensures
        ({
            let entries = tree(problems, places, expanded, expand_all);
            let above = ancestors(problems, entries, child);
            match entries[child as int] {
                ProblemListEntryModel::Group { .. } => above.len() == 0,
                ProblemListEntryModel::Contest { group, .. } => above.len() == 1
                    && is_row_of_group(above[0], group),
                ProblemListEntryModel::Problem { problem_index } => {
                    &&& problem_index < problems.len()
                    &&& above.len() == 2
                    &&& is_row_of_group(above[0], problems[problem_index as int].contest_group)
                    &&& is_row_of_contest(above[1], problems[problem_index as int])
                },
            }
        }),
{
    let entries = tree(problems, places, expanded, expand_all);
    rows_belong(problems, places, expanded, expand_all, places.len());
    assert(belongs(problems, entries, child as int));
    match entries[child as int] {
        ProblemListEntryModel::Group { .. } => {},
        ProblemListEntryModel::Contest { group, .. } => {
            let k = choose|k: int| 0 <= k < child && is_row_of_group(#[trigger] entries[k], group);
            group_above_finds(entries, group, child as int, k);
        },
        ProblemListEntryModel::Problem { problem_index } => {
            let problem = problems[problem_index as int];
            let k = choose|k: int|
                0 <= k < child && is_row_of_group(#[trigger] entries[k], problem.contest_group);
            group_above_finds(entries, problem.contest_group, child as int, k);
            let m = choose|m: int|
                0 <= m < child && is_row_of_contest(#[trigger] entries[m], problem);
            contest_above_finds(entries, problem, child as int, m);
        },
    }
}

/// The places of the problems that have rows of their own.
pub open spec fn problem_rows(entries: Seq<ProblemListEntryModel>) -> Seq<usize>
    decreases entries.len(),
{
    if entries.len() == 0 {
        seq![]
    } else {
        let before = problem_rows(entries.drop_last());
        match entries.last() {
            ProblemListEntryModel::Problem { problem_index } => before.push(problem_index),
            _ => before,
        }
    }
}

proof fn problem_rows_of_sum(
    first: Seq<ProblemListEntryModel>,
    second: Seq<ProblemListEntryModel>,
)
    ensures
        problem_rows(first + second) == problem_rows(first) + problem_rows(second),
    decreases second.len(),
{
    if second.len() == 0 {
        assert(first + second =~= first);
        assert(problem_rows(first) + problem_rows(second) =~= problem_rows(first));
    } else {
        assert((first + second).drop_last() =~= first + second.drop_last());
        assert((first + second).last() == second.last());
        problem_rows_of_sum(first, second.drop_last());
        assert(problem_rows(first + second) =~= problem_rows(first) + problem_rows(second));
    }
}

proof fn search_rows_before(
    problems: Seq<ProblemModel>,
    places: Seq<usize>,
    expanded: ExpandedRowsModel,
    n: nat,
)
    requires
        n <= places.len(),
        forall|i: int| 0 <= i < places.len() ==> #[trigger] places[i] < problems.len(),
    ensures
        problem_rows(rows_before(problems, places, expanded, true, n)) == places.take(n as int),
    decreases n,
{
    if n == 0 {
        assert(places.take(0) =~= Seq::<usize>::empty());
    } else {
        let m = (n - 1) as nat;
        search_rows_before(problems, places, expanded, m);
        let place = places[m as int];
        let before = rows_before(problems, places, expanded, true, m);
        let added = rows_for(
            last_before(problems, places, m),
            problems[place as int],
            place,
            expanded,
            true,
        );
        problem_rows_of_sum(before, added);
        reveal_with_fuel(problem_rows, 4);
        assert(added.last() == ProblemListEntryModel::Problem { problem_index: place });
        let rest = added.drop_last();
        if rest.len() > 0 {
            assert(rest.drop_last().len() == 0 || rest.drop_last().drop_last().len() == 0);
        }
        assert(problem_rows(added) =~= seq![place]);
        assert(places.take(n as int) =~= places.take(m as int).push(place));
        assert(problem_rows(before + added) =~= places.take(n as int));
    }
}

/// While the user searches for something, each problem that is found has its row, in the order in
/// which they are listed, whatever is expanded.
pub proof fn search_shows_all_found(
    problems: Seq<ProblemModel>,
    places: Seq<usize>,
    expanded: ExpandedRowsModel,
)
    requires
        forall|i: int| 0 <= i < places.len() ==> #[trigger] places[i] < problems.len(),
    ensures
        problem_rows(tree(problems, places, expanded, true)) == places,
{
    search_rows_before(problems, places, expanded, places.len());
    assert(places.take(places.len() as int) =~= places);
}

/// Whether the contest of a row comes before that of another, or before that of a problem.
pub open spec fn contest_less(
    group: Seq<char>,
    segment: Seq<char>,
    other_group: Seq<char>,
    other_segment: Seq<char>,
) -> bool {
    seqs::less(group, other_group) || (group == other_group && seqs::less(segment, other_segment))
}

/// Whether the groups of the rows are in order, and the contests of the rows are.
pub open spec fn is_ordered(entries: Seq<ProblemListEntryModel>) -> bool {
    forall|i: int, j: int|
        0 <= i < j < entries.len() ==> match (#[trigger] entries[i], #[trigger] entries[j]) {
            (
                ProblemListEntryModel::Group { group, .. },
                ProblemListEntryModel::Group { group: other, .. },
            ) => seqs::less(group, other),
            (
                ProblemListEntryModel::Contest { group, segment, .. },
                ProblemListEntryModel::Contest { group: other, segment: other_segment, .. },
            ) => contest_less(group, segment, other, other_segment),
            _ => true,
        }
}

spec fn is_up_to(entry: ProblemListEntryModel, problem: ProblemModel) -> bool {
    match entry {
        ProblemListEntryModel::Group { group, .. } => group == problem.contest_group
            || seqs::less(group, problem.contest_group),
        ProblemListEntryModel::Contest { group, segment, .. } => (group == problem.contest_group
            && segment == problem.contest_segment) || contest_less(
            group,
            segment,
            problem.contest_group,
            problem.contest_segment,
        ),
        ProblemListEntryModel::Problem { .. } => true,
    }
}

proof fn up_to_later(
    entry: ProblemListEntryModel,
    problem: ProblemModel,
    later: ProblemModel,
)
    requires
        is_up_to(entry, problem),
        list::key_less(problem, later) || list::same_key(problem, later),
    ensures
        is_up_to(entry, later),
        entry is Group && problem.contest_group != later.contest_group ==> seqs::less(
            entry->Group_group,
            later.contest_group,
        ),
        entry is Contest && (problem.contest_group != later.contest_group
            || problem.contest_segment != later.contest_segment) ==> contest_less(
            entry->Contest_group,
            entry->Contest_segment,
            later.contest_group,
            later.contest_segment,
        ),
{
    match entry {
        ProblemListEntryModel::Group { group, .. } => {
            list::less_is_order(group, problem.contest_group, later.contest_group);
        },
        ProblemListEntryModel::Contest { group, segment, .. } => {
            list::less_is_order(group, problem.contest_group, later.contest_group);
            list::less_is_order(segment, problem.contest_segment, later.contest_segment);
        },
        ProblemListEntryModel::Problem { .. } => {},
    }
}

proof fn rows_before_are_ordered(
    problems: Seq<ProblemModel>,
    places: Seq<usize>,
    expanded: ExpandedRowsModel,
    expand_all: bool,
    n: nat,
)
    requires
        n <= places.len(),
        forall|i: int| 0 <= i < places.len() ==> #[trigger] places[i] < problems.len(),
        list::is_sorted(problems, places),
    ensures
        is_ordered(rows_before(problems, places, expanded, expand_all, n)),
        n == 0 ==> rows_before(problems, places, expanded, expand_all, n).len() == 0,
        n > 0 ==> forall|i: int|
            0 <= i < rows_before(problems, places, expanded, expand_all, n).len() ==> is_up_to(
                #[trigger] rows_before(problems, places, expanded, expand_all, n)[i],
                problems[places[n - 1] as int],
            ),
    decreases n,
{
    if n > 0 {
        let m = (n - 1) as nat;
        rows_before_are_ordered(problems, places, expanded, expand_all, m);
        let before = rows_before(problems, places, expanded, expand_all, m);
        let problem = problems[places[m as int] as int];
        let previous = last_before(problems, places, m);
        let added = rows_for(previous, problem, places[m as int], expanded, expand_all);
        let rows = before + added;
        assert(rows == rows_before(problems, places, expanded, expand_all, n));
        if m > 0 {
            assert(list::comes_before(problems, places[m - 1], places[m as int]));
            assert(previous == Some(problems[places[m - 1] as int]));
            assert forall|i: int| 0 <= i < before.len() implies is_up_to(
                #[trigger] before[i],
                problem,
            ) && (before[i] is Group && previous->0.contest_group != problem.contest_group
                ==> seqs::less(before[i]->Group_group, problem.contest_group)) && (
            before[i] is Contest && (previous->0.contest_group != problem.contest_group
                || previous->0.contest_segment != problem.contest_segment) ==> contest_less(
                before[i]->Contest_group,
                before[i]->Contest_segment,
                problem.contest_group,
                problem.contest_segment,
            )) by {
                up_to_later(before[i], previous->0, problem);
            }
        }
        assert forall|i: int| 0 <= i < rows.len() implies is_up_to(#[trigger] rows[i], problem) by {
            if i < before.len() {
                assert(rows[i] == before[i]);
            }
        }
        assert(is_ordered(rows)) by {
            assert forall|i: int, j: int| 0 <= i < j < rows.len() implies match (
                #[trigger] rows[i],
                #[trigger] rows[j],
            ) {
                (
                    ProblemListEntryModel::Group { group, .. },
                    ProblemListEntryModel::Group { group: other, .. },
                ) => seqs::less(group, other),
                (
                    ProblemListEntryModel::Contest { group, segment, .. },
                    ProblemListEntryModel::Contest { group: other, segment: other_segment, .. },
                ) => contest_less(group, segment, other, other_segment),
                _ => true,
            } by {
                if j < before.len() {
                    assert(rows[i] == before[i] && rows[j] == before[j]);
                } else if i < before.len() {
                    assert(rows[i] == before[i]);
                }
            }
        }
    }
}

/// Whether two rows are those of one group, or of one contest.
pub open spec fn is_same_row(a: ProblemListEntryModel, b: ProblemListEntryModel) -> bool {
    match (a, b) {
        (
            ProblemListEntryModel::Group { group, .. },
            ProblemListEntryModel::Group { group: other, .. },
        ) => group == other,
        (
            ProblemListEntryModel::Contest { group, segment, .. },
            ProblemListEntryModel::Contest { group: other, segment: other_segment, .. },
        ) => group == other && segment == other_segment,
        _ => false,
    }
}

/// No group has two rows in the tree, and no contest has; both come in order.
pub proof fn groups_are_listed_once(
    problems: Seq<ProblemModel>,
    query: Seq<char>,
    places: Seq<usize>,
    expanded: ExpandedRowsModel,
    expand_all: bool,
    i: int,
    j: int,
)
    requires
        list::is_listing(problems, query, places),
        0 <= i < j < tree(problems, places, expanded, expand_all).len(),
    ensures
        is_ordered(tree(problems, places, expanded, expand_all)),
        !is_same_row(
            tree(problems, places, expanded, expand_all)[i],
            tree(problems, places, expanded, expand_all)[j],
        ),
{
    assert forall|k: int| 0 <= k < places.len() implies #[trigger] places[k] < problems.len() by {
        assert(places.contains(places[k]));
    }
    rows_before_are_ordered(problems, places, expanded, expand_all, places.len());
    let entries = tree(problems, places, expanded, expand_all);
    match entries[i] {
        ProblemListEntryModel::Group { group, .. } => {
            list::less_is_order(group, group, group);
        },
        ProblemListEntryModel::Contest { group, segment, .. } => {
            list::less_is_order(group, group, group);
            list::less_is_order(segment, segment, segment);
        },
        ProblemListEntryModel::Problem { .. } => {},
    }
}

proof fn rows_depend_on_places_before(
    problems: Seq<ProblemModel>,
    places: Seq<usize>,
    place: usize,
    expanded: ExpandedRowsModel,
    expand_all: bool,
    n: nat,
)
    requires
        n <= places.len(),
    ensures
        rows_before(problems, places.push(place), expanded, expand_all, n) == rows_before(
            problems,
            places,
            expanded,
            expand_all,
            n,
        ),
        last_before(problems, places.push(place), n) == last_before(problems, places, n),
    decreases n,
{
    if n > 0 {
        rows_depend_on_places_before(
            problems,
            places,
            place,
            expanded,
            expand_all,
            (n - 1) as nat,
        );
        assert(places.push(place)[n - 1] == places[n - 1]);
    }
}

/// A problem adds to the rows of those before it the row of its group, if that is another one than
/// that of the problem before; below it, if the group is open, the row of its contest, if that is
/// another one; and below that, if the contest is open, its own row.
pub proof fn problem_adds_its_rows(
    problems: Seq<ProblemModel>,
    places: Seq<usize>,
    place: usize,
    expanded: ExpandedRowsModel,
    expand_all: bool,
)
    requires
        forall|i: int| 0 <= i < places.len() ==> #[trigger] places[i] < problems.len(),
        place < problems.len(),
    ensures
        tree(problems, seq![], expanded, expand_all).len() == 0,
        ({
            let problem = problems[place as int];
            let group = problem.contest_group;
            let segment = problem.contest_segment;
            let group_open = expand_all || expanded.groups.contains(group);
            let contest_open = expand_all || expanded.contests.contains((group, segment));
            let same_group = places.len() > 0 && problems[places.last() as int].contest_group
                == group;
            let same_contest = same_group && problems[places.last() as int].contest_segment
                == segment;
            let none = Seq::<ProblemListEntryModel>::empty();
            tree(problems, places.push(place), expanded, expand_all) == tree(
                problems,
                places,
                expanded,
                expand_all,
            ) + (if same_group {
                none
            } else {
                seq![ProblemListEntryModel::Group { group, is_expanded: group_open }]
            }) + (if group_open && !same_contest {
                seq![ProblemListEntryModel::Contest { group, segment, is_expanded: contest_open }]
            } else {
                none
            }) + (if group_open && contest_open {
                seq![ProblemListEntryModel::Problem { problem_index: place }]
            } else {
                none
            })
        }),
{
    rows_depend_on_places_before(problems, places, place, expanded, expand_all, places.len());
    let after = places.push(place);
    assert(after[places.len() as int] == place);
    let previous = last_before(problems, places, places.len());
    let problem = problems[place as int];
    let before = tree(problems, places, expanded, expand_all);
    let added = rows_for(previous, problem, place, expanded, expand_all);
    assert(tree(problems, after, expanded, expand_all) == before + added);
    if places.len() > 0 {
        assert(previous == Some(problems[places.last() as int]));
    }
    let group = problem.contest_group;
    let segment = problem.contest_segment;
    let group_open = expand_all || expanded.groups.contains(group);
    let contest_open = expand_all || expanded.contests.contains((group, segment));
    let same_group = places.len() > 0 && problems[places.last() as int].contest_group == group;
    let same_contest = same_group && problems[places.last() as int].contest_segment == segment;
    let none = Seq::<ProblemListEntryModel>::empty();
    let first = if same_group {
        none
    } else {
        seq![ProblemListEntryModel::Group { group, is_expanded: group_open }]
    };
    let second = if group_open && !same_contest {
        seq![ProblemListEntryModel::Contest { group, segment, is_expanded: contest_open }]
    } else {
        none
    };
    let third = if group_open && contest_open {
        seq![ProblemListEntryModel::Problem { problem_index: place }]
    } else {
        none
    };
    assert(added =~= first + (second + third));
    assert(before + added =~= before + first + second + third);
}

/// Groups stand at the margin, contests are indented once, and problems twice.
pub proof fn rows_are_indented(entry: ProblemListEntryModel)
    ensures
        entry is Group <==> entry.depth() == 0,
        entry is Contest <==> entry.depth() == 1,
        entry is Problem <==> entry.depth() == 2,
{
}

/// A part of the rows ends where it is meant to, but not behind the last row and not before it
/// begins.
pub proof fn part_ends_within_rows(start: usize, end: usize, length: nat)
    ensures
        start <= end <= length ==> clamped(start, end, length) == end,
        start <= length < end ==> clamped(start, end, length) == length,
        end < start || length < start ==> clamped(start, end, length) == start,
{
}

/// A group is shown by its name, a contest by its segment, and a problem by its title, or without
/// one by its id; the problem that is open is marked, and nothing else is. A problem that is not
/// there is not shown.
pub proof fn rows_show_names(
    problems: Seq<ProblemModel>,
    selected: Option<Seq<char>>,
    entry: ProblemListEntryModel,
)
    ensures
        entry matches ProblemListEntryModel::Group { group, is_expanded } ==> {
            let row = row_of(problems, selected, entry);
            &&& row is Some
            &&& row->0.depth == 0
            &&& !row->0.is_selected
            &&& row->0.is_expanded == Some(is_expanded)
            &&& row->0.text == group
            &&& !row->0.is_muted
        },
        entry matches ProblemListEntryModel::Contest { group, segment, is_expanded } ==> {
            let row = row_of(problems, selected, entry);
            &&& row is Some
            &&& row->0.depth == 1
            &&& !row->0.is_selected
            &&& row->0.is_expanded == Some(is_expanded)
            &&& row->0.text == segment
            &&& row->0.is_muted
        },
        entry matches ProblemListEntryModel::Problem { problem_index } ==> {
            let row = row_of(problems, selected, entry);
            let problem = problems[problem_index as int];
            &&& row is Some <==> problem_index < problems.len()
            &&& row is Some ==> {
                &&& row->0.depth == 2
                &&& row->0.is_selected <==> selected is Some && selected->0 == problem.id
                &&& row->0.is_expanded is None
                &&& seqs::is_blank(problem.title) ==> row->0.text == problem.id
                &&& !seqs::is_blank(problem.title) ==> row->0.text == problem.title
                &&& !row->0.is_muted
            }
        },
{
}

/// The rows are shown one by one, in their order.
pub proof fn rows_are_shown_in_order(
    problems: Seq<ProblemModel>,
    selected: Option<Seq<char>>,
    entries: Seq<ProblemListEntryModel>,
    entry: ProblemListEntryModel,
)
    ensures
        shown_rows(problems, selected, seq![]).len() == 0,
        row_of(problems, selected, entry) is None ==> shown_rows(
            problems,
            selected,
            entries.push(entry),
        ) == shown_rows(problems, selected, entries),
        row_of(problems, selected, entry) is Some ==> shown_rows(
            problems,
            selected,
            entries.push(entry),
        ) == shown_rows(problems, selected, entries).push(row_of(problems, selected, entry)->0),
{
    assert(entries.push(entry).drop_last() =~= entries);
}

/// The list tells how many problems there are, and shows the rows of the tree, all of them while
/// the user searches for something. Without rows it says whether the list is being loaded or there
/// is nothing to show.
pub proof fn list_is_shown(
    problems: Seq<ProblemModel>,
    places: Seq<usize>,
    expanded: ExpandedRowsModel,
    query: Seq<char>,
    selected: Option<Seq<char>>,
    is_loading: bool,
    status: Seq<char>,
)
    ensures
        ({
            let view = sidebar(problems, places, expanded, query, selected, is_loading, status);
            let all = tree(problems, places, expanded, true);
            let open = tree(problems, places, expanded, false);
            let entries = if seqs::is_blank(query) {
                open
            } else {
                all
            };
            &&& view.problem_count == seqs::decimal(problems.len()) + " problems"@
            &&& view.rows == shown_rows(problems, selected, entries)
            &&& entries.len() > 0 ==> view.placeholder is None
            &&& entries.len() == 0 && is_loading ==> view.placeholder == Some(
                "Loading problems..."@,
            )
            &&& entries.len() == 0 && !is_loading ==> view.placeholder == Some(
                "No problems found."@,
            )
            &&& status.len() == 0 ==> view.status is None
            &&& status.len() > 0 ==> view.status == Some(status)
        }),
{
}

/// The row of a group or a contest above a row is the nearest one before it.
pub proof fn nearest_row_is_above(
    entries: Seq<ProblemListEntryModel>,
    group: Seq<char>,
    segment: Seq<char>,
    end: int,
    k: int,
)
    requires
        0 <= k < end <= entries.len(),
    ensures
        entries[k] is Group && entries[k]->Group_group == group && (forall|j: int|
            k < j < end ==> !((#[trigger] entries[j]) is Group && entries[j]->Group_group == group))
            ==> group_above(entries, group, end) == seq![entries[k]],
        entries[k] is Contest && entries[k]->Contest_group == group && entries[k]->Contest_segment
            == segment && (forall|j: int|
            k < j < end ==> !((#[trigger] entries[j]) is Contest && entries[j]->Contest_group
                == group && entries[j]->Contest_segment == segment)) ==> contest_above(
            entries,
            group,
            segment,
            end,
        ) == seq![entries[k]],
    decreases end,
{
    if k < end - 1 {
        nearest_row_is_above(entries, group, segment, end - 1, k);
    }
}
/// The models hold what the values hold, each part under its own name.
pub proof fn models_hold_their_parts(
    problem_list_entry: ProblemListEntry,
    problem_row: ProblemRow,
    sidebar_view: SidebarView,
)
    ensures
        problem_list_entry.deep_view() == match problem_list_entry {
            ProblemListEntry::Group { group, is_expanded } => ProblemListEntryModel::Group {
                group: group@,
                is_expanded: is_expanded,
            },
            ProblemListEntry::Contest {
                group,
                segment,
                is_expanded,
            } => ProblemListEntryModel::Contest {
                group: group@,
                segment: segment@,
                is_expanded: is_expanded,
            },
            ProblemListEntry::Problem { problem_index } => ProblemListEntryModel::Problem {
                problem_index: problem_index,
            },
        },
        problem_row.deep_view() == (ProblemRowModel {
            depth: problem_row.depth,
            is_selected: problem_row.is_selected,
            is_expanded: problem_row.is_expanded,
            text: problem_row.text@,
            is_muted: problem_row.is_muted,
        }),
        sidebar_view.deep_view() == (SidebarViewModel {
            problem_count: sidebar_view.problem_count@,
            rows: sidebar_view.rows.deep_view(),
            placeholder: sidebar_view.placeholder.deep_view(),
            status: sidebar_view.status.deep_view(),
        }),
{
}
} // verus!
