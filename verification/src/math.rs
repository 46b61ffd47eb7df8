//! Formulas in a statement: where they are, how they are laid out, and with which glyphs.

use vstd::prelude::*;

use crate::copying::Duplicate;
use crate::outside;
use crate::seqs;
use crate::strmap::StrMap;
use crate::text;

verus! {

/// What of a formula decides how it is laid out.
pub struct ParsedMathExpressionContents {
    pub contents: String,
    /// Whether it stands on a line of its own.
    pub display_mode: bool,
}

/// What a `ParsedMathExpressionContents` holds.
#[verifier::ext_equal]
pub struct ParsedMathExpressionContentsModel {
    pub contents: Seq<char>,
    pub display_mode: bool,
}

impl DeepView for ParsedMathExpressionContents {
    type V = ParsedMathExpressionContentsModel;

    open spec fn deep_view(&self) -> ParsedMathExpressionContentsModel {
        ParsedMathExpressionContentsModel {
            contents: self.contents@,
            display_mode: self.display_mode,
        }
    }
}

impl Duplicate for ParsedMathExpressionContents {
    fn duplicate(&self) -> (r: Self) {
        ParsedMathExpressionContents {
            contents: self.contents.clone(),
            display_mode: self.display_mode,
        }
    }
}

/// A formula, and where it begins and ends, in bytes.
pub struct ParsedMathExpression {
    pub start: usize,
    pub end: usize,
    pub contents: ParsedMathExpressionContents,
}

/// What a `ParsedMathExpression` holds.
#[verifier::ext_equal]
pub struct ParsedMathExpressionModel {
    pub start: usize,
    pub end: usize,
    pub contents: ParsedMathExpressionContentsModel,
}

impl DeepView for ParsedMathExpression {
    type V = ParsedMathExpressionModel;

    open spec fn deep_view(&self) -> ParsedMathExpressionModel {
        ParsedMathExpressionModel {
            start: self.start,
            end: self.end,
            contents: self.contents.deep_view(),
        }
    }
}

/// What a part of a statement is.
#[derive(Clone, Copy, Debug, PartialEq, Eq, Structural)]
pub enum MarkdownEvent {
    InlineMath,
    DisplayMath,
    Other,
}

/// A part of a statement: where it begins and ends, in bytes, and what it is.
#[derive(Clone, Copy, Debug, PartialEq, Eq, Structural)]
pub struct SourceEvent {
    pub start: usize,
    pub end: usize,
    pub event: MarkdownEvent,
}

/// A formula without the white space around it and, where it stands between delimiters, without them.
pub open spec fn stripped(tex: Seq<char>, display_mode: bool) -> Seq<char> {
    let s = seqs::trim(tex);
    let mark = if display_mode {
        "$$"@
    } else {
        "$"@
    };
    if seqs::starts_with(s, mark) && seqs::ends_with(s.skip(mark.len() as int), mark) {
        s.subrange(mark.len() as int, s.len() - mark.len())
    } else {
        s
    }
}

/// A formula without the white space around it and, where it stands between delimiters, without them.
pub fn strip_math_delimiters(tex: &str, display_mode: bool) -> (r: String)
    ensures
        r@ == stripped(tex@, display_mode),
{
    proof {
        reveal_strlit("$$");
        reveal_strlit("$");
    }
    let chars = text::chars_of(tex);
    let s = text::trim(&chars);
    let mark = if display_mode {
        "$$"
    } else {
        "$"
    };
    match text::strip_prefix(s, mark) {
        Some(rest) => match text::strip_suffix(rest, mark) {
            Some(inner) => {
                assert(inner@ =~= s@.subrange(mark@.len() as int, s@.len() - mark@.len()));
                text::string_of(inner)
            },
            None => text::string_of(s),
        },
        None => text::string_of(s),
    }
}

/// The formula that a part of a statement is, unless there is nothing in it.
pub open spec fn expression_at(source: Seq<char>, event: SourceEvent) -> Option<
    ParsedMathExpressionModel,
> {
    if event.event is Other {
        None
    } else {
        let display_mode = event.event is DisplayMath;
        let inner = stripped(
            seqs::between(source, event.start as int, event.end as int),
            display_mode,
        );
        if seqs::is_blank(inner) {
            None
        } else {
            Some(
                ParsedMathExpressionModel {
                    start: event.start,
                    end: event.end,
                    contents: ParsedMathExpressionContentsModel { contents: inner, display_mode },
                },
            )
        }
    }
}

/// The formulas of a statement by where they begin. Of two that begin at the same place the later
/// one counts.
pub open spec fn expressions(source: Seq<char>, events: Seq<SourceEvent>) -> Map<
    usize,
    ParsedMathExpressionModel,
>
    decreases events.len(),
{
    if events.len() == 0 {
        Map::empty()
    } else {
        let before = expressions(source, events.drop_last());
        match expression_at(source, events.last()) {
            Some(expression) => before.insert(expression.start, expression),
            None => before,
        }
    }
}

/// Whether a list holds what a map holds, in the order of where the formulas begin.
pub open spec fn lists(
    found: Seq<ParsedMathExpressionModel>,
    map: Map<usize, ParsedMathExpressionModel>,
) -> bool {
    &&& forall|i: int, j: int|
        0 <= i < j < found.len() ==> (#[trigger] found[i]).start < (#[trigger] found[j]).start
    &&& forall|i: int|
        0 <= i < found.len() ==> map.dom().contains((#[trigger] found[i]).start)
            && map[found[i].start] == found[i]
    &&& forall|start: usize| #[trigger]
        map.dom().contains(start) ==> exists|i: int|
            0 <= i < found.len() && (#[trigger] found[i]).start == start
}

/// Whether a part of a statement begins and ends at a place in it.
pub open spec fn lies_in(source: Seq<char>, event: SourceEvent) -> bool {
    &&& event.start <= event.end
    &&& seqs::is_place(source, event.start as int)
    &&& seqs::is_place(source, event.end as int)
}

/// Whether the formulas among the parts of a statement lie in it.
pub open spec fn fit(source: Seq<char>, events: Seq<SourceEvent>) -> bool {
    forall|i: int|
        0 <= i < events.len() && !((#[trigger] events[i]).event is Other) ==> lies_in(
            source,
            events[i],
        )
}

fn insert_expression(found: &mut Vec<ParsedMathExpression>, expression: ParsedMathExpression)
    requires
        exists|map: Map<usize, ParsedMathExpressionModel>| lists(old(found).deep_view(), map),
    ensures
        forall|map: Map<usize, ParsedMathExpressionModel>|
            lists(old(found).deep_view(), map) ==> #[trigger] lists(
                final(found).deep_view(),
                map.insert(expression.start, expression.deep_view()),
            ),
{
    let ghost before = found.deep_view();
    let ghost new = expression.deep_view();
    let mut i: usize = found.len();
    while i > 0 && found[i - 1].start >= expression.start
        invariant
            i <= found@.len(),
            found.deep_view() == before,
            forall|k: int|
                i <= k < before.len() ==> (#[trigger] before[k]).start >= expression.start,
        decreases i,
    {
        assert(before[i - 1] == found@[i - 1].deep_view());
        i -= 1;
    }
    assert(forall|k: int| 0 <= k < before.len() ==> before[k] == found@[k].deep_view());
    if i < found.len() && found[i].start == expression.start {
        found.set(i, expression);
        let ghost after = found.deep_view();
        assert(after =~= before.update(i as int, new));
        assert forall|map: Map<usize, ParsedMathExpressionModel>| lists(before, map) implies
            #[trigger] lists(after, map.insert(expression.start, new)) by {
            let grown = map.insert(expression.start, new);
            assert forall|a: int, b: int| 0 <= a < b < after.len() implies (
            #[trigger] after[a]).start < (#[trigger] after[b]).start by {
                assert(before[a].start < before[b].start);
            }
            assert forall|k: int| 0 <= k < after.len() implies grown.dom().contains(
                (#[trigger] after[k]).start,
            ) && grown[after[k].start] == after[k] by {
                if k != i {
                    assert(before[k].start != before[i as int].start);
                    assert(map.dom().contains(before[k].start));
                }
            }
            assert forall|start: usize| #[trigger] grown.dom().contains(start) implies exists|k: int|
                0 <= k < after.len() && (#[trigger] after[k]).start == start by {
                if start == expression.start {
                    assert(after[i as int].start == start);
                } else {
                    assert(map.dom().contains(start));
                    let k = choose|k: int|
                        0 <= k < before.len() && (#[trigger] before[k]).start == start;
                    assert(after[k].start == start);
                }
            }
        }
    } else {
        found.insert(i, expression);
        let ghost after = found.deep_view();
        assert(after =~= before.insert(i as int, new));
        assert forall|map: Map<usize, ParsedMathExpressionModel>| lists(before, map) implies
            #[trigger] lists(after, map.insert(expression.start, new)) by {
            let grown = map.insert(expression.start, new);
            assert forall|k: int| 0 <= k < before.len() implies (#[trigger] before[k]).start
                != expression.start by {
                if k >= i {
                    assert(before[k].start >= before[i as int].start);
                } else {
                    assert(before[k].start <= before[i - 1].start);
                }
            }
            assert forall|a: int, b: int| 0 <= a < b < after.len() implies (
            #[trigger] after[a]).start < (#[trigger] after[b]).start by {
                let was_a = if a < i {
                    a
                } else {
                    a - 1
                };
                let was_b = if b < i {
                    b
                } else {
                    b - 1
                };
                if a == i {
                    assert(after[b] == before[was_b]);
                } else if b == i {
                    assert(after[a] == before[a]);
                    assert(before[a].start <= before[i - 1].start);
                } else {
                    assert(before[was_a].start < before[was_b].start);
                }
            }
            assert forall|k: int| 0 <= k < after.len() implies grown.dom().contains(
                (#[trigger] after[k]).start,
            ) && grown[after[k].start] == after[k] by {
                if k < i {
                    assert(after[k] == before[k]);
                } else if k > i {
                    assert(after[k] == before[k - 1]);
                }
            }
            assert forall|start: usize| #[trigger] grown.dom().contains(start) implies exists|k: int|
                0 <= k < after.len() && (#[trigger] after[k]).start == start by {
                if start == expression.start {
                    assert(after[i as int].start == start);
                } else {
                    assert(map.dom().contains(start));
                    let k = choose|k: int|
                        0 <= k < before.len() && (#[trigger] before[k]).start == start;
                    if k < i {
                        assert(after[k].start == start);
                    } else {
                        assert(after[k + 1].start == start);
                    }
                }
            }
        }
    }
}

/// The formulas of a statement, in the order of where they begin.
pub fn extract_math_expressions(source: &str, events: &Vec<SourceEvent>) -> (r: Vec<
    ParsedMathExpression,
>)
    requires
        fit(source@, events@),
    ensures
        lists(r.deep_view(), expressions(source@, events@)),
{
    let ghost all = events@;
    let mut found: Vec<ParsedMathExpression> = Vec::new();
    let mut i: usize = 0;
    assert(lists(found.deep_view(), expressions(source@, all.take(0))));
    while i < events.len()
        invariant
            i <= events@.len(),
            all == events@,
            fit(source@, all),
            lists(found.deep_view(), expressions(source@, all.take(i as int))),
        decreases events@.len() - i,
    {
        assert(all.take(i + 1).drop_last() =~= all.take(i as int));
        assert(all.take(i + 1).last() == all[i as int]);
        let event = events[i];
        let display_mode = event.event == MarkdownEvent::DisplayMath;
        let ghost map = expressions(source@, all.take(i as int));
        let ghost next = expressions(source@, all.take(i + 1));
        if event.event != MarkdownEvent::Other {
            assert(lies_in(source@, all[i as int]));
            let part = text::between(source, event.start, event.end);
            let inner = strip_math_delimiters(part, display_mode);
            if !text::is_blank_str(inner.as_str()) {
                let contents = ParsedMathExpressionContents { contents: inner, display_mode };
                let expression = ParsedMathExpression {
                    start: event.start,
                    end: event.end,
                    contents,
                };
                let ghost model = expression.deep_view();
                assert(expression_at(source@, all[i as int]) == Some(model));
                insert_expression(&mut found, expression);
                assert(next == map.insert(event.start, model));
            } else {
                assert(next == map);
            }
        } else {
            assert(next == map);
        }
        i += 1;
    }
    assert(all.take(i as int) =~= all);
    found
}

/// A formula that is laid out, or is being laid out. A layout is known by its number.
pub struct CachedMathExpression {
    /// The layout, or why there is none, as soon as it is known.
    pub display_list: Option<Result<u64, String>>,
    /// The layout of what stood in the place of the formula before.
    pub fallback: Option<u64>,
}

/// What a `CachedMathExpression` holds.
#[verifier::ext_equal]
pub struct CachedMathExpressionModel {
    pub display_list: Option<Result<u64, Seq<char>>>,
    pub fallback: Option<u64>,
}

impl DeepView for CachedMathExpression {
    type V = CachedMathExpressionModel;

    open spec fn deep_view(&self) -> CachedMathExpressionModel {
        CachedMathExpressionModel {
            display_list: match self.display_list {
                Some(Ok(layout)) => Some(Ok(layout)),
                Some(Err(error)) => Some(Err(error@)),
                None => None,
            },
            fallback: self.fallback,
        }
    }
}

impl Duplicate for CachedMathExpression {
    fn duplicate(&self) -> (r: Self) {
        CachedMathExpression {
            display_list: match &self.display_list {
                Some(Ok(layout)) => Some(Ok(*layout)),
                Some(Err(error)) => Some(Err(error.clone())),
                None => None,
            },
            fallback: self.fallback,
        }
    }
}

impl CachedMathExpressionModel {
    /// The last layout that is known for the place of the formula.
    pub open spec fn last_layout(self) -> Option<u64> {
        match self.display_list {
            Some(Ok(layout)) => Some(layout),
            _ => self.fallback,
        }
    }
}

/// The formulas of a document with their layouts.
pub struct MathState {
    /// The layouts of formulas in a line, by what is in them.
    pub inline: StrMap<CachedMathExpression>,
    /// The layouts of formulas on lines of their own, by what is in them.
    pub display: StrMap<CachedMathExpression>,
    /// The formulas in the order in which they stand in the document.
    pub order: Vec<ParsedMathExpressionContents>,
}

/// What a `MathState` holds.
#[verifier::ext_equal]
pub struct MathStateModel {
    pub inline: Map<Seq<char>, CachedMathExpressionModel>,
    pub display: Map<Seq<char>, CachedMathExpressionModel>,
    pub order: Seq<ParsedMathExpressionContentsModel>,
}

impl DeepView for MathState {
    type V = MathStateModel;

    open spec fn deep_view(&self) -> MathStateModel {
        MathStateModel {
            inline: self.inline.deep_view(),
            display: self.display.deep_view(),
            order: self.order.deep_view(),
        }
    }
}

impl MathStateModel {
    /// Whether there is a layout for a formula, or one is being made.
    pub open spec fn has(self, contents: ParsedMathExpressionContentsModel) -> bool {
        if contents.display_mode {
            self.display.dom().contains(contents.contents)
        } else {
            self.inline.dom().contains(contents.contents)
        }
    }

    /// The layout for a formula.
    pub open spec fn entry(self, contents: ParsedMathExpressionContentsModel)
        -> CachedMathExpressionModel {
        if contents.display_mode {
            self.display[contents.contents]
        } else {
            self.inline[contents.contents]
        }
    }

    /// With another layout for a formula.
    pub open spec fn with_entry(
        self,
        contents: ParsedMathExpressionContentsModel,
        entry: CachedMathExpressionModel,
    ) -> MathStateModel {
        if contents.display_mode {
            MathStateModel { display: self.display.insert(contents.contents, entry), ..self }
        } else {
            MathStateModel { inline: self.inline.insert(contents.contents, entry), ..self }
        }
    }

    /// Whether there are layouts for the formulas of the document, and for no others.
    pub open spec fn is_valid(self) -> bool {
        forall|contents: ParsedMathExpressionContentsModel|
            #![trigger self.has(contents)]
            #![trigger self.order.contains(contents)]
            self.has(contents) <==> self.order.contains(contents)
    }

    /// The layout that is shown in the place of a formula until its own is known: that of what
    /// stood there before, if the document has as many formulas as before.
    pub open spec fn fallback_at(self, index: int, length: nat) -> Option<u64> {
        if self.order.len() == length && 0 <= index < length && self.has(self.order[index]) {
            self.entry(self.order[index]).last_layout()
        } else {
            None
        }
    }

    /// Whether a state has the formulas `order`, each with the layout that it had before or else
    /// with none but that of what stood before where it first stands now.
    pub open spec fn is_update(
        self,
        order: Seq<ParsedMathExpressionContentsModel>,
        next: MathStateModel,
    ) -> bool {
        &&& next.order == order
        &&& next.is_valid()
        &&& forall|i: int|
            0 <= i < order.len() && self.has(#[trigger] order[i]) ==> next.entry(order[i])
                == self.entry(order[i])
        &&& forall|i: int|
            0 <= i < order.len() && !self.has(#[trigger] order[i]) && is_first(order, i)
                ==> next.entry(order[i]) == (CachedMathExpressionModel {
                display_list: None,
                fallback: self.fallback_at(i, order.len()),
            })
    }

    /// The formulas among `order` that there is no layout for, each once, in the order in which
    /// they first stand there.
    pub open spec fn to_lay_out(self, order: Seq<ParsedMathExpressionContentsModel>) -> Seq<
        ParsedMathExpressionContentsModel,
    >
        decreases order.len(),
    {
        if order.len() == 0 {
            seq![]
        } else {
            let before = self.to_lay_out(order.drop_last());
            if self.has(order.last()) || before.contains(order.last()) {
                before
            } else {
                before.push(order.last())
            }
        }
    }

    /// What is shown of a formula: its layout, or its text between the delimiters.
    pub open spec fn shown(self, contents: ParsedMathExpressionContentsModel) -> MathViewModel {
        match self.entry(contents).display_list {
            Some(Ok(layout)) if self.has(contents) => MathViewModel::Layout(layout),
            _ => MathViewModel::Text(delimited(contents)),
        }
    }
}

/// Whether a formula does not stand further up in the document.
pub open spec fn is_first(order: Seq<ParsedMathExpressionContentsModel>, i: int) -> bool {
    forall|k: int| 0 <= k < i ==> #[trigger] order[k] != order[i]
}

/// A formula between its delimiters.
pub open spec fn delimited(contents: ParsedMathExpressionContentsModel) -> Seq<char> {
    let mark = if contents.display_mode {
        "$$"@
    } else {
        "$"@
    };
    mark + contents.contents + mark
}

/// What is shown of a formula.
pub enum MathView {
    /// The layout with this number.
    Layout(u64),
    /// This text.
    Text(String),
}

/// What a `MathView` holds.
#[verifier::ext_equal]
pub enum MathViewModel {
    Layout(u64),
    Text(Seq<char>),
}

impl DeepView for MathView {
    type V = MathViewModel;

    open spec fn deep_view(&self) -> MathViewModel {
        match self {
            MathView::Layout(layout) => MathViewModel::Layout(*layout),
            MathView::Text(content) => MathViewModel::Text(content@),
        }
    }
}

proof fn with_entry_changes_one(
    state: MathStateModel,
    contents: ParsedMathExpressionContentsModel,
    entry: CachedMathExpressionModel,
)
    ensures
        forall|other: ParsedMathExpressionContentsModel| #[trigger]
            state.with_entry(contents, entry).has(other) <==> state.has(other) || other == contents,
        state.with_entry(contents, entry).entry(contents) == entry,
        forall|other: ParsedMathExpressionContentsModel|
            other != contents && state.has(other) ==> #[trigger] state.with_entry(
                contents,
                entry,
            ).entry(other) == state.entry(other),
{
    let next = state.with_entry(contents, entry);
    assert forall|other: ParsedMathExpressionContentsModel| other.display_mode
        == contents.display_mode && #[trigger] other.contents == contents.contents implies other
        == contents by {
        assert(other =~= contents);
    }
    assert forall|other: ParsedMathExpressionContentsModel| #[trigger]
        next.has(other) <==> state.has(other) || other == contents by {
        assert(other.contents == contents.contents || other.contents != contents.contents);
    }
    assert forall|other: ParsedMathExpressionContentsModel|
        other != contents && state.has(other) implies #[trigger] next.entry(other) == state.entry(
        other,
    ) by {
        assert(other.contents == contents.contents || other.contents != contents.contents);
    }
}

impl MathState {
    /// No formula.
    pub fn new() -> (r: Self)
        ensures
            r.deep_view() == (MathStateModel {
                inline: Map::empty(),
                display: Map::empty(),
                order: seq![],
            }),
            r.deep_view().is_valid(),
    {
        let r = MathState { inline: StrMap::new(), display: StrMap::new(), order: Vec::new() };
        assert(r.deep_view().order =~= seq![]);
        r
    }

    /// Forgets all formulas.
    pub fn clear(&mut self)
        ensures
            final(self).deep_view() == (MathStateModel {
                inline: Map::empty(),
                display: Map::empty(),
                order: seq![],
            }),
            final(self).deep_view().is_valid(),
    {
        self.inline = StrMap::new();
        self.display = StrMap::new();
        self.order = Vec::new();
        assert(self.deep_view().order =~= seq![]);
    }

    fn get(&self, contents: &ParsedMathExpressionContents) -> (r: Option<&CachedMathExpression>)
        ensures
            match r {
                Some(entry) => self.deep_view().has(contents.deep_view())
                    && self.deep_view().entry(contents.deep_view()) == entry.deep_view(),
                None => !self.deep_view().has(contents.deep_view()),
            },
    {
        if contents.display_mode {
            self.display.get(contents.contents.as_str())
        } else {
            self.inline.get(contents.contents.as_str())
        }
    }

    fn put(&mut self, contents: &ParsedMathExpressionContents, entry: CachedMathExpression)
        ensures
            final(self).deep_view() == old(self).deep_view().with_entry(
                contents.deep_view(),
                entry.deep_view(),
            ),
    {
        if contents.display_mode {
            self.display.insert(contents.contents.clone(), entry);
        } else {
            self.inline.insert(contents.contents.clone(), entry);
        }
    }

    fn get_fallback(&self, index: usize, new_order_len: usize) -> (r: Option<u64>)
        ensures
            r == self.deep_view().fallback_at(index as int, new_order_len as nat),
    {
        if self.order.len() != new_order_len || index >= new_order_len {
            return None;
        }
        assert(self.deep_view().order[index as int] == self.order@[index as int].deep_view());
        match self.get(&self.order[index]) {
            None => None,
            Some(entry) => match &entry.display_list {
                Some(Ok(layout)) => Some(*layout),
                _ => entry.fallback,
            },
        }
    }

    /// The document has other formulas now, those of `order`: which of them have to be laid out.
    #[verifier::rlimit(50)]
    #[verifier::spinoff_prover]
    pub fn update(&mut self, order: Vec<ParsedMathExpressionContents>) -> (r: Vec<
        ParsedMathExpressionContents,
    >)
        ensures
            old(self).deep_view().is_update(order.deep_view(), final(self).deep_view()),
            r.deep_view() == old(self).deep_view().to_lay_out(order.deep_view()),
    {
        let ghost before = self.deep_view();
        let ghost wanted = order.deep_view();
        let length: usize = order.len();
        let mut next = MathState {
            inline: StrMap::new(),
            display: StrMap::new(),
            order: Vec::new(),
        };
        let mut missing: Vec<ParsedMathExpressionContents> = Vec::new();
        let mut i: usize = 0;
        assert(missing.deep_view() =~= seq![]);
        while i < length
            invariant
                i <= length == order@.len(),
                wanted == order.deep_view(),
                before == self.deep_view(),
                forall|contents: ParsedMathExpressionContentsModel| #[trigger]
                    next.deep_view().has(contents) <==> exists|k: int|
                        0 <= k < i && #[trigger] wanted[k] == contents,
                forall|k: int|
                    0 <= k < i && before.has(#[trigger] wanted[k]) ==> next.deep_view().entry(
                        wanted[k],
                    ) == before.entry(wanted[k]),
                forall|k: int|
                    0 <= k < i && !before.has(#[trigger] wanted[k]) && is_first(wanted, k)
                        ==> next.deep_view().entry(wanted[k]) == (CachedMathExpressionModel {
                        display_list: None,
                        fallback: before.fallback_at(k, length as nat),
                    }),
                forall|k: int|
                    0 <= k < missing@.len() ==> next.deep_view().has(
                        #[trigger] missing.deep_view()[k],
                    ) && !before.has(missing.deep_view()[k]),
                forall|k: int|
                    0 <= k < i && !before.has(#[trigger] wanted[k])
                        ==> missing.deep_view().contains(wanted[k]),
                missing.deep_view() == before.to_lay_out(wanted.take(i as int)),
            decreases length - i,
        {
            let ghost now = next.deep_view();
            let ghost listed = missing.deep_view();
            let contents = &order[i];
            let ghost key = contents.deep_view();
            assert(wanted[i as int] == key);
            assert(wanted.take(i + 1).drop_last() =~= wanted.take(i as int));
            if next.get(contents).is_some() {
                let ghost first = choose|k: int| 0 <= k < i && #[trigger] wanted[k] == key;
                assert(wanted[first] == key);
                assert(!is_first(wanted, i as int));
                assert(before.has(key) || listed.contains(key));
                assert(before.to_lay_out(wanted.take(i + 1)) == listed);
            } else {
                assert(forall|k: int| 0 <= k < i ==> #[trigger] wanted[k] != key);
                let entry = match self.get(contents) {
                    Some(entry) => entry.duplicate(),
                    None => {
                        missing.push(contents.duplicate());
                        assert(missing.deep_view() =~= listed.push(key));
                        assert(!listed.contains(key)) by {
                            assert(forall|k: int|
                                0 <= k < listed.len() ==> now.has(#[trigger] listed[k]));
                        }
                        assert(before.to_lay_out(wanted.take(i + 1)) == listed.push(key));
                        CachedMathExpression {
                            display_list: None,
                            fallback: self.get_fallback(i, length),
                        }
                    },
                };
                let ghost made = entry.deep_view();
                next.put(contents, entry);
                proof {
                    with_entry_changes_one(now, key, made);
                    assert forall|k: int| 0 <= k < i implies now.has(#[trigger] wanted[k]) by {}
                    assert forall|k: int|
                        0 <= k < i + 1 && !before.has(
                            #[trigger] wanted[k],
                        ) implies missing.deep_view().contains(wanted[k]) by {
                        if k < i {
                            let at = choose|at: int|
                                0 <= at < listed.len() && listed[at] == wanted[k];
                            assert(missing.deep_view()[at] == wanted[k]);
                        } else {
                            assert(missing.deep_view()[listed.len() as int] == wanted[k]);
                        }
                    }
                }
            }
            i += 1;
        }
        assert(wanted.take(i as int) =~= wanted);
        self.inline = next.inline;
        self.display = next.display;
        self.order = order;
        proof {
            let after = self.deep_view();
            assert(after.order == wanted);
            assert forall|contents: ParsedMathExpressionContentsModel|
                after.has(contents) <==> after.order.contains(contents) by {
                assert(after.has(contents) == next.deep_view().has(contents));
                if wanted.contains(contents) {
                    let k = choose|k: int| 0 <= k < wanted.len() && wanted[k] == contents;
                    assert(wanted[k] == contents);
                }
            }
        }
        missing
    }

    /// A formula was laid out, or could not be. Only the first that is known counts, and only for a
    /// formula that is still there.
    pub fn set_layout(
        &mut self,
        contents: &ParsedMathExpressionContents,
        layout: Result<u64, String>,
    )
        ensures
            ({
                let key = contents.deep_view();
                let before = old(self).deep_view();
                let after = final(self).deep_view();
                let known = match layout {
                    Ok(layout) => Ok::<u64, Seq<char>>(layout),
                    Err(error) => Err::<u64, Seq<char>>(error@),
                };
                if before.has(key) && before.entry(key).display_list is None {
                    after == before.with_entry(
                        key,
                        CachedMathExpressionModel {
                            display_list: Some(known),
                            ..before.entry(key)
                        },
                    )
                } else {
                    after == before
                }
            }),
    {
        let fallback = match self.get(contents) {
            None => {
                return;
            },
            Some(entry) => {
                if entry.display_list.is_some() {
                    return;
                }
                entry.fallback
            },
        };
        self.put(contents, CachedMathExpression { display_list: Some(layout), fallback });
    }

    /// What is shown of a formula.
    pub fn render_math_expression(&self, contents: &ParsedMathExpressionContents) -> (r: MathView)
        ensures
            r.deep_view() == self.deep_view().shown(contents.deep_view()),
    {
        if let Some(entry) = self.get(contents) {
            if let Some(Ok(layout)) = &entry.display_list {
                return MathView::Layout(*layout);
            }
        }
        let mark = if contents.display_mode {
            "$$"
        } else {
            "$"
        };
        MathView::Text(mark.to_owned().concat(contents.contents.as_str()).concat(mark))
    }
}

/// A formula that is shown between its delimiters is the formula that is found there: taking the
/// delimiters off gives it back.
pub proof fn delimiters_come_off(contents: ParsedMathExpressionContentsModel)
    ensures
        stripped(delimited(contents), contents.display_mode) == contents.contents,
{
    reveal_strlit("$$");
    reveal_strlit("$");
    let mark = if contents.display_mode {
        "$$"@
    } else {
        "$"@
    };
    let s = delimited(contents);
    assert(s[0] == '$' && s.last() == '$');
    seqs::trim_keeps(s);
    assert(s.subrange(0, mark.len() as int) =~= mark);
    let rest = s.skip(mark.len() as int);
    assert(rest.subrange(rest.len() - mark.len(), rest.len() as int) =~= mark);
    assert(s.subrange(mark.len() as int, s.len() - mark.len()) =~= contents.contents);
}

/// A document whose formulas did not change keeps all its layouts.
pub proof fn unchanged_document_keeps_layouts(state: MathStateModel, next: MathStateModel)
    requires
        state.is_valid(),
        state.is_update(state.order, next),
    ensures
        next == state,
{
    assert forall|contents: ParsedMathExpressionContentsModel| #[trigger]
        next.has(contents) <==> state.has(contents) by {
        assert(next.has(contents) <==> next.order.contains(contents));
    }
    assert forall|contents: ParsedMathExpressionContentsModel| state.has(contents) implies
        #[trigger] next.entry(contents) == state.entry(contents) by {
        assert(state.order.contains(contents));
        let i = choose|i: int| 0 <= i < state.order.len() && state.order[i] == contents;
        assert(state.has(state.order[i]));
    }
    assert(next.inline =~= state.inline) by {
        assert forall|key: Seq<char>| #[trigger] next.inline.dom().contains(key)
            <==> state.inline.dom().contains(key) by {
            let contents = ParsedMathExpressionContentsModel { contents: key, display_mode: false };
            assert(next.has(contents) <==> state.has(contents));
        }
        assert forall|key: Seq<char>| state.inline.dom().contains(key) implies #[trigger] next.inline[key]
            == state.inline[key] by {
            let contents = ParsedMathExpressionContentsModel { contents: key, display_mode: false };
            assert(state.has(contents));
            assert(next.entry(contents) == state.entry(contents));
        }
    }
    assert(next.display =~= state.display) by {
        assert forall|key: Seq<char>| #[trigger] next.display.dom().contains(key)
            <==> state.display.dom().contains(key) by {
            let contents = ParsedMathExpressionContentsModel { contents: key, display_mode: true };
            assert(next.has(contents) <==> state.has(contents));
        }
        assert forall|key: Seq<char>| state.display.dom().contains(key) implies #[trigger] next.display[key]
            == state.display[key] by {
            let contents = ParsedMathExpressionContentsModel { contents: key, display_mode: true };
            assert(state.has(contents));
            assert(next.entry(contents) == state.entry(contents));
        }
    }
}

/// A layout for a formula of the document adds no formula to it: there are layouts for the formulas
/// of the document, and for no others, as before.
pub proof fn layouts_keep_valid(
    state: MathStateModel,
    contents: ParsedMathExpressionContentsModel,
    entry: CachedMathExpressionModel,
)
    requires
        state.is_valid(),
        state.has(contents),
    ensures
        state.with_entry(contents, entry).is_valid(),
{
    with_entry_changes_one(state, contents, entry);
}

/// A font for formulas.
pub struct KatexFont {
    pub family: String,
    pub bold: bool,
    pub italic: bool,
}

/// What a `KatexFont` holds.
#[verifier::ext_equal]
pub struct KatexFontModel {
    pub family: Seq<char>,
    pub bold: bool,
    pub italic: bool,
}

impl DeepView for KatexFont {
    type V = KatexFontModel;

    open spec fn deep_view(&self) -> KatexFontModel {
        KatexFontModel { family: self.family@, bold: self.bold, italic: self.italic }
    }
}

/// The family of a font by its name.
pub open spec fn family_named(name: Seq<char>) -> Seq<char> {
    if name == "Math-Italic"@ || name == "Math-BoldItalic"@ {
        "KaTeX_Math"@
    } else if name == "AMS-Regular"@ {
        "KaTeX_AMS"@
    } else if name == "Caligraphic-Regular"@ {
        "KaTeX_Caligraphic"@
    } else if name == "Fraktur-Regular"@ || name == "Fraktur-Bold"@ {
        "KaTeX_Fraktur"@
    } else if name == "SansSerif-Regular"@ || name == "SansSerif-Bold"@ || name
        == "SansSerif-Italic"@ {
        "KaTeX_SansSerif"@
    } else if name == "Script-Regular"@ {
        "KaTeX_Script"@
    } else if name == "Typewriter-Regular"@ {
        "KaTeX_Typewriter"@
    } else if name == "Size1-Regular"@ {
        "KaTeX_Size1"@
    } else if name == "Size2-Regular"@ {
        "KaTeX_Size2"@
    } else if name == "Size3-Regular"@ {
        "KaTeX_Size3"@
    } else if name == "Size4-Regular"@ {
        "KaTeX_Size4"@
    } else {
        "KaTeX_Main"@
    }
}

/// The font with a name; the main one, if there is none.
pub open spec fn font_named(name: Seq<char>) -> KatexFontModel {
    KatexFontModel {
        family: family_named(name),
        bold: name == "Main-Bold"@ || name == "Main-BoldItalic"@ || name == "Math-BoldItalic"@
            || name == "Fraktur-Bold"@ || name == "SansSerif-Bold"@,
        italic: name == "Main-Italic"@ || name == "Main-BoldItalic"@ || name == "Math-Italic"@
            || name == "Math-BoldItalic"@ || name == "SansSerif-Italic"@,
    }
}

/// The font with a name.
pub fn katex_gpui_font(font_name: &str) -> (r: KatexFont)
    ensures
        r.deep_view() == font_named(font_name@),
{
    let main_bold = text::same(font_name, "Main-Bold");
    let main_italic = text::same(font_name, "Main-Italic");
    let main_both = text::same(font_name, "Main-BoldItalic");
    let math_italic = text::same(font_name, "Math-Italic");
    let math_both = text::same(font_name, "Math-BoldItalic");
    let fraktur_bold = text::same(font_name, "Fraktur-Bold");
    let sans_bold = text::same(font_name, "SansSerif-Bold");
    let sans_italic = text::same(font_name, "SansSerif-Italic");
    let family = if math_italic || math_both {
        "KaTeX_Math"
    } else if text::same(font_name, "AMS-Regular") {
        "KaTeX_AMS"
    } else if text::same(font_name, "Caligraphic-Regular") {
        "KaTeX_Caligraphic"
    } else if text::same(font_name, "Fraktur-Regular") || fraktur_bold {
        "KaTeX_Fraktur"
    } else if text::same(font_name, "SansSerif-Regular") || sans_bold || sans_italic {
        "KaTeX_SansSerif"
    } else if text::same(font_name, "Script-Regular") {
        "KaTeX_Script"
    } else if text::same(font_name, "Typewriter-Regular") {
        "KaTeX_Typewriter"
    } else if text::same(font_name, "Size1-Regular") {
        "KaTeX_Size1"
    } else if text::same(font_name, "Size2-Regular") {
        "KaTeX_Size2"
    } else if text::same(font_name, "Size3-Regular") {
        "KaTeX_Size3"
    } else if text::same(font_name, "Size4-Regular") {
        "KaTeX_Size4"
    } else {
        "KaTeX_Main"
    };
    KatexFont {
        family: family.to_owned(),
        bold: main_bold || main_both || math_both || fraktur_bold || sans_bold,
        italic: main_italic || main_both || math_italic || math_both || sans_italic,
    }
}

/// Whether a name is that of a font of the system rather than one for formulas.
pub open spec fn is_fallback_name(name: Seq<char>) -> bool {
    name == "CJK-Regular"@ || name == "CJK-Fallback"@ || name == "Emoji-Fallback"@
}

/// Whether a name is that of a font of the system.
pub fn is_system_fallback_font(font_name: &str) -> (r: bool)
    ensures
        r == is_fallback_name(font_name@),
{
    text::same(font_name, "CJK-Regular") || text::same(font_name, "CJK-Fallback") || text::same(
        font_name,
        "Emoji-Fallback",
    )
}

/// A character of a formula, and the font that it is shown in.
pub struct MathGlyph {
    pub character: char,
    /// The font for formulas; nothing, if it is shown in the font of the text around it.
    pub font: Option<KatexFont>,
}

/// What a `MathGlyph` holds.
#[verifier::ext_equal]
pub struct MathGlyphModel {
    pub character: char,
    pub font: Option<KatexFontModel>,
}

impl DeepView for MathGlyph {
    type V = MathGlyphModel;

    open spec fn deep_view(&self) -> MathGlyphModel {
        MathGlyphModel { character: self.character, font: self.font.deep_view() }
    }
}

/// The character and font for a code in a font. `mapped` is the character that the fonts for
/// formulas have for it.
pub open spec fn glyph_of(font_name: Seq<char>, char_code: u32, mapped: char) -> Option<
    MathGlyphModel,
> {
    if is_fallback_name(font_name) {
        match outside::scalar(char_code) {
            Some(character) => Some(MathGlyphModel { character, font: None }),
            None => None,
        }
    } else {
        Some(MathGlyphModel { character: mapped, font: Some(font_named(font_name)) })
    }
}

/// The character and font for a code in a font, where `mapped` is the character that the fonts for
/// formulas have for it.
pub fn glyph_with(font_name: &str, char_code: u32, mapped: char) -> (r: Option<MathGlyph>)
    ensures
        r.deep_view() == glyph_of(font_name@, char_code, mapped),
{
    if is_system_fallback_font(font_name) {
        match outside::char_from_u32(char_code) {
            Some(character) => Some(MathGlyph { character, font: None }),
            None => None,
        }
    } else {
        Some(MathGlyph { character: mapped, font: Some(katex_gpui_font(font_name)) })
    }
}

/// The character that the fonts for formulas have for a code. A font that is not known is taken to
/// be the main one.
pub open spec fn mapped_glyph(font_name: Seq<char>, char_code: u32) -> char {
    let name = if outside::is_font_name(font_name) {
        font_name
    } else {
        "Main-Regular"@
    };
    outside::katex_glyph(name, char_code)->0
}

/// The character and font for a code in a font; nothing, if there is no such character.
pub fn glyph(font_name: &str, char_code: u32) -> (r: Option<MathGlyph>)
    ensures
        r.deep_view() == glyph_of(font_name@, char_code, mapped_glyph(font_name@, char_code)),
{
    let mapped = match outside::glyph_char(font_name, char_code) {
        Some(mapped) => mapped,
        None => outside::glyph_char("Main-Regular", char_code).unwrap(),
    };
    glyph_with(font_name, char_code, mapped)
}

/// The files of the fonts for formulas.
pub fn katex_font_files() -> (r: Vec<String>)
    ensures
        r.deep_view() == seq![
            "KaTeX_Main-Regular.ttf"@,
            "KaTeX_Main-Bold.ttf"@,
            "KaTeX_Main-Italic.ttf"@,
            "KaTeX_Main-BoldItalic.ttf"@,
            "KaTeX_Math-Italic.ttf"@,
            "KaTeX_Math-BoldItalic.ttf"@,
            "KaTeX_AMS-Regular.ttf"@,
            "KaTeX_Caligraphic-Regular.ttf"@,
            "KaTeX_Fraktur-Regular.ttf"@,
            "KaTeX_Fraktur-Bold.ttf"@,
            "KaTeX_SansSerif-Regular.ttf"@,
            "KaTeX_SansSerif-Bold.ttf"@,
            "KaTeX_SansSerif-Italic.ttf"@,
            "KaTeX_Script-Regular.ttf"@,
            "KaTeX_Typewriter-Regular.ttf"@,
            "KaTeX_Size1-Regular.ttf"@,
            "KaTeX_Size2-Regular.ttf"@,
            "KaTeX_Size3-Regular.ttf"@,
            "KaTeX_Size4-Regular.ttf"@,
        ],
{
    text::strings_of(
        &[
            "KaTeX_Main-Regular.ttf",
            "KaTeX_Main-Bold.ttf",
            "KaTeX_Main-Italic.ttf",
            "KaTeX_Main-BoldItalic.ttf",
            "KaTeX_Math-Italic.ttf",
            "KaTeX_Math-BoldItalic.ttf",
            "KaTeX_AMS-Regular.ttf",
            "KaTeX_Caligraphic-Regular.ttf",
            "KaTeX_Fraktur-Regular.ttf",
            "KaTeX_Fraktur-Bold.ttf",
            "KaTeX_SansSerif-Regular.ttf",
            "KaTeX_SansSerif-Bold.ttf",
            "KaTeX_SansSerif-Italic.ttf",
            "KaTeX_Script-Regular.ttf",
            "KaTeX_Typewriter-Regular.ttf",
            "KaTeX_Size1-Regular.ttf",
            "KaTeX_Size2-Regular.ttf",
            "KaTeX_Size3-Regular.ttf",
            "KaTeX_Size4-Regular.ttf",
        ],
    )
}

/// Those of the fonts that were found.
pub open spec fn fonts_found(fonts: Seq<Option<Seq<u8>>>) -> Seq<Seq<u8>>
    decreases fonts.len(),
{
    if fonts.len() == 0 {
        seq![]
    } else {
        match fonts.last() {
            Some(font) => fonts_found(fonts.drop_last()).push(font),
            None => fonts_found(fonts.drop_last()),
        }
    }
}

/// The fonts to register, given those that were found: nothing, if there are none.
pub fn katex_fonts_with(fonts: Vec<Option<Vec<u8>>>) -> (r: Option<Vec<Vec<u8>>>)
    ensures
        r.deep_view() == if fonts_found(fonts.deep_view()).len() == 0 {
            None
        } else {
            Some(fonts_found(fonts.deep_view()))
        },
{
    let ghost all = fonts.deep_view();
    let mut found: Vec<Vec<u8>> = Vec::new();
    let mut i: usize = 0;
    assert(found.deep_view() =~= fonts_found(all.take(0)));
    while i < fonts.len()
        invariant
            i <= fonts@.len(),
            all == fonts.deep_view(),
            found.deep_view() == fonts_found(all.take(i as int)),
        decreases fonts@.len() - i,
    {
        assert(all.take(i + 1).drop_last() =~= all.take(i as int));
        assert(all[i as int] == fonts@[i as int].deep_view());
        if let Some(font) = &fonts[i] {
            let ghost before = found.deep_view();
            let copy = font.clone();
            assert(copy.deep_view() =~= font.deep_view());
            found.push(copy);
            assert(found.deep_view() =~= before.push(font.deep_view()));
        }
        i += 1;
    }
    assert(all.take(i as int) =~= all);
    assert(found.deep_view().len() == found@.len());
    if found.len() == 0 {
        None
    } else {
        Some(found)
    }
}

/// The fonts for formulas: the files of `katex_font_files` that there are.
pub fn katex_fonts() -> (r: Option<Vec<Vec<u8>>>)
    ensures
        exists|fonts: Vec<Option<Vec<u8>>>|
            #![trigger fonts_found(fonts.deep_view())]
            fonts@.len() == 19 && r.deep_view() == if fonts_found(fonts.deep_view()).len() == 0 {
                None
            } else {
                Some(fonts_found(fonts.deep_view()))
            },
{
    let files = katex_font_files();
    let ghost n = files.deep_view().len();
    assert(files@.len() == n);
    let mut fonts: Vec<Option<Vec<u8>>> = Vec::new();
    let mut i: usize = 0;
    while i < files.len()
        invariant
            i <= files@.len(),
            fonts@.len() == i,
        decreases files@.len() - i,
    {
        fonts.push(outside::font_bytes(files[i].as_str()));
        i += 1;
    }
    katex_fonts_with(fonts)
}

/// A formula that stands between no delimiters keeps its text, without the white space around it.
pub proof fn text_without_delimiters_is_kept(tex: Seq<char>, inner: Seq<char>)
    ensures
        !seqs::starts_with(seqs::trim(tex), "$"@) || !seqs::ends_with(seqs::trim(tex), "$"@)
            ==> stripped(tex, false) == seqs::trim(tex),
        !seqs::starts_with(seqs::trim(tex), "$$"@) || !seqs::ends_with(seqs::trim(tex), "$$"@)
            ==> stripped(tex, true) == seqs::trim(tex),
        seqs::trim(tex) == "$"@ + inner + "$"@ ==> stripped(tex, false) == inner,
        seqs::trim(tex) == "$$"@ + inner + "$$"@ ==> stripped(tex, true) == inner,
{
    reveal_strlit("$");
    reveal_strlit("$$");
    let s = seqs::trim(tex);
    if seqs::starts_with(s, "$"@) && seqs::ends_with(s.skip(1), "$"@) {
        assert(s.subrange(s.len() - 1, s.len() as int) =~= s.skip(1).subrange(
            s.skip(1).len() - 1,
            s.skip(1).len() as int,
        ));
    }
    if seqs::starts_with(s, "$$"@) && seqs::ends_with(s.skip(2), "$$"@) {
        assert(s.subrange(s.len() - 2, s.len() as int) =~= s.skip(2).subrange(
            s.skip(2).len() - 2,
            s.skip(2).len() as int,
        ));
    }
    if s == "$"@ + inner + "$"@ {
        assert(s.subrange(0, 1) =~= "$"@);
        assert(s.skip(1).subrange(inner.len() as int, inner.len() as int + 1) =~= "$"@);
        assert(s.subrange(1, s.len() - 1) =~= inner);
    }
    if s == "$$"@ + inner + "$$"@ {
        assert(s.subrange(0, 2) =~= "$$"@);
        assert(s.skip(2).subrange(inner.len() as int, inner.len() as int + 2) =~= "$$"@);
        assert(s.subrange(2, s.len() - 2) =~= inner);
    }
}

/// A part of a statement that is math and not blank is a formula from its beginning to its end, on
/// a line of its own exactly if it is display math; of two that begin at the same place the later
/// one counts, and every other formula stays. Other parts are no formulas.
pub proof fn formulas_are_found(source: Seq<char>, events: Seq<SourceEvent>, event: SourceEvent)
    ensures
        expressions(source, seq![]) == Map::<usize, ParsedMathExpressionModel>::empty(),
        event.event is Other ==> expressions(source, events.push(event)) == expressions(
            source,
            events,
        ),
        !(event.event is Other) ==> {
            let inner = stripped(
                seqs::between(source, event.start as int, event.end as int),
                event.event is DisplayMath,
            );
            let after = expressions(source, events.push(event));
            &&& seqs::is_blank(inner) ==> after == expressions(source, events)
            &&& !seqs::is_blank(inner) ==> {
                &&& after.dom().contains(event.start)
                &&& after[event.start].start == event.start
                &&& after[event.start].end == event.end
                &&& after[event.start].contents.contents == inner
                &&& after[event.start].contents.display_mode <==> event.event is DisplayMath
                &&& after.remove(event.start) == expressions(source, events).remove(event.start)
            }
        },
{
    assert(events.push(event).drop_last() =~= events);
    let before = expressions(source, events);
    let after = expressions(source, events.push(event));
    assert(after.remove(event.start) =~= before.remove(event.start));
}

/// Found formulas are listed by where they begin, all of them and nothing else.
pub proof fn formulas_are_listed_in_order(
    found: Seq<ParsedMathExpressionModel>,
    map: Map<usize, ParsedMathExpressionModel>,
    i: int,
    j: int,
    start: usize,
)
    requires
        lists(found, map),
        0 <= i < j < found.len(),
    ensures
        found[i].start < found[j].start,
        map.dom().contains(found[i].start),
        map[found[i].start] == found[i],
        map.dom().contains(start) ==> found.contains(map[start]),
{
    if map.dom().contains(start) {
        let k = choose|k: int| 0 <= k < found.len() && (#[trigger] found[k]).start == start;
        assert(found[k] == map[start]);
    }
}

/// To lay out are exactly the formulas of the document that have no layout, each once.
pub proof fn missing_layouts_are_asked_for(
    state: MathStateModel,
    order: Seq<ParsedMathExpressionContentsModel>,
    contents: ParsedMathExpressionContentsModel,
    last: ParsedMathExpressionContentsModel,
    i: int,
    j: int,
)
    ensures
        state.to_lay_out(order).contains(contents) <==> order.contains(contents) && !state.has(
            contents,
        ),
        0 <= i < j < state.to_lay_out(order).len() ==> state.to_lay_out(order)[i]
            != state.to_lay_out(order)[j],
        state.has(last) || order.contains(last) ==> state.to_lay_out(order.push(last))
            == state.to_lay_out(order),
        !state.has(last) && !order.contains(last) ==> state.to_lay_out(order.push(last))
            == state.to_lay_out(order).push(last),
    decreases order.len(),
{
    assert(order.push(last).drop_last() =~= order);
    let asked = state.to_lay_out(order);
    if order.len() > 0 {
        let head = order.drop_last();
        let before = state.to_lay_out(head);
        missing_layouts_are_asked_for(state, head, contents, order.last(), i, j);
        missing_layouts_are_asked_for(state, head, last, order.last(), i, j);
        assert(order =~= head.push(order.last()));
        assert forall|c: ParsedMathExpressionContentsModel| #[trigger]
            order.contains(c) <==> head.contains(c) || c == order.last() by {
            if order.contains(c) {
                let k = choose|k: int| 0 <= k < order.len() && order[k] == c;
                if k < head.len() {
                    assert(head[k] == c);
                }
            }
            if head.contains(c) {
                let k = choose|k: int| 0 <= k < head.len() && head[k] == c;
                assert(order[k] == c);
            }
            if c == order.last() {
                assert(order[order.len() - 1] == c);
            }
        }
        pushed_is_contained(before, order.last(), contents);
        pushed_is_contained(before, order.last(), last);
        if asked != before {
            assert(!before.contains(order.last()));
            if 0 <= i < j < asked.len() && j == before.len() {
                assert(before.contains(before[i]));
            }
        }
    }
}

proof fn pushed_is_contained<A>(s: Seq<A>, last: A, x: A)
    ensures
        s.push(last).contains(x) <==> s.contains(x) || x == last,
{
    if s.contains(x) {
        let k = choose|k: int| 0 <= k < s.len() && s[k] == x;
        assert(s.push(last)[k] == x);
    }
    assert(s.push(last)[s.len() as int] == last);
}

/// A layout reaches the formula it is for and no other, a formula in a line and the same one on a
/// line of its own being two; the order of the formulas stays as it is.
pub proof fn layout_reaches_its_formula(
    state: MathStateModel,
    contents: ParsedMathExpressionContentsModel,
    entry: CachedMathExpressionModel,
    other: ParsedMathExpressionContentsModel,
)
    ensures
        ({
            let after = state.with_entry(contents, entry);
            &&& after.order == state.order
            &&& after.has(contents)
            &&& after.entry(contents) == entry
            &&& other != contents ==> after.has(other) == state.has(other)
            &&& other != contents && state.has(other) ==> after.entry(other) == state.entry(other)
        }),
{
}

/// A formula keeps the layout that it had before; a new one has none yet, but shows the last layout
/// of what stood in its place if the number of formulas is what it was.
pub proof fn new_formula_shows_former_layout(
    state: MathStateModel,
    order: Seq<ParsedMathExpressionContentsModel>,
    next: MathStateModel,
    i: int,
)
    requires
        state.is_valid(),
        state.is_update(order, next),
        0 <= i < order.len(),
    ensures
        next.order == order,
        next.has(order[i]),
        state.has(order[i]) ==> next.entry(order[i]) == state.entry(order[i]),
        !state.has(order[i]) ==> next.entry(order[i]).display_list is None,
        !state.has(order[i]) && order.len() != state.order.len() ==> next.entry(
            order[i],
        ).fallback is None,
        !state.has(order[i]) && order.len() == state.order.len() && (forall|k: int|
            0 <= k < i ==> #[trigger] order[k] != order[i]) ==> match state.entry(
            state.order[i],
        ).display_list {
            Some(Ok(layout)) => next.entry(order[i]).fallback == Some(layout),
            _ => next.entry(order[i]).fallback == state.entry(state.order[i]).fallback,
        },
{
    assert(next.order.contains(order[i]));
    first_place(order, i);
    let k = choose|k: int| 0 <= k <= i && #[trigger] order[k] == order[i] && is_first(order, k);
    assert(!state.has(order[k]) ==> next.entry(order[k]).display_list is None);
    if order.len() == state.order.len() {
        assert(state.order.contains(state.order[i]));
        if forall|j: int| 0 <= j < i ==> #[trigger] order[j] != order[i] {
            assert(k == i);
        }
    }
}

proof fn first_place(order: Seq<ParsedMathExpressionContentsModel>, i: int)
    requires
        0 <= i < order.len(),
    ensures
        exists|k: int| 0 <= k <= i && #[trigger] order[k] == order[i] && is_first(order, k),
    decreases i,
{
    if is_first(order, i) {
        assert(order[i] == order[i]);
    } else {
        let j = choose|j: int| 0 <= j < i && #[trigger] order[j] == order[i];
        first_place(order, j);
        let k = choose|k: int| 0 <= k <= j && #[trigger] order[k] == order[j] && is_first(order, k);
        assert(order[k] == order[i]);
    }
}

/// A formula whose layout is known is shown by it, and every other one by its text between dollar
/// signs: one on each side in a line, two on a line of its own.
pub proof fn formula_is_shown(state: MathStateModel, contents: ParsedMathExpressionContentsModel)
    ensures
        state.has(contents) && state.entry(contents).display_list is Some && state.entry(
            contents,
        ).display_list->0 is Ok ==> state.shown(contents) == MathViewModel::Layout(
            state.entry(contents).display_list->0->Ok_0,
        ),
        !state.has(contents) || state.entry(contents).display_list is None || state.entry(
            contents,
        ).display_list->0 is Err ==> state.shown(contents) == MathViewModel::Text(
            if contents.display_mode {
                "$$"@ + contents.contents + "$$"@
            } else {
                "$"@ + contents.contents + "$"@
            },
        ),
{
}

/// The fonts that were found are kept in their order, and nothing stands for those that were not.
pub proof fn found_fonts_are_kept(first: Seq<Option<Seq<u8>>>, second: Seq<Option<Seq<u8>>>, font: Seq<u8>)
    ensures
        fonts_found(seq![]).len() == 0,
        fonts_found(seq![Some(font)]) == seq![font],
        fonts_found(seq![None]).len() == 0,
        fonts_found(first + second) == fonts_found(first) + fonts_found(second),
    decreases second.len(),
{
    reveal_with_fuel(fonts_found, 2);
    assert(seq![Some(font)].drop_last() =~= seq![]);
    assert(seq![None::<Seq<u8>>].drop_last() =~= seq![]);
    assert(fonts_found(seq![Some(font)]) =~= seq![font]);
    if second.len() > 0 {
        found_fonts_are_kept(first, second.drop_last(), font);
        assert((first + second).drop_last() =~= first + second.drop_last());
        assert((first + second).last() == second.last());
        assert(fonts_found(first + second) =~= fonts_found(first) + fonts_found(second));
    } else {
        assert(first + second =~= first);
        assert(fonts_found(first) + fonts_found(second) =~= fonts_found(first));
    }
}

/// A character of a font of the system is the one with its code, if there is one, in the font of
/// the text around it; every other character is shown in its font for formulas.
pub proof fn glyph_goes_by_font(name: Seq<char>, code: u32, mapped: char)
    ensures
        name == "CJK-Regular"@ || name == "CJK-Fallback"@ || name == "Emoji-Fallback"@
            ==> match outside::scalar(code) {
            Some(character) => glyph_of(name, code, mapped) is Some && glyph_of(
                name,
                code,
                mapped,
            )->0.character == character && glyph_of(name, code, mapped)->0.font is None,
            None => glyph_of(name, code, mapped) is None,
        },
        name != "CJK-Regular"@ && name != "CJK-Fallback"@ && name != "Emoji-Fallback"@ ==> {
            &&& glyph_of(name, code, mapped) is Some
            &&& glyph_of(name, code, mapped)->0.character == mapped
            &&& glyph_of(name, code, mapped)->0.font == Some(font_named(name))
        },
{
}

/// Each font is of the family that its name begins with, and is bold or italic exactly if its name
/// says so.
#[verifier::rlimit(60)]
pub proof fn font_is_of_its_family(name: Seq<char>)
    ensures
        name == "Main-Regular"@ ==> font_named(name) == (KatexFontModel {
            family: "KaTeX_Main"@,
            bold: false,
            italic: false,
        }),
        name == "Main-Bold"@ ==> font_named(name) == (KatexFontModel {
            family: "KaTeX_Main"@,
            bold: true,
            italic: false,
        }),
        name == "Main-Italic"@ ==> font_named(name) == (KatexFontModel {
            family: "KaTeX_Main"@,
            bold: false,
            italic: true,
        }),
        name == "Main-BoldItalic"@ ==> font_named(name) == (KatexFontModel {
            family: "KaTeX_Main"@,
            bold: true,
            italic: true,
        }),
        name == "Math-Italic"@ ==> font_named(name) == (KatexFontModel {
            family: "KaTeX_Math"@,
            bold: false,
            italic: true,
        }),
        name == "Math-BoldItalic"@ ==> font_named(name) == (KatexFontModel {
            family: "KaTeX_Math"@,
            bold: true,
            italic: true,
        }),
        name == "AMS-Regular"@ ==> font_named(name) == (KatexFontModel {
            family: "KaTeX_AMS"@,
            bold: false,
            italic: false,
        }),
        name == "Caligraphic-Regular"@ ==> font_named(name) == (KatexFontModel {
            family: "KaTeX_Caligraphic"@,
            bold: false,
            italic: false,
        }),
        name == "Fraktur-Regular"@ ==> font_named(name) == (KatexFontModel {
            family: "KaTeX_Fraktur"@,
            bold: false,
            italic: false,
        }),
        name == "Fraktur-Bold"@ ==> font_named(name) == (KatexFontModel {
            family: "KaTeX_Fraktur"@,
            bold: true,
            italic: false,
        }),
        name == "SansSerif-Regular"@ ==> font_named(name) == (KatexFontModel {
            family: "KaTeX_SansSerif"@,
            bold: false,
            italic: false,
        }),
        name == "SansSerif-Bold"@ ==> font_named(name) == (KatexFontModel {
            family: "KaTeX_SansSerif"@,
            bold: true,
            italic: false,
        }),
        name == "SansSerif-Italic"@ ==> font_named(name) == (KatexFontModel {
            family: "KaTeX_SansSerif"@,
            bold: false,
            italic: true,
        }),
        name == "Script-Regular"@ ==> font_named(name) == (KatexFontModel {
            family: "KaTeX_Script"@,
            bold: false,
            italic: false,
        }),
        name == "Typewriter-Regular"@ ==> font_named(name) == (KatexFontModel {
            family: "KaTeX_Typewriter"@,
            bold: false,
            italic: false,
        }),
        name == "Size1-Regular"@ ==> font_named(name) == (KatexFontModel {
            family: "KaTeX_Size1"@,
            bold: false,
            italic: false,
        }),
        name == "Size2-Regular"@ ==> font_named(name) == (KatexFontModel {
            family: "KaTeX_Size2"@,
            bold: false,
            italic: false,
        }),
        name == "Size3-Regular"@ ==> font_named(name) == (KatexFontModel {
            family: "KaTeX_Size3"@,
            bold: false,
            italic: false,
        }),
        name == "Size4-Regular"@ ==> font_named(name) == (KatexFontModel {
            family: "KaTeX_Size4"@,
            bold: false,
            italic: false,
        }),
{
    assert("Main-Regular"@.len() == 12 && "Main-Regular"@[3] == 'n' && "Main-Regular"@[5] == 'R') by {
        reveal_strlit("Main-Regular");
    }
    assert("Main-Bold"@.len() == 9) by {
        reveal_strlit("Main-Bold");
    }
    assert("Main-Italic"@.len() == 11 && "Main-Italic"@[0] == 'M' && "Main-Italic"@[2] == 'i') by {
        reveal_strlit("Main-Italic");
    }
    assert("Main-BoldItalic"@.len() == 15 && "Main-BoldItalic"@[0] == 'M' && "Main-BoldItalic"@[2]
        == 'i') by {
        reveal_strlit("Main-BoldItalic");
    }
    assert("Math-Italic"@.len() == 11 && "Math-Italic"@[0] == 'M' && "Math-Italic"@[2] == 't') by {
        reveal_strlit("Math-Italic");
    }
    assert("Math-BoldItalic"@.len() == 15 && "Math-BoldItalic"@[0] == 'M' && "Math-BoldItalic"@[2]
        == 't') by {
        reveal_strlit("Math-BoldItalic");
    }
    assert("AMS-Regular"@.len() == 11 && "AMS-Regular"@[0] == 'A') by {
        reveal_strlit("AMS-Regular");
    }
    assert("Caligraphic-Regular"@.len() == 19) by {
        reveal_strlit("Caligraphic-Regular");
    }
    assert("Fraktur-Regular"@.len() == 15 && "Fraktur-Regular"@[0] == 'F') by {
        reveal_strlit("Fraktur-Regular");
    }
    assert("Fraktur-Bold"@.len() == 12 && "Fraktur-Bold"@[3] == 'k') by {
        reveal_strlit("Fraktur-Bold");
    }
    assert("SansSerif-Regular"@.len() == 17) by {
        reveal_strlit("SansSerif-Regular");
    }
    assert("SansSerif-Bold"@.len() == 14 && "SansSerif-Bold"@[1] == 'a') by {
        reveal_strlit("SansSerif-Bold");
    }
    assert("SansSerif-Italic"@.len() == 16) by {
        reveal_strlit("SansSerif-Italic");
    }
    assert("Script-Regular"@.len() == 14 && "Script-Regular"@[1] == 'c') by {
        reveal_strlit("Script-Regular");
    }
    assert("Typewriter-Regular"@.len() == 18) by {
        reveal_strlit("Typewriter-Regular");
    }
    assert("Size1-Regular"@.len() == 13 && "Size1-Regular"@[4] == '1') by {
        reveal_strlit("Size1-Regular");
    }
    assert("Size2-Regular"@.len() == 13 && "Size2-Regular"@[4] == '2') by {
        reveal_strlit("Size2-Regular");
    }
    assert("Size3-Regular"@.len() == 13 && "Size3-Regular"@[4] == '3') by {
        reveal_strlit("Size3-Regular");
    }
    assert("Size4-Regular"@.len() == 13 && "Size4-Regular"@[4] == '4') by {
        reveal_strlit("Size4-Regular");
    }
}
/// The models hold what the values hold, each part under its own name.
pub proof fn models_hold_their_parts(
    parsed_math_expression_contents: ParsedMathExpressionContents,
    parsed_math_expression: ParsedMathExpression,
    cached_math_expression: CachedMathExpression,
    math_state: MathState,
    math_view: MathView,
    katex_font: KatexFont,
    math_glyph: MathGlyph,
)
    ensures
        parsed_math_expression_contents.deep_view() == (ParsedMathExpressionContentsModel {
            contents: parsed_math_expression_contents.contents@,
            display_mode: parsed_math_expression_contents.display_mode,
        }),
        parsed_math_expression.deep_view() == (ParsedMathExpressionModel {
            start: parsed_math_expression.start,
            end: parsed_math_expression.end,
            contents: parsed_math_expression.contents.deep_view(),
        }),
        cached_math_expression.deep_view() == (CachedMathExpressionModel {
            display_list: match cached_math_expression.display_list {
                Some(Ok(layout)) => Some(Ok(layout)),
                Some(Err(error)) => Some(Err(error@)),
                None => None,
            },
            fallback: cached_math_expression.fallback,
        }),
        math_state.deep_view() == (MathStateModel {
            inline: math_state.inline.deep_view(),
            display: math_state.display.deep_view(),
            order: math_state.order.deep_view(),
        }),
        math_view.deep_view() == match math_view {
            MathView::Layout(layout) => MathViewModel::Layout(layout),
            MathView::Text(content) => MathViewModel::Text(content@),
        },
        katex_font.deep_view() == (KatexFontModel { family: katex_font.family@, bold: katex_font.bold, italic: katex_font.italic }
),
        math_glyph.deep_view() == (MathGlyphModel { character: math_glyph.character, font: math_glyph.font.deep_view() }
),
{
}
/// A character is looked up in its own font, and in the main one if the font is not known.
pub proof fn character_is_looked_up_in_its_font(name: Seq<char>, code: u32, character: char)
    ensures
        outside::is_font_name(name) && outside::katex_glyph(name, code) == Some(character)
            ==> mapped_glyph(name, code) == character,
        !outside::is_font_name(name) && outside::katex_glyph("Main-Regular"@, code) == Some(
            character,
        ) ==> mapped_glyph(name, code) == character,
{
}
/// The first layout that is known of a formula is kept, and no later one; a formula that is not
/// there any more gets none. Nothing of any other formula is changed.
pub proof fn first_layout_is_kept(
    state: &mut MathState,
    contents: ParsedMathExpressionContents,
    layout: u64,
    other: ParsedMathExpressionContentsModel,
)
    requires
        call_ensures(MathState::set_layout, (state, &contents, Ok::<u64, String>(layout)), ()),
    ensures
        ({
            let before = old(state).deep_view();
            let after = final(state).deep_view();
            let key = contents.deep_view();
            &&& after.order == before.order
            &&& before.has(key) && before.entry(key).display_list is None ==> after.has(key)
                && after.entry(key).display_list == Some(Ok::<u64, Seq<char>>(layout))
                && after.entry(key).fallback == before.entry(key).fallback
            &&& !before.has(key) || before.entry(key).display_list is Some ==> after == before
            &&& other != key && before.has(other) ==> after.has(other) && after.entry(other)
                == before.entry(other)
        }),
{
}

/// The fonts that were found are registered; if none was, nothing is.
pub proof fn found_fonts_are_registered(fonts: Vec<Option<Vec<u8>>>, found: Option<Vec<Vec<u8>>>)
    requires
        call_ensures(katex_fonts_with, (fonts,), found),
    ensures
        found is Some <==> fonts_found(fonts.deep_view()).len() > 0,
        found is Some ==> found->0.deep_view() == fonts_found(fonts.deep_view()),
{
}
} // verus!
