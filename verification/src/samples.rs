//! The samples of a problem, read out of its statement.

use vstd::prelude::*;

use crate::markdown;
use crate::seqs;
use crate::statement;
use crate::statement::{Sample, SampleModel};
use crate::text;

verus! {

/// Whether `s` announces the input of a sample.
pub open spec fn names_input(s: Seq<char>) -> bool {
    seqs::contains(s, "Sample Input"@) || seqs::contains(s, "入力例"@)
}

/// Whether `s` announces the output of a sample.
pub open spec fn names_output(s: Seq<char>) -> bool {
    seqs::contains(s, "Sample Output"@) || seqs::contains(s, "出力例"@)
}

/// The first position at or after `i` of a fence; the number of lines if there is none.
pub open spec fn fence_from(lines: Seq<Seq<char>>, i: int) -> int
    decreases lines.len() - i,
{
    if i < 0 || i >= lines.len() {
        lines.len() as int
    } else if markdown::is_fence(lines[i]) {
        i
    } else {
        fence_from(lines, i + 1)
    }
}

pub proof fn fence_from_bounds(lines: Seq<Seq<char>>, i: int)
    requires
        0 <= i <= lines.len(),
    ensures
        i <= fence_from(lines, i) <= lines.len(),
    decreases lines.len() - i,
{
    if i < lines.len() && !markdown::is_fence(lines[i]) {
        fence_from_bounds(lines, i + 1);
    }
}

/// The next code block at or after the line `i`, and the line after it. A block without an end is
/// none.
pub open spec fn next_block(lines: Seq<Seq<char>>, i: int) -> Option<(Seq<char>, int)> {
    let open = fence_from(lines, i);
    let close = fence_from(lines, open + 1);
    if 0 <= open < close < lines.len() {
        Some((seqs::terminated(lines.subrange(open + 1, close)), close + 1))
    } else {
        None
    }
}

/// The code blocks that follow an announcement of an input, and those that follow an announcement
/// of an output, from the line `i` on.
pub open spec fn announced_blocks(lines: Seq<Seq<char>>, i: int) -> (
    Seq<Seq<char>>,
    Seq<Seq<char>>,
)
    decreases lines.len() - i,
{
    if i < 0 || i >= lines.len() {
        (seq![], seq![])
    } else if !names_input(lines[i]) && !names_output(lines[i]) {
        announced_blocks(lines, i + 1)
    } else {
        match next_block(lines, i + 1) {
            Some((block, next)) if i < next => {
                let (inputs, outputs) = announced_blocks(lines, next);
                if names_input(lines[i]) {
                    (seq![block] + inputs, outputs)
                } else {
                    (inputs, seq![block] + outputs)
                }
            },
            _ => (seq![], seq![]),
        }
    }
}

/// Inputs and outputs put together in order, without trailing white space.
pub open spec fn paired(inputs: Seq<Seq<char>>, outputs: Seq<Seq<char>>) -> Seq<SampleModel> {
    let count = if inputs.len() < outputs.len() {
        inputs.len()
    } else {
        outputs.len()
    };
    Seq::new(
        count,
        |i: int|
            SampleModel {
                input: seqs::trim_end(inputs[i]),
                output: seqs::trim_end(outputs[i]),
            },
    )
}

/// The samples without those equal to the one before.
pub open spec fn deduplicated(samples: Seq<SampleModel>) -> Seq<SampleModel>
    decreases samples.len(),
{
    if samples.len() == 0 {
        samples
    } else {
        let before = deduplicated(samples.drop_last());
        if before.len() > 0 && before.last() == samples.last() {
            before
        } else {
            before.push(samples.last())
        }
    }
}

/// The samples of a statement in Markdown.
pub open spec fn markdown_samples(markdown: Seq<char>) -> Seq<SampleModel> {
    let (inputs, outputs) = announced_blocks(seqs::lines(markdown), 0);
    deduplicated(paired(inputs, outputs))
}

/// The up to 240 characters of `s` before the position `end`.
pub open spec fn context_before(s: Seq<char>, end: int) -> Seq<char> {
    s.subrange(
        if end > 240 {
            end - 240
        } else {
            0
        },
        end,
    )
}

/// The preformatted blocks from `start` on that an announcement of an input precedes, and those
/// that an announcement of an output precedes.
pub open spec fn announced_pre_blocks(html: Seq<char>, start: int) -> (
    Seq<Seq<char>>,
    Seq<Seq<char>>,
)
    decreases html.len() - start,
    when 0 <= start <= html.len()
    via announced_pre_blocks_ends
{
    match seqs::find_from(html, "<pre"@, start) {
        None => (seq![], seq![]),
        Some(open) => match seqs::find_from(html, ">"@, open) {
            None => (seq![], seq![]),
            Some(open_end) => match seqs::find_from(html, "</pre>"@, open_end + 1) {
                None => (seq![], seq![]),
                Some(close) => {
                    let value = statement::unescaped(
                        seqs::trim(html.subrange(open_end + 1, close)),
                    );
                    let context = context_before(html, open);
                    let (inputs, outputs) = announced_pre_blocks(html, close + 6);
                    if names_input(context) {
                        (seq![value] + inputs, outputs)
                    } else if names_output(context) {
                        (inputs, seq![value] + outputs)
                    } else {
                        (inputs, outputs)
                    }
                },
            },
        },
    }
}

#[via_fn]
proof fn announced_pre_blocks_ends(html: Seq<char>, start: int) {
    reveal_strlit("</pre>");
    reveal_strlit("<pre");
    reveal_strlit(">");
    seqs::find_from_is_first(html, "<pre"@, start);
    if let Some(open) = seqs::find_from(html, "<pre"@, start) {
        seqs::find_from_is_first(html, ">"@, open);
        if let Some(open_end) = seqs::find_from(html, ">"@, open) {
            seqs::find_from_is_first(html, "</pre>"@, open_end + 1);
        }
    }
}

/// The samples of a statement in HTML.
pub open spec fn html_samples(html: Seq<char>) -> Seq<SampleModel> {
    let (inputs, outputs) = announced_pre_blocks(html, 0);
    deduplicated(paired(inputs, outputs))
}

fn is_input_name(s: &[char]) -> (r: bool)
    ensures
        r == names_input(s@),
{
    text::contains(s, "Sample Input") || text::contains(s, "入力例")
}

fn is_output_name(s: &[char]) -> (r: bool)
    ensures
        r == names_output(s@),
{
    text::contains(s, "Sample Output") || text::contains(s, "出力例")
}

/// A sample text without trailing white space.
pub fn normalize_sample(sample: String) -> (r: String)
    ensures
        r@ == seqs::trim_end(sample@),
{
    let chars = text::chars_of(sample.as_str());
    text::string_of(text::trim_end(&chars))
}

fn fence_at_or_after(lines: &Vec<Vec<char>>, start: usize) -> (r: usize)
    requires
        start <= lines@.len(),
    ensures
        r == fence_from(seqs::views(lines@), start as int),
        start <= r <= lines@.len(),
{
    let mut i: usize = start;
    while i < lines.len()
        invariant
            start <= i <= lines@.len(),
            fence_from(seqs::views(lines@), start as int) == fence_from(
                seqs::views(lines@),
                i as int,
            ),
        decreases lines@.len() - i,
    {
        assert(seqs::views(lines@)[i as int] == lines@[i as int]@);
        if text::starts_with(text::trim_start(lines[i].as_slice()), "```") {
            return i;
        }
        i += 1;
    }
    i
}

/// The next code block at or after the line `start`, and the line after it.
pub fn next_fenced_code_block(lines: &Vec<Vec<char>>, start: usize) -> (r: Option<
    (Vec<char>, usize),
>)
    requires
        start <= lines@.len(),
    ensures
        match r {
            Some((block, next)) => next_block(seqs::views(lines@), start as int) == Some(
                (block@, next as int),
            ) && start < next <= lines@.len(),
            None => next_block(seqs::views(lines@), start as int) is None,
        },
{
    let ghost all = seqs::views(lines@);
    let open: usize = fence_at_or_after(lines, start);
    if open >= lines.len() {
        return None;
    }
    let close: usize = fence_at_or_after(lines, open + 1);
    if close >= lines.len() {
        return None;
    }
    let mut block: Vec<char> = Vec::new();
    let mut i: usize = open + 1;
    assert(all.subrange(open + 1, i as int) =~= seq![]);
    while i < close
        invariant
            all == seqs::views(lines@),
            open < i <= close < lines@.len(),
            block@ == seqs::terminated(all.subrange(open + 1, i as int)),
        decreases close - i,
    {
        let ghost before = block@;
        text::push_chars(&mut block, lines[i].as_slice());
        block.push('\n');
        i += 1;
        assert(all.subrange(open + 1, i as int).drop_last() =~= all.subrange(open + 1, i - 1));
        assert(all.subrange(open + 1, i as int).last() == lines@[i - 1]@);
        assert(block@ =~= before + lines@[i - 1]@.push('\n'));
    }
    Some((block, close + 1))
}

/// Inputs and outputs put together in order, without those equal to the pair before.
fn pair_up(inputs: &Vec<Vec<char>>, outputs: &Vec<Vec<char>>) -> (r: Vec<Sample>)
    ensures
        r.deep_view() == deduplicated(paired(seqs::views(inputs@), seqs::views(outputs@))),
{
    let count: usize = if inputs.len() < outputs.len() {
        inputs.len()
    } else {
        outputs.len()
    };
    let ghost pairs = paired(seqs::views(inputs@), seqs::views(outputs@));
    let mut out: Vec<Sample> = Vec::new();
    let mut i: usize = 0;
    assert(out.deep_view() =~= deduplicated(pairs.take(0)));
    while i < count
        invariant
            i <= count,
            count <= inputs@.len(),
            count <= outputs@.len(),
            pairs == paired(seqs::views(inputs@), seqs::views(outputs@)),
            count == pairs.len(),
            out.deep_view() == deduplicated(pairs.take(i as int)),
        decreases count - i,
    {
        let sample = Sample {
            input: normalize_sample(text::string_of(inputs[i].as_slice())),
            output: normalize_sample(text::string_of(outputs[i].as_slice())),
        };
        proof {
            assert(pairs.take(i + 1).drop_last() =~= pairs.take(i as int));
            assert(pairs.take(i + 1).last() == pairs[i as int]);
            assert(sample.deep_view() == pairs[i as int]);
        }
        let repeated = if out.len() > 0 {
            let last = &out[out.len() - 1];
            assert(out.deep_view().last() == last.deep_view());
            text::same(last.input.as_str(), sample.input.as_str()) && text::same(
                last.output.as_str(),
                sample.output.as_str(),
            )
        } else {
            false
        };
        let ghost before = out.deep_view();
        proof {
            if before.len() > 0 {
                assert(repeated == (before.last() == sample.deep_view()));
            }
        }
        if !repeated {
            out.push(sample);
            assert(out.deep_view() =~= before.push(pairs[i as int]));
        }
        i += 1;
    }
    assert(pairs.take(i as int) =~= pairs);
    out
}

/// The samples of a statement in Markdown.
pub fn extract_markdown_samples(markdown: &str) -> (r: Vec<Sample>)
    ensures
        r.deep_view() == markdown_samples(markdown@),
{
    let chars = text::chars_of(markdown);
    let lines = text::lines(&chars);
    let ghost all = seqs::lines(markdown@);
    let mut inputs: Vec<Vec<char>> = Vec::new();
    let mut outputs: Vec<Vec<char>> = Vec::new();
    let mut i: usize = 0;
    let ghost expected = announced_blocks(all, 0);
    assert(seqs::views(inputs@) + expected.0 =~= expected.0);
    assert(seqs::views(outputs@) + expected.1 =~= expected.1);
    while i < lines.len()
        invariant
            all == seqs::views(lines@),
            i <= lines@.len(),
            seqs::views(inputs@) + announced_blocks(all, i as int).0 == expected.0,
            seqs::views(outputs@) + announced_blocks(all, i as int).1 == expected.1,
        decreases lines@.len() - i,
    {
        let line = lines[i].as_slice();
        assert(all[i as int] == line@);
        let is_input = is_input_name(line);
        if !is_input && !is_output_name(line) {
            i += 1;
        } else {
            let ghost before_in = seqs::views(inputs@);
            let ghost before_out = seqs::views(outputs@);
            match next_fenced_code_block(&lines, i + 1) {
                None => {
                    i = lines.len();
                    assert(seqs::views(inputs@) + announced_blocks(all, i as int).0
                        =~= seqs::views(inputs@));
                    assert(seqs::views(outputs@) + announced_blocks(all, i as int).1
                        =~= seqs::views(outputs@));
                },
                Some((block, next)) => {
                    let ghost found = block@;
                    let ghost rest = announced_blocks(all, next as int);
                    if is_input {
                        inputs.push(block);
                        assert(seqs::views(inputs@) =~= before_in.push(found));
                        assert(seqs::views(inputs@) + rest.0 =~= before_in + (seq![found]
                            + rest.0));
                    } else {
                        outputs.push(block);
                        assert(seqs::views(outputs@) =~= before_out.push(found));
                        assert(seqs::views(outputs@) + rest.1 =~= before_out + (seq![found]
                            + rest.1));
                    }
                    i = next;
                },
            }
        }
    }
    assert(seqs::views(inputs@) + announced_blocks(all, i as int).0 =~= seqs::views(inputs@));
    assert(seqs::views(outputs@) + announced_blocks(all, i as int).1 =~= seqs::views(outputs@));
    pair_up(&inputs, &outputs)
}

/// The samples of a statement in HTML.
pub fn extract_html_samples(statement_html: &str) -> (r: Vec<Sample>)
    ensures
        r.deep_view() == html_samples(statement_html@),
{
    let s = text::chars_of(statement_html);
    let length: usize = s.len();
    let open_tag = text::chars_of("<pre");
    let tag_end = text::chars_of(">");
    let close_tag = text::chars_of("</pre>");
    let mut inputs: Vec<Vec<char>> = Vec::new();
    let mut outputs: Vec<Vec<char>> = Vec::new();
    let mut start: usize = 0;
    let ghost expected = announced_pre_blocks(s@, 0);
    proof {
        reveal_strlit("</pre>");
        reveal_strlit("<pre");
        reveal_strlit(">");
        assert(seqs::views(inputs@) + expected.0 =~= expected.0);
        assert(seqs::views(outputs@) + expected.1 =~= expected.1);
    }
    loop
        invariant_except_break
            length == s@.len(),
            open_tag@ == "<pre"@,
            tag_end@ == ">"@,
            close_tag@ == "</pre>"@,
            "</pre>"@.len() == 6,
            "<pre"@.len() == 4,
            ">"@.len() == 1,
            start <= s@.len(),
            seqs::views(inputs@) + announced_pre_blocks(s@, start as int).0 == expected.0,
            seqs::views(outputs@) + announced_pre_blocks(s@, start as int).1 == expected.1,
        ensures
            seqs::views(inputs@) == expected.0,
            seqs::views(outputs@) == expected.1,
        decreases s@.len() - start,
    {
        let ghost before_in = seqs::views(inputs@);
        let ghost before_out = seqs::views(outputs@);
        assert(before_in + Seq::<Seq<char>>::empty() =~= before_in);
        assert(before_out + Seq::<Seq<char>>::empty() =~= before_out);
        let open = match text::find_from(&s, &open_tag, start) {
            None => {
                break ;
            },
            Some(i) => i,
        };
        let open_end = match text::find_from(&s, &tag_end, open) {
            None => {
                break ;
            },
            Some(i) => i,
        };
        let close = match text::find_from(&s, &close_tag, open_end + 1) {
            None => {
                break ;
            },
            Some(i) => i,
        };
        let content = vstd::slice::slice_subrange(&s, open_end + 1, close);
        let value = statement::unescape(text::trim(content));
        let ghost found = value@;
        let context = vstd::slice::slice_subrange(
            &s,
            if open > 240 {
                open - 240
            } else {
                0
            },
            open,
        );
        let ghost rest = announced_pre_blocks(s@, close + 6);
        if is_input_name(context) {
            inputs.push(value);
            assert(seqs::views(inputs@) =~= before_in.push(found));
            assert(seqs::views(inputs@) + rest.0 =~= before_in + (seq![found] + rest.0));
        } else if is_output_name(context) {
            outputs.push(value);
            assert(seqs::views(outputs@) =~= before_out.push(found));
            assert(seqs::views(outputs@) + rest.1 =~= before_out + (seq![found] + rest.1));
        }
        start = close + 6;
    }
    pair_up(&inputs, &outputs)
}

/// No sample that is read out of a statement is equal to the one before it.
pub proof fn samples_are_deduplicated(samples: Seq<SampleModel>, i: int)
    requires
        0 < i < deduplicated(samples).len(),
    ensures
        deduplicated(samples)[i] != deduplicated(samples)[i - 1],
    decreases samples.len(),
{
    let before = deduplicated(samples.drop_last());
    if i < before.len() {
        samples_are_deduplicated(samples.drop_last(), i);
    }
}

/// The last sample is always read out, every other one too, and nothing else is.
pub proof fn no_sample_is_lost(samples: Seq<SampleModel>, i: int)
    requires
        0 <= i < samples.len(),
    ensures
        deduplicated(samples).len() > 0,
        deduplicated(samples).last() == samples.last(),
        deduplicated(samples).contains(samples[i]),
        deduplicated(samples.take(i)).len() <= deduplicated(samples).len(),
        deduplicated(samples.take(i)) == deduplicated(samples).take(
            deduplicated(samples.take(i)).len() as int,
        ),
        forall|k: int|
            0 <= k < deduplicated(samples).len() ==> samples.contains(
                #[trigger] deduplicated(samples)[k],
            ),
    decreases samples.len(),
{
    let before = deduplicated(samples.drop_last());
    let all = deduplicated(samples);
    if samples.len() > 1 {
        let j: int = if i < samples.len() - 1 {
            i
        } else {
            0
        };
        no_sample_is_lost(samples.drop_last(), j);
        assert(samples.drop_last().take(j) =~= samples.take(j));
        assert(all.take(before.len() as int) =~= before);
        assert(samples.take(samples.len() - 1) =~= samples.drop_last());
        assert forall|k: int| 0 <= k < all.len() implies samples.contains(#[trigger] all[k]) by {
            if k < before.len() {
                assert(all[k] == before[k]);
                let at = choose|at: int|
                    0 <= at < samples.drop_last().len() && samples.drop_last()[at] == before[k];
                assert(samples[at] == all[k]);
            } else {
                assert(samples[samples.len() - 1] == all[k]);
            }
        }
        if i < samples.len() - 1 {
            let at = choose|at: int| 0 <= at < before.len() && before[at] == samples[i];
            assert(all[at] == samples[i]);
            let part = deduplicated(samples.take(i));
            assert(part =~= before.take(part.len() as int));
            assert(all.take(part.len() as int) =~= before.take(part.len() as int));
        } else {
            assert(all[all.len() - 1] == samples[i]);
        }
    } else {
        assert(samples.drop_last() =~= seq![]);
        assert(all =~= seq![samples[0]]);
        assert(all[0] == samples[0]);
        assert(samples.take(0) =~= seq![]);
        assert(deduplicated(samples.take(0)) =~= all.take(0));
    }
}

/// Samples of which each differs from the one before, in its input or in its output, are all kept
/// in their order.
pub proof fn different_samples_are_kept(samples: Seq<SampleModel>)
    requires
        forall|i: int, j: int|
            0 <= i && j == i + 1 && j < samples.len() ==> #[trigger] samples[i].input
                != #[trigger] samples[j].input || samples[i].output != samples[j].output,
    ensures
        deduplicated(samples) == samples,
    decreases samples.len(),
{
    if samples.len() > 0 {
        let before = samples.drop_last();
        assert forall|i: int, j: int|
            0 <= i && j == i + 1 && j < before.len() implies #[trigger] before[i].input
            != #[trigger] before[j].input || before[i].output != before[j].output by {
            assert(samples[i].input != samples[j].input || samples[i].output != samples[j].output);
        }
        different_samples_are_kept(before);
        if before.len() > 0 {
            let k: int = before.len() - 1;
            assert(samples[k].input != samples[k + 1].input || samples[k].output != samples[k
                + 1].output);
        }
        assert(before.push(samples.last()) =~= samples);
    }
}

/// Whether the sample with the given texts is one of `samples`.
pub open spec fn shows(samples: Seq<SampleModel>, input: Seq<char>, output: Seq<char>) -> bool {
    exists|k: int|
        0 <= k < samples.len() && #[trigger] samples[k].input == input && samples[k].output
            == output
}

/// Each announced input is shown with the output that is announced in the same place, both without
/// the white space at their ends; where no pair is equal to the one before, they are shown in their
/// order and nothing else is.
proof fn pairs_are_shown(inputs: Seq<Seq<char>>, outputs: Seq<Seq<char>>)
    ensures
        ({
            let samples = deduplicated(paired(inputs, outputs));
            &&& forall|i: int|
                0 <= i < inputs.len() && i < outputs.len() ==> shows(
                    samples,
                    seqs::trim_end(#[trigger] inputs[i]),
                    seqs::trim_end(outputs[i]),
                )
            &&& inputs.len() == 0 || outputs.len() == 0 ==> samples.len() == 0
            &&& (forall|i: int, j: int|
                0 <= i && j == i + 1 && j < inputs.len() && j < outputs.len() ==> seqs::trim_end(
                    #[trigger] inputs[i],
                ) != seqs::trim_end(#[trigger] inputs[j]) || seqs::trim_end(outputs[i])
                    != seqs::trim_end(outputs[j])) ==> {
                &&& samples.len() == if inputs.len() < outputs.len() {
                    inputs.len()
                } else {
                    outputs.len()
                }
                &&& forall|i: int|
                    0 <= i < samples.len() ==> (#[trigger] samples[i]).input == seqs::trim_end(
                        inputs[i],
                    ) && samples[i].output == seqs::trim_end(outputs[i])
            }
        }),
{
    let pairs = paired(inputs, outputs);
    let samples = deduplicated(pairs);
    assert forall|i: int| 0 <= i < inputs.len() && i < outputs.len() implies shows(
        samples,
        seqs::trim_end(#[trigger] inputs[i]),
        seqs::trim_end(outputs[i]),
    ) by {
        no_sample_is_lost(pairs, i);
        let k = choose|k: int| 0 <= k < samples.len() && samples[k] == pairs[i];
        assert(samples[k].input == pairs[i].input);
    }
    if forall|i: int, j: int|
        0 <= i && j == i + 1 && j < inputs.len() && j < outputs.len() ==> seqs::trim_end(
            #[trigger] inputs[i],
        ) != seqs::trim_end(#[trigger] inputs[j]) || seqs::trim_end(outputs[i]) != seqs::trim_end(
            outputs[j],
        ) {
        assert forall|i: int, j: int|
            0 <= i && j == i + 1 && j < pairs.len() implies #[trigger] pairs[i].input
            != #[trigger] pairs[j].input || pairs[i].output != pairs[j].output by {
            assert(seqs::trim_end(inputs[i]) != seqs::trim_end(inputs[j]) || seqs::trim_end(
                outputs[i],
            ) != seqs::trim_end(outputs[j]));
        }
        different_samples_are_kept(pairs);
    }
}

/// Each input that a statement in Markdown announces is read out with the output announced in the
/// same place, both without the white space at their ends; where no pair is equal to the one
/// before, they are read out in their order and nothing else is.
pub proof fn announced_pairs_are_read(markdown: Seq<char>)
    ensures
        ({
            let (inputs, outputs) = announced_blocks(seqs::lines(markdown), 0);
            let samples = markdown_samples(markdown);
            &&& forall|i: int|
                0 <= i < inputs.len() && i < outputs.len() ==> shows(
                    samples,
                    seqs::trim_end(#[trigger] inputs[i]),
                    seqs::trim_end(outputs[i]),
                )
            &&& inputs.len() == 0 || outputs.len() == 0 ==> samples.len() == 0
            &&& (forall|i: int, j: int|
                0 <= i && j == i + 1 && j < inputs.len() && j < outputs.len() ==> seqs::trim_end(
                    #[trigger] inputs[i],
                ) != seqs::trim_end(#[trigger] inputs[j]) || seqs::trim_end(outputs[i])
                    != seqs::trim_end(outputs[j])) ==> {
                &&& samples.len() == if inputs.len() < outputs.len() {
                    inputs.len()
                } else {
                    outputs.len()
                }
                &&& forall|i: int|
                    0 <= i < samples.len() ==> (#[trigger] samples[i]).input == seqs::trim_end(
                        inputs[i],
                    ) && samples[i].output == seqs::trim_end(outputs[i])
            }
        }),
{
    let (inputs, outputs) = announced_blocks(seqs::lines(markdown), 0);
    pairs_are_shown(inputs, outputs);
}

/// Each input that a statement in HTML announces is read out with the output announced in the same
/// place, both without the white space at their ends; where no pair is equal to the one before,
/// they are read out in their order and nothing else is.
pub proof fn announced_html_pairs_are_read(html: Seq<char>)
    ensures
        ({
            let (inputs, outputs) = announced_pre_blocks(html, 0);
            let samples = html_samples(html);
            &&& forall|i: int|
                0 <= i < inputs.len() && i < outputs.len() ==> shows(
                    samples,
                    seqs::trim_end(#[trigger] inputs[i]),
                    seqs::trim_end(outputs[i]),
                )
            &&& inputs.len() == 0 || outputs.len() == 0 ==> samples.len() == 0
            &&& (forall|i: int, j: int|
                0 <= i && j == i + 1 && j < inputs.len() && j < outputs.len() ==> seqs::trim_end(
                    #[trigger] inputs[i],
                ) != seqs::trim_end(#[trigger] inputs[j]) || seqs::trim_end(outputs[i])
                    != seqs::trim_end(outputs[j])) ==> {
                &&& samples.len() == if inputs.len() < outputs.len() {
                    inputs.len()
                } else {
                    outputs.len()
                }
                &&& forall|i: int|
                    0 <= i < samples.len() ==> (#[trigger] samples[i]).input == seqs::trim_end(
                        inputs[i],
                    ) && samples[i].output == seqs::trim_end(outputs[i])
            }
        }),
{
    let (inputs, outputs) = announced_pre_blocks(html, 0);
    pairs_are_shown(inputs, outputs);
}

proof fn fence_after(before: Seq<Seq<char>>, lines: Seq<Seq<char>>, i: int)
    requires
        0 <= i <= lines.len(),
    ensures
        fence_from(before + lines, before.len() + i) == before.len() + fence_from(lines, i),
    decreases lines.len() - i,
{
    if i < lines.len() {
        assert((before + lines)[before.len() + i] == lines[i]);
        if !markdown::is_fence(lines[i]) {
            fence_after(before, lines, i + 1);
        }
    }
}

proof fn fence_is_first(lines: Seq<Seq<char>>, i: int, k: int)
    requires
        0 <= i <= k < lines.len(),
        markdown::is_fence(lines[k]),
        forall|j: int| i <= j < k ==> !markdown::is_fence(#[trigger] lines[j]),
    ensures
        fence_from(lines, i) == k,
    decreases k - i,
{
    if i < k {
        fence_is_first(lines, i + 1, k);
    }
}

proof fn blocks_after(before: Seq<Seq<char>>, lines: Seq<Seq<char>>, i: int)
    requires
        0 <= i <= lines.len(),
    ensures
        announced_blocks(before + lines, before.len() + i) == announced_blocks(lines, i),
    decreases lines.len() - i,
{
    let all = before + lines;
    let at: int = before.len() + i;
    if i < lines.len() {
        assert(all[at] == lines[i]);
        if !names_input(lines[i]) && !names_output(lines[i]) {
            blocks_after(before, lines, i + 1);
        } else {
            let open = fence_from(lines, i + 1);
            fence_after(before, lines, i + 1);
            fence_from_bounds(lines, i + 1);
            if open < lines.len() {
                let close = fence_from(lines, open + 1);
                fence_after(before, lines, open + 1);
                fence_from_bounds(lines, open + 1);
                if close < lines.len() {
                    assert(all.subrange(before.len() + open + 1, before.len() + close)
                        =~= lines.subrange(open + 1, close));
                    blocks_after(before, lines, close + 1);
                }
            }
        }
    }
}

/// Whether a line announces nothing.
pub open spec fn announces_nothing(line: Seq<char>) -> bool {
    &&& !seqs::contains(line, "Sample Input"@)
    &&& !seqs::contains(line, "入力例"@)
    &&& !seqs::contains(line, "Sample Output"@)
    &&& !seqs::contains(line, "出力例"@)
}

/// The code block after a line that announces an input is an input, and the one after a line that
/// announces an output is an output, each line of it ended by a line feed; a line that announces
/// both counts as an announcement of an input. Lines that announce nothing are passed over, and an
/// announcement that no complete code block follows ends the samples.
pub proof fn block_after_announcement_is_read(
    quiet: Seq<Seq<char>>,
    title: Seq<char>,
    gap: Seq<Seq<char>>,
    open: Seq<char>,
    body: Seq<Seq<char>>,
    close: Seq<char>,
    rest: Seq<Seq<char>>,
)
    requires
        forall|i: int| 0 <= i < quiet.len() ==> announces_nothing(#[trigger] quiet[i]),
        !announces_nothing(title),
        forall|i: int|
            0 <= i < gap.len() ==> !seqs::starts_with(
                seqs::trim_start(#[trigger] gap[i]),
                "```"@,
            ),
        forall|i: int|
            0 <= i < body.len() ==> !seqs::starts_with(
                seqs::trim_start(#[trigger] body[i]),
                "```"@,
            ),
        seqs::starts_with(seqs::trim_start(open), "```"@),
        seqs::starts_with(seqs::trim_start(close), "```"@),
    ensures
        announced_blocks(quiet, 0) == (Seq::<Seq<char>>::empty(), Seq::<Seq<char>>::empty()),
        announced_blocks(quiet + (seq![title] + gap), 0) == (
            Seq::<Seq<char>>::empty(),
            Seq::<Seq<char>>::empty(),
        ),
        announced_blocks(quiet + (seq![title] + gap + seq![open] + body), 0) == (
            Seq::<Seq<char>>::empty(),
            Seq::<Seq<char>>::empty(),
        ),
        ({
            let found = announced_blocks(
                quiet + (seq![title] + gap + seq![open] + body + seq![close] + rest),
                0,
            );
            let later = announced_blocks(rest, 0);
            if seqs::contains(title, "Sample Input"@) || seqs::contains(title, "入力例"@) {
                found.0 == seq![seqs::terminated(body)] + later.0 && found.1 == later.1
            } else {
                found.0 == later.0 && found.1 == seq![seqs::terminated(body)] + later.1
            }
        }),
{
    quiet_lines_are_passed(quiet, seq![]);
    assert(quiet + Seq::<Seq<char>>::empty() =~= quiet);
    assert(announced_blocks(Seq::<Seq<char>>::empty(), 0).0 =~= seq![]);
    let lone = seq![title] + gap;
    quiet_lines_are_passed(quiet, lone);
    assert(lone[0] == title);
    no_fence_from(lone, 1);
    let unended = seq![title] + gap + seq![open] + body;
    quiet_lines_are_passed(quiet, unended);
    assert(unended[0] == title);
    let at: int = 1 + gap.len() as int;
    assert(unended[at] == open);
    assert forall|j: int| 1 <= j < at implies !markdown::is_fence(#[trigger] unended[j]) by {
        assert(unended[j] == gap[j - 1]);
    }
    fence_is_first(unended, 1, at);
    assert forall|j: int| at + 1 <= j < unended.len() implies !markdown::is_fence(
        #[trigger] unended[j],
    ) by {
        assert(unended[j] == body[j - at - 1]);
    }
    no_fence_from(unended, at + 1);
    let whole = seq![title] + gap + seq![open] + body + seq![close] + rest;
    quiet_lines_are_passed(quiet, whole);
    let end: int = at + 1 + body.len() as int;
    assert(whole[0] == title && whole[at] == open && whole[end] == close);
    assert forall|j: int| 1 <= j < at implies !markdown::is_fence(#[trigger] whole[j]) by {
        assert(whole[j] == gap[j - 1]);
    }
    fence_is_first(whole, 1, at);
    assert forall|j: int| at + 1 <= j < end implies !markdown::is_fence(#[trigger] whole[j]) by {
        assert(whole[j] == body[j - at - 1]);
    }
    fence_is_first(whole, at + 1, end);
    assert(whole.subrange(at + 1, end) =~= body);
    let lead = seq![title] + gap + seq![open] + body + seq![close];
    blocks_after(lead, rest, 0);
    assert(lead + rest =~= whole);
    assert(lead.len() == end + 1);
}

proof fn no_fence_from(lines: Seq<Seq<char>>, i: int)
    requires
        0 <= i <= lines.len(),
        forall|j: int| i <= j < lines.len() ==> !markdown::is_fence(#[trigger] lines[j]),
    ensures
        fence_from(lines, i) == lines.len(),
        next_block(lines, i) is None,
    decreases lines.len() - i,
{
    if i < lines.len() {
        no_fence_from(lines, i + 1);
    }
}

proof fn quiet_lines_are_passed(quiet: Seq<Seq<char>>, rest: Seq<Seq<char>>)
    requires
        forall|i: int| 0 <= i < quiet.len() ==> announces_nothing(#[trigger] quiet[i]),
    ensures
        announced_blocks(quiet + rest, 0) == announced_blocks(rest, 0),
    decreases quiet.len(),
{
    if quiet.len() > 0 {
        let all = quiet + rest;
        assert(all[0] == quiet[0]);
        let later = quiet.skip(1);
        quiet_lines_are_passed(later, rest);
        assert(seq![quiet[0]] + (later + rest) =~= all);
        blocks_after(seq![quiet[0]], later + rest, 0);
    } else {
        assert(quiet + rest =~= rest);
    }
}

/// The text of a preformatted block, with its character references resolved, is an input if an
/// input is announced in the 240 characters before it, and an output if only an output is. The
/// search for the next block goes on behind it.
pub proof fn block_after_context_is_read(
    html: Seq<char>,
    start: int,
    open: int,
    tag_end: int,
    close: int,
)
    requires
        0 <= start <= html.len(),
        seqs::find_from(html, "<pre"@, start) == Some(open),
        seqs::find_from(html, ">"@, open) == Some(tag_end),
        seqs::find_from(html, "</pre>"@, tag_end + 1) == Some(close),
    ensures
        ({
            let near = html.subrange(
                if open < 240 {
                    0
                } else {
                    open - 240
                },
                open,
            );
            let content = html.subrange(tag_end + 1, close);
            let found = announced_pre_blocks(html, start);
            let later = announced_pre_blocks(html, close + 6);
            if seqs::contains(near, "Sample Input"@) || seqs::contains(near, "入力例"@) {
                found.0 == seq![statement::unescaped(seqs::trim(content))] + later.0 && found.1
                    == later.1
            } else if seqs::contains(near, "Sample Output"@) || seqs::contains(
                near,
                "出力例"@,
            ) {
                found.0 == later.0 && found.1 == seq![statement::unescaped(seqs::trim(content))]
                    + later.1
            } else {
                found == later
            }
        }),
{
    reveal_strlit("<pre");
    reveal_strlit(">");
    reveal_strlit("</pre>");
    seqs::find_from_is_first(html, "<pre"@, start);
    seqs::find_from_is_first(html, ">"@, open);
    seqs::find_from_is_first(html, "</pre>"@, tag_end + 1);
}

/// A text without preformatted blocks has no samples.
pub proof fn nothing_is_read_without_blocks(html: Seq<char>)
    requires
        !seqs::contains(html, "<pre"@),
    ensures
        html_samples(html).len() == 0,
{
    seqs::contains_is_find(html, "<pre"@);
}
proof fn shown_samples_are_there(samples: Vec<Sample>, input: Seq<char>, output: Seq<char>)
    requires
        shows(samples.deep_view(), input, output),
    ensures
        exists|k: int|
            0 <= k < samples@.len() && (#[trigger] samples@[k]).input@ == input
                && samples@[k].output@ == output,
{
    let k = choose|k: int|
        0 <= k < samples.deep_view().len() && #[trigger] samples.deep_view()[k].input == input
            && samples.deep_view()[k].output == output;
    assert(samples@[k].deep_view() == samples.deep_view()[k]);
    assert(samples@[k].input@ == input);
}

/// Each announced input is among the samples that are read, with the output that was announced in
/// the same place.
pub proof fn announced_samples_are_read(markdown: &str, samples: Vec<Sample>, i: int)
    requires
        call_ensures(extract_markdown_samples, (markdown,), samples),
        0 <= i < announced_blocks(seqs::lines(markdown@), 0).0.len(),
        i < announced_blocks(seqs::lines(markdown@), 0).1.len(),
    ensures
        exists|k: int|
            0 <= k < samples@.len() && (#[trigger] samples@[k]).input@ == seqs::trim_end(
                announced_blocks(seqs::lines(markdown@), 0).0[i],
            ) && samples@[k].output@ == seqs::trim_end(
                announced_blocks(seqs::lines(markdown@), 0).1[i],
            ),
{
    announced_pairs_are_read(markdown@);
    let (inputs, outputs) = announced_blocks(seqs::lines(markdown@), 0);
    assert(seqs::trim_end(inputs[i]) == seqs::trim_end(inputs[i]));
    shown_samples_are_there(samples, seqs::trim_end(inputs[i]), seqs::trim_end(outputs[i]));
}

/// Each input that the HTML announces is among the samples that are read, with the output that was
/// announced in the same place.
pub proof fn announced_html_samples_are_read(html: &str, samples: Vec<Sample>, i: int)
    requires
        call_ensures(extract_html_samples, (html,), samples),
        0 <= i < announced_pre_blocks(html@, 0).0.len(),
        i < announced_pre_blocks(html@, 0).1.len(),
    ensures
        exists|k: int|
            0 <= k < samples@.len() && (#[trigger] samples@[k]).input@ == seqs::trim_end(
                announced_pre_blocks(html@, 0).0[i],
            ) && samples@[k].output@ == seqs::trim_end(announced_pre_blocks(html@, 0).1[i]),
{
    announced_html_pairs_are_read(html@);
    let (inputs, outputs) = announced_pre_blocks(html@, 0);
    assert(seqs::trim_end(inputs[i]) == seqs::trim_end(inputs[i]));
    shown_samples_are_there(samples, seqs::trim_end(inputs[i]), seqs::trim_end(outputs[i]));
}
} // verus!
