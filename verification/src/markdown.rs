//! Repairs of the Markdown that problem statements come as.

use vstd::prelude::*;

use crate::seqs;
use crate::text;

verus! {

/// Whether a line opens or closes a fenced code block.
pub open spec fn is_fence(line: Seq<char>) -> bool {
    seqs::starts_with(seqs::trim_start(line), "```"@)
}

/// Whether a code block is open after `lines`: each fence opens one or closes the open one.
pub open spec fn fence_open(lines: Seq<Seq<char>>) -> bool
    decreases lines.len(),
{
    if lines.len() == 0 {
        false
    } else {
        fence_open(lines.drop_last()) != is_fence(lines.last())
    }
}

/// Whether the line `i` is a fence or stands in a code block.
pub open spec fn is_code(lines: Seq<Seq<char>>, i: int) -> bool {
    is_fence(lines[i]) || fence_open(lines.take(i))
}

/// The lines, those outside of code blocks changed by `change`.
pub open spec fn change_prose(
    lines: Seq<Seq<char>>,
    change: spec_fn(Seq<char>) -> Seq<char>,
) -> Seq<Seq<char>> {
    Seq::new(
        lines.len(),
        |i: int|
            if is_code(lines, i) {
                lines[i]
            } else {
                change(lines[i])
            },
    )
}

/// A text of `lines`, which ends with a line feed if `original` does.
pub open spec fn rejoined(lines: Seq<Seq<char>>, original: Seq<char>) -> Seq<char> {
    if original.len() > 0 && original.last() == '\n' {
        seqs::join(lines, "\n"@).push('\n')
    } else {
        seqs::join(lines, "\n"@)
    }
}

/// How a line outside of code blocks is repaired.
#[derive(Clone, Copy, PartialEq, Eq, Structural)]
enum LineRepair {
    Unindent,
    SplitGaps,
    PartSpans,
}

spec fn repaired_line(repair: LineRepair, line: Seq<char>) -> Seq<char> {
    match repair {
        LineRepair::Unindent => seqs::trim_start(line),
        LineRepair::SplitGaps => split_gaps(line),
        LineRepair::PartSpans => seqs::replace(line, "``"@, "` `"@),
    }
}

/// A blank of the kind that separates words.
pub open spec fn is_gap(c: char) -> bool {
    c == ' ' || c == '\t'
}

/// The length of the run of spaces and tabs at the start of `s`.
pub open spec fn gap_len(s: Seq<char>) -> int
    decreases s.len(),
{
    if s.len() > 0 && is_gap(s[0]) {
        1 + gap_len(s.skip(1))
    } else {
        0
    }
}

pub proof fn gap_len_bounds(s: Seq<char>)
    ensures
        0 <= gap_len(s) <= s.len(),
        gap_len(s) < s.len() ==> !is_gap(s[gap_len(s)]),
        s.len() > 0 && is_gap(s[0]) ==> gap_len(s) > 0,
    decreases s.len(),
{
    if s.len() > 0 && is_gap(s[0]) {
        gap_len_bounds(s.skip(1));
    }
}

/// `line` with each run of four or more spaces and tabs as a paragraph break, and each shorter one
/// as that many spaces.
pub open spec fn split_gaps(line: Seq<char>) -> Seq<char>
    decreases line.len(),
    via split_gaps_ends
{
    if line.len() == 0 {
        line
    } else if !is_gap(line[0]) {
        seq![line[0]] + split_gaps(line.skip(1))
    } else {
        let run = gap_len(line);
        (if run >= 4 {
            "\n\n"@
        } else {
            seqs::repeat(' ', run as nat)
        }) + split_gaps(line.skip(run))
    }
}

#[via_fn]
proof fn split_gaps_ends(line: Seq<char>) {
    gap_len_bounds(line);
}

pub open spec fn is_sentence_end(c: char) -> bool {
    c == '。' || c == '！' || c == '？'
}

/// A character before which no line break goes: one that ends a line, or closes what comes before.
pub open spec fn is_closing(c: char) -> bool {
    c == '\n' || c == '\r' || c == '。' || c == '、' || c == ')' || c == '）' || c == ']' || c
        == '】' || c == '」'
}

/// `s` with a line break after each Japanese sentence that more text follows, in place of the
/// spaces and tabs in between.
pub open spec fn break_sentences(s: Seq<char>) -> Seq<char>
    decreases s.len(),
    via break_sentences_ends
{
    if s.len() == 0 {
        s
    } else {
        let rest = s.skip(1);
        let gap = gap_len(rest);
        if is_sentence_end(s[0]) && gap < rest.len() && !is_closing(rest[gap]) {
            seq![s[0], '\n'] + break_sentences(rest.skip(gap))
        } else {
            seq![s[0]] + break_sentences(rest)
        }
    }
}

#[via_fn]
proof fn break_sentences_ends(s: Seq<char>) {
    if s.len() > 0 {
        gap_len_bounds(s.skip(1));
    }
}

/// The lines, with each item that is an empty bullet, a blank line and a line of text put on one
/// line.
pub open spec fn fill_bullets(lines: Seq<Seq<char>>) -> Seq<Seq<char>>
    decreases lines.len(),
{
    if lines.len() == 0 {
        lines
    } else if lines.len() > 2 && seqs::trim(lines[0]) == "-"@ && seqs::is_blank(lines[1])
        && !seqs::is_blank(lines[2]) {
        seq!["- "@ + seqs::trim_start(lines[2])] + fill_bullets(lines.skip(3))
    } else {
        seq![lines[0]] + fill_bullets(lines.skip(1))
    }
}

/// The lines without the blank ones at the end.
pub open spec fn drop_blank_tail(lines: Seq<Seq<char>>) -> Seq<Seq<char>>
    decreases lines.len(),
{
    if lines.len() > 0 && seqs::is_blank(lines.last()) {
        drop_blank_tail(lines.drop_last())
    } else {
        lines
    }
}

/// The lines without the blank ones right before the end of a code block.
pub open spec fn trim_fences(lines: Seq<Seq<char>>) -> Seq<Seq<char>>
    decreases lines.len(),
{
    if lines.len() == 0 {
        lines
    } else {
        let before = trim_fences(lines.drop_last());
        if is_fence(lines.last()) && fence_open(lines.drop_last()) {
            drop_blank_tail(before).push(lines.last())
        } else {
            before.push(lines.last())
        }
    }
}

pub open spec fn collapsed_line_breaks_repaired(markdown: Seq<char>) -> Seq<char> {
    break_sentences(markdown)
}

pub open spec fn indented_lines_repaired(markdown: Seq<char>) -> Seq<char> {
    rejoined(
        change_prose(seqs::lines(markdown), |line: Seq<char>| seqs::trim_start(line)),
        markdown,
    )
}

pub open spec fn inline_gaps_repaired(markdown: Seq<char>) -> Seq<char> {
    rejoined(change_prose(seqs::lines(markdown), |line: Seq<char>| split_gaps(line)), markdown)
}

pub open spec fn code_spans_repaired(markdown: Seq<char>) -> Seq<char> {
    rejoined(
        change_prose(
            seqs::lines(markdown),
            |line: Seq<char>| seqs::replace(line, "``"@, "` `"@),
        ),
        markdown,
    )
}

pub open spec fn list_items_repaired(markdown: Seq<char>) -> Seq<char> {
    rejoined(fill_bullets(seqs::lines(markdown)), markdown)
}

pub open spec fn fences_trimmed(markdown: Seq<char>) -> Seq<char> {
    rejoined(trim_fences(seqs::lines(markdown)), markdown)
}

/// The statement after all repairs.
pub open spec fn normalized(markdown: Seq<char>) -> Seq<char> {
    fences_trimmed(
        list_items_repaired(
            code_spans_repaired(
                inline_gaps_repaired(
                    indented_lines_repaired(collapsed_line_breaks_repaired(markdown)),
                ),
            ),
        ),
    )
}

fn is_fence_line(line: &[char]) -> (r: bool)
    ensures
        r == is_fence(line@),
{
    text::starts_with(text::trim_start(line), "```")
}

fn is_gap_char(c: char) -> (r: bool)
    ensures
        r == is_gap(c),
{
    c == ' ' || c == '\t'
}

/// The position after the run of spaces and tabs at `start`.
fn gap_end(s: &[char], start: usize) -> (r: usize)
    requires
        start <= s@.len(),
    ensures
        r == start + gap_len(s@.skip(start as int)),
        start <= r <= s@.len(),
{
    let mut end: usize = start;
    while end < s.len() && is_gap_char(s[end])
        invariant
            start <= end <= s@.len(),
            gap_len(s@.skip(start as int)) == end - start + gap_len(s@.skip(end as int)),
        decreases s@.len() - end,
    {
        assert(s@.skip(end as int).skip(1) =~= s@.skip(end + 1));
        end += 1;
    }
    end
}

/// Whether `c` ends a Japanese sentence.
pub fn is_japanese_sentence_end(c: char) -> (r: bool)
    ensures
        r == is_sentence_end(c),
{
    c == '。' || c == '！' || c == '？'
}

fn is_closing_char(c: char) -> (r: bool)
    ensures
        r == is_closing(c),
{
    c == '\n' || c == '\r' || c == '。' || c == '、' || c == ')' || c == '）' || c == ']' || c
        == '】' || c == '」'
}

/// The text of `lines`, which ends with a line feed if `original` does.
fn rejoin(lines: &Vec<Vec<char>>, original: &[char]) -> (r: Vec<char>)
    ensures
        r@ == rejoined(seqs::views(lines@), original@),
{
    let mut out = text::join(lines, "\n");
    if original.len() > 0 && original[original.len() - 1] == '\n' {
        out.push('\n');
    }
    out
}

fn repair_collapsed_line_breaks_in(s: &[char]) -> (r: Vec<char>)
    ensures
        r@ == collapsed_line_breaks_repaired(s@),
{
    let mut out: Vec<char> = Vec::new();
    let mut index: usize = 0;
    assert(s@.skip(0) =~= s@);
    while index < s.len()
        invariant
            index <= s@.len(),
            out@ + break_sentences(s@.skip(index as int)) == break_sentences(s@),
        decreases s@.len() - index,
    {
        let c = s[index];
        let ghost before = out@;
        let ghost rest = s@.skip(index as int);
        assert(rest.skip(1) =~= s@.skip(index + 1));
        out.push(c);
        let next: usize = gap_end(s, index + 1);
        assert(rest.skip(1).skip(next - index - 1) =~= s@.skip(next as int));
        if is_japanese_sentence_end(c) && next < s.len() && !is_closing_char(s[next]) {
            out.push('\n');
            index = next;
            assert(out@ + break_sentences(s@.skip(index as int)) =~= before + (seq![c, '\n']
                + break_sentences(s@.skip(index as int))));
        } else {
            index += 1;
            assert(out@ + break_sentences(s@.skip(index as int)) =~= before + (seq![c]
                + break_sentences(s@.skip(index as int))));
        }
    }
    assert(out@ + break_sentences(s@.skip(index as int)) =~= out@);
    out
}

fn replace_large_space_runs_in(line: &[char]) -> (r: Vec<char>)
    ensures
        r@ == split_gaps(line@),
{
    let mut out: Vec<char> = Vec::new();
    let mut index: usize = 0;
    assert(line@.skip(0) =~= line@);
    while index < line.len()
        invariant
            index <= line@.len(),
            out@ + split_gaps(line@.skip(index as int)) == split_gaps(line@),
        decreases line@.len() - index,
    {
        let ghost before = out@;
        let ghost rest = line@.skip(index as int);
        if !is_gap_char(line[index]) {
            out.push(line[index]);
            assert(rest.skip(1) =~= line@.skip(index + 1));
            index += 1;
            assert(out@ + split_gaps(line@.skip(index as int)) =~= before + (seq![rest[0]]
                + split_gaps(line@.skip(index as int))));
        } else {
            let end: usize = gap_end(line, index);
            proof {
                gap_len_bounds(rest);
            }
            assert(rest.skip(end - index) =~= line@.skip(end as int));
            let ghost piece = if end - index >= 4 {
                "\n\n"@
            } else {
                seqs::repeat(' ', (end - index) as nat)
            };
            if end - index >= 4 {
                text::push_str(&mut out, "\n\n");
            } else {
                let spaces = text::pad_left(&[], ' ', end - index);
                text::push_chars(&mut out, &spaces);
                assert(spaces@ =~= seqs::repeat(' ', (end - index) as nat));
            }
            assert(out@ == before + piece);
            index = end;
            assert(out@ + split_gaps(line@.skip(index as int)) =~= before + (piece + split_gaps(
                line@.skip(index as int),
            )));
        }
    }
    assert(out@ + split_gaps(line@.skip(index as int)) =~= out@);
    out
}

fn repair_line(repair: LineRepair, line: &[char]) -> (r: Vec<char>)
    ensures
        r@ == repaired_line(repair, line@),
{
    match repair {
        LineRepair::Unindent => text::copy(text::trim_start(line)),
        LineRepair::SplitGaps => replace_large_space_runs_in(line),
        LineRepair::PartSpans => {
            proof {
                reveal_strlit("``");
            }
            text::replace(line, "``", "` `")
        },
    }
}

fn repair_prose(repair: LineRepair, markdown: &[char]) -> (r: Vec<char>)
    ensures
        r@ == rejoined(
            change_prose(seqs::lines(markdown@), |line: Seq<char>| repaired_line(repair, line)),
            markdown@,
        ),
{
    let lines = text::lines(markdown);
    let ghost all = seqs::lines(markdown@);
    let ghost change = |line: Seq<char>| repaired_line(repair, line);
    let mut out: Vec<Vec<char>> = Vec::new();
    let mut in_fence: bool = false;
    let mut i: usize = 0;
    while i < lines.len()
        invariant
            seqs::views(lines@) == all,
            change == |line: Seq<char>| repaired_line(repair, line),
            i <= lines@.len(),
            in_fence == fence_open(all.take(i as int)),
            seqs::views(out@) == change_prose(all, change).take(i as int),
        decreases lines@.len() - i,
    {
        let line = lines[i].as_slice();
        let ghost before = seqs::views(out@);
        proof {
            assert(all[i as int] == line@);
            assert(all.take(i + 1).drop_last() =~= all.take(i as int));
            assert(all.take(i + 1).last() == line@);
        }
        if is_fence_line(line) {
            in_fence = !in_fence;
            out.push(text::copy(line));
        } else if in_fence {
            out.push(text::copy(line));
        } else {
            out.push(repair_line(repair, line));
        }
        assert(seqs::views(out@) =~= before.push(out@.last()@));
        i += 1;
        assert(change_prose(all, change).take(i as int) =~= change_prose(all, change).take(
            i - 1,
        ).push(change_prose(all, change)[i - 1]));
    }
    assert(change_prose(all, change).take(i as int) =~= change_prose(all, change));
    rejoin(&out, markdown)
}

fn repair_list_items_in(markdown: &[char]) -> (r: Vec<char>)
    ensures
        r@ == list_items_repaired(markdown@),
{
    let lines = text::lines(markdown);
    let ghost all = seqs::lines(markdown@);
    let mut out: Vec<Vec<char>> = Vec::new();
    let mut index: usize = 0;
    assert(all.skip(0) =~= all);
    assert(seqs::views(out@) + fill_bullets(all) =~= fill_bullets(all));
    while index < lines.len()
        invariant
            seqs::views(lines@) == all,
            index <= lines@.len(),
            seqs::views(out@) + fill_bullets(all.skip(index as int)) == fill_bullets(all),
        decreases lines@.len() - index,
    {
        let ghost before = seqs::views(out@);
        let ghost rest = all.skip(index as int);
        let bullet = text::chars_of("-");
        assert(rest[0] == lines@[index as int]@);
        if text::eq(text::trim(lines[index].as_slice()), &bullet) && lines.len() - index > 2
            && text::is_blank(lines[index + 1].as_slice()) && !text::is_blank(
            lines[index + 2].as_slice(),
        ) {
            assert(rest[1] == lines@[index + 1]@);
            assert(rest[2] == lines@[index + 2]@);
            let mut item = text::chars_of("- ");
            text::push_chars(&mut item, text::trim_start(lines[index + 2].as_slice()));
            let ghost filled = item@;
            out.push(item);
            assert(seqs::views(out@) =~= before.push(filled));
            assert(rest.skip(3) =~= all.skip(index + 3));
            index += 3;
            assert(seqs::views(out@) + fill_bullets(all.skip(index as int)) =~= before + (
            seq![filled] + fill_bullets(all.skip(index as int))));
        } else {
            proof {
                if rest.len() > 2 {
                    assert(rest[1] == lines@[index + 1]@);
                    assert(rest[2] == lines@[index + 2]@);
                }
            }
            out.push(text::copy(lines[index].as_slice()));
            assert(seqs::views(out@) =~= before.push(rest[0]));
            assert(rest.skip(1) =~= all.skip(index + 1));
            index += 1;
            assert(seqs::views(out@) + fill_bullets(all.skip(index as int)) =~= before + (
            seq![rest[0]] + fill_bullets(all.skip(index as int))));
        }
    }
    assert(seqs::views(out@) + fill_bullets(all.skip(index as int)) =~= seqs::views(out@));
    rejoin(&out, markdown)
}

fn trim_fences_in(markdown: &[char]) -> (r: Vec<char>)
    ensures
        r@ == fences_trimmed(markdown@),
{
    let lines = text::lines(markdown);
    let ghost all = seqs::lines(markdown@);
    let mut out: Vec<Vec<char>> = Vec::new();
    let mut in_fence: bool = false;
    let mut i: usize = 0;
    assert(seqs::views(out@) =~= trim_fences(all.take(0)));
    while i < lines.len()
        invariant
            seqs::views(lines@) == all,
            i <= lines@.len(),
            in_fence == fence_open(all.take(i as int)),
            seqs::views(out@) == trim_fences(all.take(i as int)),
        decreases lines@.len() - i,
    {
        let line = lines[i].as_slice();
        proof {
            assert(all.take(i + 1).drop_last() =~= all.take(i as int));
            assert(all.take(i + 1).last() == line@);
        }
        let fence = is_fence_line(line);
        if fence && in_fence {
            let ghost whole = seqs::views(out@);
            while out.len() > 0 && text::is_blank(out[out.len() - 1].as_slice())
                invariant
                    drop_blank_tail(seqs::views(out@)) == drop_blank_tail(whole),
                decreases out@.len(),
            {
                let ghost shown = seqs::views(out@);
                assert(shown.last() == out@.last()@);
                let _ = out.pop();
                assert(seqs::views(out@) =~= shown.drop_last());
            }
            proof {
                if out@.len() > 0 {
                    assert(seqs::views(out@).last() == out@.last()@);
                }
            }
        }
        let ghost before = seqs::views(out@);
        if fence {
            in_fence = !in_fence;
        }
        out.push(text::copy(line));
        assert(seqs::views(out@) =~= before.push(line@));
        i += 1;
    }
    assert(all.take(i as int) =~= all);
    rejoin(&out, markdown)
}

/// Puts a line break after each Japanese sentence that more text follows.
pub fn repair_collapsed_line_breaks(markdown: &str) -> (r: String)
    ensures
        r@ == collapsed_line_breaks_repaired(markdown@),
{
    let chars = text::chars_of(markdown);
    let repaired = repair_collapsed_line_breaks_in(&chars);
    text::string_of(&repaired)
}

/// Takes the indentation off the lines outside of code blocks.
pub fn repair_indented_plain_text_lines(markdown: &str) -> (r: String)
    ensures
        r@ == indented_lines_repaired(markdown@),
{
    let chars = text::chars_of(markdown);
    let repaired = repair_prose(LineRepair::Unindent, &chars);
    assert(change_prose(
        seqs::lines(markdown@),
        |line: Seq<char>| repaired_line(LineRepair::Unindent, line),
    ) =~= change_prose(seqs::lines(markdown@), |line: Seq<char>| seqs::trim_start(line)));
    text::string_of(&repaired)
}

/// Makes a paragraph break of each large gap in the lines outside of code blocks.
pub fn repair_large_inline_gaps(markdown: &str) -> (r: String)
    ensures
        r@ == inline_gaps_repaired(markdown@),
{
    let chars = text::chars_of(markdown);
    let repaired = repair_prose(LineRepair::SplitGaps, &chars);
    assert(change_prose(
        seqs::lines(markdown@),
        |line: Seq<char>| repaired_line(LineRepair::SplitGaps, line),
    ) =~= change_prose(seqs::lines(markdown@), |line: Seq<char>| split_gaps(line)));
    text::string_of(&repaired)
}

/// Makes a paragraph break of each run of four or more spaces and tabs, and spaces of the others.
pub fn replace_large_space_runs(line: &str) -> (r: String)
    ensures
        r@ == split_gaps(line@),
{
    let chars = text::chars_of(line);
    let repaired = replace_large_space_runs_in(&chars);
    text::string_of(&repaired)
}

/// Parts code spans that stand next to each other in the lines outside of code blocks.
pub fn repair_adjacent_inline_code_spans(markdown: &str) -> (r: String)
    ensures
        r@ == code_spans_repaired(markdown@),
{
    let chars = text::chars_of(markdown);
    let repaired = repair_prose(LineRepair::PartSpans, &chars);
    assert(change_prose(
        seqs::lines(markdown@),
        |line: Seq<char>| repaired_line(LineRepair::PartSpans, line),
    ) =~= change_prose(
        seqs::lines(markdown@),
        |line: Seq<char>| seqs::replace(line, "``"@, "` `"@),
    ));
    text::string_of(&repaired)
}

/// Puts a list item that starts on a line of its own behind its bullet.
pub fn repair_empty_markdown_list_items(markdown: &str) -> (r: String)
    ensures
        r@ == list_items_repaired(markdown@),
{
    let chars = text::chars_of(markdown);
    let repaired = repair_list_items_in(&chars);
    text::string_of(&repaired)
}

/// Drops the blank lines before the end of each code block.
pub fn trim_code_fence_trailing_blanks(markdown: &str) -> (r: String)
    ensures
        r@ == fences_trimmed(markdown@),
{
    let chars = text::chars_of(markdown);
    let trimmed = trim_fences_in(&chars);
    text::string_of(&trimmed)
}

/// The statement after all repairs.
pub fn normalize_statement_markdown(markdown: &str) -> (r: String)
    ensures
        r@ == normalized(markdown@),
{
    let markdown = repair_collapsed_line_breaks(markdown);
    let markdown = repair_indented_plain_text_lines(markdown.as_str());
    let markdown = repair_large_inline_gaps(markdown.as_str());
    let markdown = repair_adjacent_inline_code_spans(markdown.as_str());
    let markdown = repair_empty_markdown_list_items(markdown.as_str());
    trim_code_fence_trailing_blanks(markdown.as_str())
}

proof fn unindented_fence(line: Seq<char>)
    ensures
        is_fence(seqs::trim_start(line)) == is_fence(line),
    decreases line.len(),
{
    if line.len() > 0 && seqs::is_white(line[0]) {
        unindented_fence(line.skip(1));
    }
}

proof fn blank_is_no_fence(line: Seq<char>)
    requires
        seqs::is_blank(line),
    ensures
        !is_fence(line),
{
    reveal_strlit("```");
    let k = seqs::trim_start_cuts(line);
    let rest = seqs::trim_start(line);
    if is_fence(line) {
        assert(rest.subrange(0, 3)[0] == '`');
        assert(rest[0] == '`');
        let end = seqs::trim_end_cuts(rest);
        assert(seqs::trim_end(rest).len() > 0) by {
            seqs::trim_end_drops(rest, end);
        }
    }
}

/// Taking the indentation off the lines outside of code blocks leaves the code blocks as they are:
/// each line of code stays what it was and stays code, and each other line loses its indentation
/// and stays outside of code.
pub proof fn unindenting_keeps_code(lines: Seq<Seq<char>>, i: int)
    requires
        0 <= i < lines.len(),
    ensures
        ({
            let unindented = change_prose(lines, |line: Seq<char>| seqs::trim_start(line));
            &&& unindented.len() == lines.len()
            &&& is_code(unindented, i) == is_code(lines, i)
            &&& unindented[i] == if is_code(lines, i) {
                lines[i]
            } else {
                seqs::trim_start(lines[i])
            }
        }),
{
    unindenting_keeps_open(lines, i);
    unindented_fence(lines[i]);
}

proof fn unindenting_keeps_open(lines: Seq<Seq<char>>, i: int)
    requires
        0 <= i <= lines.len(),
    ensures
        fence_open(
            change_prose(lines, |line: Seq<char>| seqs::trim_start(line)).take(i),
        ) == fence_open(lines.take(i)),
    decreases i,
{
    let unindented = change_prose(lines, |line: Seq<char>| seqs::trim_start(line));
    if i > 0 {
        unindenting_keeps_open(lines, i - 1);
        unindented_fence(lines[i - 1]);
        assert(unindented.take(i).drop_last() =~= unindented.take(i - 1));
        assert(lines.take(i).drop_last() =~= lines.take(i - 1));
    }
}

proof fn dropped_tail_keeps_open(lines: Seq<Seq<char>>)
    ensures
        fence_open(drop_blank_tail(lines)) == fence_open(lines),
        drop_blank_tail(lines).len() > 0 ==> !seqs::is_blank(drop_blank_tail(lines).last()),
        exists|n: int|
            0 <= n <= lines.len() && drop_blank_tail(lines) == #[trigger] lines.take(n),
    decreases lines.len(),
{
    if lines.len() > 0 && seqs::is_blank(lines.last()) {
        dropped_tail_keeps_open(lines.drop_last());
        blank_is_no_fence(lines.last());
        let n = choose|n: int|
            0 <= n <= lines.drop_last().len() && drop_blank_tail(lines.drop_last())
                == #[trigger] lines.drop_last().take(n);
        assert(lines.drop_last().take(n) =~= lines.take(n));
    } else {
        assert(lines.take(lines.len() as int) =~= lines);
    }
}

proof fn trimmed_fences_keep_open(lines: Seq<Seq<char>>)
    ensures
        fence_open(trim_fences(lines)) == fence_open(lines),
    decreases lines.len(),
{
    if lines.len() > 0 {
        let before = trim_fences(lines.drop_last());
        trimmed_fences_keep_open(lines.drop_last());
        dropped_tail_keeps_open(before);
        assert(before.push(lines.last()).drop_last() =~= before);
        assert(drop_blank_tail(before).push(lines.last()).drop_last() =~= drop_blank_tail(before));
    }
}

/// In a repaired text no blank line stands right before the end of a code block.
pub proof fn code_ends_without_blank(lines: Seq<Seq<char>>, i: int)
    requires
        0 < i < trim_fences(lines).len(),
        is_fence(trim_fences(lines)[i]),
        fence_open(trim_fences(lines).take(i)),
    ensures
        !seqs::is_blank(trim_fences(lines)[i - 1]),
    decreases lines.len(),
{
    let before = trim_fences(lines.drop_last());
    let after = trim_fences(lines);
    trimmed_fences_keep_open(lines.drop_last());
    dropped_tail_keeps_open(before);
    let kept = after.drop_last();
    let n = choose|n: int|
        0 <= n <= before.len() && drop_blank_tail(before) == #[trigger] before.take(n);
    assert(before.take(before.len() as int) =~= before);
    if i < kept.len() {
        let m = kept.len() as int;
        assert(kept =~= before.take(m));
        assert(after.take(i) =~= before.take(i));
        code_ends_without_blank(lines.drop_last(), i);
    } else {
        assert(after.take(i) =~= kept);
        if !fence_open(lines.drop_last()) {
            assert(kept =~= before);
        }
    }
}

/// Nothing but blank lines is taken away before the end of a code block.
pub proof fn only_blank_lines_go(lines: Seq<Seq<char>>)
    ensures
        trim_fences(lines).filter(|line: Seq<char>| !seqs::is_blank(line)) == lines.filter(
            |line: Seq<char>| !seqs::is_blank(line),
        ),
    decreases lines.len(),
{
    let shown = |line: Seq<char>| !seqs::is_blank(line);
    if lines.len() > 0 {
        let last = lines.last();
        let before = trim_fences(lines.drop_last());
        only_blank_lines_go(lines.drop_last());
        dropped_tail_shows_same(before);
        assert(lines =~= lines.drop_last().push(last));
        filter_of_push(lines.drop_last(), last);
        filter_of_push(before, last);
        filter_of_push(drop_blank_tail(before), last);
    }
}

proof fn filter_of_push(lines: Seq<Seq<char>>, last: Seq<char>)
    ensures
        lines.push(last).filter(|line: Seq<char>| !seqs::is_blank(line)) == if seqs::is_blank(
            last,
        ) {
            lines.filter(|line: Seq<char>| !seqs::is_blank(line))
        } else {
            lines.filter(|line: Seq<char>| !seqs::is_blank(line)).push(last)
        },
{
    reveal(Seq::filter);
    assert(lines.push(last).drop_last() =~= lines);
}

proof fn dropped_tail_shows_same(lines: Seq<Seq<char>>)
    ensures
        drop_blank_tail(lines).filter(|line: Seq<char>| !seqs::is_blank(line)) == lines.filter(
            |line: Seq<char>| !seqs::is_blank(line),
        ),
    decreases lines.len(),
{
    if lines.len() > 0 && seqs::is_blank(lines.last()) {
        dropped_tail_shows_same(lines.drop_last());
        assert(lines =~= lines.drop_last().push(lines.last()));
        filter_of_push(lines.drop_last(), lines.last());
    }
}

/// A code block is open after some lines exactly if an odd number of them are fences: each line
/// that starts with three backticks after its indentation is one, and no other line is.
pub proof fn fences_open_and_close(first: Seq<Seq<char>>, second: Seq<Seq<char>>, line: Seq<char>)
    ensures
        !fence_open(seq![]),
        fence_open(seq![line]) <==> seqs::starts_with(seqs::trim_start(line), "```"@),
        fence_open(first + second) <==> fence_open(first) != fence_open(second),
    decreases second.len(),
{
    reveal_with_fuel(fence_open, 2);
    assert(seq![line].drop_last() =~= seq![]);
    if second.len() > 0 {
        fences_open_and_close(first, second.drop_last(), line);
        assert((first + second).drop_last() =~= first + second.drop_last());
        assert((first + second).last() == second.last());
    } else {
        assert(first + second =~= first);
    }
}

/// Whether the line with the given number is a fence or stands in an open code block.
pub open spec fn in_code(lines: Seq<Seq<char>>, i: int) -> bool {
    seqs::starts_with(seqs::trim_start(lines[i]), "```"@) || fence_open(lines.take(i))
}

/// Whether a text consists of the given lines, and ends with a line feed exactly if another one
/// does.
pub open spec fn consists_of(text: Seq<char>, lines: Seq<Seq<char>>, original: Seq<char>) -> bool {
    text == seqs::join(lines, "\n"@) + if original.len() > 0 && original.last() == '\n' {
        seq!['\n']
    } else {
        seq![]
    }
}

/// Lines of code stay as they are; each other line loses its indentation and nothing else.
pub proof fn prose_loses_indentation(markdown: Seq<char>) -> (repaired: Seq<Seq<char>>)
    ensures
        consists_of(indented_lines_repaired(markdown), repaired, markdown),
        repaired.len() == seqs::lines(markdown).len(),
        forall|i: int|
            0 <= i < repaired.len() ==> #[trigger] repaired[i] == if in_code(
                seqs::lines(markdown),
                i,
            ) {
                seqs::lines(markdown)[i]
            } else {
                seqs::trim_start(seqs::lines(markdown)[i])
            },
{
    let repaired = change_prose(
        seqs::lines(markdown),
        |line: Seq<char>| seqs::trim_start(line),
    );
    assert(indented_lines_repaired(markdown) =~= seqs::join(repaired, "\n"@) + if markdown.len() > 0
        && markdown.last() == '\n' {
        seq!['\n']
    } else {
        seq![]
    });
    repaired
}

/// Lines of code stay as they are; each other line has its large gaps split.
pub proof fn prose_has_gaps_split(markdown: Seq<char>) -> (repaired: Seq<Seq<char>>)
    ensures
        consists_of(inline_gaps_repaired(markdown), repaired, markdown),
        repaired.len() == seqs::lines(markdown).len(),
        forall|i: int|
            0 <= i < repaired.len() ==> #[trigger] repaired[i] == if in_code(
                seqs::lines(markdown),
                i,
            ) {
                seqs::lines(markdown)[i]
            } else {
                split_gaps(seqs::lines(markdown)[i])
            },
{
    let repaired = change_prose(seqs::lines(markdown), |line: Seq<char>| split_gaps(line));
    assert(inline_gaps_repaired(markdown) =~= seqs::join(repaired, "\n"@) + if markdown.len() > 0
        && markdown.last() == '\n' {
        seq!['\n']
    } else {
        seq![]
    });
    repaired
}

/// Lines of code stay as they are; in each other line a space parts two backticks that stand
/// together.
pub proof fn prose_has_spans_parted(markdown: Seq<char>) -> (repaired: Seq<Seq<char>>)
    ensures
        consists_of(code_spans_repaired(markdown), repaired, markdown),
        repaired.len() == seqs::lines(markdown).len(),
        forall|i: int|
            0 <= i < repaired.len() ==> #[trigger] repaired[i] == if in_code(
                seqs::lines(markdown),
                i,
            ) {
                seqs::lines(markdown)[i]
            } else {
                seqs::replace(seqs::lines(markdown)[i], "``"@, "` `"@)
            },
{
    let repaired = change_prose(
        seqs::lines(markdown),
        |line: Seq<char>| seqs::replace(line, "``"@, "` `"@),
    );
    assert(code_spans_repaired(markdown) =~= seqs::join(repaired, "\n"@) + if markdown.len() > 0
        && markdown.last() == '\n' {
        seq!['\n']
    } else {
        seq![]
    });
    repaired
}

proof fn run_is_gap(gap: Seq<char>, rest: Seq<char>)
    requires
        forall|i: int| 0 <= i < gap.len() ==> #[trigger] gap[i] == ' ' || gap[i] == '\t',
        rest.len() == 0 || (rest[0] != ' ' && rest[0] != '\t'),
    ensures
        gap_len(gap + rest) == gap.len(),
    decreases gap.len(),
{
    if gap.len() > 0 {
        run_is_gap(gap.skip(1), rest);
        assert((gap + rest)[0] == gap[0]);
        assert((gap + rest).skip(1) =~= gap.skip(1) + rest);
    } else {
        assert(gap + rest =~= rest);
    }
}

/// Words stay as they are; a run of four or more spaces and tabs between them becomes a paragraph
/// break, and a shorter one as many spaces.
pub proof fn large_gaps_are_split(word: Seq<char>, gap: Seq<char>, rest: Seq<char>)
    requires
        forall|i: int| 0 <= i < word.len() ==> #[trigger] word[i] != ' ' && word[i] != '\t',
        forall|i: int| 0 <= i < gap.len() ==> #[trigger] gap[i] == ' ' || gap[i] == '\t',
        rest.len() == 0 || (rest[0] != ' ' && rest[0] != '\t'),
    ensures
        split_gaps(word) == word,
        gap.len() >= 4 ==> split_gaps(word + gap + rest) == word + "\n\n"@ + split_gaps(rest),
        gap.len() < 4 ==> split_gaps(word + gap + rest) == word + seqs::repeat(' ', gap.len())
            + split_gaps(rest),
    decreases word.len(),
{
    let line = word + gap + rest;
    if word.len() > 0 {
        large_gaps_are_split(word.skip(1), gap, rest);
        assert(line[0] == word[0]);
        assert(line.skip(1) =~= word.skip(1) + gap + rest);
        assert(seq![word[0]] + word.skip(1) =~= word);
        let tail = split_gaps(rest);
        assert(seq![word[0]] + (word.skip(1) + "\n\n"@ + tail) =~= word + "\n\n"@ + tail);
        let spaces = seqs::repeat(' ', gap.len());
        assert(seq![word[0]] + (word.skip(1) + spaces + tail) =~= word + spaces + tail);
    } else {
        assert(split_gaps(word) =~= word);
        assert(line =~= gap + rest);
        let tail = split_gaps(rest);
        assert(Seq::<char>::empty() + "\n\n"@ + tail =~= "\n\n"@ + tail);
        let spaces = seqs::repeat(' ', gap.len());
        assert(word + spaces + tail =~= spaces + tail);
        assert(word + "\n\n"@ + tail =~= "\n\n"@ + tail);
        run_is_gap(gap, rest);
        if gap.len() > 0 {
            assert(line[0] == gap[0]);
            assert(line.skip(gap.len() as int) =~= rest);
        } else {
            assert(line =~= rest);
            assert(spaces + tail =~= tail);
        }
    }
}

/// A line break takes the place of the spaces and tabs after a Japanese sentence that more text
/// follows: not where the text or the line ends, and not before a full stop, a comma or a closing
/// bracket. Everything else stays as it is.
pub proof fn sentences_are_broken(
    quiet: Seq<char>,
    end: char,
    gap: Seq<char>,
    rest: Seq<char>,
)
    requires
        forall|i: int|
            0 <= i < quiet.len() ==> #[trigger] quiet[i] != '。' && quiet[i] != '！' && quiet[i]
                != '？',
        end == '。' || end == '！' || end == '？',
        forall|i: int| 0 <= i < gap.len() ==> #[trigger] gap[i] == ' ' || gap[i] == '\t',
        rest.len() == 0 || (rest[0] != ' ' && rest[0] != '\t'),
    ensures
        collapsed_line_breaks_repaired(quiet) == quiet,
        collapsed_line_breaks_repaired(quiet + (seq![end] + gap + rest)) == quiet + if rest.len()
            > 0 && rest[0] != '\n' && rest[0] != '\r' && rest[0] != '。' && rest[0] != '、'
            && rest[0] != ')' && rest[0] != '）' && rest[0] != ']' && rest[0] != '】' && rest[0]
            != '」' {
            seq![end, '\n'] + collapsed_line_breaks_repaired(rest)
        } else {
            seq![end] + collapsed_line_breaks_repaired(gap + rest)
        },
    decreases quiet.len(),
{
    let tail = seq![end] + gap + rest;
    let s = quiet + tail;
    if quiet.len() > 0 {
        sentences_are_broken(quiet.skip(1), end, gap, rest);
        assert(s[0] == quiet[0]);
        assert(s.skip(1) =~= quiet.skip(1) + tail);
        assert(seq![quiet[0]] + quiet.skip(1) =~= quiet);
        let broken = break_sentences(tail);
        assert(break_sentences(quiet.skip(1) + tail) == quiet.skip(1) + if rest.len() > 0
            && !is_closing(rest[0]) {
            seq![end, '\n'] + break_sentences(rest)
        } else {
            seq![end] + break_sentences(gap + rest)
        });
        let after = if rest.len() > 0 && !is_closing(rest[0]) {
            seq![end, '\n'] + break_sentences(rest)
        } else {
            seq![end] + break_sentences(gap + rest)
        };
        assert(seq![quiet[0]] + (quiet.skip(1) + after) =~= quiet + after);
    } else {
        assert(s =~= tail);
        assert(tail[0] == end);
        assert(tail.skip(1) =~= gap + rest);
        run_is_gap(gap, rest);
        assert((gap + rest).skip(gap.len() as int) =~= rest);
        if rest.len() > 0 {
            assert((gap + rest)[gap.len() as int] == rest[0]);
        }
        let after = if rest.len() > 0 && !is_closing(rest[0]) {
            seq![end, '\n'] + break_sentences(rest)
        } else {
            seq![end] + break_sentences(gap + rest)
        };
        assert(quiet + after =~= after);
        assert(break_sentences(quiet) =~= quiet);
    }
}

/// An empty bullet, a blank line and a line of text become one item with that text; every other
/// line stays as it is, in its order.
pub proof fn empty_bullets_are_filled(
    bullet: Seq<char>,
    blank: Seq<char>,
    content: Seq<char>,
    rest: Seq<Seq<char>>,
)
    ensures
        fill_bullets(seq![]).len() == 0,
        seqs::trim(bullet) == "-"@ && seqs::is_blank(blank) && !seqs::is_blank(content)
            ==> fill_bullets(seq![bullet, blank, content] + rest) == seq![
            "- "@ + seqs::trim_start(content),
        ] + fill_bullets(rest),
        seqs::trim(bullet) != "-"@ || !seqs::is_blank(blank) || seqs::is_blank(content)
            ==> fill_bullets(seq![bullet, blank, content] + rest) == seq![bullet] + fill_bullets(
            seq![blank, content] + rest,
        ),
        fill_bullets(seq![bullet, blank]) == seq![bullet, blank],
        fill_bullets(seq![bullet]) == seq![bullet],
{
    reveal_with_fuel(fill_bullets, 3);
    let lines = seq![bullet, blank, content] + rest;
    assert(lines[0] == bullet && lines[1] == blank && lines[2] == content);
    assert(lines.skip(3) =~= rest);
    assert(lines.skip(1) =~= seq![blank, content] + rest);
    let two = seq![bullet, blank];
    assert(two.skip(1) =~= seq![blank]);
    assert(seq![blank].skip(1) =~= seq![]);
    assert(seq![bullet].skip(1) =~= seq![]);
    assert(fill_bullets(two) =~= seq![bullet, blank]);
}

/// The items are repaired line by line.
pub proof fn items_are_repaired_by_line(markdown: Seq<char>)
    ensures
        consists_of(
            list_items_repaired(markdown),
            fill_bullets(seqs::lines(markdown)),
            markdown,
        ),
{
    let lines = fill_bullets(seqs::lines(markdown));
    assert(list_items_repaired(markdown) =~= seqs::join(lines, "\n"@) + if markdown.len() > 0
        && markdown.last() == '\n' {
        seq!['\n']
    } else {
        seq![]
    });
}

/// Blank lines go only right before a line that closes a code block; every other line is kept, and
/// in its order.
pub proof fn blank_lines_go_before_closing_fence(
    lines: Seq<Seq<char>>,
    blanks: Seq<Seq<char>>,
    line: Seq<char>,
)
    ensures
        trim_fences(seq![]).len() == 0,
        !(seqs::starts_with(seqs::trim_start(line), "```"@) && fence_open(lines)) ==> trim_fences(
            lines.push(line),
        ) == trim_fences(lines).push(line),
        seqs::starts_with(seqs::trim_start(line), "```"@) && fence_open(lines) && (
        trim_fences(lines).len() == 0 || !seqs::is_blank(trim_fences(lines).last()))
            ==> trim_fences(lines.push(line)) == trim_fences(lines).push(line),
        seqs::starts_with(seqs::trim_start(line), "```"@) && fence_open(lines) && trim_fences(
            lines,
        ).len() > 0 && seqs::is_blank(trim_fences(lines).last()) ==> trim_fences(lines.push(line))
            == drop_blank_tail(trim_fences(lines).drop_last()).push(line),
        (forall|i: int| 0 <= i < blanks.len() ==> seqs::is_blank(#[trigger] blanks[i])) && (
        lines.len() == 0 || !seqs::is_blank(lines.last())) ==> drop_blank_tail(lines + blanks)
            == lines,
    decreases blanks.len(),
{
    assert(lines.push(line).drop_last() =~= lines);
    if blanks.len() > 0 {
        blank_lines_go_before_closing_fence(lines, blanks.drop_last(), line);
        assert((lines + blanks).drop_last() =~= lines + blanks.drop_last());
        assert((lines + blanks).last() == blanks.last());
        if forall|i: int| 0 <= i < blanks.len() ==> seqs::is_blank(#[trigger] blanks[i]) {
            assert(forall|i: int|
                0 <= i < blanks.drop_last().len() ==> seqs::is_blank(
                    #[trigger] blanks.drop_last()[i],
                ));
        }
    } else {
        assert(lines + blanks =~= lines);
    }
}

/// Code blocks are trimmed line by line.
pub proof fn fences_are_trimmed_by_line(markdown: Seq<char>)
    ensures
        consists_of(fences_trimmed(markdown), trim_fences(seqs::lines(markdown)), markdown),
{
    let lines = trim_fences(seqs::lines(markdown));
    assert(fences_trimmed(markdown) =~= seqs::join(lines, "\n"@) + if markdown.len() > 0
        && markdown.last() == '\n' {
        seq!['\n']
    } else {
        seq![]
    });
}

/// A statement goes through every repair: first its sentences are broken, then the indentation goes,
/// then the gaps are split, the code spans parted, the bullets filled, and the code blocks trimmed.
pub proof fn every_repair_is_made(
    markdown: Seq<char>,
    broken: Seq<char>,
    flush: Seq<char>,
    split: Seq<char>,
    parted: Seq<char>,
    filled: Seq<char>,
)
    requires
        broken == collapsed_line_breaks_repaired(markdown),
        flush == indented_lines_repaired(broken),
        split == inline_gaps_repaired(flush),
        parted == code_spans_repaired(split),
        filled == list_items_repaired(parted),
    ensures
        normalized(markdown) == fences_trimmed(filled),
{
}
} // verus!
