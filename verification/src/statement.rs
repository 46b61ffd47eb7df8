//! Reading a problem statement out of the page that shows it.

use vstd::prelude::*;

use crate::copying::Duplicate;
use crate::markdown;
use crate::seqs;
use crate::text;

verus! {

/// One sample of a problem.
pub struct Sample {
    pub input: String,
    pub output: String,
}

/// What a `Sample` holds.
#[verifier::ext_equal]
pub struct SampleModel {
    pub input: Seq<char>,
    pub output: Seq<char>,
}

impl DeepView for Sample {
    type V = SampleModel;

    open spec fn deep_view(&self) -> SampleModel {
        SampleModel {
            input: self.input@,
            output: self.output@,
        }
    }
}

impl Duplicate for Sample {
    fn duplicate(&self) -> (r: Self) {
        Sample {
            input: self.input.clone(),
            output: self.output.clone(),
        }
    }
}

/// What the page of a problem says.
pub struct ProblemDetail {
    pub title: Option<String>,
    pub statement_markdown: String,
    pub samples: Vec<Sample>,
}

/// What a `ProblemDetail` holds.
#[verifier::ext_equal]
pub struct ProblemDetailModel {
    pub title: Option<Seq<char>>,
    pub statement_markdown: Seq<char>,
    pub samples: Seq<SampleModel>,
}

impl DeepView for ProblemDetail {
    type V = ProblemDetailModel;

    open spec fn deep_view(&self) -> ProblemDetailModel {
        ProblemDetailModel {
            title: self.title.deep_view(),
            statement_markdown: self.statement_markdown@,
            samples: self.samples.deep_view(),
        }
    }
}

impl Duplicate for ProblemDetail {
    fn duplicate(&self) -> (r: Self) {
        ProblemDetail {
            title: self.title.duplicate(),
            statement_markdown: self.statement_markdown.clone(),
            samples: self.samples.duplicate(),
        }
    }
}

/// `text` with the character references for `<`, `>`, `&`, `"` and `'` resolved.
pub open spec fn unescaped(text: Seq<char>) -> Seq<char> {
    let text = seqs::replace(text, "&lt;"@, "<"@);
    let text = seqs::replace(text, "&gt;"@, ">"@);
    let text = seqs::replace(text, "&amp;"@, "&"@);
    let text = seqs::replace(text, "&quot;"@, "\""@);
    seqs::replace(text, "&#39;"@, "'"@)
}

/// The text between `open` and the next `close` in `html`.
pub open spec fn between(html: Seq<char>, open: Seq<char>, close: Seq<char>) -> Option<Seq<char>> {
    match seqs::find(html, open) {
        Some(start) => {
            let rest = html.skip(start + open.len());
            match seqs::find(rest, close) {
                Some(end) => Some(rest.take(end)),
                None => None,
            }
        },
        None => None,
    }
}

/// The title of the page.
pub open spec fn html_title(html: Seq<char>) -> Option<Seq<char>> {
    between(html, "<title>"@, "</title>"@)
}

/// The title of the problem: what follows the first ` - ` in the title of the page, if anything.
pub open spec fn problem_title(html: Seq<char>) -> Option<Seq<char>> {
    match html_title(html) {
        Some(page_title) => {
            let whole = unescaped(seqs::trim(page_title));
            let title = seqs::trim(
                match seqs::split_once(whole, " - "@) {
                    Some(parts) => parts.1,
                    None => whole,
                },
            );
            if title.len() == 0 {
                None
            } else {
                Some(title)
            }
        },
        None => None,
    }
}

/// A `var` element as inline math.
pub open spec fn math_of(content: Seq<char>) -> Seq<char> {
    "$"@ + seqs::replace(seqs::trim(unescaped(content)), "$"@, "\\$"@) + "$"@
}

/// `html` with each `var` element as inline math, up to the first one without an end.
pub open spec fn var_as_math(html: Seq<char>) -> Seq<char>
    decreases html.len(),
    via var_as_math_ends
{
    match seqs::find(html, "<var"@) {
        None => html,
        Some(start) => match seqs::find_from(html, ">"@, start) {
            None => html,
            Some(open_end) => match seqs::find_from(html, "</var>"@, open_end + 1) {
                None => html,
                Some(close) => html.take(start) + math_of(html.subrange(open_end + 1, close))
                    + var_as_math(html.skip(close + 6)),
            },
        },
    }
}

#[via_fn]
proof fn var_as_math_ends(html: Seq<char>) {
    reveal_strlit("</var>");
    reveal_strlit("<var");
    reveal_strlit(">");
    seqs::find_from_is_first(html, "<var"@, 0);
    if let Some(start) = seqs::find(html, "<var"@) {
        seqs::find_from_is_first(html, ">"@, start);
        if let Some(open_end) = seqs::find_from(html, ">"@, start) {
            seqs::find_from_is_first(html, "</var>"@, open_end + 1);
        }
    }
}

/// The non-blank ones of `lines`, without trailing white space, each as a paragraph.
pub open spec fn paragraphs(lines: Seq<Seq<char>>, line_end: Seq<char>) -> Seq<char>
    decreases lines.len(),
{
    if lines.len() == 0 {
        seq![]
    } else {
        let line = seqs::trim_end(lines.last());
        if line.len() == 0 {
            paragraphs(lines.drop_last(), line_end)
        } else {
            paragraphs(lines.drop_last(), line_end) + "<p>"@ + line + line_end
        }
    }
}

/// A preformatted block: its lines as paragraphs, if there is math in it.
pub open spec fn pre_block(
    block: Seq<char>,
    content: Seq<char>,
    line_end: Seq<char>,
    block_end: Seq<char>,
) -> Seq<char> {
    if seqs::contains(content, "<var"@) {
        paragraphs(
            seqs::lines(seqs::trim_char_end(seqs::trim_char_start(content, '\n'), '\n')),
            line_end,
        ) + block_end
    } else {
        block
    }
}

/// `html` with each preformatted block that has math in it as paragraphs, up to the first one
/// without an end.
pub open spec fn math_pre_rewritten(
    html: Seq<char>,
    line_end: Seq<char>,
    block_end: Seq<char>,
) -> Seq<char>
    decreases html.len(),
    via math_pre_rewritten_ends
{
    match seqs::find(html, "<pre"@) {
        None => html,
        Some(start) => match seqs::find_from(html, ">"@, start) {
            None => html,
            Some(open_end) => match seqs::find_from(html, "</pre>"@, open_end + 1) {
                None => html,
                Some(close) => html.take(start) + pre_block(
                    html.subrange(start, close + 6),
                    html.subrange(open_end + 1, close),
                    line_end,
                    block_end,
                ) + math_pre_rewritten(html.skip(close + 6), line_end, block_end),
            },
        },
    }
}

#[via_fn]
proof fn math_pre_rewritten_ends(html: Seq<char>, line_end: Seq<char>, block_end: Seq<char>) {
    reveal_strlit("</pre>");
    reveal_strlit("<pre");
    reveal_strlit(">");
    seqs::find_from_is_first(html, "<pre"@, 0);
    if let Some(start) = seqs::find(html, "<pre"@) {
        seqs::find_from_is_first(html, ">"@, start);
        if let Some(open_end) = seqs::find_from(html, ">"@, start) {
            seqs::find_from_is_first(html, "</pre>"@, open_end + 1);
        }
    }
}

/// `src` as an absolute address.
pub open spec fn absolute_url(src: Seq<char>) -> Seq<char> {
    if seqs::starts_with(src, "http://"@) || seqs::starts_with(src, "https://"@) {
        src
    } else if seqs::starts_with(src, "//"@) {
        "https://"@ + src.skip(2)
    } else if seqs::starts_with(src, "/"@) {
        "https://atcoder.jp"@ + src
    } else {
        "https://atcoder.jp/"@ + src
    }
}

/// An image as Markdown.
pub open spec fn image_text(src: Seq<char>, alt: Seq<char>) -> Seq<char> {
    "!["@ + seqs::trim(alt) + "]("@ + absolute_url(seqs::trim(src)) + ")"@
}

/// The position behind the end tag that brings the nesting of `open` and `close` from `depth` at
/// `cursor` to zero.
pub open spec fn balanced_end(
    html: Seq<char>,
    open: Seq<char>,
    close: Seq<char>,
    cursor: int,
    depth: nat,
) -> Option<int>
    decreases html.len() - cursor,
    when 0 <= cursor <= html.len() && open.len() > 0 && close.len() > 0
    via balanced_end_ends
{
    if depth == 0 {
        Some(cursor)
    } else {
        match seqs::find_from(html, close, cursor) {
            None => None,
            Some(next_close) => match seqs::find_from(html, open, cursor) {
                Some(next_open) if next_open < next_close => balanced_end(
                    html,
                    open,
                    close,
                    next_open + open.len(),
                    depth + 1,
                ),
                _ => balanced_end(
                    html,
                    open,
                    close,
                    next_close + close.len(),
                    (depth - 1) as nat,
                ),
            },
        }
    }
}

#[via_fn]
proof fn balanced_end_ends(
    html: Seq<char>,
    open: Seq<char>,
    close: Seq<char>,
    cursor: int,
    depth: nat,
) {
    seqs::find_from_is_first(html, close, cursor);
    seqs::find_from_is_first(html, open, cursor);
}

/// The element of `html` whose start tag begins at `start`, up to its own end tag.
pub open spec fn balanced_element(html: Seq<char>, start: int) -> Option<Seq<char>> {
    match seqs::find_from(html, ">"@, start) {
        None => None,
        Some(tag_end) => match seqs::first_word(html.subrange(start + 1, tag_end)) {
            None => None,
            Some(name) => match balanced_end(
                html,
                "<"@ + name,
                "</"@ + name + ">"@,
                tag_end + 1,
                1,
            ) {
                None => None,
                Some(end) => Some(html.subrange(start, end)),
            },
        },
    }
}

/// The element that holds the statement.
pub open spec fn task_statement(html: Seq<char>) -> Option<Seq<char>> {
    match seqs::find(html, "id=\"task-statement\""@) {
        None => None,
        Some(marker) => match seqs::rfind(html.take(marker), "<div"@) {
            None => None,
            Some(start) => balanced_element(html, start),
        },
    }
}

/// `markdown` from `marker` on.
pub open spec fn from_marker(markdown: Seq<char>, marker: Seq<char>) -> Option<Seq<char>> {
    match seqs::find(markdown, marker) {
        Some(index) => Some(seqs::trim_start(markdown.skip(index))),
        None => None,
    }
}

/// The English part of a statement: what starts with the score, else with a heading for the
/// statement, else all of it.
pub open spec fn english_part(markdown: Seq<char>) -> Seq<char> {
    match from_marker(markdown, "Score :"@) {
        Some(part) => part,
        None => match from_marker(markdown, "### Problem Statement"@) {
            Some(part) => part,
            None => match from_marker(markdown, "## Problem Statement"@) {
                Some(part) => part,
                None => markdown,
            },
        },
    }
}

/// Resolves the character references for `<`, `>`, `&`, `"` and `'`.
pub fn unescape(s: &[char]) -> (r: Vec<char>)
    ensures
        r@ == unescaped(s@),
{
    proof {
        reveal_strlit("&lt;");
        reveal_strlit("&gt;");
        reveal_strlit("&amp;");
        reveal_strlit("&quot;");
        reveal_strlit("&#39;");
    }
    let s = text::replace(s, "&lt;", "<");
    let s = text::replace(&s, "&gt;", ">");
    let s = text::replace(&s, "&amp;", "&");
    let s = text::replace(&s, "&quot;", "\"");
    text::replace(&s, "&#39;", "'")
}

/// Resolves the character references for `<`, `>`, `&`, `"` and `'`.
pub fn html_unescape(s: &str) -> (r: String)
    ensures
        r@ == unescaped(s@),
{
    let chars = text::chars_of(s);
    let resolved = unescape(&chars);
    text::string_of(&resolved)
}

/// The title of the page.
pub fn extract_html_title(html: &str) -> (r: Option<String>)
    ensures
        r.deep_view() == html_title(html@),
{
    let chars = text::chars_of(html);
    match text::split_once(&chars, "<title>") {
        None => None,
        Some((_, rest)) => match text::find(rest, "</title>") {
            None => None,
            Some(end) => Some(text::string_of(text::take(rest, end))),
        },
    }
}

/// The title of the problem that a page shows.
pub fn extract_problem_title(html: &str) -> (r: Option<String>)
    ensures
        r.deep_view() == problem_title(html@),
{
    match extract_html_title(html) {
        None => None,
        Some(page_title) => {
            let page_title = text::chars_of(page_title.as_str());
            let whole = unescape(text::trim(&page_title));
            let title = match text::split_once(&whole, " - ") {
                Some((_, title)) => text::trim(title),
                None => text::trim(&whole),
            };
            if title.len() == 0 {
                None
            } else {
                Some(text::string_of(title))
            }
        },
    }
}

/// Turns each `var` element into inline math.
pub fn wrap_var_tags_as_math(html: &str) -> (r: String)
    ensures
        r@ == var_as_math(html@),
{
    let s = text::chars_of(html);
    let open = text::chars_of("<var");
    let tag_end = text::chars_of(">");
    let close = text::chars_of("</var>");
    let length: usize = s.len();
    let mut out: Vec<char> = Vec::new();
    let mut start: usize = 0;
    proof {
        reveal_strlit("</var>");
        reveal_strlit("<var");
        reveal_strlit(">");
        reveal_strlit("$");
        assert(s@.skip(0) =~= s@);
    }
    loop
        invariant
            s@ == html@,
            length == s@.len(),
            open@ == "<var"@,
            tag_end@ == ">"@,
            close@ == "</var>"@,
            "</var>"@.len() == 6,
            "<var"@.len() == 4,
            ">"@.len() == 1,
            "$"@.len() == 1,
            start <= s@.len(),
            out@ + var_as_math(s@.skip(start as int)) == var_as_math(s@),
        decreases s@.len() - start,
    {
        let rest = text::skip(&s, start);
        assert(rest@.len() == s@.len() - start);
        let open_start = match text::find_from(rest, &open, 0) {
            None => {
                text::push_chars(&mut out, rest);
                return text::string_of(&out);
            },
            Some(i) => i,
        };
        let open_end = match text::find_from(rest, &tag_end, open_start) {
            None => {
                text::push_chars(&mut out, rest);
                return text::string_of(&out);
            },
            Some(i) => i,
        };
        let close_start = match text::find_from(rest, &close, open_end + 1) {
            None => {
                text::push_chars(&mut out, rest);
                return text::string_of(&out);
            },
            Some(i) => i,
        };
        let ghost before = out@;
        text::push_chars(&mut out, text::take(rest, open_start));
        let content = vstd::slice::slice_subrange(rest, open_end + 1, close_start);
        let math = unescape(content);
        text::push_str(&mut out, "$");
        let escaped = text::replace(text::trim(&math), "$", "\\$");
        text::push_chars(&mut out, &escaped);
        text::push_str(&mut out, "$");
        assert(rest@.skip(close_start + 6) =~= s@.skip(start + close_start + 6));
        start = start + close_start + 6;
        assert(out@ + var_as_math(s@.skip(start as int)) =~= before + (rest@.take(
            open_start as int,
        ) + math_of(content@) + var_as_math(s@.skip(start as int))));
    }
}

/// The non-blank lines of `s`, without trailing white space, each as a paragraph.
fn push_paragraphs(out: &mut Vec<char>, s: &[char], line_end: &str)
    ensures
        final(out)@ == old(out)@ + paragraphs(seqs::lines(s@), line_end@),
{
    let lines = text::lines(s);
    let ghost all = seqs::lines(s@);
    let mut i: usize = 0;
    assert(out@ + paragraphs(all.take(0), line_end@) =~= out@);
    while i < lines.len()
        invariant
            seqs::views(lines@) == all,
            i <= lines@.len(),
            out@ == old(out)@ + paragraphs(all.take(i as int), line_end@),
        decreases lines@.len() - i,
    {
        let ghost before = out@;
        proof {
            assert(all.take(i + 1).drop_last() =~= all.take(i as int));
            assert(all.take(i + 1).last() == lines@[i as int]@);
        }
        let line = text::trim_end(lines[i].as_slice());
        if line.len() > 0 {
            text::push_str(out, "<p>");
            text::push_chars(out, line);
            text::push_str(out, line_end);
            assert(out@ =~= old(out)@ + (paragraphs(all.take(i as int), line_end@) + "<p>"@ + line@
                + line_end@));
        }
        i += 1;
    }
    assert(all.take(i as int) =~= all);
}

/// Turns each preformatted block that has math in it into paragraphs, each followed by `line_end`
/// and all of them by `block_end`.
fn rewrite_pre_blocks(html: &str, line_end: &str, block_end: &str) -> (r: String)
    ensures
        r@ == math_pre_rewritten(html@, line_end@, block_end@),
{
    let s = text::chars_of(html);
    let open = text::chars_of("<pre");
    let tag_end = text::chars_of(">");
    let close = text::chars_of("</pre>");
    let length: usize = s.len();
    let mut out: Vec<char> = Vec::new();
    let mut start: usize = 0;
    proof {
        reveal_strlit("</pre>");
        reveal_strlit("<pre");
        reveal_strlit(">");
        assert(s@.skip(0) =~= s@);
    }
    loop
        invariant
            s@ == html@,
            length == s@.len(),
            open@ == "<pre"@,
            tag_end@ == ">"@,
            close@ == "</pre>"@,
            "</pre>"@.len() == 6,
            "<pre"@.len() == 4,
            ">"@.len() == 1,
            start <= s@.len(),
            out@ + math_pre_rewritten(s@.skip(start as int), line_end@, block_end@)
                == math_pre_rewritten(s@, line_end@, block_end@),
        decreases s@.len() - start,
    {
        let rest = text::skip(&s, start);
        assert(rest@.len() == s@.len() - start);
        let open_start = match text::find_from(rest, &open, 0) {
            None => {
                text::push_chars(&mut out, rest);
                return text::string_of(&out);
            },
            Some(i) => i,
        };
        let open_end = match text::find_from(rest, &tag_end, open_start) {
            None => {
                text::push_chars(&mut out, rest);
                return text::string_of(&out);
            },
            Some(i) => i,
        };
        let close_start = match text::find_from(rest, &close, open_end + 1) {
            None => {
                text::push_chars(&mut out, rest);
                return text::string_of(&out);
            },
            Some(i) => i,
        };
        let ghost before = out@;
        text::push_chars(&mut out, text::take(rest, open_start));
        let content = vstd::slice::slice_subrange(rest, open_end + 1, close_start);
        let block = vstd::slice::slice_subrange(rest, open_start, close_start + 6);
        let ghost middle = out@;
        if text::contains(content, "<var") {
            let inner = text::trim_char_end(text::trim_char_start(content, '\n'), '\n');
            push_paragraphs(&mut out, inner, line_end);
            text::push_str(&mut out, block_end);
        } else {
            text::push_chars(&mut out, block);
        }
        assert(out@ =~= middle + pre_block(block@, content@, line_end@, block_end@));
        assert(rest@.skip(close_start + 6) =~= s@.skip(start + close_start + 6));
        start = start + close_start + 6;
        assert(out@ + math_pre_rewritten(s@.skip(start as int), line_end@, block_end@) =~= before + (
        rest@.take(open_start as int) + pre_block(block@, content@, line_end@, block_end@)
            + math_pre_rewritten(s@.skip(start as int), line_end@, block_end@)));
    }
}

/// Turns each preformatted block that has math in it into paragraphs on lines of their own.
pub fn rewrite_math_pre_blocks(html: &str) -> (r: String)
    ensures
        r@ == math_pre_rewritten(html@, "</p>\n"@, "<p></p>\n"@),
{
    rewrite_pre_blocks(html, "</p>\n", "<p></p>\n")
}

/// Turns each preformatted block that has math in it into paragraphs.
pub fn rewrite_math_pre_blocks_inline(html: &str) -> (r: String)
    ensures
        r@ == math_pre_rewritten(html@, "</p>"@, ""@),
{
    rewrite_pre_blocks(html, "</p>", "")
}

/// `src` as an absolute address.
pub fn absolutize_atcoder_url(src: &str) -> (r: String)
    ensures
        r@ == absolute_url(src@),
{
    let chars = text::chars_of(src);
    if text::starts_with(&chars, "http://") || text::starts_with(&chars, "https://") {
        src.to_owned()
    } else {
        proof {
            reveal_strlit("//");
        }
        if let Some(rest) = text::strip_prefix(&chars, "//") {
            let rest = text::string_of(rest);
            "https://".to_owned().concat(rest.as_str())
        } else if text::starts_with(&chars, "/") {
            "https://atcoder.jp".to_owned().concat(src)
        } else {
            "https://atcoder.jp/".to_owned().concat(src)
        }
    }
}

/// An image as Markdown.
pub fn image_markdown(src: &str, alt: &str) -> (r: String)
    ensures
        r@ == image_text(src@, alt@),
{
    let src = text::trim_str(src);
    let alt = text::trim_str(alt);
    let url = absolutize_atcoder_url(src.as_str());
    "![".to_owned().concat(alt.as_str()).concat("](").concat(url.as_str()).concat(")")
}

/// The element of `html` whose start tag begins at the position `start`.
fn balanced_element_at(html: &[char], start: usize) -> (r: Option<String>)
    requires
        start <= html@.len(),
        start < html@.len() ==> html@[start as int] != '>',
    ensures
        r.deep_view() == balanced_element(html@, start as int),
{
    proof {
        reveal_strlit(">");
        reveal_strlit("<");
        reveal_strlit("</");
        seqs::find_from_is_first(html@, ">"@, start as int);
    }
    let length: usize = html.len();
    let tag_end = match text::find_from(html, &text::chars_of(">"), start) {
        None => {
            return None;
        },
        Some(i) => i,
    };
    proof {
        assert(html@.subrange(tag_end as int, tag_end + 1)[0] == '>');
    }
    let tag = vstd::slice::slice_subrange(html, start + 1, tag_end);
    let name = match text::first_word(tag) {
        None => {
            return None;
        },
        Some(word) => word,
    };
    let mut open = text::chars_of("<");
    text::push_chars(&mut open, name);
    let mut close = text::chars_of("</");
    text::push_chars(&mut close, name);
    text::push_str(&mut close, ">");
    let mut depth: usize = 1;
    let mut cursor: usize = tag_end + 1;
    while depth > 0
        invariant
            length == html@.len(),
            open@ == "<"@ + name@,
            close@ == "</"@ + name@ + ">"@,
            open@.len() > 0,
            close@.len() > 0,
            start < cursor <= html@.len(),
            depth <= cursor,
            seqs::find_from(html@, ">"@, start as int) == Some(tag_end as int),
            seqs::first_word(html@.subrange(start + 1, tag_end as int)) == Some(name@),
            balanced_end(html@, open@, close@, tag_end + 1, 1) == balanced_end(
                html@,
                open@,
                close@,
                cursor as int,
                depth as nat,
            ),
        decreases html@.len() - cursor, depth,
    {
        let next_close = match text::find_from(html, &close, cursor) {
            None => {
                return None;
            },
            Some(i) => i,
        };
        match text::find_from(html, &open, cursor) {
            Some(next_open) if next_open < next_close => {
                depth += 1;
                cursor = next_open + open.len();
            },
            _ => {
                depth -= 1;
                cursor = next_close + close.len();
            },
        }
    }
    Some(text::string_of(vstd::slice::slice_subrange(html, start, cursor)))
}

/// Whether a tag that ends somewhere in `html` begins with a character of one byte.
pub open spec fn begins_plainly(html: Seq<char>) -> bool {
    html.contains('>') ==> html[0] != '>' && html[0] < '\u{80}'
}

/// The element of `html` whose start tag begins at the place `start`, counted in bytes.
pub fn extract_balanced_element(html: &str, start: usize) -> (r: Option<String>)
    requires
        seqs::is_place(html@, start as int),
        begins_plainly(seqs::from_place(html@, start as int)),
    ensures
        r.deep_view() == balanced_element(seqs::from_place(html@, start as int), 0),
{
    let chars = text::chars_of(text::from_place(html, start));
    proof {
        if chars@.len() > 0 && chars@[0] == '>' {
            assert(chars@.contains('>'));
        }
    }
    balanced_element_at(&chars, 0)
}

/// The element that holds the statement.
pub fn extract_task_statement_html(html: &str) -> (r: Option<String>)
    ensures
        r.deep_view() == task_statement(html@),
{
    let chars = text::chars_of(html);
    let marker = match text::find(&chars, "id=\"task-statement\"") {
        None => {
            return None;
        },
        Some(i) => i,
    };
    let before = text::take(&chars, marker);
    match text::rfind(before, "<div") {
        None => None,
        Some(start) => {
            proof {
                reveal_strlit("<div");
                seqs::rfind_from_matches(before@, "<div"@, before@.len() - 4);
                assert(before@.subrange(start as int, start + 4)[0] == '<');
            }
            balanced_element_at(&chars, start)
        },
    }
}

fn part_from(markdown: &[char], marker: &str) -> (r: Option<String>)
    ensures
        r.deep_view() == from_marker(markdown@, marker@),
{
    match text::find(markdown, marker) {
        None => None,
        Some(index) => Some(text::string_of(text::trim_start(text::skip(markdown, index)))),
    }
}

/// The English part of a statement.
pub fn prefer_english_statement(markdown: String) -> (r: String)
    ensures
        r@ == english_part(markdown@),
{
    let chars = text::chars_of(markdown.as_str());
    if let Some(part) = part_from(&chars, "Score :") {
        return part;
    }
    if let Some(part) = part_from(&chars, "### Problem Statement") {
        return part;
    }
    if let Some(part) = part_from(&chars, "## Problem Statement") {
        return part;
    }
    markdown
}

proof fn plain_text_is_found_before(before: Seq<char>, p: Seq<char>, after: Seq<char>, c: char)
    requires
        p.len() > 0,
        p[0] == c,
        !before.contains(c),
    ensures
        seqs::find(before + p + after, p) == Some(before.len() as int),
{
    let s = before + p + after;
    let k: int = before.len() as int;
    assert(seqs::matches_at(s, p, k)) by {
        assert(s.subrange(k, k + p.len()) =~= p);
    }
    seqs::find_from_is_first(s, p, 0);
    match seqs::find_from(s, p, 0) {
        Some(j) => {
            if j < k {
                assert(s.subrange(j, j + p.len())[0] == s[j]);
                assert(before[j] == c);
            } else if j > k {
                assert(!seqs::matches_at(s, p, k));
            }
        },
        None => {
            assert(!seqs::matches_at(s, p, k));
        },
    }
}

proof fn text_without_start_is_kept(s: Seq<char>, p: Seq<char>, to: Seq<char>, c: char)
    requires
        p.len() > 0,
        p[0] == c,
        !s.contains(c),
    ensures
        seqs::replace(s, p, to) == s,
{
    seqs::find_from_is_first(s, p, 0);
    if let Some(k) = seqs::find(s, p) {
        assert(s.subrange(k, k + p.len())[0] == s[k]);
    }
}

proof fn one_is_replaced(before: Seq<char>, after: Seq<char>, p: Seq<char>, to: Seq<char>)
    requires
        p.len() > 0,
        p[0] == '&',
        !before.contains('&'),
        !after.contains('&'),
    ensures
        seqs::replace(before + p + after, p, to) == before + to + after,
{
    plain_text_is_found_before(before, p, after, '&');
    seqs::replacing_keeps_the_rest(before, after, p, to);
    text_without_start_is_kept(after, p, to, '&');
}

proof fn other_is_kept(before: Seq<char>, own: Seq<char>, after: Seq<char>, p: Seq<char>, to: Seq<char>)
    requires
        p.len() >= 2,
        own.len() >= 2,
        p[0] == '&',
        own[0] == '&',
        p[1] != own[1],
        !before.contains('&'),
        !after.contains('&'),
        forall|i: int| 0 < i < own.len() ==> own[i] != '&',
    ensures
        seqs::replace(before + own + after, p, to) == before + own + after,
{
    let s = before + own + after;
    seqs::find_from_is_first(s, p, 0);
    if let Some(k) = seqs::find(s, p) {
        let part = s.subrange(k, k + p.len());
        assert(part[0] == s[k] && part[1] == s[k + 1]);
        if k < before.len() {
            assert(s[k] == before[k]);
        } else if k < before.len() + own.len() {
            assert(s[k] == own[k - before.len()]);
        } else {
            assert(s[k] == after[k - before.len() - own.len()]);
        }
    }
}

proof fn not_in_concatenation(a: Seq<char>, b: Seq<char>, c: char)
    requires
        !a.contains(c),
        !b.contains(c),
    ensures
        !(a + b).contains(c),
{
    if (a + b).contains(c) {
        let i = choose|i: int| 0 <= i < (a + b).len() && (a + b)[i] == c;
        if i < a.len() {
            assert(a[i] == c);
        } else {
            assert(b[i - a.len()] == c);
        }
    }
}

/// Each of the character references for `<`, `>`, `&`, `"` and `'` stands for its character, and
/// what has no reference in it stays as it is.
#[verifier::rlimit(40)]
pub proof fn references_are_resolved(before: Seq<char>, after: Seq<char>)
    requires
        !before.contains('&'),
        !after.contains('&'),
    ensures
        unescaped(before) == before,
        unescaped(before + "&lt;"@ + after) == before + "<"@ + after,
        unescaped(before + "&gt;"@ + after) == before + ">"@ + after,
        unescaped(before + "&amp;"@ + after) == before + "&"@ + after || seqs::starts_with(
            after,
            "quot;"@,
        ) || seqs::starts_with(after, "#39;"@),
        unescaped(before + "&quot;"@ + after) == before + "\""@ + after,
        unescaped(before + "&#39;"@ + after) == before + "'"@ + after,
{
    reveal_strlit("&lt;");
    reveal_strlit("&gt;");
    reveal_strlit("&amp;");
    reveal_strlit("&quot;");
    reveal_strlit("&#39;");
    let lt = "&lt;"@;
    let gt = "&gt;"@;
    let amp = "&amp;"@;
    let quot = "&quot;"@;
    let apos = "&#39;"@;
    assert(unescaped(before) == before) by {
        text_without_start_is_kept(before, lt, "<"@, '&');
        text_without_start_is_kept(before, gt, ">"@, '&');
        text_without_start_is_kept(before, amp, "&"@, '&');
        text_without_start_is_kept(before, quot, "\""@, '&');
        text_without_start_is_kept(before, apos, "'"@, '&');
    }
    assert(unescaped(before + lt + after) == before + "<"@ + after) by {
        reveal_strlit("<");
        one_is_replaced(before, after, lt, "<"@);
        let s = before + "<"@ + after;
        not_in_concatenation(before, "<"@, '&');
        not_in_concatenation(before + "<"@, after, '&');
        text_without_start_is_kept(s, gt, ">"@, '&');
        text_without_start_is_kept(s, amp, "&"@, '&');
        text_without_start_is_kept(s, quot, "\""@, '&');
        text_without_start_is_kept(s, apos, "'"@, '&');
    }
    assert(unescaped(before + gt + after) == before + ">"@ + after) by {
        reveal_strlit(">");
        other_is_kept(before, gt, after, lt, "<"@);
        one_is_replaced(before, after, gt, ">"@);
        let s = before + ">"@ + after;
        not_in_concatenation(before, ">"@, '&');
        not_in_concatenation(before + ">"@, after, '&');
        text_without_start_is_kept(s, amp, "&"@, '&');
        text_without_start_is_kept(s, quot, "\""@, '&');
        text_without_start_is_kept(s, apos, "'"@, '&');
    }
    assert(unescaped(before + quot + after) == before + "\""@ + after) by {
        reveal_strlit("\"");
        other_is_kept(before, quot, after, lt, "<"@);
        other_is_kept(before, quot, after, gt, ">"@);
        other_is_kept(before, quot, after, amp, "&"@);
        one_is_replaced(before, after, quot, "\""@);
        let s = before + "\""@ + after;
        not_in_concatenation(before, "\""@, '&');
        not_in_concatenation(before + "\""@, after, '&');
        text_without_start_is_kept(s, apos, "'"@, '&');
    }
    assert(unescaped(before + apos + after) == before + "'"@ + after) by {
        other_is_kept(before, apos, after, lt, "<"@);
        other_is_kept(before, apos, after, gt, ">"@);
        other_is_kept(before, apos, after, amp, "&"@);
        other_is_kept(before, apos, after, quot, "\""@);
        one_is_replaced(before, after, apos, "'"@);
    }
    if !seqs::starts_with(after, "quot;"@) && !seqs::starts_with(after, "#39;"@) {
        other_is_kept(before, amp, after, lt, "<"@);
        other_is_kept(before, amp, after, gt, ">"@);
        one_is_replaced(before, after, amp, "&"@);
        reveal_strlit("&");
        reveal_strlit("quot;");
        reveal_strlit("#39;");
        assert("&"@ =~= seq!['&']);
        assert(quot =~= seq!['&'] + "quot;"@);
        assert(apos =~= seq!['&'] + "#39;"@);
        lone_sign_is_kept(before, after, quot, "quot;"@, "\""@);
        lone_sign_is_kept(before, after, apos, "#39;"@, "'"@);
    }
}

proof fn lone_sign_is_kept(before: Seq<char>, after: Seq<char>, p: Seq<char>, tail: Seq<char>, to: Seq<char>)
    requires
        !before.contains('&'),
        !after.contains('&'),
        p == seq!['&'] + tail,
        !seqs::starts_with(after, tail),
        "&"@ == seq!['&'],
    ensures
        seqs::replace(before + "&"@ + after, p, to) == before + "&"@ + after,
{
    let s = before + "&"@ + after;
    seqs::find_from_is_first(s, p, 0);
    if let Some(k) = seqs::find(s, p) {
        let part = s.subrange(k, k + p.len());
        assert(part[0] == s[k]);
        if k < before.len() {
            assert(s[k] == before[k]);
        } else if k > before.len() {
            assert(s[k] == after[k - before.len() - 1]);
        } else {
            assert forall|i: int| 0 <= i < tail.len() implies after[i] == tail[i] by {
                assert(part[i + 1] == p[i + 1]);
                assert(s[k + i + 1] == after[i]);
            }
            assert(after.subrange(0, tail.len() as int) =~= tail);
        }
    }
}

/// The title of a page is what stands in its first title element.
pub proof fn title_stands_in_its_element(before: Seq<char>, title: Seq<char>, after: Seq<char>)
    requires
        seqs::find(before + "<title>"@ + title + "</title>"@ + after, "<title>"@) == Some(
            before.len() as int,
        ),
        seqs::find(title + "</title>"@ + after, "</title>"@) == Some(title.len() as int),
    ensures
        html_title(before + "<title>"@ + title + "</title>"@ + after) == Some(title),
{
    let html = before + "<title>"@ + title + "</title>"@ + after;
    let rest = html.skip((before.len() + "<title>"@.len()) as int);
    assert(rest =~= title + "</title>"@ + after);
    assert(rest.take(title.len() as int) =~= title);
}

/// A page without a complete title element has no title.
pub proof fn page_without_title_has_none(html: Seq<char>)
    requires
        !seqs::contains(html, "<title>"@) || !seqs::contains(html, "</title>"@),
    ensures
        html_title(html) is None,
        problem_title(html) is None,
{
    seqs::contains_is_find(html, "<title>"@);
    if let Some(start) = seqs::find(html, "<title>"@) {
        seqs::find_from_is_first(html, "<title>"@, 0);
        let rest = html.skip(start + "<title>"@.len());
        seqs::find_from_is_first(rest, "</title>"@, 0);
        if let Some(end) = seqs::find(rest, "</title>"@) {
            let at: int = start + "<title>"@.len() + end;
            assert(html.subrange(at, at + "</title>"@.len()) =~= rest.subrange(
                end,
                end + "</title>"@.len(),
            ));
            assert(seqs::matches_at(html, "</title>"@, at));
        }
    }
}

/// The title of a problem is what follows the first dash between spaces in the title of its page,
/// or without such a dash the whole of it, each without white space around it. A blank one is none.
pub proof fn problem_title_follows_dash(html: Seq<char>, page_title: Seq<char>, before: Seq<char>, after: Seq<char>)
    requires
        html_title(html) == Some(page_title),
    ensures
        ({
            let whole = unescaped(seqs::trim(page_title));
            &&& !seqs::contains(whole, " - "@) && !seqs::is_blank(whole) ==> problem_title(html)
                == Some(seqs::trim(whole))
            &&& !seqs::contains(whole, " - "@) && seqs::is_blank(whole) ==> problem_title(
                html,
            ) is None
            &&& whole == before + " - "@ + after && seqs::find(whole, " - "@) == Some(
                before.len() as int,
            ) && !seqs::is_blank(after) ==> problem_title(html) == Some(seqs::trim(after))
            &&& whole == before + " - "@ + after && seqs::find(whole, " - "@) == Some(
                before.len() as int,
            ) && seqs::is_blank(after) ==> problem_title(html) is None
        }),
{
    let whole = unescaped(seqs::trim(page_title));
    seqs::contains_is_find(whole, " - "@);
    if whole == before + " - "@ + after {
        assert(whole.skip((before.len() + " - "@.len()) as int) =~= after);
    }
}

/// A `var` element is shown as its text between dollar signs, with a backslash before each dollar
/// sign in it. What stands before it stays as it is, and what follows it is treated likewise.
pub proof fn variable_is_shown_as_math(
    before: Seq<char>,
    attributes: Seq<char>,
    content: Seq<char>,
    after: Seq<char>,
)
    requires
        seqs::find(
            before + "<var"@ + attributes + ">"@ + content + "</var>"@ + after,
            "<var"@,
        ) == Some(before.len() as int),
        seqs::find_from(
            before + "<var"@ + attributes + ">"@ + content + "</var>"@ + after,
            ">"@,
            before.len() as int,
        ) == Some((before.len() + 4 + attributes.len()) as int),
        seqs::find_from(
            before + "<var"@ + attributes + ">"@ + content + "</var>"@ + after,
            "</var>"@,
            (before.len() + 5 + attributes.len()) as int,
        ) == Some((before.len() + 5 + attributes.len() + content.len()) as int),
    ensures
        var_as_math(before + "<var"@ + attributes + ">"@ + content + "</var>"@ + after) == before
            + "$"@ + seqs::replace(seqs::trim(unescaped(content)), "$"@, "\\$"@) + "$"@
            + var_as_math(after),
{
    reveal_strlit("<var");
    reveal_strlit(">");
    reveal_strlit("</var>");
    let html = before + "<var"@ + attributes + ">"@ + content + "</var>"@ + after;
    let open_end: int = (before.len() + 4 + attributes.len()) as int;
    let close: int = open_end + 1 + content.len();
    assert(html.take(before.len() as int) =~= before);
    assert(html.subrange(open_end + 1, close) =~= content);
    assert(html.skip(close + 6) =~= after);
}

/// Without `var` elements nothing is changed into math.
pub proof fn nothing_else_is_math(html: Seq<char>)
    requires
        !seqs::contains(html, "<var"@) || !seqs::contains(html, "</var>"@),
    ensures
        var_as_math(html) == html,
{
    seqs::contains_is_find(html, "<var"@);
    if let Some(start) = seqs::find(html, "<var"@) {
        seqs::find_from_is_first(html, "<var"@, 0);
        seqs::find_from_is_first(html, ">"@, start);
        if let Some(open_end) = seqs::find_from(html, ">"@, start) {
            seqs::find_from_is_first(html, "</var>"@, open_end + 1);
        }
    }
}

/// Each line that is not blank becomes a paragraph, without the white space at its end; blank ones
/// are left out. The paragraphs come in the order of the lines.
pub proof fn lines_become_paragraphs(first: Seq<Seq<char>>, line: Seq<char>, line_end: Seq<char>)
    ensures
        paragraphs(seq![], line_end).len() == 0,
        seqs::is_blank(line) ==> paragraphs(first.push(line), line_end) == paragraphs(
            first,
            line_end,
        ),
        !seqs::is_blank(line) ==> paragraphs(first.push(line), line_end) == paragraphs(
            first,
            line_end,
        ) + ("<p>"@ + seqs::trim_end(line) + line_end),
{
    assert(first.push(line).drop_last() =~= first);
    seqs::trimming_takes_off_white_space(seq![], line, seq![]);
    let k = seqs::trim_end_cuts(line);
    if seqs::trim_end(line).len() == 0 {
        assert(k == 0);
    } else {
        assert(!seqs::is_white(line[k - 1]));
    }
}

/// A preformatted block with math in it becomes paragraphs of its lines, and one without math stays
/// as it is. What stands before it stays as it is, and what follows it is treated likewise.
pub proof fn block_with_math_is_rewritten(
    before: Seq<char>,
    attributes: Seq<char>,
    content: Seq<char>,
    after: Seq<char>,
    line_end: Seq<char>,
    block_end: Seq<char>,
)
    requires
        seqs::find(
            before + "<pre"@ + attributes + ">"@ + content + "</pre>"@ + after,
            "<pre"@,
        ) == Some(before.len() as int),
        seqs::find_from(
            before + "<pre"@ + attributes + ">"@ + content + "</pre>"@ + after,
            ">"@,
            before.len() as int,
        ) == Some((before.len() + 4 + attributes.len()) as int),
        seqs::find_from(
            before + "<pre"@ + attributes + ">"@ + content + "</pre>"@ + after,
            "</pre>"@,
            (before.len() + 5 + attributes.len()) as int,
        ) == Some((before.len() + 5 + attributes.len() + content.len()) as int),
    ensures
        ({
            let html = before + "<pre"@ + attributes + ">"@ + content + "</pre>"@ + after;
            let rest = math_pre_rewritten(after, line_end, block_end);
            &&& !seqs::contains(content, "<var"@) ==> math_pre_rewritten(html, line_end, block_end)
                == before + "<pre"@ + attributes + ">"@ + content + "</pre>"@ + rest
            &&& seqs::contains(content, "<var"@) ==> math_pre_rewritten(html, line_end, block_end)
                == before + paragraphs(
                seqs::lines(seqs::trim_char_end(seqs::trim_char_start(content, '\n'), '\n')),
                line_end,
            ) + block_end + rest
        }),
{
    reveal_strlit("<pre");
    reveal_strlit(">");
    reveal_strlit("</pre>");
    let html = before + "<pre"@ + attributes + ">"@ + content + "</pre>"@ + after;
    let open_end: int = (before.len() + 4 + attributes.len()) as int;
    let close: int = open_end + 1 + content.len();
    assert(html.take(before.len() as int) =~= before);
    assert(html.subrange(before.len() as int, close + 6) =~= "<pre"@ + attributes + ">"@ + content
        + "</pre>"@);
    assert(html.subrange(open_end + 1, close) =~= content);
    assert(html.skip(close + 6) =~= after);
    let rest = math_pre_rewritten(after, line_end, block_end);
    if !seqs::contains(content, "<var"@) {
        assert(before + ("<pre"@ + attributes + ">"@ + content + "</pre>"@) + rest =~= before
            + "<pre"@ + attributes + ">"@ + content + "</pre>"@ + rest);
    } else {
        let text = paragraphs(
            seqs::lines(seqs::trim_char_end(seqs::trim_char_start(content, '\n'), '\n')),
            line_end,
        );
        assert(before + (text + block_end) + rest =~= before + text + block_end + rest);
    }
}

/// Without preformatted blocks nothing is rewritten.
pub proof fn nothing_else_is_rewritten(html: Seq<char>, line_end: Seq<char>, block_end: Seq<char>)
    requires
        !seqs::contains(html, "<pre"@) || !seqs::contains(html, "</pre>"@),
    ensures
        math_pre_rewritten(html, line_end, block_end) == html,
{
    seqs::contains_is_find(html, "<pre"@);
    if let Some(start) = seqs::find(html, "<pre"@) {
        seqs::find_from_is_first(html, "<pre"@, 0);
        seqs::find_from_is_first(html, ">"@, start);
        if let Some(open_end) = seqs::find_from(html, ">"@, start) {
            seqs::find_from_is_first(html, "</pre>"@, open_end + 1);
        }
    }
}

/// The characters of one kind at an end of a text, and nothing else, are taken off it.
pub proof fn outer_characters_go(marks: Seq<char>, s: Seq<char>, c: char)
    requires
        forall|i: int| 0 <= i < marks.len() ==> marks[i] == c,
    ensures
        s.len() == 0 || s[0] != c ==> seqs::trim_char_start(marks + s, c) == s,
        s.len() == 0 || s.last() != c ==> seqs::trim_char_end(s + marks, c) == s,
    decreases marks.len(),
{
    if marks.len() > 0 {
        outer_characters_go(marks.skip(1), s, c);
        assert((marks + s).skip(1) =~= marks.skip(1) + s);
        assert(marks.skip(1) =~= marks.drop_last());
        assert((s + marks).drop_last() =~= s + marks.drop_last());
        assert((s + marks).last() == c);
        assert((marks + s)[0] == c);
    } else {
        assert(marks + s =~= s);
        assert(s + marks =~= s);
    }
}

/// An address without a host is one of AtCoder, one without a scheme gets one, and a complete one
/// stays as it is, so that making it absolute once more changes nothing.
pub proof fn addresses_become_absolute(rest: Seq<char>)
    ensures
        absolute_url("http://"@ + rest) == "http://"@ + rest,
        absolute_url("https://"@ + rest) == "https://"@ + rest,
        absolute_url("//"@ + rest) == "https://"@ + rest,
        rest.len() == 0 || rest[0] != '/' ==> absolute_url("/"@ + rest) == "https://atcoder.jp/"@
            + rest,
        !seqs::starts_with(rest, "http://"@) && !seqs::starts_with(rest, "https://"@) && (
        rest.len() == 0 || rest[0] != '/') ==> absolute_url(rest) == "https://atcoder.jp/"@ + rest,
        absolute_url(absolute_url(rest)) == absolute_url(rest),
{
    assert("http://"@.len() == 7 && "http://"@[0] == 'h') by {
        reveal_strlit("http://");
    }
    assert("https://"@.len() == 8 && "https://"@[0] == 'h') by {
        reveal_strlit("https://");
    }
    assert("//"@ =~= seq!['/', '/']) by {
        reveal_strlit("//");
    }
    assert("/"@ =~= seq!['/']) by {
        reveal_strlit("/");
    }
    assert("https://atcoder.jp"@ + "/"@ =~= "https://atcoder.jp/"@ && seqs::starts_with(
        "https://atcoder.jp"@,
        "https://"@,
    )) by {
        reveal_strlit("https://atcoder.jp");
        reveal_strlit("https://atcoder.jp/");
        reveal_strlit("https://");
        reveal_strlit("/");
        assert("https://atcoder.jp"@.subrange(0, 8) =~= "https://"@);
    }
    start_is_kept("http://"@, rest);
    start_is_kept("https://"@, rest);
    start_is_kept("//"@, rest);
    start_is_kept("/"@, rest);
    let double = "//"@ + rest;
    assert(double.skip(2) =~= rest);
    other_start(double, "http://"@, 0);
    other_start(double, "https://"@, 0);
    let single = "/"@ + rest;
    other_start(single, "http://"@, 0);
    other_start(single, "https://"@, 0);
    if rest.len() > 0 && rest[0] != '/' {
        other_start(single, "//"@, 1);
        other_start(rest, "//"@, 0);
        other_start(rest, "/"@, 0);
    }
    assert("https://atcoder.jp"@ + single =~= "https://atcoder.jp/"@ + rest);
    start_is_kept("https://"@, rest.skip(2));
    longer_start("https://atcoder.jp"@, "https://"@, rest);
    assert("https://atcoder.jp/"@ + rest =~= "https://atcoder.jp"@ + single);
    longer_start("https://atcoder.jp"@, "https://"@, single);
}

proof fn start_is_kept(p: Seq<char>, rest: Seq<char>)
    ensures
        seqs::starts_with(p + rest, p),
{
    assert((p + rest).subrange(0, p.len() as int) =~= p);
}

proof fn longer_start(s: Seq<char>, p: Seq<char>, rest: Seq<char>)
    requires
        seqs::starts_with(s, p),
    ensures
        seqs::starts_with(s + rest, p),
{
    assert((s + rest).subrange(0, p.len() as int) =~= s.subrange(0, p.len() as int));
}

proof fn other_start(s: Seq<char>, p: Seq<char>, i: int)
    requires
        0 <= i < s.len(),
        i < p.len(),
        s[i] != p[i],
    ensures
        !seqs::starts_with(s, p),
{
    if seqs::starts_with(s, p) {
        assert(s.subrange(0, p.len() as int)[i] == s[i]);
    }
}

/// An image is written as its description in square brackets behind an exclamation mark, and its
/// address in round brackets, both without white space around them.
pub proof fn image_is_written(
    before: Seq<char>,
    src: Seq<char>,
    alt: Seq<char>,
    after: Seq<char>,
)
    requires
        forall|i: int| 0 <= i < before.len() ==> seqs::is_white(#[trigger] before[i]),
        forall|i: int| 0 <= i < after.len() ==> seqs::is_white(#[trigger] after[i]),
        src.len() == 0 || (!seqs::is_white(src[0]) && !seqs::is_white(src.last())),
        alt.len() == 0 || (!seqs::is_white(alt[0]) && !seqs::is_white(alt.last())),
    ensures
        image_text(before + src + after, before + alt + after) == "!["@ + alt + "]("@
            + absolute_url(src) + ")"@,
{
    seqs::trimming_takes_off_white_space(before, src, after);
    seqs::trimming_takes_off_white_space(before, alt, after);
}

/// An element ends behind the first end tag of its name, if no other start tag of that name stands
/// before it; one that stands there has the first end tag for itself. An element without an end tag
/// is none.
pub proof fn element_ends_with_its_own_tag(
    html: Seq<char>,
    start: int,
    tag_end: int,
    name: Seq<char>,
    first_close: int,
)
    requires
        0 <= start < html.len(),
        seqs::find_from(html, ">"@, start) == Some(tag_end),
        seqs::first_word(html.subrange(start + 1, tag_end)) == Some(name),
        tag_end > start,
    ensures
        ({
            let open = "<"@ + name;
            let close = "</"@ + name + ">"@;
            let inner: int = tag_end + 1;
            &&& seqs::find_from(html, close, inner) is None ==> balanced_element(
                html,
                start,
            ) is None
            &&& seqs::find_from(html, close, inner) == Some(first_close) && (seqs::find_from(
                html,
                open,
                inner,
            ) is None || seqs::find_from(html, open, inner)->0 > first_close) ==> balanced_element(
                html,
                start,
            ) == Some(html.subrange(start, first_close + name.len() + 3))
        }),
{
    reveal_strlit("<");
    reveal_strlit("</");
    reveal_strlit(">");
    let open = "<"@ + name;
    let close = "</"@ + name + ">"@;
    seqs::find_from_is_first(html, ">"@, start);
    assert(html.subrange(tag_end, tag_end + 1) == ">"@);
    seqs::find_from_is_first(html, close, tag_end + 1);
    reveal_with_fuel(balanced_end, 2);
}

/// In an element that holds another one of its name, the first end tag belongs to the inner one and
/// the second to the outer one.
pub proof fn inner_element_ends_first(
    html: Seq<char>,
    start: int,
    tag_end: int,
    name: Seq<char>,
    inner: int,
    first_close: int,
    second_close: int,
)
    requires
        0 <= start < tag_end,
        tag_end < html.len(),
        seqs::find_from(html, ">"@, start) == Some(tag_end),
        seqs::first_word(html.subrange(start + 1, tag_end)) == Some(name),
        seqs::find_from(html, "<"@ + name, tag_end + 1) == Some(inner),
        inner < first_close,
        seqs::find_from(html, "</"@ + name + ">"@, tag_end + 1) == Some(first_close),
        seqs::find_from(html, "</"@ + name + ">"@, inner + 1 + name.len()) == Some(first_close),
        seqs::find_from(html, "<"@ + name, inner + 1 + name.len()) is None,
        seqs::find_from(html, "</"@ + name + ">"@, first_close + name.len() + 3) == Some(
            second_close,
        ),
        seqs::find_from(html, "<"@ + name, first_close + name.len() + 3) is None,
    ensures
        balanced_element(html, start) == Some(html.subrange(start, second_close + name.len() + 3)),
{
    reveal_strlit("<");
    reveal_strlit("</");
    reveal_strlit(">");
    let open = "<"@ + name;
    let close = "</"@ + name + ">"@;
    seqs::find_from_is_first(html, open, tag_end + 1);
    seqs::find_from_is_first(html, close, tag_end + 1);
    seqs::find_from_is_first(html, close, inner + 1 + name.len());
    seqs::find_from_is_first(html, close, first_close + name.len() + 3);
    reveal_with_fuel(balanced_end, 5);
}

/// The statement is the element with the last `div` tag before the first mark of a statement. A
/// page without the mark has none.
pub proof fn statement_stands_at_its_mark(html: Seq<char>, mark: int, start: int)
    ensures
        !seqs::contains(html, "id=\"task-statement\""@) ==> task_statement(html) is None,
        seqs::find(html, "id=\"task-statement\""@) == Some(mark) && seqs::rfind(
            html.take(mark),
            "<div"@,
        ) == Some(start) ==> task_statement(html) == balanced_element(html, start),
        seqs::find(html, "id=\"task-statement\""@) == Some(mark) && seqs::rfind(
            html.take(mark),
            "<div"@,
        ) is None ==> task_statement(html) is None,
{
    seqs::contains_is_find(html, "id=\"task-statement\""@);
}

proof fn part_starts_with_marker(markdown: Seq<char>, marker: Seq<char>)
    requires
        marker.len() > 0,
        !seqs::is_white(marker[0]),
    ensures
        match from_marker(markdown, marker) {
            Some(part) => seqs::contains(markdown, marker) && seqs::starts_with(part, marker)
                && seqs::ends_with(markdown, part) && seqs::find(markdown, marker) == Some(
                (markdown.len() - part.len()) as int,
            ),
            None => !seqs::contains(markdown, marker),
        },
{
    seqs::contains_is_find(markdown, marker);
    seqs::find_from_is_first(markdown, marker, 0);
    if let Some(index) = seqs::find(markdown, marker) {
        let rest = markdown.skip(index);
        assert(rest[0] == markdown.subrange(index, index + marker.len())[0]);
        assert(rest.subrange(0, marker.len() as int) =~= markdown.subrange(
            index,
            index + marker.len(),
        ));
        assert(markdown.subrange(index, markdown.len() as int) =~= rest);
    }
}

/// The English part of a statement runs from the first score to the end, without a score from the
/// first heading of a statement, and without either it is the whole text.
pub proof fn english_part_starts_with_score(markdown: Seq<char>)
    ensures
        ({
            let part = english_part(markdown);
            let at: int = markdown.len() - part.len();
            &&& seqs::ends_with(markdown, part)
            &&& seqs::contains(markdown, "Score :"@) ==> seqs::starts_with(part, "Score :"@)
                && seqs::find(markdown, "Score :"@) == Some(at)
            &&& !seqs::contains(markdown, "Score :"@) && seqs::contains(
                markdown,
                "### Problem Statement"@,
            ) ==> seqs::find(markdown, "### Problem Statement"@) == Some(at)
            &&& !seqs::contains(markdown, "Score :"@) && !seqs::contains(
                markdown,
                "### Problem Statement"@,
            ) && seqs::contains(markdown, "## Problem Statement"@) ==> seqs::find(
                markdown,
                "## Problem Statement"@,
            ) == Some(at)
            &&& !seqs::contains(markdown, "Score :"@) && !seqs::contains(
                markdown,
                "### Problem Statement"@,
            ) && !seqs::contains(markdown, "## Problem Statement"@) ==> part == markdown
        }),
{
    reveal_strlit("Score :");
    reveal_strlit("### Problem Statement");
    reveal_strlit("## Problem Statement");
    part_starts_with_marker(markdown, "Score :"@);
    part_starts_with_marker(markdown, "### Problem Statement"@);
    part_starts_with_marker(markdown, "## Problem Statement"@);
    assert(markdown.subrange(0, markdown.len() as int) =~= markdown);
}
/// The models hold what the values hold, each part under its own name.
pub proof fn models_hold_their_parts(sample: Sample, problem_detail: ProblemDetail)
    ensures
        sample.deep_view() == (SampleModel {
            input: sample.input@,
            output: sample.output@,
        }),
        problem_detail.deep_view() == (ProblemDetailModel {
            title: problem_detail.title.deep_view(),
            statement_markdown: problem_detail.statement_markdown@,
            samples: problem_detail.samples.deep_view(),
        }),
{
}
} // verus!
