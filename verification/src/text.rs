//! Text operations on character buffers, each proved to compute its meaning in `seqs`.

use vstd::prelude::*;
use vstd::utf8::*;

use crate::seqs;

verus! {

/// `String::push` appends the given character to the end of the string.
pub assume_specification[ String::push ](s: &mut String, ch: char)
    ensures
        final(s)@ == old(s)@.push(ch),
;

/// The characters of `s`.
pub fn chars_of(s: &str) -> (r: Vec<char>)
    ensures
        r@ == s@,
{
    let mut out: Vec<char> = Vec::new();
    for c in it: s.chars()
        invariant
            out@ == it.seq().take(it.index() as int),
            it.seq() == s@,
    {
        out.push(c);
    }
    out
}

/// The string of the characters `chars`.
pub fn string_of(chars: &[char]) -> (r: String)
    ensures
        r@ == chars@,
{
    let mut out = String::new();
    let mut i: usize = 0;
    while i < chars.len()
        invariant
            i <= chars@.len(),
            out@ == chars@.take(i as int),
        decreases chars@.len() - i,
    {
        out.push(chars[i]);
        i += 1;
    }
    out
}

/// Appends the characters of `s` to `out`.
pub fn push_str(out: &mut Vec<char>, s: &str)
    ensures
        final(out)@ == old(out)@ + s@,
{
    for c in it: s.chars()
        invariant
            out@ == old(out)@ + it.seq().take(it.index() as int),
            it.seq() == s@,
    {
        out.push(c);
    }
}

/// Appends the characters `s` to `out`.
pub fn push_chars(out: &mut Vec<char>, s: &[char])
    ensures
        final(out)@ == old(out)@ + s@,
{
    let mut i: usize = 0;
    while i < s.len()
        invariant
            i <= s@.len(),
            out@ == old(out)@ + s@.take(i as int),
        decreases s@.len() - i,
    {
        out.push(s[i]);
        i += 1;
    }
}

/// A copy of the characters `s`.
pub fn copy(s: &[char]) -> (r: Vec<char>)
    ensures
        r@ == s@,
{
    let mut out: Vec<char> = Vec::new();
    push_chars(&mut out, s);
    out
}

/// Whether two buffers hold the same characters.
pub fn eq(a: &[char], b: &[char]) -> (r: bool)
    ensures
        r == (a@ == b@),
{
    if a.len() != b.len() {
        return false;
    }
    let mut i: usize = 0;
    while i < a.len()
        invariant
            a@.len() == b@.len(),
            i <= a@.len(),
            a@.take(i as int) == b@.take(i as int),
        decreases a@.len() - i,
    {
        if a[i] != b[i] {
            assert(a@[i as int] != b@[i as int]);
            return false;
        }
        i += 1;
        assert(a@.take(i as int) =~= a@.take(i - 1).push(a@[i - 1]));
        assert(b@.take(i as int) =~= b@.take(i - 1).push(b@[i - 1]));
    }
    assert(a@.take(i as int) =~= a@);
    assert(b@.take(i as int) =~= b@);
    true
}

/// Whether two strings hold the same characters.
pub fn same(a: &str, b: &str) -> (r: bool)
    ensures
        r == (a@ == b@),
{
    let left = chars_of(a);
    let right = chars_of(b);
    eq(&left, &right)
}

/// Whether `c` is white space.
pub fn is_white(c: char) -> (r: bool)
    ensures
        r == seqs::is_white(c),
{
    let code: u32 = c as u32;
    (0x9 <= code && code <= 0xd) || code == 0x20 || code == 0x85 || code == 0xa0 || code == 0x1680
        || (0x2000 <= code && code <= 0x200a) || code == 0x2028 || code == 0x2029 || code == 0x202f
        || code == 0x205f || code == 0x3000
}

pub fn trim_start(s: &[char]) -> (r: &[char])
    ensures
        r@ == seqs::trim_start(s@),
{
    let mut i: usize = 0;
    assert(s@.skip(0) =~= s@);
    while i < s.len() && is_white(s[i])
        invariant
            i <= s@.len(),
            seqs::trim_start(s@) == seqs::trim_start(s@.skip(i as int)),
        decreases s@.len() - i,
    {
        assert(s@.skip(i as int).skip(1) =~= s@.skip(i + 1));
        i += 1;
    }
    let r = vstd::slice::slice_subrange(s, i, s.len());
    assert(r@ =~= s@.skip(i as int));
    r
}

pub fn trim_end(s: &[char]) -> (r: &[char])
    ensures
        r@ == seqs::trim_end(s@),
{
    let mut end: usize = s.len();
    assert(s@.take(end as int) =~= s@);
    while end > 0 && is_white(s[end - 1])
        invariant
            end <= s@.len(),
            seqs::trim_end(s@) == seqs::trim_end(s@.take(end as int)),
        decreases end,
    {
        assert(s@.take(end as int).drop_last() =~= s@.take(end - 1));
        end -= 1;
    }
    let r = vstd::slice::slice_subrange(s, 0, end);
    assert(r@ =~= s@.take(end as int));
    r
}

pub fn trim(s: &[char]) -> (r: &[char])
    ensures
        r@ == seqs::trim(s@),
{
    trim_end(trim_start(s))
}

pub fn is_blank(s: &[char]) -> (r: bool)
    ensures
        r == seqs::is_blank(s@),
{
    trim(s).len() == 0
}

/// Whether the string `s` holds nothing but white space.
pub fn is_blank_str(s: &str) -> (r: bool)
    ensures
        r == seqs::is_blank(s@),
{
    let chars = chars_of(s);
    is_blank(&chars)
}

/// The string `s` without leading and trailing white space.
pub fn trim_str(s: &str) -> (r: String)
    ensures
        r@ == seqs::trim(s@),
{
    let chars = chars_of(s);
    string_of(trim(&chars))
}

pub fn trim_char_start(s: &[char], c: char) -> (r: &[char])
    ensures
        r@ == seqs::trim_char_start(s@, c),
{
    let mut i: usize = 0;
    assert(s@.skip(0) =~= s@);
    while i < s.len() && s[i] == c
        invariant
            i <= s@.len(),
            seqs::trim_char_start(s@, c) == seqs::trim_char_start(s@.skip(i as int), c),
        decreases s@.len() - i,
    {
        assert(s@.skip(i as int).skip(1) =~= s@.skip(i + 1));
        i += 1;
    }
    let r = vstd::slice::slice_subrange(s, i, s.len());
    assert(r@ =~= s@.skip(i as int));
    r
}

pub fn trim_char_end(s: &[char], c: char) -> (r: &[char])
    ensures
        r@ == seqs::trim_char_end(s@, c),
{
    let mut end: usize = s.len();
    assert(s@.take(end as int) =~= s@);
    while end > 0 && s[end - 1] == c
        invariant
            end <= s@.len(),
            seqs::trim_char_end(s@, c) == seqs::trim_char_end(s@.take(end as int), c),
        decreases end,
    {
        assert(s@.take(end as int).drop_last() =~= s@.take(end - 1));
        end -= 1;
    }
    let r = vstd::slice::slice_subrange(s, 0, end);
    assert(r@ =~= s@.take(end as int));
    r
}

/// Whether `p` stands in `s` at position `i`.
pub fn matches_at(s: &[char], p: &[char], i: usize) -> (r: bool)
    ensures
        r == seqs::matches_at(s@, p@, i as int),
{
    if p.len() > s.len() || i > s.len() - p.len() {
        return false;
    }
    let part = vstd::slice::slice_subrange(s, i, i + p.len());
    eq(part, p)
}

/// The first position at or after `start` at which `p` stands in `s`.
pub fn find_from(s: &[char], p: &[char], start: usize) -> (r: Option<usize>)
    requires
        start <= s@.len(),
    ensures
        match r {
            Some(i) => seqs::find_from(s@, p@, start as int) == Some(i as int) && start <= i && i
                + p@.len() <= s@.len(),
            None => seqs::find_from(s@, p@, start as int) is None,
        },
{
    if p.len() > s.len() {
        return None;
    }
    let last: usize = s.len() - p.len();
    let mut i: usize = start;
    while i <= last
        invariant
            start <= i <= s@.len() + 1,
            last == s@.len() - p@.len(),
            seqs::find_from(s@, p@, start as int) == seqs::find_from(s@, p@, i as int),
        decreases s@.len() + 1 - i,
    {
        if matches_at(s, p, i) {
            return Some(i);
        }
        if i == last {
            assert(seqs::find_from(s@, p@, i + 1) is None);
            return None;
        }
        i += 1;
    }
    None
}

/// The first position at which `p` stands in `s`.
pub fn find(s: &[char], p: &str) -> (r: Option<usize>)
    ensures
        match r {
            Some(i) => seqs::find(s@, p@) == Some(i as int) && i + p@.len() <= s@.len(),
            None => seqs::find(s@, p@) is None,
        },
{
    let pattern = chars_of(p);
    find_from(s, &pattern, 0)
}

pub fn contains(s: &[char], p: &str) -> (r: bool)
    ensures
        r == seqs::contains(s@, p@),
{
    proof {
        seqs::contains_is_find(s@, p@);
    }
    find(s, p).is_some()
}

/// Whether `p` stands anywhere in the string `s`.
pub fn contains_str(s: &str, p: &str) -> (r: bool)
    ensures
        r == seqs::contains(s@, p@),
{
    let chars = chars_of(s);
    contains(&chars, p)
}

pub fn starts_with(s: &[char], p: &str) -> (r: bool)
    ensures
        r == seqs::starts_with(s@, p@),
{
    let pattern = chars_of(p);
    matches_at(s, &pattern, 0)
}

pub fn ends_with(s: &[char], p: &str) -> (r: bool)
    ensures
        r == seqs::ends_with(s@, p@),
{
    let pattern = chars_of(p);
    if pattern.len() > s.len() {
        return false;
    }
    matches_at(s, &pattern, s.len() - pattern.len())
}

/// What follows `p` at the start of `s`.
pub fn strip_prefix<'a>(s: &'a [char], p: &str) -> (r: Option<&'a [char]>)
    ensures
        match r {
            Some(rest) => seqs::starts_with(s@, p@) && rest@ == s@.skip(p@.len() as int),
            None => !seqs::starts_with(s@, p@),
        },
{
    let pattern = chars_of(p);
    if matches_at(s, &pattern, 0) {
        let rest = vstd::slice::slice_subrange(s, pattern.len(), s.len());
        assert(rest@ =~= s@.skip(p@.len() as int));
        Some(rest)
    } else {
        None
    }
}

/// What precedes `p` at the end of `s`.
pub fn strip_suffix<'a>(s: &'a [char], p: &str) -> (r: Option<&'a [char]>)
    ensures
        match r {
            Some(rest) => seqs::ends_with(s@, p@) && rest@ == s@.take(s@.len() - p@.len()),
            None => !seqs::ends_with(s@, p@),
        },
{
    if ends_with(s, p) {
        let pattern = chars_of(p);
        let rest = vstd::slice::slice_subrange(s, 0, s.len() - pattern.len());
        assert(rest@ =~= s@.take(s@.len() - p@.len()));
        Some(rest)
    } else {
        None
    }
}

/// The first position at or after `start` of the character `c`; the length of `s` if none.
pub fn char_from(s: &[char], c: char, start: usize) -> (r: usize)
    requires
        start <= s@.len(),
    ensures
        r == seqs::char_from(s@, c, start as int),
        start <= r <= s@.len(),
{
    let mut i: usize = start;
    while i < s.len() && s[i] != c
        invariant
            start <= i <= s@.len(),
            seqs::char_from(s@, c, start as int) == seqs::char_from(s@, c, i as int),
        decreases s@.len() - i,
    {
        i += 1;
    }
    i
}

/// The part of `s` before and the part after the first `p`.
pub fn split_once<'a>(s: &'a [char], p: &str) -> (r: Option<(&'a [char], &'a [char])>)
    ensures
        match r {
            Some(parts) => seqs::split_once(s@, p@) == Some((parts.0@, parts.1@)),
            None => seqs::split_once(s@, p@) is None,
        },
{
    match find(s, p) {
        Some(i) => {
            let pattern = chars_of(p);
            let length: usize = s.len();
            let before = vstd::slice::slice_subrange(s, 0, i);
            let after = vstd::slice::slice_subrange(s, i + pattern.len(), length);
            assert(before@ =~= s@.take(i as int));
            assert(after@ =~= s@.skip(i + p@.len()));
            Some((before, after))
        },
        None => None,
    }
}

/// The part of `s` before and the part after the last character `c`.
pub fn rsplit_once<'a>(s: &'a [char], c: char) -> (r: Option<(&'a [char], &'a [char])>)
    ensures
        match r {
            Some(parts) => seqs::rsplit_once(s@, c) == Some((parts.0@, parts.1@)),
            None => seqs::rsplit_once(s@, c) is None,
        },
{
    let mut end: usize = s.len();
    while end > 0 && s[end - 1] != c
        invariant
            end <= s@.len(),
            seqs::rchar_before(s@, c, s@.len() as int) == seqs::rchar_before(s@, c, end as int),
        decreases end,
    {
        end -= 1;
    }
    if end == 0 {
        None
    } else {
        let before = vstd::slice::slice_subrange(s, 0, end - 1);
        let after = vstd::slice::slice_subrange(s, end, s.len());
        assert(before@ =~= s@.take(end - 1));
        assert(after@ =~= s@.skip(end as int));
        Some((before, after))
    }
}

/// `s` with each `from` replaced by `to`, from left to right, without overlap.
pub fn replace(s: &[char], from: &str, to: &str) -> (r: Vec<char>)
    requires
        from@.len() > 0,
    ensures
        r@ == seqs::replace(s@, from@, to@),
{
    let pattern = chars_of(from);
    let length: usize = s.len();
    let mut out: Vec<char> = Vec::new();
    let mut start: usize = 0;
    assert(s@.skip(0) =~= s@);
    loop
        invariant
            pattern@ == from@,
            from@.len() > 0,
            length == s@.len(),
            start <= s@.len(),
            out@ + seqs::replace(s@.skip(start as int), from@, to@) == seqs::replace(
                s@,
                from@,
                to@,
            ),
        decreases s@.len() - start,
    {
        let rest = vstd::slice::slice_subrange(s, start, length);
        assert(rest@ =~= s@.skip(start as int));
        match find_from(rest, &pattern, 0) {
            None => {
                push_chars(&mut out, rest);
                return out;
            },
            Some(i) => {
                push_chars(&mut out, vstd::slice::slice_subrange(rest, 0, i));
                push_str(&mut out, to);
                assert(rest@.subrange(0, i as int) =~= rest@.take(i as int));
                assert(rest@.skip(i + from@.len()) =~= s@.skip(start + i + from@.len()));
                assert(rest@.len() == s@.len() - start);
                start = start + i + pattern.len();
                assert(out@ + seqs::replace(s@.skip(start as int), from@, to@) =~= seqs::replace(
                    s@,
                    from@,
                    to@,
                ));
            },
        }
    }
}

/// The pieces of `s` between the characters `c`.
pub fn split_char(s: &[char], c: char) -> (r: Vec<Vec<char>>)
    ensures
        seqs::views(r@) == seqs::split_char(s@, c),
{
    let length: usize = s.len();
    let mut out: Vec<Vec<char>> = Vec::new();
    let mut start: usize = 0;
    assert(s@.skip(0) =~= s@);
    assert(seqs::views(out@) + seqs::split_char(s@, c) =~= seqs::split_char(s@, c));
    loop
        invariant
            length == s@.len(),
            start <= s@.len(),
            seqs::views(out@) + seqs::split_char(s@.skip(start as int), c) == seqs::split_char(
                s@,
                c,
            ),
        decreases s@.len() - start,
    {
        let rest = vstd::slice::slice_subrange(s, start, length);
        assert(rest@ =~= s@.skip(start as int));
        let i: usize = char_from(rest, c, 0);
        let ghost before = out@;
        if i < rest.len() {
            out.push(copy(vstd::slice::slice_subrange(rest, 0, i)));
            assert(rest@.subrange(0, i as int) =~= rest@.take(i as int));
            assert(rest@.skip(i + 1) =~= s@.skip(start + i + 1));
            assert(rest@.len() == s@.len() - start);
            start = start + i + 1;
            assert(seqs::views(out@) =~= seqs::views(before).push(rest@.take(i as int)));
            assert(seqs::views(out@) + seqs::split_char(s@.skip(start as int), c)
                =~= seqs::views(before) + (seq![rest@.take(i as int)] + seqs::split_char(
                s@.skip(start as int),
                c,
            )));
        } else {
            out.push(copy(rest));
            assert(seqs::views(out@) =~= seqs::views(before) + seq![rest@]);
            return out;
        }
    }
}

/// The lines of `s`.
pub fn lines(s: &[char]) -> (r: Vec<Vec<char>>)
    ensures
        seqs::views(r@) == seqs::lines(s@),
{
    let length: usize = s.len();
    let mut out: Vec<Vec<char>> = Vec::new();
    let mut start: usize = 0;
    assert(s@.skip(0) =~= s@);
    assert(seqs::views(out@) + seqs::lines(s@) =~= seqs::lines(s@));
    while start < length
        invariant
            length == s@.len(),
            start <= s@.len(),
            seqs::views(out@) + seqs::lines(s@.skip(start as int)) == seqs::lines(s@),
        decreases s@.len() - start,
    {
        let rest = vstd::slice::slice_subrange(s, start, length);
        assert(rest@ =~= s@.skip(start as int));
        assert(rest@.len() == s@.len() - start);
        let i: usize = char_from(rest, '\n', 0);
        let ghost before = out@;
        if i < rest.len() {
            let end: usize = if i > 0 && rest[i - 1] == '\r' {
                i - 1
            } else {
                i
            };
            out.push(copy(vstd::slice::slice_subrange(rest, 0, end)));
            let ghost line = seqs::strip_cr(rest@.take(i as int));
            assert(rest@.subrange(0, end as int) =~= line);
            assert(rest@.skip(i + 1) =~= s@.skip(start + i + 1));
            start = start + i + 1;
            assert(seqs::views(out@) =~= seqs::views(before).push(line));
            assert(seqs::views(out@) + seqs::lines(s@.skip(start as int)) =~= seqs::views(before)
                + (seq![line] + seqs::lines(s@.skip(start as int))));
        } else {
            out.push(copy(rest));
            assert(seqs::views(out@) =~= seqs::views(before) + seq![rest@]);
            return out;
        }
    }
    assert(seqs::views(out@) + seqs::lines(s@.skip(start as int)) =~= seqs::views(out@));
    out
}

/// The pieces with `sep` between each two of them.
pub fn join(pieces: &Vec<Vec<char>>, sep: &str) -> (r: Vec<char>)
    ensures
        r@ == seqs::join(seqs::views(pieces@), sep@),
{
    let mut out: Vec<char> = Vec::new();
    let mut i: usize = 0;
    while i < pieces.len()
        invariant
            i <= pieces@.len(),
            out@ == seqs::join(seqs::views(pieces@).take(i as int), sep@),
        decreases pieces@.len() - i,
    {
        if i > 0 {
            push_str(&mut out, sep);
        }
        push_chars(&mut out, pieces[i].as_slice());
        assert(seqs::views(pieces@).take(i + 1).drop_last() =~= seqs::views(pieces@).take(
            i as int,
        ));
        i += 1;
    }
    assert(seqs::views(pieces@).take(i as int) =~= seqs::views(pieces@));
    out
}

/// The strings with `sep` between each two of them.
pub fn join_strings(pieces: &Vec<String>, sep: &str) -> (r: String)
    ensures
        r@ == seqs::join(seqs::strs(pieces@), sep@),
{
    let mut out = String::new();
    let mut i: usize = 0;
    while i < pieces.len()
        invariant
            i <= pieces@.len(),
            out@ == seqs::join(seqs::strs(pieces@).take(i as int), sep@),
        decreases pieces@.len() - i,
    {
        if i > 0 {
            out.append(sep);
        }
        out.append(pieces[i].as_str());
        assert(seqs::strs(pieces@).take(i + 1).drop_last() =~= seqs::strs(pieces@).take(
            i as int,
        ));
        i += 1;
    }
    assert(seqs::strs(pieces@).take(i as int) =~= seqs::strs(pieces@));
    out
}

pub fn lower_char(c: char) -> (r: char)
    ensures
        r == seqs::lower_char(c),
{
    match c {
        'A' => 'a',
        'B' => 'b',
        'C' => 'c',
        'D' => 'd',
        'E' => 'e',
        'F' => 'f',
        'G' => 'g',
        'H' => 'h',
        'I' => 'i',
        'J' => 'j',
        'K' => 'k',
        'L' => 'l',
        'M' => 'm',
        'N' => 'n',
        'O' => 'o',
        'P' => 'p',
        'Q' => 'q',
        'R' => 'r',
        'S' => 's',
        'T' => 't',
        'U' => 'u',
        'V' => 'v',
        'W' => 'w',
        'X' => 'x',
        'Y' => 'y',
        'Z' => 'z',
        other => other,
    }
}

/// `s` with each ASCII capital as the small letter.
pub fn ascii_lower(s: &[char]) -> (r: Vec<char>)
    ensures
        r@ == seqs::ascii_lower(s@),
{
    let mut out: Vec<char> = Vec::new();
    let mut i: usize = 0;
    while i < s.len()
        invariant
            i <= s@.len(),
            out@ == seqs::ascii_lower(s@).take(i as int),
        decreases s@.len() - i,
    {
        out.push(lower_char(s[i]));
        i += 1;
    }
    out
}

/// The decimal digit for `n`.
pub fn digit(n: u64) -> (r: char)
    requires
        n < 10,
    ensures
        r == seqs::digit(n as nat),
{
    (48u8 + n as u8) as char
}

/// `n` in decimal.
pub fn decimal(n: u64) -> (r: Vec<char>)
    ensures
        r@ == seqs::decimal(n as nat),
    decreases n,
{
    if n < 10 {
        let mut out: Vec<char> = Vec::new();
        out.push(digit(n));
        assert(out@ =~= seqs::decimal(n as nat));
        out
    } else {
        let mut out = decimal(n / 10);
        out.push(digit(n % 10));
        out
    }
}

/// `n` in decimal, with a minus sign if it is negative.
pub fn signed_decimal(n: i64) -> (r: Vec<char>)
    ensures
        r@ == seqs::signed_decimal(n as int),
{
    if n < 0 {
        let mut out: Vec<char> = Vec::new();
        out.push('-');
        let magnitude: u64 = (-(n as i128)) as u64;
        let digits = decimal(magnitude);
        push_chars(&mut out, &digits);
        assert(out@ =~= seqs::signed_decimal(n as int));
        out
    } else {
        decimal(n as u64)
    }
}

/// `s` after as many `c` as bring it to `width` characters.
pub fn pad_left(s: &[char], c: char, width: usize) -> (r: Vec<char>)
    ensures
        r@ == seqs::pad_left(s@, c, width as nat),
{
    let mut out: Vec<char> = Vec::new();
    let mut missing: usize = if s.len() < width { width - s.len() } else { 0 };
    let ghost total = missing;
    while missing > 0
        invariant
            missing <= total,
            out@ == seqs::repeat(c, (total - missing) as nat),
        decreases missing,
    {
        out.push(c);
        missing -= 1;
        assert(out@ =~= seqs::repeat(c, (total - missing) as nat));
    }
    push_chars(&mut out, s);
    assert(out@ =~= seqs::pad_left(s@, c, width as nat));
    out
}

/// `s` before as many `c` as bring it to `width` characters.
pub fn pad_right(s: &[char], c: char, width: usize) -> (r: Vec<char>)
    ensures
        r@ == seqs::pad_right(s@, c, width as nat),
{
    let mut out = copy(s);
    while out.len() < width
        invariant
            s@.len() <= out@.len(),
            out@.len() <= width || out@.len() == s@.len(),
            out@ == s@ + seqs::repeat(c, (out@.len() - s@.len()) as nat),
        decreases width - out@.len(),
    {
        let ghost before = out@;
        out.push(c);
        assert(out@ =~= s@ + seqs::repeat(c, (out@.len() - s@.len()) as nat));
    }
    assert(out@ =~= seqs::pad_right(s@, c, width as nat));
    out
}

/// The number that the decimal digits `s` write, if it is at most `max`.
fn digits_value(s: &[char], max: u64) -> (r: Option<u64>)
    ensures
        match r {
            Some(n) => seqs::is_digits(s@) && n == seqs::digits_value(s@) && n <= max,
            None => !seqs::is_digits(s@) || seqs::digits_value(s@) > max,
        },
{
    if s.len() == 0 {
        return None;
    }
    let mut value: u128 = 0;
    let mut over: bool = false;
    let mut i: usize = 0;
    while i < s.len()
        invariant
            i <= s@.len(),
            forall|j: int| 0 <= j < i ==> seqs::is_digit(#[trigger] s@[j]),
            !over ==> value == seqs::digits_value(s@.take(i as int)) && value <= max,
            over ==> seqs::digits_value(s@.take(i as int)) > max,
        decreases s@.len() - i,
    {
        let c = s[i];
        if c < '0' || c > '9' {
            assert(!seqs::is_digit(s@[i as int]));
            return None;
        }
        assert(s@.take(i + 1).drop_last() =~= s@.take(i as int));
        if !over {
            value = value * 10 + (c as u32 - 48) as u128;
            if value > max as u128 {
                over = true;
            }
        }
        i += 1;
    }
    assert(s@.take(i as int) =~= s@);
    if over {
        None
    } else {
        Some(value as u64)
    }
}

/// The number of type `u16` that `s` writes.
pub fn parse_u16(s: &[char]) -> (r: Option<u16>)
    ensures
        r == seqs::parse_u16(s@),
{
    let digits = if s.len() > 0 && s[0] == '+' {
        let rest = vstd::slice::slice_subrange(s, 1, s.len());
        assert(rest@ =~= s@.skip(1));
        rest
    } else {
        s
    };
    match digits_value(digits, u16::MAX as u64) {
        Some(n) => Some(n as u16),
        None => None,
    }
}

/// The number of type `i64` that `s` writes.
pub fn parse_i64(s: &[char]) -> (r: Option<i64>)
    ensures
        r == seqs::parse_i64(s@),
{
    if s.len() > 0 && s[0] == '-' {
        let digits = vstd::slice::slice_subrange(s, 1, s.len());
        assert(digits@ =~= s@.skip(1));
        match digits_value(digits, 0x8000_0000_0000_0000) {
            Some(n) => Some((-(n as i128)) as i64),
            None => None,
        }
    } else {
        let digits = if s.len() > 0 && s[0] == '+' {
            let rest = vstd::slice::slice_subrange(s, 1, s.len());
            assert(rest@ =~= s@.skip(1));
            rest
        } else {
            s
        };
        match digits_value(digits, i64::MAX as u64) {
            Some(n) => Some(n as i64),
            None => None,
        }
    }
}

/// Whether `a` comes before `b` in the order of their characters' code points.
pub fn less(a: &[char], b: &[char]) -> (r: bool)
    ensures
        r == seqs::less(a@, b@),
{
    let mut i: usize = 0;
    assert(a@.skip(0) =~= a@);
    assert(b@.skip(0) =~= b@);
    while i < a.len() && i < b.len()
        invariant
            i <= a@.len(),
            i <= b@.len(),
            seqs::less(a@, b@) == seqs::less(a@.skip(i as int), b@.skip(i as int)),
        decreases a@.len() - i,
    {
        if a[i] != b[i] {
            return a[i] < b[i];
        }
        assert(a@.skip(i as int).skip(1) =~= a@.skip(i + 1));
        assert(b@.skip(i as int).skip(1) =~= b@.skip(i + 1));
        i += 1;
    }
    i < b.len()
}

/// The last position at which `p` stands in `s`.
pub fn rfind(s: &[char], p: &str) -> (r: Option<usize>)
    ensures
        match r {
            Some(i) => seqs::rfind(s@, p@) == Some(i as int) && i + p@.len() <= s@.len(),
            None => seqs::rfind(s@, p@) is None,
        },
{
    let pattern = chars_of(p);
    if pattern.len() > s.len() {
        return None;
    }
    let mut i: usize = s.len() - pattern.len();
    loop
        invariant
            pattern@ == p@,
            i <= s@.len() - p@.len(),
            seqs::rfind(s@, p@) == seqs::rfind_from(s@, p@, i as int),
        decreases i,
    {
        if matches_at(s, &pattern, i) {
            return Some(i);
        }
        if i == 0 {
            assert(seqs::rfind_from(s@, p@, -1) is None);
            return None;
        }
        i -= 1;
    }
}

/// The first word of `s`.
pub fn first_word(s: &[char]) -> (r: Option<&[char]>)
    ensures
        match r {
            Some(word) => seqs::first_word(s@) == Some(word@) && word@.len() > 0,
            None => seqs::first_word(s@) is None,
        },
{
    let rest = trim_start(s);
    if rest.len() == 0 {
        return None;
    }
    let mut end: usize = 0;
    assert(rest@.skip(0) =~= rest@);
    while end < rest.len() && !is_white(rest[end])
        invariant
            end <= rest@.len(),
            seqs::word_len(rest@) == end + seqs::word_len(rest@.skip(end as int)),
        decreases rest@.len() - end,
    {
        assert(rest@.skip(end as int).skip(1) =~= rest@.skip(end + 1));
        end += 1;
    }
    let word = vstd::slice::slice_subrange(rest, 0, end);
    assert(word@ =~= rest@.take(end as int));
    proof {
        let k = seqs::trim_start_cuts(s@);
        assert(rest@[0] == s@[k]);
        assert(end > 0);
    }
    Some(word)
}

/// The part of `s` before the first question mark or hash sign.
pub fn before_query(s: &[char]) -> (r: &[char])
    ensures
        r@ == seqs::before_query(s@),
{
    let mut end: usize = 0;
    assert(s@.skip(0) =~= s@);
    while end < s.len() && s[end] != '?' && s[end] != '#'
        invariant
            end <= s@.len(),
            seqs::path_len(s@) == end + seqs::path_len(s@.skip(end as int)),
        decreases s@.len() - end,
    {
        assert(s@.skip(end as int).skip(1) =~= s@.skip(end + 1));
        end += 1;
    }
    let part = vstd::slice::slice_subrange(s, 0, end);
    assert(part@ =~= s@.take(end as int));
    part
}

/// The part of `s` from `start` on.
pub fn skip(s: &[char], start: usize) -> (r: &[char])
    requires
        start <= s@.len(),
    ensures
        r@ == s@.skip(start as int),
{
    let part = vstd::slice::slice_subrange(s, start, s.len());
    assert(part@ =~= s@.skip(start as int));
    part
}

/// The part of `s` before `end`.
pub fn take(s: &[char], end: usize) -> (r: &[char])
    requires
        end <= s@.len(),
    ensures
        r@ == s@.take(end as int),
{
    let part = vstd::slice::slice_subrange(s, 0, end);
    assert(part@ =~= s@.take(end as int));
    part
}

/// The text of `s` from the place `start` on, which is counted in bytes.
pub fn from_place(s: &str, start: usize) -> (r: &str)
    requires
        seqs::is_place(s@, start as int),
    ensures
        r@ == seqs::from_place(s@, start as int),
{
    let (_, part) = s.split_at(start);
    proof {
        encode_utf8_decode_utf8(part@);
    }
    part
}

/// The text of `s` between the places `start` and `end`, which are counted in bytes.
pub fn between(s: &str, start: usize, end: usize) -> (r: &str)
    requires
        start <= end,
        seqs::is_place(s@, start as int),
        seqs::is_place(s@, end as int),
    ensures
        r@ == seqs::between(s@, start as int, end as int),
{
    let ghost bytes = encode_utf8(s@);
    proof {
        encode_utf8_valid_utf8(s@);
        place_is_inside(bytes, end as int);
    }
    let (before, _) = s.split_at(end);
    proof {
        let kept = bytes.subrange(0, end as int);
        valid_utf8_split(bytes, end as int);
        if start < end {
            is_char_boundary_iff_not_is_continuation_byte(bytes, start as int);
            is_char_boundary_iff_not_is_continuation_byte(kept, start as int);
        } else {
            is_char_boundary_start_end_of_seq(kept);
        }
    }
    let part = from_place(before, start);
    assert(bytes.subrange(0, end as int).subrange(start as int, end as int) =~= bytes.subrange(
        start as int,
        end as int,
    ));
    part
}

proof fn place_is_inside(bytes: Seq<u8>, at: int)
    requires
        valid_utf8(bytes),
        is_char_boundary(bytes, at),
    ensures
        0 <= at <= bytes.len(),
{
}

/// The texts, each as a string of its own.
pub fn strings_of(names: &[&str]) -> (r: Vec<String>)
    ensures
        r.deep_view() == Seq::new(names@.len(), |i: int| names@[i]@),
{
    let mut out: Vec<String> = Vec::new();
    let mut i: usize = 0;
    while i < names.len()
        invariant
            i <= names@.len(),
            out.deep_view() == Seq::new(i as nat, |k: int| names@[k]@),
        decreases names@.len() - i,
    {
        let ghost before = out.deep_view();
        let name: &str = names[i];
        out.push(name.to_owned());
        assert(out.deep_view() =~= before.push(name@));
        i += 1;
        assert(out.deep_view() =~= Seq::new(i as nat, |k: int| names@[k]@));
    }
    out
}

} // verus!
