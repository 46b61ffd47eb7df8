//! What the text operations of this library mean, as functions on sequences of characters.

use vstd::prelude::*;
use vstd::utf8::*;

verus! {

/// The views of a sequence of character buffers.
pub open spec fn views(s: Seq<Vec<char>>) -> Seq<Seq<char>> {
    Seq::new(s.len(), |i: int| s[i]@)
}

/// The views of a sequence of strings.
pub open spec fn strs(s: Seq<String>) -> Seq<Seq<char>> {
    Seq::new(s.len(), |i: int| s[i]@)
}

/// Whether `at`, counted in bytes, is a place between two characters of `s`, or one of its ends.
pub open spec fn is_place(s: Seq<char>, at: int) -> bool {
    is_char_boundary(encode_utf8(s), at)
}

/// The text of `s` between two places, which are counted in bytes.
pub open spec fn between(s: Seq<char>, start: int, end: int) -> Seq<char> {
    decode_utf8(encode_utf8(s).subrange(start, end))
}

/// The text of `s` from a place on, which is counted in bytes.
pub open spec fn from_place(s: Seq<char>, start: int) -> Seq<char> {
    between(s, start, encode_utf8(s).len() as int)
}

/// The characters with the Unicode property `White_Space`.
pub open spec fn is_white(c: char) -> bool {
    let code = c as u32;
    ||| 0x9 <= code <= 0xd
    ||| code == 0x20
    ||| code == 0x85
    ||| code == 0xa0
    ||| code == 0x1680
    ||| 0x2000 <= code <= 0x200a
    ||| code == 0x2028
    ||| code == 0x2029
    ||| code == 0x202f
    ||| code == 0x205f
    ||| code == 0x3000
}

/// `s` without its leading white space.
pub open spec fn trim_start(s: Seq<char>) -> Seq<char>
    decreases s.len(),
{
    if s.len() > 0 && is_white(s[0]) {
        trim_start(s.skip(1))
    } else {
        s
    }
}

/// `s` without its trailing white space.
pub open spec fn trim_end(s: Seq<char>) -> Seq<char>
    decreases s.len(),
{
    if s.len() > 0 && is_white(s.last()) {
        trim_end(s.drop_last())
    } else {
        s
    }
}

/// `s` without leading and trailing white space.
pub open spec fn trim(s: Seq<char>) -> Seq<char> {
    trim_end(trim_start(s))
}

/// Whether `s` holds nothing but white space.
pub open spec fn is_blank(s: Seq<char>) -> bool {
    trim(s).len() == 0
}

/// `s` without the characters `c` at its start.
pub open spec fn trim_char_start(s: Seq<char>, c: char) -> Seq<char>
    decreases s.len(),
{
    if s.len() > 0 && s[0] == c {
        trim_char_start(s.skip(1), c)
    } else {
        s
    }
}

/// `s` without the characters `c` at its end.
pub open spec fn trim_char_end(s: Seq<char>, c: char) -> Seq<char>
    decreases s.len(),
{
    if s.len() > 0 && s.last() == c {
        trim_char_end(s.drop_last(), c)
    } else {
        s
    }
}

/// Whether `p` stands in `s` at position `i`.
pub open spec fn matches_at(s: Seq<char>, p: Seq<char>, i: int) -> bool {
    0 <= i && i + p.len() <= s.len() && s.subrange(i, i + p.len()) == p
}

/// The first position at or after `i` at which `p` stands in `s`.
pub open spec fn find_from(s: Seq<char>, p: Seq<char>, i: int) -> Option<int>
    decreases s.len() + 1 - i,
{
    if i < 0 || i + p.len() > s.len() {
        None
    } else if matches_at(s, p, i) {
        Some(i)
    } else {
        find_from(s, p, i + 1)
    }
}

/// The first position at which `p` stands in `s`.
pub open spec fn find(s: Seq<char>, p: Seq<char>) -> Option<int> {
    find_from(s, p, 0)
}

/// Whether `p` stands anywhere in `s`.
pub open spec fn contains(s: Seq<char>, p: Seq<char>) -> bool {
    exists|i: int| matches_at(s, p, i)
}

pub open spec fn starts_with(s: Seq<char>, p: Seq<char>) -> bool {
    matches_at(s, p, 0)
}

pub open spec fn ends_with(s: Seq<char>, p: Seq<char>) -> bool {
    matches_at(s, p, s.len() - p.len())
}

/// The first position at or after `i` of the character `c` in `s`; the length of `s` if there
/// is none.
pub open spec fn char_from(s: Seq<char>, c: char, i: int) -> int
    decreases s.len() - i,
{
    if i < 0 || i >= s.len() {
        s.len() as int
    } else if s[i] == c {
        i
    } else {
        char_from(s, c, i + 1)
    }
}

/// The part of `s` before and the part after the first `p`.
pub open spec fn split_once(s: Seq<char>, p: Seq<char>) -> Option<(Seq<char>, Seq<char>)> {
    match find(s, p) {
        Some(i) => Some((s.take(i), s.skip(i + p.len()))),
        None => None,
    }
}

/// The last position at which the character `c` stands in `s.take(end)`; -1 if there is none.
pub open spec fn rchar_before(s: Seq<char>, c: char, end: int) -> int
    decreases end,
{
    if end <= 0 || end > s.len() {
        -1
    } else if s[end - 1] == c {
        end - 1
    } else {
        rchar_before(s, c, end - 1)
    }
}

/// The part of `s` before and the part after the last character `c`.
pub open spec fn rsplit_once(s: Seq<char>, c: char) -> Option<(Seq<char>, Seq<char>)> {
    let i = rchar_before(s, c, s.len() as int);
    if i < 0 {
        None
    } else {
        Some((s.take(i), s.skip(i + 1)))
    }
}

/// The last position at or before `i` at which `p` stands in `s`.
pub open spec fn rfind_from(s: Seq<char>, p: Seq<char>, i: int) -> Option<int>
    decreases i + 1,
{
    if i < 0 {
        None
    } else if matches_at(s, p, i) {
        Some(i)
    } else {
        rfind_from(s, p, i - 1)
    }
}

/// The last position at which `p` stands in `s`.
pub open spec fn rfind(s: Seq<char>, p: Seq<char>) -> Option<int> {
    rfind_from(s, p, s.len() - p.len())
}

/// The length of the run at the start of `s` of characters that are not white space.
pub open spec fn word_len(s: Seq<char>) -> int
    decreases s.len(),
{
    if s.len() > 0 && !is_white(s[0]) {
        1 + word_len(s.skip(1))
    } else {
        0
    }
}

/// The first word of `s`: its first run of characters that are not white space.
pub open spec fn first_word(s: Seq<char>) -> Option<Seq<char>> {
    let rest = trim_start(s);
    if rest.len() == 0 {
        None
    } else {
        Some(rest.take(word_len(rest)))
    }
}

/// The length of the part of `s` before the first question mark or hash sign.
pub open spec fn path_len(s: Seq<char>) -> int
    decreases s.len(),
{
    if s.len() > 0 && s[0] != '?' && s[0] != '#' {
        1 + path_len(s.skip(1))
    } else {
        0
    }
}

/// The part of `s` before the first question mark or hash sign.
pub open spec fn before_query(s: Seq<char>) -> Seq<char> {
    s.take(path_len(s))
}

/// `s` with each `from` replaced by `to`, from left to right, without overlap.
pub open spec fn replace(s: Seq<char>, from: Seq<char>, to: Seq<char>) -> Seq<char>
    decreases s.len(),
{
    if from.len() == 0 {
        s
    } else {
        match find(s, from) {
            None => s,
            Some(i) => if 0 <= i && i + from.len() <= s.len() {
                s.take(i) + to + replace(s.skip(i + from.len()), from, to)
            } else {
                s
            },
        }
    }
}

/// The pieces of `s` between the characters `c`; always at least one.
pub open spec fn split_char(s: Seq<char>, c: char) -> Seq<Seq<char>>
    decreases s.len(),
{
    let i = char_from(s, c, 0);
    if 0 <= i < s.len() {
        seq![s.take(i)] + split_char(s.skip(i + 1), c)
    } else {
        seq![s]
    }
}

/// `line` without one carriage return at its end.
pub open spec fn strip_cr(line: Seq<char>) -> Seq<char> {
    if line.len() > 0 && line.last() == '\r' {
        line.drop_last()
    } else {
        line
    }
}

/// The lines of `s`: each ends at a line feed, which belongs to no line, nor does a carriage
/// return right before it. After a final line feed there is no further line.
pub open spec fn lines(s: Seq<char>) -> Seq<Seq<char>>
    decreases s.len(),
{
    let i = char_from(s, '\n', 0);
    if s.len() == 0 {
        seq![]
    } else if 0 <= i < s.len() {
        seq![strip_cr(s.take(i))] + lines(s.skip(i + 1))
    } else {
        seq![s]
    }
}

/// The pieces with `sep` between each two of them.
pub open spec fn join(pieces: Seq<Seq<char>>, sep: Seq<char>) -> Seq<char>
    decreases pieces.len(),
{
    if pieces.len() == 0 {
        seq![]
    } else if pieces.len() == 1 {
        pieces[0]
    } else {
        join(pieces.drop_last(), sep) + sep + pieces.last()
    }
}

/// The lines, each with a line feed behind it.
pub open spec fn terminated(lines: Seq<Seq<char>>) -> Seq<char>
    decreases lines.len(),
{
    if lines.len() == 0 {
        seq![]
    } else {
        terminated(lines.drop_last()) + lines.last().push('\n')
    }
}

/// Whether no line feed stands in `s`.
pub open spec fn is_one_line(s: Seq<char>) -> bool {
    forall|i: int| 0 <= i < s.len() ==> s[i] != '\n'
}

/// `c` repeated `n` times.
pub open spec fn repeat(c: char, n: nat) -> Seq<char> {
    Seq::new(n, |i: int| c)
}

pub open spec fn is_digit(c: char) -> bool {
    '0' <= c <= '9'
}

pub open spec fn is_ascii_upper(c: char) -> bool {
    'A' <= c <= 'Z'
}

pub open spec fn is_ascii_letter(c: char) -> bool {
    'a' <= c <= 'z' || 'A' <= c <= 'Z'
}

/// `c`, an ASCII capital as the small letter.
pub open spec fn lower_char(c: char) -> char {
    if is_ascii_upper(c) {
        (c as u32 + 32) as char
    } else {
        c
    }
}

/// `s` with each ASCII capital as the small letter.
pub open spec fn ascii_lower(s: Seq<char>) -> Seq<char> {
    Seq::new(s.len(), |i: int| lower_char(s[i]))
}

/// The decimal digit for `n`.
pub open spec fn digit(n: nat) -> char {
    (48 + n) as char
}

/// `n` in decimal, without leading zeros.
pub open spec fn decimal(n: nat) -> Seq<char>
    decreases n,
{
    if n < 10 {
        seq![digit(n)]
    } else {
        decimal(n / 10).push(digit(n % 10))
    }
}

/// `n` in decimal, with a minus sign if it is negative.
pub open spec fn signed_decimal(n: int) -> Seq<char> {
    if n < 0 {
        seq!['-'] + decimal((-n) as nat)
    } else {
        decimal(n as nat)
    }
}

/// `s` after as many `c` as bring it to `width` characters.
pub open spec fn pad_left(s: Seq<char>, c: char, width: nat) -> Seq<char> {
    if s.len() < width {
        repeat(c, (width - s.len()) as nat) + s
    } else {
        s
    }
}

/// `s` before as many `c` as bring it to `width` characters.
pub open spec fn pad_right(s: Seq<char>, c: char, width: nat) -> Seq<char> {
    if s.len() < width {
        s + repeat(c, (width - s.len()) as nat)
    } else {
        s
    }
}

/// Whether `s` is one or more decimal digits.
pub open spec fn is_digits(s: Seq<char>) -> bool {
    s.len() > 0 && forall|i: int| 0 <= i < s.len() ==> is_digit(#[trigger] s[i])
}

/// The number that the decimal digits `s` write.
pub open spec fn digits_value(s: Seq<char>) -> nat
    decreases s.len(),
{
    if s.len() == 0 {
        0
    } else {
        digits_value(s.drop_last()) * 10 + ((s.last() as nat - 48) as nat)
    }
}

/// The number of type `u16` that `s` writes: decimal digits, after an optional plus sign.
pub open spec fn parse_u16(s: Seq<char>) -> Option<u16> {
    let digits = if s.len() > 0 && s[0] == '+' { s.skip(1) } else { s };
    if is_digits(digits) && digits_value(digits) <= u16::MAX {
        Some(digits_value(digits) as u16)
    } else {
        None
    }
}

/// The number of type `i64` that `s` writes: decimal digits, after an optional sign.
pub open spec fn parse_i64(s: Seq<char>) -> Option<i64> {
    if s.len() > 0 && s[0] == '-' {
        let digits = s.skip(1);
        if is_digits(digits) && -digits_value(digits) >= i64::MIN {
            Some((-digits_value(digits)) as i64)
        } else {
            None
        }
    } else {
        let digits = if s.len() > 0 && s[0] == '+' { s.skip(1) } else { s };
        if is_digits(digits) && digits_value(digits) <= i64::MAX {
            Some(digits_value(digits) as i64)
        } else {
            None
        }
    }
}

/// Whether `a` comes before `b` in the order of their characters' code points.
pub open spec fn less(a: Seq<char>, b: Seq<char>) -> bool
    decreases a.len(),
{
    if b.len() == 0 {
        false
    } else if a.len() == 0 {
        true
    } else if a[0] == b[0] {
        less(a.skip(1), b.skip(1))
    } else {
        a[0] < b[0]
    }
}

pub proof fn find_from_is_first(s: Seq<char>, p: Seq<char>, i: int)
    requires
        0 <= i,
    ensures
        match find_from(s, p, i) {
            Some(k) => i <= k && matches_at(s, p, k) && forall|j: int|
                i <= j < k ==> !#[trigger] matches_at(s, p, j),
            None => forall|j: int| i <= j ==> !#[trigger] matches_at(s, p, j),
        },
    decreases s.len() + 1 - i,
{
    if i + p.len() <= s.len() && !matches_at(s, p, i) {
        find_from_is_first(s, p, i + 1);
    }
}

/// A pattern occurs in a text exactly when the search for it finds a position.
pub proof fn contains_is_find(s: Seq<char>, p: Seq<char>)
    ensures
        contains(s, p) == (find(s, p) is Some),
{
    find_from_is_first(s, p, 0);
    if contains(s, p) {
        let i = choose|i: int| matches_at(s, p, i);
        assert(matches_at(s, p, i));
    }
}

pub proof fn char_from_is_first(s: Seq<char>, c: char, i: int)
    requires
        0 <= i <= s.len(),
    ensures
        i <= char_from(s, c, i) <= s.len(),
        char_from(s, c, i) < s.len() ==> s[char_from(s, c, i)] == c,
        forall|j: int| i <= j < char_from(s, c, i) ==> s[j] != c,
    decreases s.len() - i,
{
    if i < s.len() && s[i] != c {
        char_from_is_first(s, c, i + 1);
    }
}

/// Skipping `k` characters of white space does not change what is left after all of it.
pub proof fn trim_start_skips(s: Seq<char>, k: int)
    requires
        0 <= k <= s.len(),
        forall|j: int| 0 <= j < k ==> is_white(#[trigger] s[j]),
    ensures
        trim_start(s) == trim_start(s.skip(k)),
    decreases k,
{
    if k == 0 {
        assert(s.skip(0) =~= s);
    } else {
        trim_start_skips(s.skip(1), k - 1);
        assert(s.skip(1).skip(k - 1) =~= s.skip(k));
    }
}

/// Dropping `k` characters of white space at the end does not change what is left before it.
pub proof fn trim_end_drops(s: Seq<char>, k: int)
    requires
        0 <= k <= s.len(),
        forall|j: int| k <= j < s.len() ==> is_white(#[trigger] s[j]),
    ensures
        trim_end(s) == trim_end(s.take(k)),
    decreases s.len() - k,
{
    if k == s.len() {
        assert(s.take(k) =~= s);
    } else {
        trim_end_drops(s.drop_last(), k);
        assert(s.drop_last().take(k) =~= s.take(k));
    }
}

/// What is left of `s` starts with no white space, and only white space is gone.
pub proof fn trim_start_cuts(s: Seq<char>) -> (k: int)
    ensures
        0 <= k <= s.len(),
        trim_start(s) == s.skip(k),
        forall|j: int| 0 <= j < k ==> is_white(#[trigger] s[j]),
        k < s.len() ==> !is_white(s[k]),
    decreases s.len(),
{
    if s.len() > 0 && is_white(s[0]) {
        let k = trim_start_cuts(s.skip(1));
        assert(s.skip(1).skip(k) =~= s.skip(k + 1));
        assert forall|j: int| 0 <= j < k + 1 implies is_white(#[trigger] s[j]) by {
            if j > 0 {
                assert(s.skip(1)[j - 1] == s[j]);
            }
        }
        k + 1
    } else {
        assert(s.skip(0) =~= s);
        0
    }
}

/// What is left of `s` ends with no white space, and only white space is gone.
pub proof fn trim_end_cuts(s: Seq<char>) -> (k: int)
    ensures
        0 <= k <= s.len(),
        trim_end(s) == s.take(k),
        forall|j: int| k <= j < s.len() ==> is_white(#[trigger] s[j]),
        k > 0 ==> !is_white(s[k - 1]),
    decreases s.len(),
{
    if s.len() > 0 && is_white(s.last()) {
        let k = trim_end_cuts(s.drop_last());
        assert(s.drop_last().take(k) =~= s.take(k));
        assert forall|j: int| k <= j < s.len() implies is_white(#[trigger] s[j]) by {
            if j < s.len() - 1 {
                assert(s.drop_last()[j] == s[j]);
            }
        }
        k
    } else {
        assert(s.take(s.len() as int) =~= s);
        s.len() as int
    }
}

pub proof fn rchar_before_is_last(s: Seq<char>, c: char, end: int)
    requires
        0 <= end <= s.len(),
    ensures
        -1 <= rchar_before(s, c, end) < end,
        rchar_before(s, c, end) >= 0 ==> s[rchar_before(s, c, end)] == c,
        forall|j: int| rchar_before(s, c, end) < j < end ==> s[j] != c,
    decreases end,
{
    if end > 0 && s[end - 1] != c {
        rchar_before_is_last(s, c, end - 1);
    }
}

pub proof fn word_len_bounds(s: Seq<char>)
    ensures
        0 <= word_len(s) <= s.len(),
    decreases s.len(),
{
    if s.len() > 0 && !is_white(s[0]) {
        word_len_bounds(s.skip(1));
    }
}

pub proof fn path_len_bounds(s: Seq<char>)
    ensures
        0 <= path_len(s) <= s.len(),
    decreases s.len(),
{
    if s.len() > 0 && s[0] != '?' && s[0] != '#' {
        path_len_bounds(s.skip(1));
    }
}

pub proof fn rfind_from_matches(s: Seq<char>, p: Seq<char>, i: int)
    ensures
        match rfind_from(s, p, i) {
            Some(k) => k <= i && matches_at(s, p, k) && forall|j: int|
                k < j <= i ==> !#[trigger] matches_at(s, p, j),
            None => forall|j: int| 0 <= j <= i ==> !#[trigger] matches_at(s, p, j),
        },
    decreases i + 1,
{
    if i >= 0 && !matches_at(s, p, i) {
        rfind_from_matches(s, p, i - 1);
    }
}

/// What is left of `s` after trimming is a part of it.
pub proof fn trim_is_part(s: Seq<char>) -> (k: int)
    ensures
        0 <= k,
        k + trim(s).len() <= s.len(),
        trim(s) == s.subrange(k, k + trim(s).len()),
        trim(s).len() > 0 ==> !is_white(trim(s)[0]) && !is_white(trim(s).last()),
        forall|j: int| 0 <= j < trim(s).len() ==> #[trigger] trim(s)[j] == s[k + j],
{
    let k = trim_start_cuts(s);
    let rest = trim_start(s);
    let end = trim_end_cuts(rest);
    assert(trim(s) =~= s.subrange(k, k + end));
    k
}

/// A text without question mark and hash sign is its own path.
pub proof fn path_len_whole(s: Seq<char>)
    requires
        forall|i: int| 0 <= i < s.len() ==> #[trigger] s[i] != '?' && s[i] != '#',
    ensures
        path_len(s) == s.len(),
    decreases s.len(),
{
    if s.len() > 0 {
        assert(s[0] != '?');
        assert forall|i: int| 0 <= i < s.skip(1).len() implies #[trigger] s.skip(1)[i] != '?'
            && s.skip(1)[i] != '#' by {
            assert(s[i + 1] != '?');
        }
        path_len_whole(s.skip(1));
    }
}

pub proof fn split_char_len(s: Seq<char>, c: char)
    ensures
        split_char(s, c).len() > 0,
    decreases s.len(),
{
    let i = char_from(s, c, 0);
    if 0 <= i < s.len() {
        split_char_len(s.skip(i + 1), c);
    }
}

proof fn terminated_first(lines: Seq<Seq<char>>)
    requires
        lines.len() > 0,
    ensures
        terminated(lines) == lines[0].push('\n') + terminated(lines.skip(1)),
    decreases lines.len(),
{
    if lines.len() == 1 {
        assert(lines.drop_last() =~= Seq::<Seq<char>>::empty());
        assert(lines.skip(1) =~= Seq::<Seq<char>>::empty());
        assert(terminated(lines) =~= lines[0].push('\n') + terminated(lines.skip(1)));
    } else {
        let front = lines.drop_last();
        terminated_first(front);
        assert(front.skip(1) =~= lines.skip(1).drop_last());
        assert(lines.skip(1).last() == lines.last());
        assert(terminated(lines) =~= lines[0].push('\n') + terminated(lines.skip(1)));
    }
}

/// Cutting terminated lines apart again gives the lines back, but for a carriage return at the end
/// of one.
pub proof fn lines_of_terminated(lines: Seq<Seq<char>>)
    requires
        forall|i: int| 0 <= i < lines.len() ==> is_one_line(#[trigger] lines[i]),
    ensures
        self::lines(terminated(lines)) == Seq::new(lines.len(), |i: int| strip_cr(lines[i])),
    decreases lines.len(),
{
    let whole = terminated(lines);
    if lines.len() == 0 {
        assert(self::lines(whole) =~= Seq::new(lines.len(), |i: int| strip_cr(lines[i])));
    } else {
        terminated_first(lines);
        let first = lines[0];
        let rest = lines.skip(1);
        assert(is_one_line(first));
        char_from_is_first(whole, '\n', 0);
        assert(whole[first.len() as int] == '\n');
        assert forall|j: int| 0 <= j < first.len() implies whole[j] != '\n' by {
            assert(whole[j] == first[j]);
        }
        assert(char_from(whole, '\n', 0) == first.len());
        assert(whole.take(first.len() as int) =~= first);
        assert(whole.skip(first.len() + 1int) =~= terminated(rest));
        assert forall|i: int| 0 <= i < rest.len() implies is_one_line(#[trigger] rest[i]) by {
            assert(is_one_line(lines[i + 1]));
        }
        lines_of_terminated(rest);
        assert(self::lines(whole) =~= Seq::new(lines.len(), |i: int| strip_cr(lines[i])));
    }
}

/// No line of a text holds a line feed.
pub proof fn lines_are_lines(s: Seq<char>)
    ensures
        forall|i: int| 0 <= i < lines(s).len() ==> is_one_line(#[trigger] lines(s)[i]),
    decreases s.len(),
{
    if s.len() > 0 {
        let i = char_from(s, '\n', 0);
        char_from_is_first(s, '\n', 0);
        if i < s.len() {
            lines_are_lines(s.skip(i + 1));
            let first = strip_cr(s.take(i));
            assert(is_one_line(first));
            assert forall|k: int| 0 <= k < lines(s).len() implies is_one_line(
                #[trigger] lines(s)[k],
            ) by {
                if k > 0 {
                    assert(lines(s)[k] == lines(s.skip(i + 1))[k - 1]);
                }
            }
        }
    }
}

/// A text without white space at its ends is not changed by trimming.
pub proof fn trim_keeps(s: Seq<char>)
    requires
        s.len() > 0,
        !is_white(s[0]),
        !is_white(s.last()),
    ensures
        trim(s) == s,
        trim_start(s) == s,
        trim_end(s) == s,
{
}

/// A carriage return at its end does not change what is left of a text after trimming.
pub proof fn trim_strips_cr(s: Seq<char>)
    ensures
        trim(strip_cr(s)) == trim(s),
{
    if s.len() > 0 && s.last() == '\r' {
        let t = s.drop_last();
        let k = trim_start_cuts(t);
        if k < t.len() {
            assert forall|j: int| 0 <= j < k implies is_white(#[trigger] s[j]) by {
                assert(t[j] == s[j]);
            }
            trim_start_skips(s, k);
            assert(s.skip(k)[0] == t[k]);
            assert(trim_start(s) == s.skip(k));
            assert(s.skip(k).drop_last() =~= t.skip(k));
        } else {
            assert forall|j: int| 0 <= j < s.len() implies is_white(#[trigger] s[j]) by {
                if j < t.len() {
                    assert(t[j] == s[j]);
                }
            }
            trim_start_skips(s, s.len() as int);
            assert(s.skip(s.len() as int) =~= seq![]);
            assert(t.skip(k) =~= seq![]);
        }
    }
}

/// A text is found wherever it stands: between any two others, and nowhere else.
pub proof fn found_text_stands_inside(s: Seq<char>, p: Seq<char>, before: Seq<char>, after: Seq<char>)
    ensures
        contains(before + p + after, p),
        starts_with(p + after, p),
        ends_with(before + p, p),
        contains(s, p) ==> exists|i: int|
            0 <= i <= s.len() - p.len() && s == #[trigger] s.take(i) + p + s.skip(i + p.len()),
        starts_with(s, p) ==> s == p + s.skip(p.len() as int),
        ends_with(s, p) ==> s == s.take(s.len() - p.len()) + p,
{
    assert((before + p + after).subrange(before.len() as int, (before.len() + p.len()) as int) =~= p);
    assert(matches_at(before + p + after, p, before.len() as int));
    assert((p + after).subrange(0, p.len() as int) =~= p);
    assert((before + p).subrange(before.len() as int, (before.len() + p.len()) as int) =~= p);
    if contains(s, p) {
        let i = choose|i: int| matches_at(s, p, i);
        assert(s =~= s.take(i) + s.subrange(i, i + p.len()) + s.skip(i + p.len()));
    }
    if starts_with(s, p) {
        assert(s =~= s.subrange(0, p.len() as int) + s.skip(p.len() as int));
    }
    if ends_with(s, p) {
        let i = s.len() - p.len();
        assert(s =~= s.take(i) + s.subrange(i, i + p.len()));
    }
}

/// Of the ASCII characters, the space and the controls from the tab to the carriage return are
/// white space, and no other.
pub proof fn plain_white_space(c: char)
    requires
        (c as u32) < 0x80,
    ensures
        is_white(c) <==> c == ' ' || '\t' <= c <= '\r',
{
}

/// Trimming takes off the white space around a text, and nothing of the text; a text is blank
/// exactly if it is white space alone.
pub proof fn trimming_takes_off_white_space(before: Seq<char>, s: Seq<char>, after: Seq<char>)
    requires
        forall|i: int| 0 <= i < before.len() ==> is_white(#[trigger] before[i]),
        forall|i: int| 0 <= i < after.len() ==> is_white(#[trigger] after[i]),
    ensures
        s.len() == 0 || (!is_white(s[0]) && !is_white(s.last())) ==> trim(before + s + after) == s,
        s.len() == 0 || !is_white(s[0]) ==> trim_start(before + s) == s,
        s.len() == 0 || !is_white(s.last()) ==> trim_end(s + after) == s,
        is_blank(s) <==> forall|i: int| 0 <= i < s.len() ==> is_white(#[trigger] s[i]),
{
    let all = before + s + after;
    let led = before + s;
    let ended = s + after;
    trim_start_skips(led, before.len() as int);
    assert(led.skip(before.len() as int) =~= s);
    trim_end_drops(ended, s.len() as int);
    assert(ended.take(s.len() as int) =~= s);
    trim_start_skips(all, before.len() as int);
    assert(all.skip(before.len() as int) =~= ended);
    if s.len() == 0 {
        assert(ended =~= after);
        trim_start_skips(after, after.len() as int);
        assert(after.skip(after.len() as int) =~= seq![]);
    }
    let k = trim_start_cuts(s);
    if k == s.len() {
        assert(s.skip(k) =~= seq![]);
        assert(trim(s) =~= seq![]);
    } else {
        let m = trim_end_cuts(trim_start(s));
        assert(trim_start(s)[0] == s[k]);
        if m == 0 {
            assert(is_white(trim_start(s)[0]));
        }
    }
}

/// The pieces of a text hold none of the characters at which it is cut, and put together again with
/// these they are the text.
pub proof fn pieces_join_again(s: Seq<char>, c: char)
    ensures
        join(split_char(s, c), seq![c]) == s,
        forall|i: int, j: int|
            0 <= i < split_char(s, c).len() && 0 <= j < split_char(s, c)[i].len()
                ==> #[trigger] split_char(s, c)[i][j] != c,
    decreases s.len(),
{
    let i = char_from(s, c, 0);
    char_from_is_first(s, c, 0);
    if i < s.len() {
        let rest = split_char(s.skip(i + 1), c);
        pieces_join_again(s.skip(i + 1), c);
        split_char_len(s.skip(i + 1), c);
        join_leads(s.take(i), rest, seq![c]);
        assert(s =~= s.take(i) + seq![c] + s.skip(i + 1));
        assert forall|a: int, b: int|
            0 <= a < split_char(s, c).len() && 0 <= b < split_char(s, c)[a].len() implies
            #[trigger] split_char(s, c)[a][b] != c by {
            if a > 0 {
                assert(split_char(s, c)[a] == rest[a - 1]);
            }
        }
    }
}

proof fn join_leads(first: Seq<char>, rest: Seq<Seq<char>>, sep: Seq<char>)
    requires
        rest.len() > 0,
    ensures
        join(seq![first] + rest, sep) == first + sep + join(rest, sep),
    decreases rest.len(),
{
    let all = seq![first] + rest;
    assert(all.last() == rest.last());
    if rest.len() == 1 {
        assert(all.drop_last() =~= seq![first]);
        assert(join(all.drop_last(), sep) == first);
        assert(join(all, sep) =~= first + sep + rest[0]);
    } else {
        assert(all.drop_last() =~= seq![first] + rest.drop_last());
        join_leads(first, rest.drop_last(), sep);
        assert(join(all, sep) =~= first + sep + join(rest, sep));
    }
}

/// Between each two of the joined pieces stands the separator once, and nothing else is added.
pub proof fn joining_separates(first: Seq<char>, rest: Seq<Seq<char>>, sep: Seq<char>)
    ensures
        join(seq![], sep).len() == 0,
        join(seq![first], sep) == first,
        rest.len() > 0 ==> join(seq![first] + rest, sep) == first + sep + join(rest, sep),
{
    if rest.len() > 0 {
        join_leads(first, rest, sep);
    }
}

/// The first line of a text is what stands before its first line feed, without a carriage return at
/// the end; the other lines are those of what follows.
pub proof fn lines_end_at_line_feeds(line: Seq<char>, rest: Seq<char>)
    requires
        forall|i: int| 0 <= i < line.len() ==> line[i] != '\n',
    ensures
        lines(seq![]).len() == 0,
        line.len() > 0 ==> lines(line) == seq![line],
        line.len() == 0 || line.last() != '\r' ==> lines(line + seq!['\n'] + rest) == seq![line]
            + lines(rest),
        lines(line + seq!['\r', '\n'] + rest) == seq![line] + lines(rest),
{
    char_from_is_first(line, '\n', 0);
    let s = line + seq!['\n'] + rest;
    char_from_is_first(s, '\n', 0);
    assert(s[line.len() as int] == '\n');
    assert(forall|i: int| 0 <= i < line.len() ==> s[i] == line[i]);
    assert(char_from(s, '\n', 0) == line.len());
    assert(s.take(line.len() as int) =~= line);
    assert(s.skip(line.len() as int + 1) =~= rest);
    let t = line + seq!['\r', '\n'] + rest;
    char_from_is_first(t, '\n', 0);
    assert(t[line.len() as int + 1] == '\n');
    assert(t[line.len() as int] == '\r');
    assert(forall|i: int| 0 <= i < line.len() ==> t[i] == line[i]);
    assert(char_from(t, '\n', 0) == line.len() as int + 1);
    assert(t.take(line.len() as int + 1) =~= line.push('\r'));
    assert(line.push('\r').drop_last() =~= line);
    assert(t.skip(line.len() as int + 2) =~= rest);
}

proof fn decimal_digits(n: nat)
    ensures
        is_digits(decimal(n)),
        digits_value(decimal(n)) == n,
        n > 0 ==> decimal(n)[0] != '0',
    decreases n,
{
    if n < 10 {
        assert(decimal(n).drop_last() =~= seq![]);
        assert(decimal(n).last() == digit(n));
        assert(digits_value(seq![]) == 0);
        assert(digits_value(decimal(n)) == digits_value(decimal(n).drop_last()) * 10 + ((decimal(
            n,
        ).last() as nat - 48) as nat));
    } else {
        decimal_digits(n / 10);
        let before = decimal(n / 10);
        assert(decimal(n).drop_last() =~= before);
        assert(decimal(n).last() == digit(n % 10));
        assert forall|i: int| 0 <= i < decimal(n).len() implies is_digit(
            #[trigger] decimal(n)[i],
        ) by {
            if i < before.len() {
                assert(decimal(n)[i] == before[i]);
            }
        }
        assert(decimal(n)[0] == before[0]);
    }
}

/// A number that is written in decimal is read back as the number it was, and is written without
/// leading zeros.
pub proof fn written_number_is_read(n: i64)
    ensures
        parse_i64(signed_decimal(n as int)) == Some(n),
        n > 0 ==> signed_decimal(n as int)[0] != '0',
        0 <= n <= u16::MAX ==> parse_u16(decimal(n as nat)) == Some(n as u16),
{
    if n < 0 {
        let digits = decimal((-n) as nat);
        decimal_digits((-n) as nat);
        assert(signed_decimal(n as int).skip(1) =~= digits);
    } else {
        decimal_digits(n as nat);
        let s = decimal(n as nat);
        assert(is_digit(s[0]));
        assert(s[0] != '-' && s[0] != '+');
    }
}

/// Filled up to a width, a text stands at its end after the filler, or at its start before it.
pub proof fn padding_fills_up(s: Seq<char>, c: char, width: nat)
    ensures
        s.len() >= width ==> pad_left(s, c, width) == s && pad_right(s, c, width) == s,
        s.len() < width ==> {
            let left = pad_left(s, c, width);
            let right = pad_right(s, c, width);
            &&& left.len() == width && right.len() == width
            &&& left.skip(width - s.len()) == s && right.take(s.len() as int) == s
            &&& forall|i: int| 0 <= i < width - s.len() ==> left[i] == c
            &&& forall|i: int| s.len() <= i < width ==> right[i] == c
        },
{
    if s.len() < width {
        assert(pad_left(s, c, width).skip(width - s.len()) =~= s);
        assert(pad_right(s, c, width).take(s.len() as int) =~= s);
    }
}

/// A text that is cut in two at the first place of another one is put together from the two parts
/// with it between, and it does not stand earlier. Where it stands nowhere, nothing is cut.
pub proof fn cut_at_first(s: Seq<char>, p: Seq<char>)
    ensures
        split_once(s, p) is None <==> !contains(s, p),
        split_once(s, p) matches Some((before, after)) ==> s == before + p + after && forall|
            j: int,
        |
            0 <= j < before.len() ==> !#[trigger] matches_at(s, p, j),
{
    contains_is_find(s, p);
    find_from_is_first(s, p, 0);
    if let Some(i) = find(s, p) {
        assert(s =~= s.take(i) + s.subrange(i, i + p.len()) + s.skip(i + p.len()));
    }
}

/// A text that is cut in two at the last place of a character is put together from the two parts
/// with it between, and the second part does not hold it.
pub proof fn cut_at_last(s: Seq<char>, c: char)
    ensures
        rsplit_once(s, c) is None <==> !s.contains(c),
        rsplit_once(s, c) matches Some((before, after)) ==> s == before + seq![c] + after
            && !after.contains(c),
{
    rchar_before_is_last(s, c, s.len() as int);
    let i = rchar_before(s, c, s.len() as int);
    if i >= 0 {
        assert(s =~= s.take(i) + seq![c] + s.skip(i + 1));
        assert(s[i] == c);
        let after = s.skip(i + 1);
        if after.contains(c) {
            let k = choose|k: int| 0 <= k < after.len() && after[k] == c;
            assert(s[i + 1 + k] == c);
        }
    } else if s.contains(c) {
        let k = choose|k: int| 0 <= k < s.len() && s[k] == c;
        assert(s[k] != c);
    }
}

/// The path of an address is what stands before its query or fragment.
pub proof fn path_ends_at_query(path: Seq<char>, rest: Seq<char>)
    requires
        forall|i: int| 0 <= i < path.len() ==> #[trigger] path[i] != '?' && path[i] != '#',
        rest.len() == 0 || rest[0] == '?' || rest[0] == '#',
    ensures
        before_query(path + rest) == path,
    decreases path.len(),
{
    let s = path + rest;
    if path.len() == 0 {
        assert(s =~= rest);
        assert(before_query(s) =~= path);
    } else {
        let tail = path.skip(1);
        assert(s.skip(1) =~= tail + rest);
        path_ends_at_query(tail, rest);
        path_len_bounds(tail + rest);
        assert(before_query(tail + rest).len() == path_len(tail + rest));
        assert(s[0] == path[0]);
        assert(before_query(s) =~= path);
    }
}

/// Replacing puts the one text in the place of each other, from the left, and leaves what stands
/// between as it is.
pub proof fn replacing_keeps_the_rest(
    before: Seq<char>,
    after: Seq<char>,
    from: Seq<char>,
    to: Seq<char>,
)
    requires
        from.len() > 0,
        find(before + from + after, from) == Some(before.len() as int),
    ensures
        replace(before + from + after, from, to) == before + to + replace(after, from, to),
        !contains(after, from) ==> replace(after, from, to) == after,
{
    let s = before + from + after;
    assert(s.take(before.len() as int) =~= before);
    assert(s.skip((before.len() + from.len()) as int) =~= after);
    contains_is_find(after, from);
}

/// One text comes before another exactly if it is a proper part of it from the start, or has the
/// smaller character where they first differ.
pub proof fn first_difference_decides(a: Seq<char>, b: Seq<char>, k: int)
    requires
        0 <= k <= a.len(),
        k <= b.len(),
        a.take(k) == b.take(k),
    ensures
        k == a.len() ==> (less(a, b) <==> k < b.len()),
        k == b.len() ==> !less(a, b),
        k < a.len() && k < b.len() && a[k] != b[k] ==> (less(a, b) <==> a[k] < b[k]),
    decreases k,
{
    if k > 0 {
        assert(a[0] == a.take(k)[0] && b[0] == b.take(k)[0]);
        let x = a.skip(1);
        let y = b.skip(1);
        assert(x.take(k - 1) =~= a.take(k).skip(1));
        assert(y.take(k - 1) =~= b.take(k).skip(1));
        first_difference_decides(x, y, k - 1);
        if k < a.len() {
            assert(x[k - 1] == a[k]);
        }
        if k < b.len() {
            assert(y[k - 1] == b[k]);
        }
    }
}

/// Lower case changes the capitals of ASCII into their small letters, and nothing else.
pub proof fn capitals_become_small(s: Seq<char>, i: int)
    requires
        0 <= i < s.len(),
    ensures
        ascii_lower(s).len() == s.len(),
        'A' <= s[i] <= 'Z' ==> ascii_lower(s)[i] as u32 == s[i] as u32 + 32,
        !('A' <= s[i] <= 'Z') ==> ascii_lower(s)[i] == s[i],
{
}

/// The first word of a text is the run of characters up to the next white space, after the white
/// space at the start.
pub proof fn first_word_ends_at_white_space(before: Seq<char>, word: Seq<char>, rest: Seq<char>)
    requires
        forall|i: int| 0 <= i < before.len() ==> is_white(#[trigger] before[i]),
        forall|i: int| 0 <= i < word.len() ==> !is_white(#[trigger] word[i]),
        rest.len() == 0 || is_white(rest[0]),
    ensures
        word.len() > 0 ==> first_word(before + word + rest) == Some(word),
        first_word(before) is None,
{
    let s = before + word + rest;
    trim_start_skips(s, before.len() as int);
    assert(s.skip(before.len() as int) =~= word + rest);
    if word.len() > 0 {
        assert((word + rest)[0] == word[0]);
        word_is_counted(word, rest);
        assert((word + rest).take(word.len() as int) =~= word);
    }
    trim_start_skips(before, before.len() as int);
    assert(before.skip(before.len() as int) =~= seq![]);
}

proof fn word_is_counted(word: Seq<char>, rest: Seq<char>)
    requires
        forall|i: int| 0 <= i < word.len() ==> !is_white(#[trigger] word[i]),
        rest.len() == 0 || is_white(rest[0]),
    ensures
        word_len(word + rest) == word.len(),
    decreases word.len(),
{
    let s = word + rest;
    if word.len() > 0 {
        assert(s[0] == word[0]);
        assert(s.skip(1) =~= word.skip(1) + rest);
        word_is_counted(word.skip(1), rest);
    } else {
        assert(s =~= rest);
    }
}

proof fn encoding_joins(a: Seq<char>, b: Seq<char>)
    ensures
        encode_utf8(a + b) == encode_utf8(a) + encode_utf8(b),
    decreases a.len(),
{
    if a.len() > 0 {
        encoding_joins(a.drop_first(), b);
        assert((a + b).drop_first() =~= a.drop_first() + b);
        assert((a + b)[0] == a[0]);
        let first = encode_scalar(a[0] as u32);
        assert(first + (encode_utf8(a.drop_first()) + encode_utf8(b)) =~= first + encode_utf8(
            a.drop_first(),
        ) + encode_utf8(b));
    } else {
        assert(a + b =~= b);
        assert(encode_utf8(a) + encode_utf8(b) =~= encode_utf8(b));
    }
}

/// What stands between two places, counted in bytes, is the text between them, and what stands from
/// a place on is the text from there to the end.
pub proof fn places_cut_text(before: Seq<char>, middle: Seq<char>, after: Seq<char>)
    ensures
        ({
            let s = before + middle + after;
            let start = encode_utf8(before).len() as int;
            let end = start + encode_utf8(middle).len();
            &&& between(s, start, end) == middle
            &&& from_place(s, start) == middle + after
        }),
{
    let s = before + middle + after;
    encoding_joins(before + middle, after);
    encoding_joins(before, middle);
    encoding_joins(middle, after);
    let start = encode_utf8(before).len() as int;
    let end = start + encode_utf8(middle).len();
    let bytes = encode_utf8(s);
    assert(bytes.subrange(start, end) =~= encode_utf8(middle));
    assert(bytes.subrange(start, bytes.len() as int) =~= encode_utf8(middle + after));
    encode_utf8_decode_utf8(middle);
    encode_utf8_decode_utf8(middle + after);
}

/// Digits are read as a number in base ten, a plus or minus sign may stand before them, and nothing
/// else is read: no text without digits, and none with another character in it.
pub proof fn digits_are_read(digits: Seq<char>, c: char)
    requires
        forall|k: int| 0 <= k < digits.len() ==> '0' <= #[trigger] digits[k] <= '9',
        '0' <= c <= '9',
    ensures
        digits_value(seq![]) == 0,
        digits_value(digits.push(c)) == 10 * digits_value(digits) + (c as u32 - '0' as u32),
        digits_value(digits.push(c)) <= u16::MAX ==> parse_u16(digits.push(c)) == Some(
            digits_value(digits.push(c)) as u16,
        ) && parse_u16(seq!['+'] + digits.push(c)) == parse_u16(digits.push(c)),
        digits_value(digits.push(c)) > u16::MAX ==> parse_u16(digits.push(c)) is None,
        digits_value(digits.push(c)) <= i64::MAX ==> parse_i64(digits.push(c)) == Some(
            digits_value(digits.push(c)) as i64,
        ) && parse_i64(seq!['+'] + digits.push(c)) == parse_i64(digits.push(c)) && parse_i64(
            seq!['-'] + digits.push(c),
        ) == Some((-digits_value(digits.push(c))) as i64),
        digits_value(digits.push(c)) > i64::MAX ==> parse_i64(digits.push(c)) is None,
        parse_u16(seq![]) is None && parse_i64(seq![]) is None,
{
    let number = digits.push(c);
    assert(number.drop_last() =~= digits);
    assert(forall|k: int| 0 <= k < number.len() ==> is_digit(#[trigger] number[k]));
    assert((seq!['+'] + number).skip(1) =~= number);
    assert((seq!['-'] + number).skip(1) =~= number);
    assert((seq!['+'] + number)[0] == '+');
    assert((seq!['-'] + number)[0] == '-');
    assert(is_digit(number[0]));
}

/// A text with a character in it that is no digit, other than a sign at its start, is no number.
pub proof fn other_text_is_no_number(s: Seq<char>, i: int)
    requires
        0 < i < s.len(),
        !('0' <= s[i] <= '9'),
    ensures
        parse_u16(s) is None,
        parse_i64(s) is None,
{
    assert(!is_digit(s[i]));
    assert(s.skip(1)[i - 1] == s[i]);
}
} // verus!
