//! How times, problems and verdicts are written for the user.

use vstd::prelude::*;

use crate::outside;
use crate::seqs;
use crate::statement;
use crate::text;

verus! {

/// How many seconds `now` is after `then`; zero, if it is before.
pub open spec fn seconds_since(now: i64, then: i64) -> nat {
    if now >= then {
        (now - then) as nat
    } else {
        0
    }
}

/// A number with at least two digits.
pub open spec fn two_digits(n: nat) -> Seq<char> {
    seqs::pad_left(seqs::decimal(n), '0', 2)
}

/// A length of time as minutes and seconds, with the hours before them from one hour on.
pub open spec fn clock(seconds: nat) -> Seq<char> {
    let hours = seconds / 3600;
    let rest = two_digits((seconds % 3600) / 60) + ":"@ + two_digits(seconds % 60);
    if hours > 0 {
        seqs::decimal(hours) + ":"@ + rest
    } else {
        rest
    }
}

/// How long ago something was, in Chinese.
pub open spec fn ago(delta: nat) -> Seq<char> {
    if delta < 60 {
        seqs::decimal(delta) + "秒前"@
    } else if delta < 3600 {
        seqs::decimal(delta / 60) + "分钟前"@
    } else if delta < 86400 {
        seqs::decimal(delta / 3600) + "小时前"@
    } else if delta < 604800 {
        seqs::decimal(delta / 86400) + "天前"@
    } else if delta < 2592000 {
        seqs::decimal(delta / 604800) + "周前"@
    } else if delta < 31536000 {
        seqs::decimal(delta / 2592000) + "月前"@
    } else {
        seqs::decimal(delta / 31536000) + "年前"@
    }
}

/// The heading for a problem: its id and its title in corner brackets, which are not doubled.
pub open spec fn problem_heading(problem_id: Seq<char>, title: Seq<char>) -> Seq<char> {
    let title = seqs::trim_char_end(seqs::trim_char_start(seqs::trim(title), '「'), '」');
    if title.len() == 0 {
        problem_id
    } else {
        problem_id + " 「"@ + title + "」"@
    }
}

/// How many seconds `now` is after `then`.
pub fn elapsed_seconds(now: i64, then: i64) -> (r: u64)
    ensures
        r == seconds_since(now, then),
{
    if now >= then {
        (now as i128 - then as i128) as u64
    } else {
        0
    }
}

/// `n` in decimal.
pub fn number(n: u64) -> (r: String)
    ensures
        r@ == seqs::decimal(n as nat),
{
    let digits = text::decimal(n);
    text::string_of(&digits)
}

/// `n` in decimal, with a minus sign if it is negative.
pub fn signed_number(n: i64) -> (r: String)
    ensures
        r@ == seqs::signed_decimal(n as int),
{
    let digits = text::signed_decimal(n);
    text::string_of(&digits)
}

/// A number with at least two digits.
pub fn two_digit_number(n: u64) -> (r: String)
    ensures
        r@ == two_digits(n as nat),
{
    let digits = text::decimal(n);
    let padded = text::pad_left(&digits, '0', 2);
    text::string_of(&padded)
}

/// The time from `started_at_second` to `now`, as on a clock.
pub fn format_elapsed_at(now: i64, started_at_second: i64) -> (r: String)
    ensures
        r@ == clock(seconds_since(now, started_at_second)),
{
    let elapsed: u64 = elapsed_seconds(now, started_at_second);
    let hours: u64 = elapsed / 3600;
    let minutes = two_digit_number((elapsed % 3600) / 60);
    let seconds = two_digit_number(elapsed % 60);
    let rest = minutes.concat(":").concat(seconds.as_str());
    if hours > 0 {
        number(hours).concat(":").concat(rest.as_str())
    } else {
        rest
    }
}

/// The time since `started_at_second`, as on a clock.
pub fn format_elapsed(started_at_second: i64) -> (r: String)
    ensures
        exists|now: i64| r@ == clock(#[trigger] seconds_since(now, started_at_second)),
{
    let now: i64 = outside::current_second();
    let r = format_elapsed_at(now, started_at_second);
    assert(r@ == clock(seconds_since(now, started_at_second)));
    r
}

/// How long before `now` the second `epoch_second` was, in Chinese.
pub fn format_relative_at(now: i64, epoch_second: i64) -> (r: String)
    ensures
        r@ == ago(seconds_since(now, epoch_second)),
{
    let delta: u64 = elapsed_seconds(now, epoch_second);
    if delta < 60 {
        number(delta).concat("秒前")
    } else if delta < 3600 {
        number(delta / 60).concat("分钟前")
    } else if delta < 86400 {
        number(delta / 3600).concat("小时前")
    } else if delta < 604800 {
        number(delta / 86400).concat("天前")
    } else if delta < 2592000 {
        number(delta / 604800).concat("周前")
    } else if delta < 31536000 {
        number(delta / 2592000).concat("月前")
    } else {
        number(delta / 31536000).concat("年前")
    }
}

/// How long ago the second `epoch_second` was, in Chinese.
pub fn format_relative(epoch_second: i64) -> (r: String)
    ensures
        exists|now: i64| r@ == ago(#[trigger] seconds_since(now, epoch_second)),
{
    let now: i64 = outside::current_second();
    let r = format_relative_at(now, epoch_second);
    assert(r@ == ago(seconds_since(now, epoch_second)));
    r
}

/// The heading for a problem.
pub fn format_problem_heading(problem_id: &str, title: &str) -> (r: String)
    ensures
        r@ == problem_heading(problem_id@, title@),
{
    let chars = text::chars_of(title);
    let title = text::trim_char_end(text::trim_char_start(text::trim(&chars), '「'), '」');
    if title.len() == 0 {
        problem_id.to_owned()
    } else {
        let title = text::string_of(title);
        problem_id.to_owned().concat(" 「").concat(title.as_str()).concat("」")
    }
}

/// The seconds from one time to a later one are counted, and none to an earlier one.
pub proof fn seconds_are_counted(now: i64, then: i64)
    ensures
        now >= then ==> seconds_since(now, then) == now - then,
        now < then ==> seconds_since(now, then) == 0,
{
}

/// A clock shows hours, minutes and seconds that add up to the time, the minutes and seconds below
/// sixty and with two digits; the hours are left out within the first hour.
pub proof fn clock_adds_up(hours: nat, minutes: nat, seconds: nat)
    requires
        minutes < 60,
        seconds < 60,
    ensures
        hours > 0 ==> clock(hours * 3600 + minutes * 60 + seconds) == seqs::decimal(hours) + ":"@ + (
        seqs::pad_left(seqs::decimal(minutes), '0', 2) + ":"@ + seqs::pad_left(
            seqs::decimal(seconds),
            '0',
            2,
        )),
        clock(minutes * 60 + seconds) == seqs::pad_left(seqs::decimal(minutes), '0', 2) + ":"@
            + seqs::pad_left(seqs::decimal(seconds), '0', 2),
{
    let inner: nat = minutes * 60 + seconds;
    assert(inner / 60 == minutes && inner % 60 == seconds && inner < 3600);
    let whole: nat = hours * 3600 + inner;
    assert(whole / 3600 == hours && whole % 3600 == inner);
    assert(whole % 60 == seconds) by {
        assert(whole == (hours * 60 + minutes) * 60 + seconds);
    }
}

/// How long ago something was is told in the largest unit that it fills, rounded down: seconds up
/// to a minute, minutes up to an hour, hours up to a day, days up to a week, weeks up to thirty days,
/// months of thirty days up to a year, and years of 365 days.
pub proof fn time_is_told_in_largest_unit(delta: nat, n: nat)
    ensures
        delta < 60 && n == delta ==> ago(delta) == seqs::decimal(n) + "秒前"@,
        60 <= delta < 60 * 60 && n * 60 <= delta < (n + 1) * 60 ==> ago(delta) == seqs::decimal(n)
            + "分钟前"@,
        60 * 60 <= delta < 24 * 60 * 60 && n * 3600 <= delta < (n + 1) * 3600 ==> ago(delta)
            == seqs::decimal(n) + "小时前"@,
        24 * 60 * 60 <= delta < 7 * 24 * 60 * 60 && n * 86400 <= delta < (n + 1) * 86400 ==> ago(
            delta,
        ) == seqs::decimal(n) + "天前"@,
        7 * 24 * 60 * 60 <= delta < 30 * 24 * 60 * 60 && n * 604800 <= delta < (n + 1) * 604800
            ==> ago(delta) == seqs::decimal(n) + "周前"@,
        30 * 24 * 60 * 60 <= delta < 365 * 24 * 60 * 60 && n * 2592000 <= delta < (n + 1) * 2592000
            ==> ago(delta) == seqs::decimal(n) + "月前"@,
        365 * 24 * 60 * 60 <= delta && n * 31536000 <= delta < (n + 1) * 31536000 ==> ago(delta)
            == seqs::decimal(n) + "年前"@,
{
}

/// A problem is headed by its id and its title in one pair of corner brackets, whether or not the
/// title has brackets or white space around it; without a title its id stands alone.
pub proof fn heading_has_one_pair_of_brackets(
    id: Seq<char>,
    opening: Seq<char>,
    title: Seq<char>,
    closing: Seq<char>,
    before: Seq<char>,
    after: Seq<char>,
)
    requires
        forall|i: int| 0 <= i < opening.len() ==> opening[i] == '「',
        forall|i: int| 0 <= i < closing.len() ==> closing[i] == '」',
        title.len() > 0,
        !seqs::is_white(title[0]) && title[0] != '「',
        !seqs::is_white(title.last()) && title.last() != '」',
        forall|i: int| 0 <= i < before.len() ==> seqs::is_white(#[trigger] before[i]),
        forall|i: int| 0 <= i < after.len() ==> seqs::is_white(#[trigger] after[i]),
    ensures
        problem_heading(id, before + (opening + title + closing) + after) == id + " 「"@ + title
            + "」"@,
        problem_heading(id, before) == id,
{
    let whole = opening + title + closing;
    assert(whole[0] == if opening.len() > 0 {
        opening[0]
    } else {
        title[0]
    });
    assert(whole.last() == if closing.len() > 0 {
        closing.last()
    } else {
        title.last()
    });
    seqs::trimming_takes_off_white_space(before, whole, after);
    assert(seqs::trim(before + whole + after) == whole);
    assert(whole =~= opening + (title + closing));
    assert((title + closing)[0] == title[0]);
    statement::outer_characters_go(opening, title + closing, '「');
    statement::outer_characters_go(closing, title, '」');
    seqs::trimming_takes_off_white_space(before, seq![], seq![]);
    seqs::trimming_takes_off_white_space(seq![], before, seq![]);
    assert(seqs::is_blank(before));
}
} // verus!
