//! Elapsed times and token rates as the host sees them: decimal text with two
//! places after the point, computed on integers.

use vstd::prelude::*;
use vstd::string::*;

verus! {

/// Nanoseconds in one hundredth of a second.
pub const NANOS_PER_HUNDREDTH: u64 = 10_000_000;

/// Hundredths of a token per second in one token per nanosecond.
pub const RATE_SCALE: u128 = 100_000_000_000;

/// The decimal digit `d` as a character.
pub open spec fn digit_char(d: nat) -> char {
    if d == 0 {
        '0'
    } else if d == 1 {
        '1'
    } else if d == 2 {
        '2'
    } else if d == 3 {
        '3'
    } else if d == 4 {
        '4'
    } else if d == 5 {
        '5'
    } else if d == 6 {
        '6'
    } else if d == 7 {
        '7'
    } else if d == 8 {
        '8'
    } else {
        '9'
    }
}

/// `n` in decimal, without leading zeros.
pub open spec fn decimal_text(n: nat) -> Seq<char>
    decreases n,
{
    if n < 10 {
        seq![digit_char(n)]
    } else {
        decimal_text(n / 10).push(digit_char(n % 10))
    }
}

/// `h` hundredths as a decimal number with two places after the point.
pub open spec fn fixed2_text(h: nat) -> Seq<char> {
    decimal_text(h / 100) + seq!['.', digit_char((h / 10) % 10), digit_char(h % 10)]
}

/// A time in nanoseconds as hundredths of a second, rounded to the nearest,
/// halves up.
pub open spec fn hundredths_of_second(nanos: u64) -> nat {
    ((nanos + 5_000_000) / 10_000_000) as nat
}

/// `tokens` per `nanos` nanoseconds as hundredths of a token per second,
/// rounded to the nearest, halves up.
pub open spec fn rate_hundredths(tokens: nat, nanos: u64) -> nat
    recommends
        nanos > 0,
{
    ((2 * (tokens * 100_000_000_000) + nanos) / (2 * nanos)) as nat
}

/// A time in seconds, with two places after the point.
pub open spec fn seconds_text(nanos: u64) -> Seq<char> {
    fixed2_text(hundredths_of_second(nanos))
}

/// A rate in tokens per second with two places after the point; `inf` where
/// no time has passed.
pub open spec fn rate_text(tokens: nat, nanos: u64) -> Seq<char> {
    if nanos == 0 {
        "inf"@
    } else {
        fixed2_text(rate_hundredths(tokens, nanos))
    }
}

/// A later time is never shown as an earlier one.
pub proof fn lemma_hundredths_monotone(earlier: u64, later: u64)
    requires
        earlier <= later,
    ensures
        hundredths_of_second(earlier) <= hundredths_of_second(later),
{
}

/// Ten milliseconds later, the time shown is greater by a hundredth at least.
pub proof fn lemma_hundredths_advance(earlier: u64, later: u64)
    requires
        earlier + NANOS_PER_HUNDREDTH <= later,
    ensures
        hundredths_of_second(earlier) + 1 <= hundredths_of_second(later),
{
}

/// The time shown is within half a hundredth of a second of the time given.
pub proof fn lemma_hundredths_nearest(nanos: u64)
    ensures
        hundredths_of_second(nanos) * NANOS_PER_HUNDREDTH <= nanos + 5_000_000,
        nanos < hundredths_of_second(nanos) * NANOS_PER_HUNDREDTH + 5_000_000,
{
}

/// The digit that a character stands for.
pub open spec fn digit_value(c: char) -> nat {
    if c == '0' {
        0
    } else if c == '1' {
        1
    } else if c == '2' {
        2
    } else if c == '3' {
        3
    } else if c == '4' {
        4
    } else if c == '5' {
        5
    } else if c == '6' {
        6
    } else if c == '7' {
        7
    } else if c == '8' {
        8
    } else {
        9
    }
}

/// The number that a run of decimal digits stands for.
pub open spec fn decimal_value(text: Seq<char>) -> nat
    decreases text.len(),
{
    if text.len() == 0 {
        0
    } else {
        decimal_value(text.drop_last()) * 10 + digit_value(text.last())
    }
}

/// Reading back what was written gives the number that was written.
pub proof fn lemma_decimal_reads_back(n: nat)
    ensures
        decimal_value(decimal_text(n)) == n,
    decreases n,
{
    if n < 10 {
        assert(decimal_text(n).drop_last() =~= Seq::<char>::empty());
        assert(decimal_value(decimal_text(n).drop_last()) == 0);
    } else {
        lemma_decimal_reads_back(n / 10);
        assert(decimal_text(n).drop_last() =~= decimal_text(n / 10));
    }
}

/// Different amounts are written differently.
pub proof fn lemma_fixed2_distinct(a: nat, b: nat)
    requires
        a != b,
    ensures
        fixed2_text(a) != fixed2_text(b),
{
    if fixed2_text(a) == fixed2_text(b) {
        let whole_a = decimal_text(a / 100);
        let whole_b = decimal_text(b / 100);
        let ta = fixed2_text(a);
        let tb = fixed2_text(b);
        let la = whole_a.len() as int;
        let lb = whole_b.len() as int;
        assert(ta.len() == la + 3);
        assert(tb.len() == lb + 3);
        assert(ta[la + 1] == digit_char((a / 10) % 10));
        assert(tb[lb + 1] == digit_char((b / 10) % 10));
        assert(ta[la + 2] == digit_char(a % 10));
        assert(tb[lb + 2] == digit_char(b % 10));
        assert(ta.subrange(0, la) =~= whole_a);
        assert(tb.subrange(0, lb) =~= whole_b);
        lemma_decimal_reads_back(a / 100);
        lemma_decimal_reads_back(b / 100);
        assert(a / 100 == b / 100);
        assert(a % 10 == b % 10);
        assert((a / 10) % 10 == (b / 10) % 10);
        assert(false);
    }
}

/// One decimal digit as a string.
fn digit_str(d: u8) -> (s: &'static str)
    requires
        d < 10,
    ensures
        s@ == seq![digit_char(d as nat)],
{
    proof {
        reveal_strlit("0");
        reveal_strlit("1");
        reveal_strlit("2");
        reveal_strlit("3");
        reveal_strlit("4");
        reveal_strlit("5");
        reveal_strlit("6");
        reveal_strlit("7");
        reveal_strlit("8");
        reveal_strlit("9");
    }
    let s: &'static str = match d {
        0 => "0",
        1 => "1",
        2 => "2",
        3 => "3",
        4 => "4",
        5 => "5",
        6 => "6",
        7 => "7",
        8 => "8",
        _ => "9",
    };
    assert(s@ =~= seq![digit_char(d as nat)]);
    s
}

/// Appends `n` in decimal to `out`.
pub fn push_decimal(out: &mut String, n: u128)
    ensures
        final(out)@ == old(out)@ + decimal_text(n as nat),
    decreases n,
{
    if n >= 10 {
        push_decimal(out, n / 10);
    }
    out.append(digit_str((n % 10) as u8));
}

/// Appends `h` hundredths to `out`, with two places after the point.
pub fn push_fixed2(out: &mut String, h: u128)
    ensures
        final(out)@ == old(out)@ + fixed2_text(h as nat),
{
    proof {
        reveal_strlit(".");
    }
    push_decimal(out, h / 100);
    out.append(".");
    out.append(digit_str(((h / 10) % 10) as u8));
    out.append(digit_str((h % 10) as u8));
    assert(final(out)@ =~= old(out)@ + fixed2_text(h as nat));
}

/// Appends a time in seconds to `out`.
pub fn push_seconds(out: &mut String, nanos: u64)
    ensures
        final(out)@ == old(out)@ + seconds_text(nanos),
{
    let h: u128 = (nanos as u128 + 5_000_000) / 10_000_000;
    push_fixed2(out, h);
}

/// Appends a rate in tokens per second to `out`.
pub fn push_rate(out: &mut String, tokens: usize, nanos: u64)
    ensures
        final(out)@ == old(out)@ + rate_text(tokens as nat, nanos),
{
    if nanos == 0 {
        out.append("inf");
    } else {
        let scaled: u128 = (tokens as u128) * RATE_SCALE;
        let h: u128 = (2 * scaled + nanos as u128) / (2 * (nanos as u128));
        push_fixed2(out, h);
    }
}

} // verus!
