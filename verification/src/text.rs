//! Text building blocks with exact specifications: decimal numerals, the
//! `Debug` text of durations, and character-level views of strings.

use vstd::prelude::*;

verus! {

pub open spec fn digit_char(d: nat) -> char {
    if d == 0 { '0' }
    else if d == 1 { '1' }
    else if d == 2 { '2' }
    else if d == 3 { '3' }
    else if d == 4 { '4' }
    else if d == 5 { '5' }
    else if d == 6 { '6' }
    else if d == 7 { '7' }
    else if d == 8 { '8' }
    else { '9' }
}

/// The decimal numeral of a natural number, without leading zeros.
pub open spec fn decimal(n: nat) -> Seq<char>
    decreases n,
{
    if n < 10 {
        seq![digit_char(n)]
    } else {
        decimal(n / 10).push(digit_char(n % 10))
    }
}

/// The decimal numeral of an integer, with a leading `-` when negative.
pub open spec fn signed_decimal(n: int) -> Seq<char> {
    if n < 0 { seq!['-'] + decimal((-n) as nat) } else { decimal(n as nat) }
}

/// Whether `d` is a power of ten.
pub open spec fn is_pow10(d: nat) -> bool
    decreases d,
{
    d == 1 || (d >= 10 && d % 10 == 0 && is_pow10(d / 10))
}

/// The digits of `frac` as a decimal fraction whose first place is worth
/// `divisor`, with trailing zeros dropped (none at all for `0`).
pub open spec fn frac_digits(frac: nat, divisor: nat) -> Seq<char>
    decreases divisor,
{
    if frac == 0 || divisor == 0 {
        seq![]
    } else {
        seq![digit_char(frac / divisor)] + frac_digits(frac % divisor, divisor / 10)
    }
}

/// `int_part`, then `.` and the fraction's digits when there are any, then `unit`.
pub open spec fn with_fraction(int_part: nat, frac: nat, divisor: nat, unit: Seq<char>) -> Seq<char> {
    let f = frac_digits(frac, divisor);
    decimal(int_part) + (if f.len() > 0 { seq!['.'] + f } else { seq![] }) + unit
}

/// What `std::time::Duration`'s `Debug` writes for a duration of `ns`
/// nanoseconds: the largest unit of `s`, `ms`, `µs` and `ns` that keeps a
/// non-zero whole part, with the exact remainder as a fraction (`0ns`,
/// `250µs`, `1.5ms`, `3s`, `1.000000001s`).
pub open spec fn duration_debug(ns: nat) -> Seq<char> {
    let secs = ns / 1_000_000_000;
    let nanos = ns % 1_000_000_000;
    if secs > 0 {
        with_fraction(secs, nanos, 100_000_000, seq!['s'])
    } else if nanos >= 1_000_000 {
        with_fraction(nanos / 1_000_000, nanos % 1_000_000, 100_000, seq!['m', 's'])
    } else if nanos >= 1_000 {
        with_fraction(nanos / 1_000, nanos % 1_000, 100, seq!['\u{b5}', 's'])
    } else {
        decimal(nanos) + seq!['n', 's']
    }
}

fn digit_str(d: u64) -> (s: &'static str)
    requires
        d < 10,
    ensures
        s@ == seq![digit_char(d as nat)],
{
    proof {
        reveal_strlit("0");
        reveal_strlit("1");
        reveal_strlit("2");
        reveal_strlit("3");
        reveal_strlit("4");
        reveal_strlit("5");
        reveal_strlit("6");
        reveal_strlit("7");
        reveal_strlit("8");
        reveal_strlit("9");
    }
    if d == 0 { "0" }
    else if d == 1 { "1" }
    else if d == 2 { "2" }
    else if d == 3 { "3" }
    else if d == 4 { "4" }
    else if d == 5 { "5" }
    else if d == 6 { "6" }
    else if d == 7 { "7" }
    else if d == 8 { "8" }
    else { "9" }
}

/// Appends the decimal numeral of `n`.
pub fn push_decimal(out: &mut String, n: u64)
    ensures
        final(out)@ == old(out)@ + decimal(n as nat),
    decreases n,
{
    if n >= 10 {
        push_decimal(out, n / 10);
    }
    out.append(digit_str(n % 10));
    proof {
        if n >= 10 {
            assert(decimal(n as nat) == decimal((n / 10) as nat).push(digit_char((n % 10) as nat)));
        }
    }
}

/// Appends the decimal numeral of a signed 32-bit number.
pub fn push_signed_decimal(out: &mut String, n: i32)
    ensures
        final(out)@ == old(out)@ + signed_decimal(n as int),
{
    if n < 0 {
        out.append("-");
        proof { reveal_strlit("-"); }
        let m: i64 = -(n as i64);
        push_decimal(out, m as u64);
    } else {
        push_decimal(out, n as u64);
    }
}

/// The decimal numeral of `n` as a fresh string.
pub fn decimal_text(n: u64) -> (s: String)
    ensures
        s@ == decimal(n as nat),
{
    let mut s = String::new();
    push_decimal(&mut s, n);
    s
}

/// Appends the decimal numeral of a 128-bit `n`.
pub fn push_decimal_wide(out: &mut String, n: u128)
    ensures
        final(out)@ == old(out)@ + decimal(n as nat),
    decreases n,
{
    if n >= 10 {
        push_decimal_wide(out, n / 10);
    }
    out.append(digit_str((n % 10) as u64));
    proof {
        if n >= 10 {
            assert(decimal(n as nat) == decimal((n / 10) as nat).push(digit_char((n % 10) as nat)));
        }
    }
}

/// Appends the fraction digits `frac_digits(frac, divisor)`.
fn push_frac_digits(out: &mut String, frac: u64, divisor: u64)
    requires
        is_pow10(divisor as nat),
        frac < 10 * divisor,
    ensures
        final(out)@ == old(out)@ + frac_digits(frac as nat, divisor as nat),
    decreases divisor,
{
    if frac == 0 {
        return;
    }
    assert(frac / divisor < 10) by (nonlinear_arith)
        requires
            frac < 10 * divisor,
            divisor > 0,
    ;
    out.append(digit_str(frac / divisor));
    let rest = frac % divisor;
    let next = divisor / 10;
    if divisor == 1 {
        assert(rest == 0);
        assert(frac_digits(rest as nat, next as nat) == Seq::<char>::empty());
        assert(final(out)@ =~= old(out)@ + frac_digits(frac as nat, divisor as nat));
        return;
    }
    assert(rest < 10 * next) by (nonlinear_arith)
        requires
            rest == frac % divisor,
            next == divisor / 10,
            divisor % 10 == 0,
            divisor >= 10,
    ;
    let ghost mid = out@;
    push_frac_digits(out, rest, next);
    assert(out@ =~= old(out)@ + frac_digits(frac as nat, divisor as nat));
}

/// Appends `with_fraction(int_part, frac, divisor, unit)`.
fn push_with_fraction(out: &mut String, int_part: u128, frac: u64, divisor: u64, unit: &str)
    requires
        is_pow10(divisor as nat),
        frac < 10 * divisor,
    ensures
        final(out)@ == old(out)@ + with_fraction(int_part as nat, frac as nat, divisor as nat, unit@),
{
    push_decimal_wide(out, int_part);
    if frac > 0 {
        out.append(".");
        proof { reveal_strlit("."); }
        push_frac_digits(out, frac, divisor);
        assert(frac_digits(frac as nat, divisor as nat).len() > 0);
    } else {
        assert(frac_digits(frac as nat, divisor as nat) =~= Seq::<char>::empty());
    }
    out.append(unit);
    assert(out@ =~= old(out)@ + with_fraction(int_part as nat, frac as nat, divisor as nat, unit@));
}

/// Appends what `Debug` writes for a `Duration` of `ns` nanoseconds.
pub fn push_duration_debug(out: &mut String, ns: u128)
    ensures
        final(out)@ == old(out)@ + duration_debug(ns as nat),
{
    proof {
        reveal_strlit("s");
        reveal_strlit("ms");
        reveal_strlit("\u{b5}s");
        reveal_strlit("ns");
        assert(is_pow10(1));
        assert(is_pow10(10));
        assert(is_pow10(100));
        assert(is_pow10(1_000));
        assert(is_pow10(10_000));
        assert(is_pow10(100_000));
        assert(is_pow10(1_000_000));
        assert(is_pow10(10_000_000));
        assert(is_pow10(100_000_000));
    }
    let secs = ns / 1_000_000_000;
    let nanos = (ns % 1_000_000_000) as u64;
    if secs > 0 {
        push_with_fraction(out, secs, nanos, 100_000_000, "s");
    } else if nanos >= 1_000_000 {
        push_with_fraction(out, (nanos / 1_000_000) as u128, nanos % 1_000_000, 100_000, "ms");
    } else if nanos >= 1_000 {
        push_with_fraction(out, (nanos / 1_000) as u128, nanos % 1_000, 100, "\u{b5}s");
    } else {
        push_decimal_wide(out, nanos as u128);
        out.append("ns");
    }
}

/// Calls `str::chars` and collects the characters, in order.
#[verifier::external_body]
pub(crate) fn chars_of(s: &str) -> (v: Vec<char>)
    ensures
        v@ == s@,
{
    s.chars().collect()
}

/// Collects characters into a `String` (`FromIterator<char>`), in order.
#[verifier::external_body]
pub(crate) fn string_of(v: &[char]) -> (s: String)
    ensures
        s@ == v@,
{
    v.iter().collect()
}

} // verus!
