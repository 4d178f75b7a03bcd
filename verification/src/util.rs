use std::time::Duration;

use vstd::prelude::*;

use crate::text::{
    decimal, decimal2, digit_char, digit_to_char, push_char, push_decimal, push_decimal2,
};

verus! {

/// `2^e`.
pub open spec fn p2(e: nat) -> nat
    decreases e,
{
    if e == 0 {
        1
    } else {
        2 * p2((e - 1) as nat)
    }
}

/// `1024^k`.
pub open spec fn pow1024(k: nat) -> nat
    decreases k,
{
    if k == 0 {
        1
    } else {
        1024 * pow1024((k - 1) as nat)
    }
}

/// `n / d` rounded to the nearest integer, a tie going to the even neighbour.
pub open spec fn div_round_even(n: nat, d: nat) -> nat {
    let q = n / d;
    let r = n % d;
    if 2 * r > d || (2 * r == d && q % 2 == 1) {
        q + 1
    } else {
        q
    }
}

/// How many low-order bits are lost when `n` is held with a 53-bit significand.
pub open spec fn dropped_bits(n: nat) -> nat
    decreases n,
{
    if n < 0x20_0000_0000_0000 {
        0
    } else {
        1 + dropped_bits(n / 2)
    }
}

/// The value of `n as f64`: `n` rounded to the nearest number whose significand
/// has 53 bits, a tie going to the even significand.
pub open spec fn binary64_of(n: nat) -> nat {
    div_round_even(n, p2(dropped_bits(n))) * p2(dropped_bits(n))
}

/// The unit index reached by dividing `x` by 1024 while it is at least 1024,
/// starting at unit `k` and stopping at the last unit (5, petabytes).
pub open spec fn unit_index(x: nat, k: nat) -> nat
    decreases 5 - k,
{
    if k < 5 && x >= pow1024(k + 1) {
        unit_index(x, k + 1)
    } else {
        k
    }
}

/// Name of the byte unit with index `k`.
pub open spec fn unit_name(k: nat) -> Seq<char> {
    if k == 0 {
        seq!['B']
    } else if k == 1 {
        seq!['K', 'B']
    } else if k == 2 {
        seq!['M', 'B']
    } else if k == 3 {
        seq!['G', 'B']
    } else if k == 4 {
        seq!['T', 'B']
    } else {
        seq!['P', 'B']
    }
}

/// Human-readable byte count: `"<n> B"` below one kilobyte, otherwise the
/// binary64 value of the count in the largest unit it reaches (up to PB),
/// rounded to one decimal place.
pub open spec fn bytes_text(b: nat) -> Seq<char> {
    let f = binary64_of(b);
    let k = unit_index(f, 0);
    if k == 0 {
        decimal(b) + seq![' ', 'B']
    } else {
        let t = div_round_even(f * 10, pow1024(k));
        decimal(t / 10) + seq!['.', digit_char(t % 10), ' '] + unit_name(k)
    }
}

/// The exponent `t` (counted down from `t`) at which `a * 2^t / 4000` first
/// drops below `2^53`: the scale that puts the binary64 quotient `a / 1000`
/// into a 53-bit significand.
pub open spec fn quotient_shift(a: nat, t: nat) -> nat
    decreases t,
{
    if t > 0 && a * p2(t) >= 4000 * 0x20_0000_0000_0000 {
        quotient_shift(a, (t - 1) as nat)
    } else {
        t
    }
}

/// Hundredths of the binary64 quotient `a / 1000`, rounded half to even:
/// the significand is `m = round(a * 2^t / 4000)` and the quotient is `4m / 2^t`.
pub open spec fn thousandths_hundredths(a: nat) -> nat {
    let t = quotient_shift(a, 54);
    let m = div_round_even(a * p2(t), 4000);
    div_round_even(400 * m, p2(t))
}

/// `"<mhz> MHz"` below 1000, otherwise the binary64 value of `mhz / 1000`
/// in GHz with two decimals.
pub open spec fn frequency_text(mhz: nat) -> Seq<char> {
    if mhz >= 1000 {
        let h = thousandths_hundredths(binary64_of(mhz));
        decimal(h / 100) + seq!['.'] + decimal2(h % 100) + seq![' ', 'G', 'H', 'z']
    } else {
        decimal(mhz) + seq![' ', 'M', 'H', 'z']
    }
}

/// `H:MM:SS` when at least one hour, else `M:SS`.
pub open spec fn clock_text(secs: nat) -> Seq<char> {
    let h = secs / 3600;
    let m = (secs % 3600) / 60;
    let s = secs % 60;
    if h > 0 {
        decimal(h) + seq![':'] + decimal2(m) + seq![':'] + decimal2(s)
    } else {
        decimal(m) + seq![':'] + decimal2(s)
    }
}

/// `"<d>d <h>h"` when at least a day, `"<h>h <m>m"` when at least an hour, else `"<m>m"`.
pub open spec fn uptime_text(secs: nat) -> Seq<char> {
    let days = secs / 86400;
    let hours = (secs % 86400) / 3600;
    let minutes = (secs % 3600) / 60;
    if days > 0 {
        decimal(days) + seq!['d', ' '] + decimal(hours) + seq!['h']
    } else if hours > 0 {
        decimal(hours) + seq!['h', ' '] + decimal(minutes) + seq!['m']
    } else {
        decimal(minutes) + seq!['m']
    }
}

/// The whole seconds that `Duration::as_secs` reports for `d`.
pub uninterp spec fn whole_seconds(d: Duration) -> u64;

/// `Duration::as_secs`: the number of whole seconds in the duration.
#[verifier::external_body]
pub fn duration_secs(d: Duration) -> (r: u64)
    ensures
        r == whole_seconds(d),
{
    d.as_secs()
}

fn round_even(n: u128, d: u128) -> (r: u128)
    requires
        d > 0,
        d < 0x1000_0000_0000_0000_0000_0000_0000_0000,
        n < 0x1000_0000_0000_0000_0000_0000_0000_0000,
    ensures
        r == div_round_even(n as nat, d as nat),
{
    let q = n / d;
    let rem = n % d;
    assert(q <= n) by {
        vstd::arithmetic::div_mod::lemma_div_is_ordered_by_denominator(n as int, 1, d as int);
    }
    if 2 * rem > d || (2 * rem == d && q % 2 == 1) {
        q + 1
    } else {
        q
    }
}

proof fn lemma_p2_pos(e: nat)
    ensures
        p2(e) >= 1,
    decreases e,
{
    if e > 0 {
        lemma_p2_pos((e - 1) as nat);
    }
}

/// The binary64 value of an unsigned 64-bit integer, as an exact integer.
fn binary64_value(n: u64) -> (r: u128)
    ensures
        r == binary64_of(n as nat),
        r <= 0x2_0000_0000_0000_0000,
        n >= 0x20_0000_0000_0000 ==> r >= 0x20_0000_0000_0000,
        n < 0x20_0000_0000_0000 ==> r == n,
{
    let mut t: u128 = n as u128;
    let mut p: u128 = 1;
    let ghost mut e: nat = 0;
    while t >= 0x20_0000_0000_0000
        invariant
            p == p2(e),
            p >= 1,
            t == (n as nat) / (p as nat),
            p <= n || e == 0,
            dropped_bits(n as nat) == e + dropped_bits(t as nat),
            e > 0 ==> t >= 0x10_0000_0000_0000,
        decreases t,
    {
        proof {
            vstd::arithmetic::div_mod::lemma_div_denominator(n as int, p as int, 2);
            assert(p * t <= n) by {
                vstd::arithmetic::div_mod::lemma_fundamental_div_mod(n as int, p as int);
                vstd::arithmetic::div_mod::lemma_mod_pos_bound(n as int, p as int);
            }
            assert(p * 2 <= p * t) by (nonlinear_arith)
                requires
                    t >= 2,
                    p >= 1,
            ;
        }
        t = t / 2;
        p = p * 2;
        proof {
            e = e + 1;
        }
    }
    let q = round_even(n as u128, p);
    proof {
        assert(dropped_bits(n as nat) == e);
        assert(q <= t + 1);
        assert(q * p <= (t + 1) * p) by (nonlinear_arith)
            requires
                q <= t + 1,
        ;
        assert((t + 1) * p <= 0x20_0000_0000_0000 * 0x1_0000_0000_0000_0000) by (nonlinear_arith)
            requires
                t < 0x20_0000_0000_0000,
                p <= 0x1_0000_0000_0000_0000,
        ;
        if e > 0 {
            assert(q >= t);
            assert(q * p >= 0x10_0000_0000_0000 * 2) by (nonlinear_arith)
                requires
                    q >= t,
                    t >= 0x10_0000_0000_0000,
                    p >= 2,
            ;
            vstd::arithmetic::div_mod::lemma_fundamental_div_mod(n as int, p as int);
            vstd::arithmetic::div_mod::lemma_mod_pos_bound(n as int, p as int);
            assert(t * p <= n);
            assert((t + 1) * p <= 2 * (n as int)) by (nonlinear_arith)
                requires
                    t * p <= n,
                    p <= n,
            ;
        }
    }
    q * p
}

fn push_unit_name(s: &mut String, k: usize)
    requires
        1 <= k <= 5,
    ensures
        final(s)@ == old(s)@ + unit_name(k as nat),
{
    let c = if k == 1 {
        'K'
    } else if k == 2 {
        'M'
    } else if k == 3 {
        'G'
    } else if k == 4 {
        'T'
    } else {
        'P'
    };
    push_char(s, c);
    push_char(s, 'B');
    assert(final(s)@ =~= old(s)@ + unit_name(k as nat));
}

/// Renders a byte count with a binary unit: `0 B`, `1023 B`, `1.0 KB`, `1.5 GB`.
pub fn format_bytes(bytes: u64) -> (r: String)
    ensures
        r@ == bytes_text(bytes as nat),
{
    let f = binary64_value(bytes);
    let mut unit: usize = 0;
    let mut scale: u128 = 1;
    proof {
        reveal_with_fuel(pow1024, 6);
    }
    while unit < 5 && f >= scale * 1024
        invariant
            unit <= 5,
            scale == pow1024(unit as nat),
            scale <= 0x4_0000_0000_0000,
            unit < 5 ==> scale <= 0x100_0000_0000,
            unit_index(f as nat, 0) == unit_index(f as nat, unit as nat),
        decreases 5 - unit,
    {
        proof {
            reveal_with_fuel(pow1024, 6);
        }
        scale = scale * 1024;
        unit = unit + 1;
    }
    assert(unit_index(f as nat, unit as nat) == unit as nat);
    let mut s = String::new();
    if unit == 0 {
        push_decimal(&mut s, bytes as u128);
        push_char(&mut s, ' ');
        push_char(&mut s, 'B');
        assert(s@ =~= bytes_text(bytes as nat));
    } else {
        let t = round_even(f * 10, scale);
        let ghost before = s@;
        push_decimal(&mut s, t / 10);
        push_char(&mut s, '.');
        push_char(&mut s, digit_to_char((t % 10) as u8));
        push_char(&mut s, ' ');
        push_unit_name(&mut s, unit);
        assert(s@ =~= bytes_text(bytes as nat));
    }
    s
}

proof fn lemma_p2_54()
    ensures
        p2(54) == 0x40_0000_0000_0000,
{
    reveal_with_fuel(p2, 55);
}

/// Hundredths of the binary64 quotient `a / 1000`.
fn quotient_hundredths(a: u128) -> (h: u128)
    requires
        a <= 0x2_0000_0000_0000_0000,
    ensures
        h == thousandths_hundredths(a as nat),
{
    let mut t: u32 = 54;
    let mut pw: u128 = 0x40_0000_0000_0000;
    proof {
        lemma_p2_54();
    }
    assert(a * pw <= 0x2_0000_0000_0000_0000 * 0x40_0000_0000_0000) by (nonlinear_arith)
        requires
            a <= 0x2_0000_0000_0000_0000,
            pw <= 0x40_0000_0000_0000,
    ;
    while t > 0 && a * pw >= 4000 * 0x20_0000_0000_0000
        invariant
            t <= 54,
            pw == p2(t as nat),
            pw <= 0x40_0000_0000_0000,
            a <= 0x2_0000_0000_0000_0000,
            a * pw <= 0x2_0000_0000_0000_0000 * 0x40_0000_0000_0000,
            quotient_shift(a as nat, 54) == quotient_shift(a as nat, t as nat),
        decreases t,
    {
        pw = pw / 2;
        t = t - 1;
        assert(a * pw <= 0x2_0000_0000_0000_0000 * 0x40_0000_0000_0000) by (nonlinear_arith)
            requires
                a <= 0x2_0000_0000_0000_0000,
                pw <= 0x40_0000_0000_0000,
        ;
    }
    assert(quotient_shift(a as nat, t as nat) == t as nat);
    proof {
        lemma_p2_pos(t as nat);
    }
    let m = round_even(a * pw, 4000);
    assert(m <= (a * pw) / 4000 + 1);
    round_even(400 * m, pw)
}

/// Renders a clock frequency: `800 MHz`, or `4.50 GHz` from 1000 MHz up.
pub fn format_frequency_mhz(mhz: u64) -> (r: String)
    ensures
        r@ == frequency_text(mhz as nat),
{
    let mut s = String::new();
    if mhz >= 1000 {
        let a = binary64_value(mhz);
        let h = quotient_hundredths(a);
        push_decimal(&mut s, h / 100);
        push_char(&mut s, '.');
        push_decimal2(&mut s, h % 100);
        push_char(&mut s, ' ');
        push_char(&mut s, 'G');
        push_char(&mut s, 'H');
        push_char(&mut s, 'z');
        assert(s@ =~= frequency_text(mhz as nat));
    } else {
        push_decimal(&mut s, mhz as u128);
        push_char(&mut s, ' ');
        push_char(&mut s, 'M');
        push_char(&mut s, 'H');
        push_char(&mut s, 'z');
        assert(s@ =~= frequency_text(mhz as nat));
    }
    s
}

/// Renders a number of seconds as `H:MM:SS` (from one hour up) or `M:SS`.
pub fn format_duration_secs(secs: u64) -> (r: String)
    ensures
        r@ == clock_text(secs as nat),
{
    let h = secs / 3600;
    let m = (secs % 3600) / 60;
    let sec = secs % 60;
    let mut s = String::new();
    if h > 0 {
        push_decimal(&mut s, h as u128);
        push_char(&mut s, ':');
        push_decimal2(&mut s, m as u128);
    } else {
        push_decimal(&mut s, m as u128);
    }
    push_char(&mut s, ':');
    push_decimal2(&mut s, sec as u128);
    assert(s@ =~= clock_text(secs as nat));
    s
}

/// Renders a duration as `H:MM:SS` (from one hour up) or `M:SS`.
pub fn format_duration(d: Duration) -> (r: String)
    ensures
        r@ == clock_text(whole_seconds(d) as nat),
{
    format_duration_secs(duration_secs(d))
}

/// Renders a number of seconds of uptime as `Dd Hh`, `Hh Mm` or `Mm`.
pub fn format_uptime_secs(secs: u64) -> (r: String)
    ensures
        r@ == uptime_text(secs as nat),
{
    let days = secs / 86400;
    let hours = (secs % 86400) / 3600;
    let minutes = (secs % 3600) / 60;
    let mut s = String::new();
    if days > 0 {
        push_decimal(&mut s, days as u128);
        push_char(&mut s, 'd');
        push_char(&mut s, ' ');
        push_decimal(&mut s, hours as u128);
        push_char(&mut s, 'h');
    } else if hours > 0 {
        push_decimal(&mut s, hours as u128);
        push_char(&mut s, 'h');
        push_char(&mut s, ' ');
        push_decimal(&mut s, minutes as u128);
        push_char(&mut s, 'm');
    } else {
        push_decimal(&mut s, minutes as u128);
        push_char(&mut s, 'm');
    }
    assert(s@ =~= uptime_text(secs as nat));
    s
}

/// Renders an uptime as `Dd Hh`, `Hh Mm` or `Mm`.
pub fn format_uptime(d: Duration) -> (r: String)
    ensures
        r@ == uptime_text(whole_seconds(d) as nat),
{
    format_uptime_secs(duration_secs(d))
}

} // verus!
