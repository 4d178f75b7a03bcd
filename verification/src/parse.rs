//! Reading numbers and words out of the text of kernel files: white space
//! as `char::is_whitespace` defines it, `str::trim`, `str::split_whitespace`
//! and `str::parse` for integers.

use vstd::prelude::*;

use crate::text::{chars_of, push_char, str_eq};

verus! {

/// Whether `c` is an ASCII decimal digit.
pub open spec fn is_ascii_digit(c: char) -> bool {
    '0' <= c && c <= '9'
}

/// Length of the run of ASCII digits at the start of `s`.
pub open spec fn digit_run(s: Seq<char>) -> nat
    decreases s.len(),
{
    if s.len() > 0 && is_ascii_digit(s[0]) {
        1 + digit_run(s.drop_first())
    } else {
        0
    }
}

/// The number written by a sequence of ASCII digits.
pub open spec fn digits_value(d: Seq<char>) -> nat
    decreases d.len(),
{
    if d.len() == 0 {
        0
    } else {
        digits_value(d.drop_last()) * 10 + ((d.last() as nat) - ('0' as nat)) as nat
    }
}

pub(crate) proof fn lemma_digit_run_bounds(s: Seq<char>)
    ensures
        digit_run(s) <= s.len(),
        forall|i: int| 0 <= i < digit_run(s) ==> is_ascii_digit(s[i]),
        digit_run(s) < s.len() ==> !is_ascii_digit(s[digit_run(s) as int]),
    decreases s.len(),
{
    if s.len() > 0 && is_ascii_digit(s[0]) {
        lemma_digit_run_bounds(s.drop_first());
        assert forall|i: int| 0 <= i < digit_run(s) implies is_ascii_digit(s[i]) by {
            if i > 0 {
                assert(s[i] == s.drop_first()[i - 1]);
            }
        }
    }
}

pub(crate) proof fn lemma_digit_run_of_prefix(s: Seq<char>, k: nat)
    requires
        k <= s.len(),
        forall|i: int| 0 <= i < k ==> is_ascii_digit(s[i]),
        k == s.len() || !is_ascii_digit(s[k as int]),
    ensures
        digit_run(s) == k,
    decreases k,
{
    if k > 0 {
        lemma_digit_run_of_prefix(s.drop_first(), (k - 1) as nat);
    }
}

pub(crate) proof fn lemma_digits_value_grows(d: Seq<char>, k: int)
    requires
        0 <= k <= d.len(),
        forall|i: int| 0 <= i < d.len() ==> is_ascii_digit(d[i]),
    ensures
        digits_value(d.take(k)) <= digits_value(d),
    decreases d.len() - k,
{
    if k < d.len() {
        lemma_digits_value_grows(d, k + 1);
        assert(d.take(k + 1).drop_last() =~= d.take(k));
    }
    if k == d.len() {
        assert(d.take(k) =~= d);
    }
}

/// Whether `c` has the Unicode `White_Space` property (`char::is_whitespace`).
pub open spec fn is_white(c: char) -> bool {
    ('\u{9}' <= c && c <= '\u{D}') || c == ' ' || c == '\u{85}' || c == '\u{A0}' || c
        == '\u{1680}' || ('\u{2000}' <= c && c <= '\u{200A}') || c == '\u{2028}' || c
        == '\u{2029}' || c == '\u{202F}' || c == '\u{205F}' || c == '\u{3000}'
}

fn white(c: char) -> (r: bool)
    ensures
        r == is_white(c),
{
    ('\u{9}' <= c && c <= '\u{D}') || c == ' ' || c == '\u{85}' || c == '\u{A0}' || c
        == '\u{1680}' || ('\u{2000}' <= c && c <= '\u{200A}') || c == '\u{2028}' || c
        == '\u{2029}' || c == '\u{202F}' || c == '\u{205F}' || c == '\u{3000}'
}

/// Number of white-space characters that start `s`.
pub open spec fn lead_white(s: Seq<char>) -> nat
    decreases s.len(),
{
    if s.len() > 0 && is_white(s[0]) {
        1 + lead_white(s.drop_first())
    } else {
        0
    }
}

/// Number of white-space characters that end `s`.
pub open spec fn trail_white(s: Seq<char>) -> nat
    decreases s.len(),
{
    if s.len() > 0 && is_white(s.last()) {
        1 + trail_white(s.drop_last())
    } else {
        0
    }
}

/// Number of characters before the first white space of `s`.
pub open spec fn word_len(s: Seq<char>) -> nat
    decreases s.len(),
{
    if s.len() > 0 && !is_white(s[0]) {
        1 + word_len(s.drop_first())
    } else {
        0
    }
}

/// `s` without white space at either end (`str::trim`).
pub open spec fn trimmed(s: Seq<char>) -> Seq<char> {
    let t = s.skip(lead_white(s) as int);
    t.take(t.len() - trail_white(t))
}

proof fn lemma_lead_white(s: Seq<char>, k: nat)
    requires
        k <= s.len(),
        forall|i: int| 0 <= i < k ==> is_white(s[i]),
        k == s.len() || !is_white(s[k as int]),
    ensures
        lead_white(s) == k,
    decreases k,
{
    if k > 0 {
        lemma_lead_white(s.drop_first(), (k - 1) as nat);
    }
}

proof fn lemma_word_len(s: Seq<char>, k: nat)
    requires
        k <= s.len(),
        forall|i: int| 0 <= i < k ==> !is_white(s[i]),
        k == s.len() || is_white(s[k as int]),
    ensures
        word_len(s) == k,
    decreases k,
{
    if k > 0 {
        lemma_word_len(s.drop_first(), (k - 1) as nat);
    }
}

proof fn lemma_trail_white(s: Seq<char>, k: nat)
    requires
        k <= s.len(),
        forall|i: int| s.len() - k <= i < s.len() ==> is_white(s[i]),
        k == s.len() || !is_white(s[s.len() - k - 1]),
    ensures
        trail_white(s) == k,
    decreases k,
{
    if k > 0 {
        let t = s.drop_last();
        assert forall|i: int| t.len() - (k - 1) <= i < t.len() implies is_white(t[i]) by {
            assert(t[i] == s[i]);
        }
        if k - 1 < t.len() {
            assert(t[t.len() - (k - 1) - 1] == s[s.len() - k - 1]);
        }
        lemma_trail_white(t, (k - 1) as nat);
    }
}

/// Whether every character of `d` is an ASCII digit.
pub open spec fn all_digits(d: Seq<char>) -> bool {
    forall|i: int| 0 <= i < d.len() ==> is_ascii_digit(d[i])
}

/// What `str::parse` gives for an unsigned integer type whose largest value
/// is `max`: an optional `+` followed by one or more ASCII digits whose value
/// is at most `max`; anything else is an error (`None`).
pub open spec fn parsed_unsigned(t: Seq<char>, max: nat) -> Option<nat> {
    let d = if t.len() > 0 && t[0] == '+' {
        t.drop_first()
    } else {
        t
    };
    if d.len() > 0 && all_digits(d) && digits_value(d) <= max {
        Some(digits_value(d))
    } else {
        None
    }
}

/// What `str::parse` gives for a signed integer type ranging over
/// `min..=max`: an optional sign followed by one or more ASCII digits whose
/// signed value is in range; anything else is an error (`None`).
pub open spec fn parsed_signed(t: Seq<char>, min: int, max: nat) -> Option<int> {
    if t.len() > 0 && t[0] == '-' {
        let d = t.drop_first();
        if d.len() > 0 && all_digits(d) && min <= -(digits_value(d) as int) {
            Some(-(digits_value(d) as int))
        } else {
            None
        }
    } else {
        match parsed_unsigned(t, max) {
            Some(v) => Some(v as int),
            None => None,
        }
    }
}

/// The value of the digits `v[lo..hi]`: `None` when the range is empty, holds
/// anything but an ASCII digit, or is worth more than `bound`.
fn digits_in(v: &Vec<char>, lo: usize, hi: usize, bound: u128) -> (r: Option<u128>)
    requires
        lo <= hi <= v@.len(),
        bound <= 0x1_0000_0000_0000_0000,
    ensures
        ({
            let d = v@.subrange(lo as int, hi as int);
            r == (if d.len() > 0 && all_digits(d) && digits_value(d) <= bound {
                Some(digits_value(d) as u128)
            } else {
                None
            })
        }),
{
    let ghost d = v@.subrange(lo as int, hi as int);
    if lo == hi {
        return None;
    }
    let mut i: usize = lo;
    let mut value: u128 = 0;
    while i < hi
        invariant
            lo <= i <= hi <= v@.len(),
            d == v@.subrange(lo as int, hi as int),
            bound <= 0x1_0000_0000_0000_0000,
            all_digits(d.take(i - lo)),
            value == digits_value(d.take(i - lo)),
            value <= bound,
        decreases hi - i,
    {
        let c = v[i];
        let ghost next = d.take(i - lo + 1);
        assert(next.drop_last() =~= d.take(i - lo));
        assert(next.last() == c);
        if !('0' <= c && c <= '9') {
            assert(!is_ascii_digit(d[i - lo]));
            return None;
        }
        let dig = ((c as u32) - ('0' as u32)) as u128;
        value = value * 10 + dig;
        if value > bound {
            proof {
                assert(digits_value(next) > bound);
                assert forall|k: int| i - lo + 1 <= k <= d.len() && all_digits(d.take(k))
                    implies digits_value(d.take(k)) > bound by {
                    lemma_digits_value_grows(d.take(k), i - lo + 1);
                    assert(d.take(k).take(i - lo + 1) =~= next);
                }
                if all_digits(d) {
                    assert(d.take(d.len() as int) =~= d);
                }
            }
            return None;
        }
        assert(all_digits(next)) by {
            assert forall|k: int| 0 <= k < next.len() implies is_ascii_digit(next[k]) by {
                if k < next.len() - 1 {
                    assert(next[k] == d.take(i - lo)[k]);
                }
            }
        }
        i = i + 1;
    }
    assert(d.take(i - lo) =~= d);
    Some(value)
}

/// `str::parse::<u64>` on the characters `v[lo..hi]`.
fn parse_u64_in(v: &Vec<char>, lo: usize, hi: usize) -> (r: Option<u64>)
    requires
        lo <= hi <= v@.len(),
    ensures
        match r {
            Some(x) => parsed_unsigned(v@.subrange(lo as int, hi as int), u64::MAX as nat) == Some(
                x as nat,
            ),
            None => parsed_unsigned(v@.subrange(lo as int, hi as int), u64::MAX as nat) is None,
        },
{
    let ghost t = v@.subrange(lo as int, hi as int);
    let start = if lo < hi && v[lo] == '+' {
        lo + 1
    } else {
        lo
    };
    assert(t.len() > 0 && t[0] == '+' ==> v@.subrange(start as int, hi as int) =~= t.drop_first());
    assert(!(t.len() > 0 && t[0] == '+') ==> v@.subrange(start as int, hi as int) =~= t);
    match digits_in(v, start, hi, u64::MAX as u128) {
        Some(x) => Some(x as u64),
        None => None,
    }
}

/// `str::parse::<u32>` on the characters `v[lo..hi]`.
fn parse_u32_in(v: &Vec<char>, lo: usize, hi: usize) -> (r: Option<u32>)
    requires
        lo <= hi <= v@.len(),
    ensures
        match r {
            Some(x) => parsed_unsigned(v@.subrange(lo as int, hi as int), u32::MAX as nat) == Some(
                x as nat,
            ),
            None => parsed_unsigned(v@.subrange(lo as int, hi as int), u32::MAX as nat) is None,
        },
{
    let ghost t = v@.subrange(lo as int, hi as int);
    let start = if lo < hi && v[lo] == '+' {
        lo + 1
    } else {
        lo
    };
    assert(t.len() > 0 && t[0] == '+' ==> v@.subrange(start as int, hi as int) =~= t.drop_first());
    assert(!(t.len() > 0 && t[0] == '+') ==> v@.subrange(start as int, hi as int) =~= t);
    match digits_in(v, start, hi, u32::MAX as u128) {
        Some(x) => Some(x as u32),
        None => None,
    }
}

/// `str::parse::<i64>` on the characters `v[lo..hi]`.
fn parse_i64_in(v: &Vec<char>, lo: usize, hi: usize) -> (r: Option<i64>)
    requires
        lo <= hi <= v@.len(),
    ensures
        match r {
            Some(x) => parsed_signed(
                v@.subrange(lo as int, hi as int),
                i64::MIN as int,
                i64::MAX as nat,
            ) == Some(x as int),
            None => parsed_signed(
                v@.subrange(lo as int, hi as int),
                i64::MIN as int,
                i64::MAX as nat,
            ) is None,
        },
{
    let ghost t = v@.subrange(lo as int, hi as int);
    if lo < hi && v[lo] == '-' {
        assert(v@.subrange(lo + 1, hi as int) =~= t.drop_first());
        match digits_in(v, lo + 1, hi, 0x8000_0000_0000_0000u128) {
            Some(x) => {
                if x == 0x8000_0000_0000_0000u128 {
                    Some(i64::MIN)
                } else {
                    Some(-(x as i64))
                }
            },
            None => None,
        }
    } else {
        let start = if lo < hi && v[lo] == '+' {
            lo + 1
        } else {
            lo
        };
        assert(t.len() > 0 && t[0] == '+' ==> v@.subrange(start as int, hi as int)
            =~= t.drop_first());
        assert(!(t.len() > 0 && t[0] == '+') ==> v@.subrange(start as int, hi as int) =~= t);
        match digits_in(v, start, hi, i64::MAX as u128) {
            Some(x) => Some(x as i64),
            None => None,
        }
    }
}

/// The ends of `v[lo..hi]` once white space is cut from both sides.
fn trim_range(v: &Vec<char>, lo: usize, hi: usize) -> (r: (usize, usize))
    requires
        lo <= hi <= v@.len(),
    ensures
        lo <= r.0 <= r.1 <= hi,
        v@.subrange(r.0 as int, r.1 as int) == trimmed(v@.subrange(lo as int, hi as int)),
{
    let ghost s = v@.subrange(lo as int, hi as int);
    let mut a: usize = lo;
    while a < hi && white(v[a])
        invariant
            lo <= a <= hi <= v@.len(),
            s == v@.subrange(lo as int, hi as int),
            forall|i: int| 0 <= i < a - lo ==> is_white(s[i]),
        decreases hi - a,
    {
        a = a + 1;
    }
    proof {
        lemma_lead_white(s, (a - lo) as nat);
    }
    let ghost t = s.skip(a - lo);
    assert(t =~= v@.subrange(a as int, hi as int));
    let mut b: usize = hi;
    while b > a && white(v[b - 1])
        invariant
            lo <= a <= b <= hi <= v@.len(),
            t == v@.subrange(a as int, hi as int),
            forall|i: int| t.len() - (hi - b) <= i < t.len() ==> is_white(t[i]),
        decreases b - a,
    {
        b = b - 1;
    }
    proof {
        if b > a {
            assert(t[t.len() - (hi - b) - 1] == v@[b - 1]);
        }
        lemma_trail_white(t, (hi - b) as nat);
    }
    assert(t.take(t.len() - trail_white(t)) =~= v@.subrange(a as int, b as int));
    (a, b)
}

/// The characters of `s` with white space cut from both ends (`str::trim`).
pub fn trim_text(s: &str) -> (r: String)
    ensures
        r@ == trimmed(s@),
{
    let v = chars_of(s);
    let (a, b) = trim_range(&v, 0, v.len());
    assert(v@.subrange(0, v@.len() as int) =~= s@);
    let mut out = String::new();
    let mut i: usize = a;
    while i < b
        invariant
            a <= i <= b <= v@.len(),
            out@ == v@.subrange(a as int, i as int),
        decreases b - i,
    {
        push_char(&mut out, v[i]);
        assert(out@ =~= v@.subrange(a as int, i + 1));
        i = i + 1;
    }
    out
}

/// Whether the text, trimmed, is exactly `lit`.
pub fn trimmed_is(text: &str, lit: &str) -> (r: bool)
    ensures
        r == (trimmed(text@) == lit@),
{
    let t = trim_text(text);
    str_eq(t.as_str(), lit)
}

/// The integer in a kernel attribute file: the trimmed text read with
/// `str::parse::<i64>`, `None` where that fails.
pub fn parse_sysfs_i64(text: &str) -> (r: Option<i64>)
    ensures
        match r {
            Some(x) => parsed_signed(trimmed(text@), i64::MIN as int, i64::MAX as nat) == Some(
                x as int,
            ),
            None => parsed_signed(trimmed(text@), i64::MIN as int, i64::MAX as nat) is None,
        },
{
    let v = chars_of(text);
    let (a, b) = trim_range(&v, 0, v.len());
    assert(v@.subrange(0, v@.len() as int) =~= text@);
    parse_i64_in(&v, a, b)
}

/// The unsigned 32-bit integer in a kernel attribute file: the trimmed text
/// read with `str::parse::<u32>`, `None` where that fails.
pub fn parse_sysfs_u32(text: &str) -> (r: Option<u32>)
    ensures
        match r {
            Some(x) => parsed_unsigned(trimmed(text@), u32::MAX as nat) == Some(x as nat),
            None => parsed_unsigned(trimmed(text@), u32::MAX as nat) is None,
        },
{
    let v = chars_of(text);
    let (a, b) = trim_range(&v, 0, v.len());
    assert(v@.subrange(0, v@.len() as int) =~= text@);
    parse_u32_in(&v, a, b)
}

/// Length of the line that starts `s`: the characters before the first
/// line feed, or all of `s` when it has none.
pub open spec fn line_len(s: Seq<char>) -> nat
    decreases s.len(),
{
    if s.len() > 0 && s[0] != '\n' {
        1 + line_len(s.drop_first())
    } else {
        0
    }
}

/// The first white-space-separated word of `s`; empty when `s` has none.
pub open spec fn first_word(s: Seq<char>) -> Seq<char> {
    let t = s.skip(lead_white(s) as int);
    t.take(word_len(t) as int)
}

/// What follows the first word of `s`.
pub open spec fn after_first_word(s: Seq<char>) -> Seq<char> {
    let t = s.skip(lead_white(s) as int);
    t.skip(word_len(t) as int)
}

/// The second white-space-separated word of `s`; empty when `s` has none.
pub open spec fn second_word(s: Seq<char>) -> Seq<char> {
    first_word(after_first_word(s))
}

/// The number on a `/proc/meminfo` line: its second word read as a `u64`,
/// or 0 when that fails.
pub open spec fn line_number(line: Seq<char>) -> nat {
    match parsed_unsigned(second_word(line), u64::MAX as nat) {
        Some(v) => v,
        None => 0,
    }
}

/// Cached and buffer memory, in bytes, after the lines of `s` are read on
/// top of `acc`: a line whose first word is `Cached:` or `Buffers:` sets
/// that figure to the line's number times 1024. `None` when such a product
/// does not fit a `u64`.
pub open spec fn meminfo_scan(s: Seq<char>, acc: (nat, nat)) -> Option<(nat, nat)>
    decreases s.len(),
{
    let e = line_len(s);
    let line = s.take(e as int);
    let key = first_word(line);
    let bytes = line_number(line) * 1024;
    let next: Option<(nat, nat)> = if key == "Cached:"@ {
        if bytes <= u64::MAX {
            Some((bytes, acc.1))
        } else {
            None
        }
    } else if key == "Buffers:"@ {
        if bytes <= u64::MAX {
            Some((acc.0, bytes))
        } else {
            None
        }
    } else {
        Some(acc)
    };
    match next {
        Some(a) => if e < s.len() {
            meminfo_scan(s.skip(e + 1 as int), a)
        } else {
            Some(a)
        },
        None => None,
    }
}

proof fn lemma_line_len(s: Seq<char>, k: nat)
    requires
        k <= s.len(),
        forall|i: int| 0 <= i < k ==> s[i] != '\n',
        k == s.len() || s[k as int] == '\n',
    ensures
        line_len(s) == k,
    decreases k,
{
    if k > 0 {
        lemma_line_len(s.drop_first(), (k - 1) as nat);
    }
}

/// Where the first word of `v[lo..hi]` starts and ends.
fn word_bounds(v: &Vec<char>, lo: usize, hi: usize) -> (r: (usize, usize))
    requires
        lo <= hi <= v@.len(),
    ensures
        lo <= r.0 <= r.1 <= hi,
        v@.subrange(r.0 as int, r.1 as int) == first_word(v@.subrange(lo as int, hi as int)),
        v@.subrange(r.1 as int, hi as int) == after_first_word(v@.subrange(lo as int, hi as int)),
{
    let ghost s = v@.subrange(lo as int, hi as int);
    let mut a: usize = lo;
    while a < hi && white(v[a])
        invariant
            lo <= a <= hi <= v@.len(),
            s == v@.subrange(lo as int, hi as int),
            forall|i: int| 0 <= i < a - lo ==> is_white(s[i]),
        decreases hi - a,
    {
        a = a + 1;
    }
    proof {
        lemma_lead_white(s, (a - lo) as nat);
    }
    let ghost t = s.skip(a - lo);
    assert(t =~= v@.subrange(a as int, hi as int));
    let mut b: usize = a;
    while b < hi && !white(v[b])
        invariant
            lo <= a <= b <= hi <= v@.len(),
            t == v@.subrange(a as int, hi as int),
            forall|i: int| 0 <= i < b - a ==> !is_white(t[i]),
        decreases hi - b,
    {
        b = b + 1;
    }
    proof {
        lemma_word_len(t, (b - a) as nat);
    }
    assert(t.take(b - a) =~= v@.subrange(a as int, b as int));
    assert(t.skip(b - a) =~= v@.subrange(b as int, hi as int));
    (a, b)
}

/// Whether `v[lo..hi]` holds exactly the characters of `key`.
fn range_is(v: &Vec<char>, lo: usize, hi: usize, key: &Vec<char>) -> (r: bool)
    requires
        lo <= hi <= v@.len(),
    ensures
        r == (v@.subrange(lo as int, hi as int) == key@),
{
    if hi - lo != key.len() {
        return false;
    }
    let mut i: usize = 0;
    while i < key.len()
        invariant
            lo <= hi <= v@.len(),
            hi - lo == key@.len(),
            i <= key@.len(),
            forall|t: int| 0 <= t < i ==> v@[lo + t] == key@[t],
        decreases key@.len() - i,
    {
        if v[lo + i] != key[i] {
            assert(v@.subrange(lo as int, hi as int)[i as int] != key@[i as int]);
            return false;
        }
        i = i + 1;
    }
    assert(v@.subrange(lo as int, hi as int) =~= key@);
    true
}

/// Cached and buffer memory in bytes from the text of `/proc/meminfo`: the
/// number of the last `Cached:` and `Buffers:` line, times 1024, 0 where a
/// line is missing or its number unreadable. `None` when such a product
/// does not fit a `u64`.
pub fn meminfo_extra(text: &str) -> (r: Option<(u64, u64)>)
    ensures
        match r {
            Some(p) => meminfo_scan(text@, (0, 0)) == Some((p.0 as nat, p.1 as nat)),
            None => meminfo_scan(text@, (0, 0)) is None,
        },
{
    let v = chars_of(text);
    let cached_key = chars_of("Cached:");
    let buffers_key = chars_of("Buffers:");
    proof {
        reveal_strlit("Cached:");
        reveal_strlit("Buffers:");
    }
    let n = v.len();
    let mut cached: u64 = 0;
    let mut buffers: u64 = 0;
    let mut i: usize = 0;
    assert(v@.skip(0) =~= v@);
    while i < n
        invariant
            i <= n == v@.len(),
            v@ == text@,
            cached_key@ == "Cached:"@,
            buffers_key@ == "Buffers:"@,
            meminfo_scan(v@, (0, 0)) == meminfo_scan(v@.skip(i as int), (cached as nat, buffers as nat)),
        decreases n - i,
    {
        let ghost rest = v@.skip(i as int);
        let mut e: usize = i;
        while e < n && v[e] != '\n'
            invariant
                i <= e <= n == v@.len(),
                rest == v@.skip(i as int),
                forall|t: int| 0 <= t < e - i ==> rest[t] != '\n',
            decreases n - e,
        {
            e = e + 1;
        }
        proof {
            lemma_line_len(rest, (e - i) as nat);
        }
        let ghost line = rest.take(e - i);
        assert(line =~= v@.subrange(i as int, e as int));
        let (a, b) = word_bounds(&v, i, e);
        let (c, d) = word_bounds(&v, b, e);
        assert(v@.subrange(c as int, d as int) == second_word(line));
        let number = match parse_u64_in(&v, c, d) {
            Some(x) => x,
            None => 0,
        };
        assert(number == line_number(line));
        let is_cached = range_is(&v, a, b, &cached_key);
        let is_buffers = range_is(&v, a, b, &buffers_key);
        if is_cached || is_buffers {
            if number > u64::MAX / 1024 {
                return None;
            }
            if is_cached {
                cached = number * 1024;
            } else {
                buffers = number * 1024;
            }
        }
        if e < n {
            assert(rest.skip(e - i + 1) =~= v@.skip(e + 1));
            i = e + 1;
        } else {
            i = n;
            assert(v@.skip(i as int) =~= Seq::<char>::empty());
            assert(meminfo_scan(Seq::<char>::empty(), (cached as nat, buffers as nat)) == Some(
                (cached as nat, buffers as nat),
            )) by {
                reveal_strlit("Cached:");
                reveal_strlit("Buffers:");
                let z = Seq::<char>::empty();
                assert(z.take(0) =~= z);
                assert(z.skip(0) =~= z);
                assert(first_word(z) =~= z);
            }
        }
    }
    proof {
        reveal_strlit("Cached:");
        reveal_strlit("Buffers:");
        let z = v@.skip(i as int);
        assert(z =~= Seq::<char>::empty());
        assert(z.take(0) =~= z);
        assert(z.skip(0) =~= z);
        assert(first_word(z) =~= z);
    }
    Some((cached, buffers))
}

} // verus!
