//! Choosing the answer: a seed scattered over the answer pool, the day
//! number that seeds the daily puzzle, and the local clock offset it is
//! counted in.

use vstd::prelude::*;

use crate::text::{chars_of, digits_value, is_digit, parse_nat, parse_uint, trim, trim_chars};
use crate::words::{pool_indices, spec_admits, Dictionary, Pool};

verus! {

pub open spec fn wrap64(v: nat) -> u64 {
    (v % 0x1_0000_0000_0000_0000) as u64
}

/// splitmix64's output function: add the golden-ratio increment, then
/// xor-shift and multiply twice, all modulo 2^64.
pub open spec fn spec_mix(x: u64) -> u64 {
    let a = wrap64(x as nat + 0x9e37_79b9_7f4a_7c15);
    let b = wrap64(((a ^ (a >> 30u64)) as nat) * 0xbf58_476d_1ce4_e5b9);
    let c = wrap64(((b ^ (b >> 27u64)) as nat) * 0x94d0_49bb_1331_11eb);
    c ^ (c >> 31u64)
}

/// splitmix64: enough to scatter a timestamp or day number across the pool
/// without pulling in a random-number dependency.
pub fn mix(x: u64) -> (r: u64)
    ensures
        r == spec_mix(x),
{
    let x = x.wrapping_add(0x9e37_79b9_7f4a_7c15);
    let mut z = x;
    z = (z ^ (z >> 30)).wrapping_mul(0xbf58_476d_1ce4_e5b9);
    z = (z ^ (z >> 27)).wrapping_mul(0x94d0_49bb_1331_11eb);
    z ^ (z >> 31)
}

/// The answer a seed picks: the pool's words in dictionary order, indexed by
/// the scattered seed modulo their number.
pub open spec fn spec_pick(words: Seq<crate::words::Entry>, pool: Pool, seed: u64) -> usize {
    let p = pool_indices(words, pool, words.len());
    p[(spec_mix(seed) as nat % p.len()) as int]
}

/// Pick an answer from `pool` for `seed`. In daily mode the seed is the day
/// number, so the puzzle is stable all day and everyone gets the same word;
/// otherwise it is the clock.
pub fn pick_answer(words: &Dictionary, pool: Pool, seed: u64) -> (idx: usize)
    ensures
        idx == spec_pick(words@, pool, seed),
        idx < words@.len(),
        spec_admits(pool, words@[idx as int]),
{
    let answers = words.pool(pool);
    let k = (mix(seed) % answers.len() as u64) as usize;
    answers[k]
}

/// The day number for a time: whole days since 1970-01-01 in local time,
/// `secs` being seconds since the epoch and `offset` the local offset from
/// UTC in seconds. Times before the epoch count as day 0.
pub fn day_number(secs: i64, offset: i64) -> (day: u64)
    requires
        i64::MIN <= secs + offset <= i64::MAX,
    ensures
        day == (if secs + offset > 0 {
            (secs + offset) / 86_400
        } else {
            0
        }),
{
    let local = secs + offset;
    let local = if local > 0 {
        local
    } else {
        0
    };
    (local / 86_400) as u64
}

/// How `str::parse::<i64>` reads a short number: an optional sign, then one
/// or more ASCII digits.
pub open spec fn parse_signed(s: Seq<char>) -> Option<int> {
    if s.len() > 0 && s[0] == '-' {
        match parse_nat(s.drop_first(), i64::MAX as nat + 1) {
            Some(v) => if s.len() > 1 && s[1] != '+' {
                Some(-v)
            } else {
                None
            },
            None => None,
        }
    } else {
        match parse_nat(s, i64::MAX as nat) {
            Some(v) => Some(v as int),
            None => None,
        }
    }
}

/// A short signed number, or 0 when it does not read.
pub open spec fn signed_or_zero(s: Seq<char>) -> int {
    match parse_signed(s) {
        Some(v) => v,
        None => 0,
    }
}

/// The offset from UTC in seconds that a `date +%z` reading such as `+0130`
/// or `-0500` gives: its sign, then hours and minutes as two digits each.
/// Too short a reading means UTC.
pub open spec fn spec_utc_offset(zone: Seq<char>) -> int {
    let s = trim(zone);
    if s.len() < 5 {
        0
    } else {
        let sign: int = if s[0] == '-' {
            -1
        } else {
            1
        };
        sign * (signed_or_zero(s.subrange(1, 3)) * 3600 + signed_or_zero(s.subrange(3, 5)) * 60)
    }
}

/// At most two digits are worth at most 99.
proof fn lemma_two_digits(s: Seq<char>)
    requires
        s.len() <= 2,
        crate::text::all_digits(s),
    ensures
        crate::text::digits_value(s) <= 99,
{
    if s.len() > 0 {
        let p = s.drop_last();
        assert(is_digit(s.last()));
        assert(digits_value(s) == digits_value(p) * 10 + ((s.last() as int - '0' as int) as nat));
        if s.len() > 1 {
            assert(is_digit(p.last()));
            assert(p.drop_last().len() == 0);
            assert(digits_value(p.drop_last()) == 0);
            assert(digits_value(p) == digits_value(p.drop_last()) * 10 + ((p.last() as int - '0' as int) as nat));
        } else {
            assert(p.len() == 0);
            assert(digits_value(p) == 0);
        }
    }
}

/// A short signed number, or 0 when it does not read.
fn read_signed(s: &[char]) -> (v: i64)
    requires
        s@.len() == 2,
    ensures
        v == signed_or_zero(s@),
        -99 <= v <= 99,
{
    if s[0] == '-' {
        let body = [s[1]];
        assert(body@ =~= s@.drop_first());
        match parse_uint(&body, i64::MAX as u64 + 1) {
            Some(v) => {
                proof {
                    let b = body@;
                    if b.len() > 0 && b[0] == '+' {
                        assert(b.drop_first().len() == 0);
                    } else {
                        lemma_two_digits(b);
                    }
                }
                if s[1] != '+' {
                    -(v as i64)
                } else {
                    0
                }
            },
            None => 0,
        }
    } else {
        match parse_uint(s, i64::MAX as u64) {
            Some(v) => {
                proof {
                    let b = s@;
                    if b.len() > 0 && b[0] == '+' {
                        lemma_two_digits(b.drop_first());
                    } else {
                        lemma_two_digits(b);
                    }
                }
                v as i64
            },
            None => 0,
        }
    }
}

/// The local offset from UTC in seconds, from the output of `date +%z`.
/// The reading is taken character by character; `date` writes it in ASCII.
pub fn utc_offset(zone: &str) -> (secs: i64)
    ensures
        secs == spec_utc_offset(zone@),
{
    let chars = chars_of(zone);
    let s = trim_chars(chars.as_slice());
    if s.len() < 5 {
        return 0;
    }
    let sign: i64 = if s[0] == '-' {
        -1
    } else {
        1
    };
    let h = [s[1], s[2]];
    let m = [s[3], s[4]];
    assert(h@ =~= s@.subrange(1, 3));
    assert(m@ =~= s@.subrange(3, 5));
    let hours = read_signed(&h);
    let mins = read_signed(&m);
    sign * (hours * 3600 + mins * 60)
}

/// The value of a decimal digit.
pub open spec fn digit_value(c: char) -> int {
    c as int - '0' as int
}

/// A `date +%z` reading `±HHMM` is HH hours and MM minutes, the sign
/// applying to the whole offset: `-0330` is three and a half hours behind
/// UTC, and a reading with `-` is exactly the negation of the same reading
/// with `+`.
pub proof fn lemma_offset_reads_hours_and_minutes(h1: char, h2: char, m1: char, m2: char)
    requires
        is_digit(h1),
        is_digit(h2),
        is_digit(m1),
        is_digit(m2),
    ensures
        spec_utc_offset(seq!['+', h1, h2, m1, m2]) == (10 * digit_value(h1) + digit_value(h2))
            * 3600 + (10 * digit_value(m1) + digit_value(m2)) * 60,
        spec_utc_offset(seq!['-', h1, h2, m1, m2]) == -((10 * digit_value(h1) + digit_value(h2))
            * 3600 + (10 * digit_value(m1) + digit_value(m2)) * 60),
{
    let hh = seq![h1, h2];
    let mm = seq![m1, m2];
    lemma_two_digit_value(h1, h2);
    lemma_two_digit_value(m1, m2);
    let p = seq!['+', h1, h2, m1, m2];
    let n = seq!['-', h1, h2, m1, m2];
    crate::text::lemma_trim_noop(p);
    crate::text::lemma_trim_noop(n);
    assert(p.subrange(1, 3) =~= hh);
    assert(p.subrange(3, 5) =~= mm);
    assert(n.subrange(1, 3) =~= hh);
    assert(n.subrange(3, 5) =~= mm);
    let x = signed_or_zero(hh) * 3600 + signed_or_zero(mm) * 60;
    assert(trim(n)[0] == '-');
    assert(spec_utc_offset(n) == -1 * x);
    assert(-1 * x == -x) by (nonlinear_arith);
}

proof fn lemma_two_digit_value(a: char, b: char)
    requires
        is_digit(a),
        is_digit(b),
    ensures
        signed_or_zero(seq![a, b]) == 10 * digit_value(a) + digit_value(b),
{
    let s = seq![a, b];
    assert(s.drop_last() =~= seq![a]);
    assert(seq![a].drop_last() =~= Seq::<char>::empty());
    assert(digits_value(Seq::<char>::empty()) == 0);
    assert(digits_value(seq![a]) == digit_value(a));
    assert(digits_value(s) == 10 * digit_value(a) + digit_value(b));
    assert(crate::text::all_digits(s));
}

} // verus!
