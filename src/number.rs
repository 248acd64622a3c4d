//! Decimal integer text: the grammar of an optionally signed run of ASCII
//! digits, and scanners that read it from a range of characters.

use vstd::prelude::*;

verus! {

pub open spec fn is_digit(c: char) -> bool {
    '0' <= c && c <= '9'
}

pub open spec fn digit_value(c: char) -> int {
    (c as u32) as int - ('0' as u32) as int
}

/// A non-empty run of decimal digits.
pub open spec fn is_digits(d: Seq<char>) -> bool {
    d.len() > 0 && forall|i: int| 0 <= i < d.len() ==> is_digit(#[trigger] d[i])
}

/// The number that a run of decimal digits writes, most significant first.
pub open spec fn digits_value(d: Seq<char>) -> int
    decreases d.len(),
{
    if d.len() == 0 {
        0
    } else {
        10 * digits_value(d.drop_last()) + digit_value(d.last())
    }
}

/// The value of an optional `+` followed by digits.
pub open spec fn unsigned_text(s: Seq<char>) -> Option<int> {
    let d = if s.len() > 0 && s[0] == '+' {
        s.drop_first()
    } else {
        s
    };
    if is_digits(d) {
        Some(digits_value(d))
    } else {
        None
    }
}

/// The value of an optional `+` or `-` followed by digits.
pub open spec fn signed_text(s: Seq<char>) -> Option<int> {
    if s.len() > 0 && s[0] == '-' {
        if is_digits(s.drop_first()) {
            Some(-digits_value(s.drop_first()))
        } else {
            None
        }
    } else {
        unsigned_text(s)
    }
}

/// The `u64` that `s` writes, if it writes one.
pub open spec fn u64_text(s: Seq<char>) -> Option<u64> {
    match unsigned_text(s) {
        Some(v) => if v <= u64::MAX {
            Some(v as u64)
        } else {
            None
        },
        None => None,
    }
}

/// The `i64` that `s` writes, if it writes one.
pub open spec fn i64_text(s: Seq<char>) -> Option<i64> {
    match signed_text(s) {
        Some(v) => if i64::MIN <= v <= i64::MAX {
            Some(v as i64)
        } else {
            None
        },
        None => None,
    }
}

/// The `i32` that `s` writes, if it writes one.
pub open spec fn i32_text(s: Seq<char>) -> Option<i32> {
    match signed_text(s) {
        Some(v) => if i32::MIN <= v <= i32::MAX {
            Some(v as i32)
        } else {
            None
        },
        None => None,
    }
}

proof fn lemma_digits_value_nonneg(d: Seq<char>)
    requires
        forall|i: int| 0 <= i < d.len() ==> is_digit(#[trigger] d[i]),
    ensures
        digits_value(d) >= 0,
    decreases d.len(),
{
    if d.len() > 0 {
        assert(is_digit(d[d.len() - 1]));
        lemma_digits_value_nonneg(d.drop_last());
    }
}

/// A prefix of a run of digits writes no larger a number than the run.
proof fn lemma_digits_prefix_le(d: Seq<char>, j: int)
    requires
        0 <= j <= d.len(),
        forall|i: int| 0 <= i < d.len() ==> is_digit(#[trigger] d[i]),
    ensures
        digits_value(d.subrange(0, j)) <= digits_value(d),
    decreases d.len(),
{
    if j < d.len() {
        let p = d.drop_last();
        assert(p.subrange(0, j) =~= d.subrange(0, j));
        lemma_digits_prefix_le(p, j);
        lemma_digits_value_nonneg(p);
        assert(is_digit(d[d.len() - 1]));
    } else {
        assert(d.subrange(0, j) =~= d);
    }
}

/// Reads the digits in `cs[lo..hi]` as a `u64`; `None` when the range is
/// empty, holds a character other than a digit, or writes a number above
/// `u64::MAX`.
pub fn scan_digits(cs: &Vec<char>, lo: usize, hi: usize) -> (r: Option<u64>)
    requires
        lo <= hi <= cs@.len(),
    ensures
        ({
            let d = cs@.subrange(lo as int, hi as int);
            match r {
                Some(v) => is_digits(d) && v == digits_value(d),
                None => !is_digits(d) || digits_value(d) > u64::MAX,
            }
        }),
{
    let ghost d = cs@.subrange(lo as int, hi as int);
    if lo == hi {
        return None;
    }
    let mut v: u64 = 0;
    let mut i: usize = lo;
    while i < hi
        invariant
            lo <= i <= hi <= cs@.len(),
            d == cs@.subrange(lo as int, hi as int),
            forall|k: int| lo <= k < i ==> is_digit(#[trigger] cs@[k]),
            v == digits_value(cs@.subrange(lo as int, i as int)),
        decreases hi - i,
    {
        let c = cs[i];
        if !('0' <= c && c <= '9') {
            assert(!is_digit(d[i - lo]));
            return None;
        }
        let dig = (c as u32 - '0' as u32) as u64;
        assert(cs@.subrange(lo as int, i + 1).drop_last() =~= cs@.subrange(lo as int, i as int));
        if v > (u64::MAX - dig) / 10 {
            proof {
                assert(10 * v + dig > u64::MAX) by (nonlinear_arith)
                    requires
                        v > (u64::MAX - dig) / 10,
                        dig <= 9,
                ;
                if forall|k: int| 0 <= k < d.len() ==> is_digit(#[trigger] d[k]) {
                    lemma_digits_prefix_le(d, i + 1 - lo);
                    assert(d.subrange(0, i + 1 - lo) =~= cs@.subrange(lo as int, i + 1));
                }
            }
            return None;
        }
        v = 10 * v + dig;
        i = i + 1;
    }
    assert(cs@.subrange(lo as int, i as int) =~= d);
    Some(v)
}

/// Reads `cs[lo..hi]` as a `u64` written in decimal.
pub fn scan_u64(cs: &Vec<char>, lo: usize, hi: usize) -> (r: Option<u64>)
    requires
        lo <= hi <= cs@.len(),
    ensures
        r == u64_text(cs@.subrange(lo as int, hi as int)),
{
    let ghost s = cs@.subrange(lo as int, hi as int);
    let start: usize = if lo < hi && cs[lo] == '+' {
        lo + 1
    } else {
        lo
    };
    assert(start > lo ==> s.drop_first() =~= cs@.subrange(start as int, hi as int));
    assert(start == lo ==> s =~= cs@.subrange(start as int, hi as int));
    scan_digits(cs, start, hi)
}

/// Reads `cs[lo..hi]` as an `i64` written in decimal.
pub fn scan_i64(cs: &Vec<char>, lo: usize, hi: usize) -> (r: Option<i64>)
    requires
        lo <= hi <= cs@.len(),
    ensures
        r == i64_text(cs@.subrange(lo as int, hi as int)),
{
    let ghost s = cs@.subrange(lo as int, hi as int);
    if lo < hi && cs[lo] == '-' {
        assert(s.drop_first() =~= cs@.subrange(lo + 1, hi as int));
        match scan_digits(cs, lo + 1, hi) {
            Some(m) => {
                if m <= 9223372036854775808 {
                    Some((0 - (m as i128)) as i64)
                } else {
                    None
                }
            },
            None => None,
        }
    } else {
        let start: usize = if lo < hi && cs[lo] == '+' {
            lo + 1
        } else {
            lo
        };
        assert(start > lo ==> s.drop_first() =~= cs@.subrange(start as int, hi as int));
        assert(start == lo ==> s =~= cs@.subrange(start as int, hi as int));
        match scan_digits(cs, start, hi) {
            Some(m) => {
                if m <= 9223372036854775807 {
                    Some(m as i64)
                } else {
                    None
                }
            },
            None => None,
        }
    }
}

/// Reads `cs[lo..hi]` as an `i32` written in decimal.
pub fn scan_i32(cs: &Vec<char>, lo: usize, hi: usize) -> (r: Option<i32>)
    requires
        lo <= hi <= cs@.len(),
    ensures
        r == i32_text(cs@.subrange(lo as int, hi as int)),
{
    match scan_i64(cs, lo, hi) {
        Some(v) => {
            if -2147483648 <= v && v <= 2147483647 {
                Some(v as i32)
            } else {
                None
            }
        },
        None => None,
    }
}

} // verus!
