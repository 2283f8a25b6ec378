//! The values that literals spell.

use vstd::prelude::*;
use vstd::slice::slice_subrange;
use crate::utils::slice::range_of;

verus! {

/// The bytes of `text` from `start` up to `end`; none when that is no range
/// of `text`.
pub fn range(text: &[u8], start: usize, end: usize) -> (r: &[u8])
    ensures
        r@ == range_of(text@, start as int, end as int),
{
    if start <= end && end <= text.len() {
        slice_subrange(text, start, end)
    } else {
        let r = slice_subrange(text, 0, 0);
        assert(r@ =~= Seq::<u8>::empty());
        r
    }
}

/// Whether every byte is one of the digits `0` to `9`.
pub open spec fn all_digits(text: Seq<u8>) -> bool {
    forall|i: int| 0 <= i < text.len() ==> 48 <= #[trigger] text[i] <= 57
}

/// The number that a run of decimal digits spells.
pub open spec fn digits_value(digits: Seq<u8>) -> int
    decreases digits.len(),
{
    if digits.len() == 0 {
        0
    } else {
        digits_value(digits.drop_last()) * 10 + (digits.last() - 48)
    }
}

/// The number that `text` spells: decimal digits, at least one, after an
/// optional `-` or `+`. Nothing when `text` has another form, or when the
/// number does not fit in 64 bits.
pub open spec fn int_value(text: Seq<u8>) -> Option<i64> {
    let negative = text.len() > 0 && text[0] == 45;
    let signed = negative || (text.len() > 0 && text[0] == 43);
    let digits = if signed {
        text.subrange(1, text.len() as int)
    } else {
        text
    };
    let value = if negative {
        -digits_value(digits)
    } else {
        digits_value(digits)
    };
    if digits.len() > 0 && all_digits(digits) && i64::MIN <= value <= i64::MAX {
        Some(value as i64)
    } else {
        None
    }
}

/// More digits never spell a smaller number.
pub proof fn lemma_digits_grow(digits: Seq<u8>, n: int)
    requires
        all_digits(digits),
        0 <= n <= digits.len(),
    ensures
        0 <= digits_value(digits.take(n)) <= digits_value(digits),
    decreases digits.len() - n,
{
    if n == digits.len() {
        assert(digits.take(n) == digits);
        lemma_digits_positive(digits);
    } else {
        lemma_digits_grow(digits, n + 1);
        assert(digits.take(n + 1).drop_last() == digits.take(n));
        lemma_digits_positive(digits.take(n));
    }
}

/// Digits spell no negative number.
pub proof fn lemma_digits_positive(digits: Seq<u8>)
    requires
        all_digits(digits),
    ensures
        0 <= digits_value(digits),
    decreases digits.len(),
{
    if digits.len() > 0 {
        lemma_digits_positive(digits.drop_last());
    }
}

/// The number that the bytes of `text` from `start` up to `end` spell.
pub fn parse_int(text: &[u8], start: usize, end: usize) -> (r: Option<i64>)
    ensures
        r == int_value(range_of(text@, start as int, end as int)),
{
    let spelled = range(text, start, end);
    let len = spelled.len();
    if len == 0 {
        return None;
    }
    let negative = spelled[0] == 45;
    let signed = negative || spelled[0] == 43;
    let first: usize = if signed { 1 } else { 0 };
    let ghost digits = if signed {
        spelled@.subrange(1, len as int)
    } else {
        spelled@
    };
    if first == len {
        return None;
    }
    // The largest magnitude: that of the least number of 64 bits.
    let limit: u64 = 9223372036854775808;
    let mut acc: u64 = 0;
    let mut i: usize = first;
    while i < len
        invariant
            first <= i <= len,
            len == spelled@.len(),
            len > 0,
            spelled@ == range_of(text@, start as int, end as int),
            negative == (spelled@[0] == 45),
            signed == (negative || spelled@[0] == 43),
            first == if signed { 1usize } else { 0usize },
            digits == if signed {
                spelled@.subrange(1, len as int)
            } else {
                spelled@
            },
            digits.len() == len - first,
            forall|k: int| 0 <= k < digits.len() ==> digits[k] == spelled@[k + first],
            all_digits(digits.take(i - first)),
            acc == digits_value(digits.take(i - first)),
            acc <= limit,
            limit == 9223372036854775808,
        decreases len - i,
    {
        let b = spelled[i];
        if b < 48 || b > 57 {
            assert(!all_digits(digits)) by {
                assert(digits[i - first] == b);
            }
            return None;
        }
        let d: u64 = (b - 48) as u64;
        let ghost next = digits.take(i - first + 1);
        proof {
            assert(next.drop_last() == digits.take(i - first));
            assert(next.last() == b);
            assert(all_digits(next)) by {
                assert forall|k: int| 0 <= k < next.len() implies 48 <= #[trigger] next[k]
                    <= 57 by {
                    if k < next.len() - 1 {
                        assert(digits.take(i - first)[k] == next[k]);
                    }
                }
            }
        }
        if acc > (limit - d) / 10 {
            // The digits so far already spell more than fits.
            proof {
                assert(digits_value(next) > limit);
                if all_digits(digits) {
                    lemma_digits_grow(digits, i - first + 1);
                }
            }
            return None;
        }
        acc = acc * 10 + d;
        i += 1;
    }
    proof {
        assert(digits.take(len - first) == digits);
    }
    if negative {
        if acc == limit {
            Some(i64::MIN)
        } else {
            Some(-(acc as i64))
        }
    } else if acc == limit {
        None
    } else {
        Some(acc as i64)
    }
}

} // verus!
