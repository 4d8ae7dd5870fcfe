//! Decimal numbers in text.

use vstd::prelude::*;
use crate::text::is_digit;

verus! {

/// The value of a decimal digit.
pub open spec fn digit_value(c: char) -> int {
    (c as u32) - ('0' as u32)
}

/// Whether every character of `s` is a decimal digit.
pub open spec fn all_digits(s: Seq<char>) -> bool {
    forall|i: int| 0 <= i < s.len() ==> is_digit(#[trigger] s[i])
}

/// The number that a sequence of decimal digits writes; 0 for none.
pub open spec fn digits_value(s: Seq<char>) -> int
    decreases s.len(),
{
    if s.len() == 0 {
        0
    } else {
        digits_value(s.drop_last()) * 10 + digit_value(s.last())
    }
}

/// A number is at least the number that its leading digits write.
pub proof fn lemma_digits_value_grows(s: Seq<char>, n: int)
    requires
        all_digits(s),
        0 <= n <= s.len(),
    ensures
        0 <= digits_value(s.take(n)) <= digits_value(s),
    decreases s.len() - n,
{
    if n < s.len() {
        lemma_digits_value_grows(s, n + 1);
        let t = s.take(n + 1);
        assert(t.drop_last() =~= s.take(n));
        assert(is_digit(s[n]));
        assert(t.last() == s[n]);
        lemma_digits_nonneg(s.take(n));
    } else {
        assert(s.take(n) =~= s);
        lemma_digits_nonneg(s);
    }
}

/// Digits write no negative number.
pub proof fn lemma_digits_nonneg(s: Seq<char>)
    requires
        all_digits(s),
    ensures
        0 <= digits_value(s),
    decreases s.len(),
{
    if s.len() > 0 {
        assert(all_digits(s.drop_last())) by {
            assert forall|i: int| 0 <= i < s.drop_last().len() implies is_digit(
                #[trigger] s.drop_last()[i],
            ) by {
                assert(s.drop_last()[i] == s[i]);
            }
        }
        lemma_digits_nonneg(s.drop_last());
        assert(is_digit(s.last()));
    }
}

/// Reads the digits `v[from..to]`. The answer is their value where it is
/// at most `limit`, and `None` where it is larger or where a character is
/// no digit.
pub fn read_digits(v: &Vec<char>, from: usize, to: usize, limit: u64) -> (r: Option<u64>)
    requires
        from <= to <= v.len(),
        limit <= 0xffff_ffff_ffff,
    ensures
        match r {
            Some(n) => all_digits(v@.subrange(from as int, to as int)) && n == digits_value(
                v@.subrange(from as int, to as int),
            ) && n <= limit,
            None => !all_digits(v@.subrange(from as int, to as int)) || digits_value(
                v@.subrange(from as int, to as int),
            ) > limit,
        },
{
    let ghost s = v@.subrange(from as int, to as int);
    let mut i: usize = from;
    while i < to
        invariant
            from <= i <= to <= v.len(),
            s == v@.subrange(from as int, to as int),
            forall|j: int| 0 <= j < i - from ==> is_digit(#[trigger] s[j]),
        decreases to - i,
    {
        let c = v[i];
        if !('0' <= c && c <= '9') {
            assert(!is_digit(s[i - from]));
            return None;
        }
        i += 1;
    }
    assert(all_digits(s));
    let mut acc: u64 = 0;
    let mut k: usize = from;
    assert(s.take(0) =~= Seq::<char>::empty());
    while k < to
        invariant
            from <= k <= to <= v.len(),
            s == v@.subrange(from as int, to as int),
            all_digits(s),
            limit <= 0xffff_ffff_ffff,
            acc == digits_value(s.take(k - from)),
            acc <= limit,
        decreases to - k,
    {
        let c = v[k];
        proof {
            assert(is_digit(s[k - from]));
            assert(s[k - from] == c);
            assert(s.take(k - from + 1).drop_last() =~= s.take(k - from));
            assert(s.take(k - from + 1).last() == c);
        }
        let d: u64 = (c as u32 - '0' as u32) as u64;
        let next: u64 = acc * 10 + d;
        if next > limit {
            proof {
                lemma_digits_value_grows(s, k - from + 1);
            }
            return None;
        }
        acc = next;
        k += 1;
    }
    assert(s.take(to - from) =~= s);
    Some(acc)
}

/// The whole number that `s` writes, as `i32`'s `from_str` reads it: an
/// optional sign, then at least one decimal digit; `None` for any other
/// text and for a number that no `i32` holds.
pub open spec fn int_of(s: Seq<char>) -> Option<int> {
    let signed = s.len() > 0 && (s[0] == '-' || s[0] == '+');
    let digits = if signed {
        s.skip(1)
    } else {
        s
    };
    if digits.len() == 0 || !all_digits(digits) {
        None
    } else {
        let n = if s[0] == '-' {
            -digits_value(digits)
        } else {
            digits_value(digits)
        };
        if -2147483648 <= n && n <= 2147483647 {
            Some(n)
        } else {
            None
        }
    }
}

/// Reads `v[from..to]` as a whole number.
pub fn parse_i32(v: &Vec<char>, from: usize, to: usize) -> (r: Option<i32>)
    requires
        from <= to <= v.len(),
    ensures
        match r {
            Some(n) => int_of(v@.subrange(from as int, to as int)) == Some(n as int),
            None => int_of(v@.subrange(from as int, to as int)) is None,
        },
{
    let ghost s = v@.subrange(from as int, to as int);
    if from == to {
        return None;
    }
    let first = v[from];
    assert(s[0] == first);
    let signed = first == '-' || first == '+';
    let start = if signed {
        from + 1
    } else {
        from
    };
    proof {
        if signed {
            assert(s.skip(1) =~= v@.subrange(start as int, to as int));
        } else {
            assert(s =~= v@.subrange(start as int, to as int));
        }
    }
    if start == to {
        return None;
    }
    match read_digits(v, start, to, 2147483648) {
        None => None,
        Some(n) => {
            if first == '-' {
                let m: i64 = -(n as i64);
                Some(m as i32)
            } else if n <= 2147483647 {
                Some(n as i32)
            } else {
                None
            }
        },
    }
}

} // verus!
