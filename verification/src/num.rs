//! Signed decimal parsing for the configuration table's uid fields, proved
//! against a mathematical specification: an optional sign followed by at
//! least one digit, accepted exactly when the signed value fits in `i32`.

use vstd::prelude::*;

verus! {

/// True when `b` is an ASCII decimal digit.
pub open spec fn is_digit(b: u8) -> bool {
    48 <= b && b <= 57
}

/// `s` is nonempty and all of its bytes are ASCII decimal digits.
pub open spec fn all_digits(s: Seq<u8>) -> bool {
    s.len() > 0 && forall|i: int| 0 <= i < s.len() ==> is_digit(#[trigger] s[i])
}

/// The value of `s` read as a big-endian decimal digit string.
pub open spec fn digits_val(s: Seq<u8>) -> int
    decreases s.len(),
{
    if s.len() == 0 {
        0
    } else {
        digits_val(s.drop_last()) * 10 + (s.last() - 48)
    }
}

/// The value of the digit string `d`, negated when `neg`, if `d` is a
/// well-formed digit string whose signed value fits in `i32`.
pub open spec fn digits_to_i32(d: Seq<u8>, neg: bool) -> Option<i32> {
    if !all_digits(d) {
        Option::None
    } else if neg {
        if -digits_val(d) >= i32::MIN {
            Option::Some((-digits_val(d)) as i32)
        } else {
            Option::None
        }
    } else {
        if digits_val(d) <= i32::MAX {
            Option::Some(digits_val(d) as i32)
        } else {
            Option::None
        }
    }
}

/// The `i32` denoted by `s`: an optional `+` or `-` sign, then one or more
/// decimal digits, the whole value in range; anything else is rejected.
pub open spec fn spec_parse_i32(s: Seq<u8>) -> Option<i32> {
    if s.len() > 0 && s[0] == 43 {
        digits_to_i32(s.drop_first(), false)
    } else if s.len() > 0 && s[0] == 45 {
        digits_to_i32(s.drop_first(), true)
    } else {
        digits_to_i32(s, false)
    }
}

pub proof fn lemma_digits_val_nonneg(s: Seq<u8>)
    requires
        forall|i: int| 0 <= i < s.len() ==> is_digit(#[trigger] s[i]),
    ensures
        digits_val(s) >= 0,
    decreases s.len(),
{
    if s.len() > 0 {
        lemma_digits_val_nonneg(s.drop_last());
    }
}

/// A digit string's value is at least the value of any of its prefixes.
pub proof fn lemma_digits_val_prefix(s: Seq<u8>, i: int)
    requires
        0 <= i <= s.len(),
        forall|j: int| 0 <= j < s.len() ==> is_digit(#[trigger] s[j]),
    ensures
        digits_val(s.take(i)) <= digits_val(s),
    decreases s.len() - i,
{
    if i < s.len() {
        assert(s.take(i + 1).drop_last() =~= s.take(i));
        assert(forall|j: int| 0 <= j < s.take(i).len() ==> is_digit(#[trigger] s.take(i)[j]));
        lemma_digits_val_nonneg(s.take(i));
        assert(digits_val(s.take(i + 1)) == digits_val(s.take(i)) * 10 + (s[i] - 48));
        assert(digits_val(s.take(i)) <= digits_val(s.take(i + 1)));
        lemma_digits_val_prefix(s, i + 1);
        assert(s.take(s.len() as int) =~= s);
    } else {
        assert(s.take(s.len() as int) =~= s);
    }
}

/// Parses `s` as a signed decimal `i32`, accepting exactly the strings that
/// `spec_parse_i32` accepts.
pub fn parse_i32(s: &[u8]) -> (r: Option<i32>)
    ensures
        r == spec_parse_i32(s@),
{
    let mut start: usize = 0;
    let mut neg: bool = false;
    if s.len() > 0 && s[0] == 43 {
        start = 1;
    } else if s.len() > 0 && s[0] == 45 {
        start = 1;
        neg = true;
    }
    let ghost d = s@.skip(start as int);
    proof {
        if s@.len() > 0 && (s@[0] == 43 || s@[0] == 45) {
            assert(d =~= s@.drop_first());
        } else {
            assert(d =~= s@);
        }
    }
    if start >= s.len() {
        assert(!all_digits(d));
        return Option::None;
    }
    let limit: i64 = if neg {
        2147483648
    } else {
        2147483647
    };
    let mut acc: i64 = 0;
    let mut i: usize = start;
    while i < s.len()
        invariant
            start <= i <= s@.len(),
            start < s@.len(),
            limit == if neg {
                2147483648i64
            } else {
                2147483647i64
            },
            0 <= acc <= limit,
            acc == digits_val(s@.subrange(start as int, i as int)),
            forall|j: int| start <= j < i ==> is_digit(#[trigger] s@[j]),
            d == s@.skip(start as int),
            spec_parse_i32(s@) == digits_to_i32(d, neg),
        decreases s@.len() - i,
    {
        let b = s[i];
        if b < 48 || b > 57 {
            proof {
                assert(d[i - start as int] == s@[i as int]);
                assert(!all_digits(d));
            }
            return Option::None;
        }
        let dg: i64 = (b - 48) as i64;
        proof {
            assert(s@.subrange(start as int, i as int + 1).drop_last() =~= s@.subrange(
                start as int,
                i as int,
            ));
        }
        acc = acc * 10 + dg;
        if acc > limit {
            proof {
                let k = i as int + 1 - start as int;
                assert(d.take(k) =~= s@.subrange(start as int, i as int + 1));
                if all_digits(d) {
                    lemma_digits_val_prefix(d, k);
                    assert(digits_val(d) >= acc > limit);
                }
                assert(digits_to_i32(d, neg) is None);
            }
            return Option::None;
        }
        i += 1;
    }
    proof {
        assert(d =~= s@.subrange(start as int, s@.len() as int));
        assert(forall|k: int| 0 <= k < d.len() ==> is_digit(#[trigger] d[k]));
        assert(all_digits(d));
        assert(digits_val(d) == acc);
    }
    if neg {
        let m: i64 = -acc;
        Option::Some(m as i32)
    } else {
        Option::Some(acc as i32)
    }
}

} // verus!
