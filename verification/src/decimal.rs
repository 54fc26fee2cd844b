//! Canonical decimal digits of integers, as they stand in an event record.
//!
//! An integer has exactly one accepted spelling: an optional `-`, then its
//! digits without a leading zero. `-0`, `+5` and `007` are no spellings.

use crate::text::{MINUS, ZERO};
use vstd::prelude::*;

verus! {

/// The digits of `n`, most significant first.
pub open spec fn dec_nat(n: nat) -> Seq<u8>
    decreases n,
{
    if n < 10 {
        seq![(ZERO + n) as u8]
    } else {
        dec_nat(n / 10).push((ZERO + n % 10) as u8)
    }
}

/// The spelling of `v`: a `-` before the digits of a negative number.
pub open spec fn dec_int(v: int) -> Seq<u8> {
    if v < 0 {
        seq![MINUS] + dec_nat((-v) as nat)
    } else {
        dec_nat(v as nat)
    }
}

/// The absolute value of `v`.
pub open spec fn magnitude(v: int) -> nat {
    (if v < 0 { -v } else { v }) as nat
}

/// Whether `b` is one of the bytes `0` to `9`.
pub open spec fn is_digit(b: u8) -> bool {
    ZERO <= b <= ZERO + 9
}

/// Whether every byte of `s` is a digit.
pub open spec fn all_digits(s: Seq<u8>) -> bool {
    forall|i: int| 0 <= i < s.len() ==> is_digit(#[trigger] s[i])
}

/// The number that the digits `s` spell; leading zeros count for nothing.
pub open spec fn digits_value(s: Seq<u8>) -> nat
    decreases s.len(),
{
    if s.len() == 0 {
        0
    } else {
        (digits_value(s.drop_last()) * 10 + (s.last() - ZERO)) as nat
    }
}

/// Whether `s` is the digits of a number as `dec_nat` writes them.
pub open spec fn canonical_digits(s: Seq<u8>) -> bool {
    &&& s.len() > 0
    &&& all_digits(s)
    &&& (s.len() > 1 ==> s[0] != ZERO)
}

/// The digits of a number are canonical and spell that number.
pub proof fn lemma_dec_nat_canonical(n: nat)
    ensures
        canonical_digits(dec_nat(n)),
        digits_value(dec_nat(n)) == n,
    decreases n,
{
    let s = dec_nat(n);
    if n < 10 {
        assert(s.drop_last() =~= Seq::<u8>::empty());
        assert(digits_value(s.drop_last()) == 0);
    } else {
        let init = dec_nat(n / 10);
        lemma_dec_nat_canonical(n / 10);
        assert(s.drop_last() =~= init);
        assert(s[0] == init[0]);
        if init.len() == 1 {
            assert(init.drop_last() =~= Seq::<u8>::empty());
            assert(digits_value(init.drop_last()) == 0);
            assert(digits_value(init) == init[0] - ZERO);
        }
        assert forall|i: int| 0 <= i < s.len() implies is_digit(#[trigger] s[i]) by {
            if i < init.len() {
                assert(s[i] == init[i]);
            }
        }
    }
}

/// Digits that do not start with a zero spell a positive number.
pub proof fn lemma_value_positive(s: Seq<u8>)
    requires
        s.len() > 0,
        all_digits(s),
        s[0] != ZERO,
    ensures
        digits_value(s) > 0,
    decreases s.len(),
{
    let init = s.drop_last();
    if init.len() == 0 {
        assert(digits_value(init) == 0);
    } else {
        assert(init[0] == s[0]);
        assert forall|i: int| 0 <= i < init.len() implies is_digit(#[trigger] init[i]) by {
            assert(init[i] == s[i]);
        }
        lemma_value_positive(init);
    }
}

/// Canonical digits are the digits of the number they spell.
pub proof fn lemma_canonical_is_dec_nat(s: Seq<u8>)
    requires
        canonical_digits(s),
    ensures
        dec_nat(digits_value(s)) == s,
    decreases s.len(),
{
    let init = s.drop_last();
    let d = (s.last() - ZERO) as nat;
    assert(is_digit(s[s.len() - 1]));
    if s.len() == 1 {
        assert(init =~= Seq::<u8>::empty());
        assert(digits_value(init) == 0);
        assert(dec_nat(d) =~= s);
    } else {
        assert(init[0] == s[0]);
        assert forall|i: int| 0 <= i < init.len() implies is_digit(#[trigger] init[i]) by {
            assert(init[i] == s[i]);
        }
        lemma_value_positive(init);
        lemma_canonical_is_dec_nat(init);
        let v = digits_value(s);
        assert(v == digits_value(init) * 10 + d);
        assert(v / 10 == digits_value(init));
        assert(v % 10 == d);
        assert(init.push(s.last()) =~= s);
    }
}

/// The number spelled grows with every further digit.
pub proof fn lemma_value_prefix(s: Seq<u8>, k: int)
    requires
        0 <= k <= s.len(),
        all_digits(s),
    ensures
        digits_value(s.subrange(0, k)) <= digits_value(s),
    decreases s.len() - k,
{
    if k == s.len() {
        assert(s.subrange(0, k) =~= s);
    } else {
        let init = s.drop_last();
        assert forall|i: int| 0 <= i < init.len() implies is_digit(#[trigger] init[i]) by {
            assert(init[i] == s[i]);
        }
        lemma_value_prefix(init, k);
        assert(init.subrange(0, k) =~= s.subrange(0, k));
        assert(is_digit(s[s.len() - 1]));
    }
}

/// No byte of a spelling is anything but a digit or a `-`.
pub proof fn lemma_dec_int_bytes(v: int)
    ensures
        dec_int(v).len() > 0,
        forall|i: int| 0 <= i < dec_int(v).len() ==> {
            let b = #[trigger] dec_int(v)[i];
            is_digit(b) || b == MINUS
        },
{
    if v < 0 {
        lemma_dec_nat_canonical((-v) as nat);
        let d = dec_nat((-v) as nat);
        assert forall|i: int| 0 <= i < dec_int(v).len() implies {
            let b = #[trigger] dec_int(v)[i];
            is_digit(b) || b == MINUS
        } by {
            if i > 0 {
                assert(dec_int(v)[i] == d[i - 1]);
            }
        }
    } else {
        lemma_dec_nat_canonical(v as nat);
    }
}

/// Two integers with the same spelling are the same integer.
pub proof fn lemma_dec_int_injective(a: int, b: int)
    requires
        dec_int(a) == dec_int(b),
    ensures
        a == b,
{
    let na = magnitude(a);
    let nb = magnitude(b);
    lemma_dec_nat_canonical(na);
    lemma_dec_nat_canonical(nb);
    assert(is_digit(dec_nat(na)[0]));
    assert(is_digit(dec_nat(nb)[0]));
    if a < 0 {
        assert(dec_int(a)[0] == MINUS);
        assert(b < 0);
        assert(dec_int(a).subrange(1, dec_int(a).len() as int) =~= dec_nat(na));
        assert(dec_int(b).subrange(1, dec_int(b).len() as int) =~= dec_nat(nb));
    } else {
        assert(dec_int(b)[0] != MINUS);
    }
}

/// Appends the digits of `n` to `out`.
fn write_digits(n: u32, out: &mut Vec<u8>)
    ensures
        final(out)@ == old(out)@ + dec_nat(n as nat),
    decreases n,
{
    if n >= 10 {
        write_digits(n / 10, out);
    }
    let d: u8 = (n % 10) as u8;
    out.push(ZERO + d);
    assert(final(out)@ =~= old(out)@ + dec_nat(n as nat));
}

/// Appends the spelling of `v` to `out`.
pub fn write_i32(v: i32, out: &mut Vec<u8>)
    ensures
        final(out)@ == old(out)@ + dec_int(v as int),
{
    if v < 0 {
        out.push(MINUS);
        let m: u32 = (-(v as i64)) as u32;
        write_digits(m, out);
        assert(final(out)@ =~= old(out)@ + dec_int(v as int));
    } else {
        write_digits(v as u32, out);
    }
}

/// Reads the integer that `bytes` spells.
///
/// `Some(v)` exactly when `bytes` is the spelling of an `i32`, which is then
/// `v`; `None` for every other byte string.
pub fn parse_i32(bytes: &[u8]) -> (r: Option<i32>)
    ensures
        match r {
            Some(v) => dec_int(v as int) == bytes@,
            None => forall|v: int| i32::MIN <= v <= i32::MAX ==> dec_int(v) != bytes@,
        },
{
    let n = bytes.len();
    if n == 0 {
        proof {
            assert forall|v: int| dec_int(v) != bytes@ by {
                lemma_dec_int_bytes(v);
            }
        }
        return None;
    }
    let negative = bytes[0] == MINUS;
    let start: usize = if negative { 1 } else { 0 };
    let ghost digits = bytes@.subrange(start as int, n as int);
    proof {
        // Whatever spells `bytes` has `digits` as the digits of its magnitude.
        assert forall|v: int| #[trigger] dec_int(v) == bytes@ implies (v < 0) == negative
            && dec_nat(magnitude(v)) == digits by {
            let m = magnitude(v);
            lemma_dec_nat_canonical(m);
            assert(is_digit(dec_nat(m)[0]));
            if v < 0 {
                assert(dec_int(v)[0] == MINUS);
                assert(dec_int(v).subrange(1, n as int) =~= dec_nat(m));
            } else {
                assert(dec_int(v)[0] == dec_nat(m)[0]);
                assert(bytes@.subrange(0, n as int) =~= bytes@);
            }
        }
    }
    if start == n || (n - start > 1 && bytes[start] == ZERO) {
        proof {
            assert(!canonical_digits(digits)) by {
                if start < n {
                    assert(digits[0] == bytes@[start as int]);
                }
            }
            assert forall|v: int| dec_int(v) != bytes@ by {
                lemma_dec_nat_canonical(magnitude(v));
            }
        }
        return None;
    }
    let limit: u64 = 0x8000_0000;
    let mut acc: u64 = 0;
    let mut i: usize = start;
    while i < n
        invariant
            start <= i <= n,
            n == bytes@.len(),
            digits == bytes@.subrange(start as int, n as int),
            all_digits(digits.subrange(0, i - start)),
            acc == digits_value(digits.subrange(0, i - start)),
            acc <= limit,
            limit == 0x8000_0000,
            forall|v: int| #[trigger] dec_int(v) == bytes@ ==> dec_nat(magnitude(v)) == digits,
        decreases n - i,
    {
        let b = bytes[i];
        let ghost seen = digits.subrange(0, i - start);
        let ghost next = digits.subrange(0, i + 1 - start);
        proof {
            assert(digits[i - start] == b);
            assert(next.drop_last() =~= seen);
            assert(next.last() == b);
        }
        if b < ZERO || b > ZERO + 9 {
            proof {
                assert(!is_digit(digits[i - start]));
                assert forall|v: int| dec_int(v) != bytes@ by {
                    lemma_dec_nat_canonical(magnitude(v));
                }
            }
            return None;
        }
        acc = acc * 10 + (b - ZERO) as u64;
        proof {
            assert(acc == digits_value(next));
            assert forall|j: int| 0 <= j < next.len() implies is_digit(#[trigger] next[j]) by {
                if j < seen.len() {
                    assert(next[j] == seen[j]);
                }
            }
        }
        if acc > limit {
            proof {
                assert forall|v: int| i32::MIN <= v <= i32::MAX implies dec_int(v) != bytes@ by {
                    lemma_dec_nat_canonical(magnitude(v));
                    if dec_int(v) == bytes@ {
                        lemma_value_prefix(digits, i + 1 - start);
                    }
                }
            }
            return None;
        }
        i += 1;
    }
    proof {
        assert(digits.subrange(0, n - start) =~= digits);
        assert(digits[0] == bytes@[start as int]);
        assert(canonical_digits(digits));
        lemma_canonical_is_dec_nat(digits);
        assert forall|v: int| dec_int(v) == bytes@ implies magnitude(v) == acc by {
            lemma_dec_nat_canonical(magnitude(v));
        }
    }
    if negative {
        if acc == 0 {
            return None;
        }
        let v: i32 = (-(acc as i64)) as i32;
        assert(dec_int(v as int) =~= bytes@);
        Some(v)
    } else {
        if acc == limit {
            return None;
        }
        Some(acc as i32)
    }
}

} // verus!
