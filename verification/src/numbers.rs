//! Decimal rendering and parsing of unsigned 64-bit values, used by the
//! cache codec and by the ledger-document coercion of string-transported
//! integers.

use vstd::prelude::*;

verus! {

pub open spec fn is_digit(c: char) -> bool {
    '0' <= c && c <= '9'
}

pub open spec fn digit_val(c: char) -> int {
    c as int - '0' as int
}

pub open spec fn all_digits(s: Seq<char>) -> bool {
    forall|i: int| 0 <= i < s.len() ==> is_digit(#[trigger] s[i])
}

/// Value of a digit string, most significant digit first.
pub open spec fn dec_val(s: Seq<char>) -> int
    decreases s.len(),
{
    if s.len() == 0 {
        0
    } else {
        dec_val(s.drop_last()) * 10 + digit_val(s.last())
    }
}

/// What a decimal string denotes as a `u64`: defined exactly on non-empty
/// all-digit strings whose value fits.
pub open spec fn dec_u64(s: Seq<char>) -> Option<u64> {
    if s.len() > 0 && all_digits(s) && dec_val(s) <= u64::MAX {
        Some(dec_val(s) as u64)
    } else {
        None
    }
}

pub open spec fn digit_char(d: int) -> char {
    ((d + 48) as u8) as char
}

/// Canonical decimal rendering of a non-negative integer (no leading
/// zeros, except for the value zero itself).
pub open spec fn dec_str_of(n: int) -> Seq<char>
    decreases n,
{
    if n < 10 {
        seq![digit_char(n)]
    } else {
        dec_str_of(n / 10).push(digit_char(n % 10))
    }
}

pub proof fn lemma_dec_val_nonneg(s: Seq<char>)
    requires
        all_digits(s),
    ensures
        dec_val(s) >= 0,
    decreases s.len(),
{
    if s.len() > 0 {
        assert(all_digits(s.drop_last())) by {
            assert(forall|i: int|
                0 <= i < s.len() - 1 ==> s.drop_last()[i] == s[i]);
        }
        lemma_dec_val_nonneg(s.drop_last());
    }
}

/// The value of a digit string is at least the value of any of its
/// prefixes: extending with more digits never shrinks it.
pub proof fn lemma_dec_val_prefix_le(s: Seq<char>, k: int)
    requires
        all_digits(s),
        0 <= k <= s.len(),
    ensures
        dec_val(s.take(k)) <= dec_val(s),
    decreases s.len(),
{
    if k < s.len() {
        assert(all_digits(s.drop_last())) by {
            assert(forall|i: int|
                0 <= i < s.len() - 1 ==> s.drop_last()[i] == s[i]);
        }
        assert(s.drop_last().take(k) =~= s.take(k));
        lemma_dec_val_prefix_le(s.drop_last(), k);
        lemma_dec_val_nonneg(s.drop_last());
        assert(is_digit(s.last()));
        assert(digit_val(s.last()) >= 0);
        assert(dec_val(s.drop_last()) * 10 >= dec_val(s.drop_last()));
    } else {
        assert(s.take(k) =~= s);
    }
}

/// The canonical rendering consists of digits and reads back to the same
/// value.
pub proof fn lemma_dec_str_of_val(n: int)
    requires
        n >= 0,
    ensures
        all_digits(dec_str_of(n)),
        dec_val(dec_str_of(n)) == n,
        dec_str_of(n).len() >= 1,
    decreases n,
{
    if n < 10 {
        let s = dec_str_of(n);
        assert(s.drop_last() =~= Seq::<char>::empty());
        assert(dec_val(Seq::<char>::empty()) == 0);
        assert(digit_val(s.last()) == n);
        assert(is_digit(s[0]));
    } else {
        lemma_dec_str_of_val(n / 10);
        let a = dec_str_of(n / 10);
        let c = digit_char(n % 10);
        let s = a.push(c);
        assert(s.drop_last() =~= a);
        assert(digit_val(c) == n % 10);
        assert(dec_val(s) == dec_val(a) * 10 + n % 10);
        assert((n / 10) * 10 + n % 10 == n) by (nonlinear_arith);
        assert(all_digits(s)) by {
            assert(forall|i: int| 0 <= i < a.len() ==> s[i] == a[i]);
            assert(is_digit(c));
        }
    }
}

/// Appends the canonical decimal rendering of `n` to `out`.
pub fn push_dec_u64(out: &mut Vec<char>, n: u64)
    ensures
        final(out)@ == old(out)@ + dec_str_of(n as int),
    decreases n,
{
    if n < 10 {
        let c = (48 + n as u8) as char;
        out.push(c);
        proof {
            assert(final(out)@ =~= old(out)@ + seq![digit_char(n as int)]);
        }
    } else {
        proof {
            assert(n / 10 < n) by (nonlinear_arith)
                requires
                    n >= 10,
            ;
        }
        push_dec_u64(out, n / 10);
        let c = (48 + (n % 10) as u8) as char;
        out.push(c);
        proof {
            assert(final(out)@ =~= old(out)@ + dec_str_of(n as int));
        }
    }
}

/// Parses a decimal string into a `u64`: succeeds exactly on non-empty
/// all-digit strings whose value fits in 64 bits.
pub fn parse_u64_str(s: &str) -> (r: Option<u64>)
    ensures
        r == dec_u64(s@),
{
    let n = s.unicode_len();
    if n == 0 {
        return None;
    }
    let mut acc: u128 = 0;
    let mut i: usize = 0;
    while i < n
        invariant
            0 < n == s@.len(),
            i <= n,
            all_digits(s@.take(i as int)),
            acc == dec_val(s@.take(i as int)),
            acc <= u64::MAX,
        decreases n - i,
    {
        let c = s.get_char(i);
        if c < '0' || c > '9' {
            proof {
                assert(!is_digit(s@[i as int]));
            }
            return None;
        }
        let d: u128 = (c as u32 - 48) as u128;
        acc = acc * 10 + d;
        proof {
            assert(s@.take(i as int + 1).drop_last() =~= s@.take(i as int));
            assert(s@.take(i as int + 1).last() == s@[i as int]);
            assert(all_digits(s@.take(i as int + 1))) by {
                assert(forall|j: int|
                    0 <= j < i ==> s@.take(i as int + 1)[j] == s@.take(i as int)[j]);
            }
        }
        if acc > u64::MAX as u128 {
            proof {
                if all_digits(s@) {
                    assert(acc == dec_val(s@.take(i as int + 1)));
                    lemma_dec_val_prefix_le(s@, i as int + 1);
                }
            }
            return None;
        }
        i = i + 1;
    }
    proof {
        assert(s@.take(n as int) =~= s@);
    }
    Some(acc as u64)
}

} // verus!
