//! Numeric coercion of remote file ids.
//!
//! A remote file id arrives as a string, but the registry stores it as a
//! 32-bit signed integer key. An id that reads as a non-negative decimal
//! integer fitting that key — digits, with at most one leading `+` — is
//! stored under that value; every other id collapses to the identity `0`.

use vstd::prelude::*;

verus! {

/// Largest value a registry identity may take: the registry keys rows by a
/// 32-bit signed integer.
pub const MAX_IDENTITY: i64 = 0x7fff_ffff;

/// A decimal digit.
pub open spec fn is_digit(c: char) -> bool {
    '0' <= c && c <= '9'
}

/// Numeric value of one decimal digit.
pub open spec fn digit_value(c: char) -> int {
    c as int - '0' as int
}

/// Every character of `s` is a decimal digit.
pub open spec fn all_digits(s: Seq<char>) -> bool {
    forall|i: int| 0 <= i < s.len() ==> is_digit(#[trigger] s[i])
}

/// Value of a digit string read in base 10.
pub open spec fn digits_value(s: Seq<char>) -> int
    decreases s.len(),
{
    if s.len() == 0 {
        0
    } else {
        digits_value(s.drop_last()) * 10 + digit_value(s.last())
    }
}

/// The digits of an id string: the string itself, less one leading plus sign
/// if it carries one.
pub open spec fn digits_part(s: Seq<char>) -> Seq<char> {
    if s.len() > 0 && s[0] == '+' {
        s.drop_first()
    } else {
        s
    }
}

/// The identity under which a file id string is stored: the base-10 value of
/// its digits if they are non-empty, all decimal, and no larger than
/// [`MAX_IDENTITY`]; `0` otherwise.
pub open spec fn identity_of(s: Seq<char>) -> int {
    let d = digits_part(s);
    if d.len() > 0 && all_digits(d) && digits_value(d) <= MAX_IDENTITY {
        digits_value(d)
    } else {
        0
    }
}

/// A digit string has a non-negative value.
pub proof fn lemma_digits_nonneg(s: Seq<char>)
    requires
        all_digits(s),
    ensures
        digits_value(s) >= 0,
    decreases s.len(),
{
    if s.len() > 0 {
        assert(all_digits(s.drop_last())) by {
            assert(forall|i: int|
                0 <= i < s.drop_last().len() ==> is_digit(#[trigger] s.drop_last()[i]));
        }
        lemma_digits_nonneg(s.drop_last());
        assert(is_digit(s.last()));
    }
}

/// The identity of any id string lies between `0` and [`MAX_IDENTITY`].
pub proof fn lemma_identity_range(s: Seq<char>)
    ensures
        0 <= identity_of(s) <= MAX_IDENTITY,
{
    let d = digits_part(s);
    if d.len() > 0 && all_digits(d) && digits_value(d) <= MAX_IDENTITY {
        lemma_digits_nonneg(d);
    }
}

/// Appending digits never shrinks the value: the value of a digit string is
/// at least the value of any of its prefixes.
pub proof fn lemma_digits_prefix_monotone(s: Seq<char>, j: int)
    requires
        all_digits(s),
        0 <= j <= s.len(),
    ensures
        digits_value(s) >= digits_value(s.take(j)),
    decreases s.len() - j,
{
    if j < s.len() {
        assert(s.take(j + 1).drop_last() =~= s.take(j));
        assert(s.take(j + 1).last() == s[j]);
        assert(all_digits(s.take(j))) by {
            assert(forall|i: int|
                0 <= i < s.take(j).len() ==> is_digit(#[trigger] s.take(j)[i]));
        }
        lemma_digits_nonneg(s.take(j));
        assert(is_digit(s[j]));
        assert(digits_value(s.take(j + 1)) >= digits_value(s.take(j)));
        lemma_digits_prefix_monotone(s, j + 1);
    } else {
        assert(s.take(j) =~= s);
    }
}

/// Coerce a file id string to its registry identity.
///
/// Returns the base-10 value of `id` when `id` is a non-empty string of
/// decimal digits, at most one leading `+` allowed, whose value fits the
/// 32-bit key space; `0` otherwise.
pub fn file_identity(id: &str) -> (r: i64)
    ensures
        r == identity_of(id@),
        0 <= r <= MAX_IDENTITY,
{
    proof {
        lemma_identity_range(id@);
    }
    let n = id.unicode_len();
    if n == 0 {
        return 0;
    }
    let c0 = id.get_char(0);
    let start: usize = if c0 == '+' {
        1
    } else {
        0
    };
    let ghost d = digits_part(id@);
    proof {
        if c0 == '+' {
            assert(d =~= id@.skip(1));
        } else {
            assert(d =~= id@);
        }
        assert(forall|k: int| 0 <= k < d.len() ==> d[k] == id@[k + start]);
    }
    if start >= n {
        assert(d.len() == 0);
        return 0;
    }
    let mut i: usize = start;
    let mut acc: i64 = 0;
    proof {
        assert(d.take(0) =~= Seq::<char>::empty());
    }
    while i < n
        invariant
            start <= i <= n,
            start <= 1,
            n == id@.len(),
            d == digits_part(id@),
            d.len() == n - start,
            forall|k: int| 0 <= k < d.len() ==> #[trigger] d[k] == id@[k + start],
            all_digits(d.take(i - start)),
            acc == digits_value(d.take(i - start)),
            0 <= acc <= MAX_IDENTITY,
        decreases n - i,
    {
        let c = id.get_char(i);
        let cv = c as u32;
        let ghost j: int = i as int - start as int;
        proof {
            assert(d[j as int] == id@[i as int]);
        }
        if cv < 48 || cv > 57 {
            assert(!is_digit(d[j as int]));
            assert(!all_digits(d));
            return 0;
        }
        assert(is_digit(d[j as int]));
        let dv = (cv - 48) as i64;
        let next = acc * 10 + dv;
        assert(d.take(j + 1).drop_last() =~= d.take(j as int));
        assert(d.take(j + 1).last() == d[j as int]);
        if next > MAX_IDENTITY {
            proof {
                if all_digits(d) {
                    lemma_digits_prefix_monotone(d, j + 1);
                }
            }
            return 0;
        }
        acc = next;
        i = i + 1;
    }
    assert(d.take(n - start) =~= d);
    acc
}

} // verus!
