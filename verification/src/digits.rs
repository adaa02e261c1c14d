//! Decimal digit runs: their value and a verified parser for them.

use vstd::prelude::*;

verus! {

/// Whether `b` is an ASCII decimal digit.
pub open spec fn is_digit(b: u8) -> bool {
    48 <= b <= 57
}

/// Whether the char with code `b` (for `b` up to 255) is numeric without
/// being an ASCII digit: the superscript and vulgar-fraction characters of
/// Latin-1.  A scanner that tests bytes with `char::is_numeric` accepts
/// these, yet no decimal parser can read them; inputs that feed one to such
/// a scanner are excluded from the scanners' contracts.
pub open spec fn is_numeric_nonascii(b: u8) -> bool {
    b == 178 || b == 179 || b == 185 || b == 188 || b == 189 || b == 190
}

/// The decimal value of a run of ASCII digits; a non-digit byte counts as
/// zero.
pub open spec fn digits_val(s: Seq<u8>) -> int
    decreases s.len(),
{
    if s.len() == 0 {
        0
    } else {
        digits_val(s.drop_last()) * 10 + if is_digit(s.last()) {
            s.last() - 48
        } else {
            0
        }
    }
}

/// A digit run's value is never negative.
pub proof fn lemma_digits_val_nonneg(s: Seq<u8>)
    ensures
        digits_val(s) >= 0,
    decreases s.len(),
{
    if s.len() > 0 {
        lemma_digits_val_nonneg(s.drop_last());
    }
}

/// A prefix of a digit run is worth no more than the whole run.
pub proof fn lemma_digits_val_prefix(s: Seq<u8>, i: int)
    requires
        0 <= i <= s.len(),
    ensures
        digits_val(s.take(i)) <= digits_val(s),
    decreases s.len() - i,
{
    if i < s.len() {
        assert(s.take(i + 1).drop_last() =~= s.take(i));
        lemma_digits_val_nonneg(s.take(i));
        lemma_digits_val_prefix(s, i + 1);
    } else {
        assert(s.take(i) =~= s);
    }
}

/// Parse a run of ASCII digits into its decimal value.
pub fn parse_digits(digits: &Vec<u8>) -> (r: u32)
    requires
        forall|j: int| 0 <= j < digits@.len() ==> is_digit(digits@[j]),
        digits_val(digits@) <= u32::MAX,
    ensures
        r == digits_val(digits@),
{
    let n = digits.len();
    let mut acc: u32 = 0;
    let mut i: usize = 0;
    while i < n
        invariant
            i <= n,
            n == digits@.len(),
            forall|j: int| 0 <= j < digits@.len() ==> is_digit(digits@[j]),
            digits_val(digits@) <= u32::MAX,
            acc == digits_val(digits@.take(i as int)),
        decreases n - i,
    {
        proof {
            assert(digits@.take(i + 1).drop_last() =~= digits@.take(i as int));
            lemma_digits_val_nonneg(digits@.take(i as int));
            lemma_digits_val_prefix(digits@, i + 1);
        }
        acc = acc * 10 + (digits[i] - 48) as u32;
        i = i + 1;
    }
    proof {
        assert(digits@.take(n as int) =~= digits@);
    }
    acc
}

} // verus!
