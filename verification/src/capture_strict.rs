//! The strict `TIPS=` scanner: the newer serial capture loop.
//!
//! Like [`crate::capture`] it picks `TIPS=<digits>` readings out of a byte
//! stream, but it is stricter and simpler: a reading must carry at least
//! one digit (the scanner is not specified on a `TIPS=` immediately
//! followed by a non-digit), the byte that ends a reading is consumed
//! without being re-tested against the pattern, and a mismatched byte
//! mid-pattern is likewise consumed outright, so overlapping pattern
//! occurrences are not found.

use vstd::prelude::*;

use crate::capture::{initial_scan, pattern_byte, scan_wf, ScanState};
use crate::digits::{
    digits_val, is_digit, is_numeric_nonascii, lemma_digits_val_nonneg, parse_digits,
};

verus! {

/// One step of the strict scanner on byte `b`: the next state, and the
/// digit run whose value is reported by this byte, if any.
pub open spec fn scan_step(st: ScanState, b: u8) -> (ScanState, Option<Seq<u8>>) {
    if st.pat == 5 {
        if is_digit(b) {
            (ScanState { pat: 5, digits: st.digits.push(b) }, None::<Seq<u8>>)
        } else {
            (ScanState { pat: 0, digits: Seq::empty() }, Some(st.digits))
        }
    } else if b == pattern_byte(st.pat) {
        (ScanState { pat: st.pat + 1, digits: st.digits }, None::<Seq<u8>>)
    } else {
        (ScanState { pat: 0, digits: Seq::empty() }, None::<Seq<u8>>)
    }
}

/// The bytes the strict scanner is specified on: while a digit run is open,
/// no non-ASCII numeric may arrive, and the byte that closes the run must
/// close a run that is non-empty and fits a 32-bit counter.
pub open spec fn byte_ok(st: ScanState, b: u8) -> bool {
    st.pat == 5 ==> {
        &&& !is_numeric_nonascii(b)
        &&& (!is_digit(b) ==> st.digits.len() > 0 && digits_val(st.digits) <= u32::MAX)
    }
}

/// Whether every byte of `s`, fed from `st`, stays within the specified
/// inputs.
pub open spec fn scan_ok(st: ScanState, s: Seq<u8>) -> bool
    decreases s.len(),
{
    s.len() == 0 || (byte_ok(st, s[0]) && scan_ok(scan_step(st, s[0]).0, s.skip(1)))
}

/// The values the strict scanner reports on `s`, fed from `st`, in order.
pub open spec fn scan_outputs(st: ScanState, s: Seq<u8>) -> Seq<u32>
    decreases s.len(),
{
    if s.len() == 0 {
        Seq::empty()
    } else {
        let stepped = scan_step(st, s[0]);
        let tail = scan_outputs(stepped.0, s.skip(1));
        match stepped.1 {
            Some(d) => seq![digits_val(d) as u32] + tail,
            None => tail,
        }
    }
}

/// Scan a byte stream for `TIPS=<digits>` readings, strictly, and return
/// the value of each completed reading, in order.
pub fn read_telem(input: &[u8]) -> (tips: Vec<u32>)
    requires
        scan_ok(initial_scan(), input@),
    ensures
        tips@ == scan_outputs(initial_scan(), input@),
{
    let mut pat: usize = 0;
    let mut digits: Vec<u8> = Vec::new();
    let mut tips: Vec<u32> = Vec::new();
    let mut i: usize = 0;
    proof {
        assert(input@.skip(0) =~= input@);
        assert(ScanState { pat: 0int, digits: digits@ } =~= initial_scan());
        assert(tips@ + scan_outputs(initial_scan(), input@) =~= scan_outputs(
            initial_scan(),
            input@,
        ));
    }
    while i < input.len()
        invariant
            i <= input@.len(),
            scan_wf(ScanState { pat: pat as int, digits: digits@ }),
            pat <= 5,
            scan_ok(ScanState { pat: pat as int, digits: digits@ }, input@.skip(i as int)),
            scan_outputs(initial_scan(), input@) == tips@ + scan_outputs(
                ScanState { pat: pat as int, digits: digits@ },
                input@.skip(i as int),
            ),
        decreases input@.len() - i,
    {
        let ghost pre = ScanState { pat: pat as int, digits: digits@ };
        let ghost suffix = input@.skip(i as int);
        let b = input[i];
        proof {
            assert(suffix[0] == b);
            assert(suffix.skip(1) =~= input@.skip(i + 1));
        }
        if pat == 5 {
            if 48 <= b && b <= 57 {
                digits.push(b);
            } else {
                proof {
                    lemma_digits_val_nonneg(digits@);
                }
                let v = parse_digits(&digits);
                tips.push(v);
                pat = 0;
                digits.clear();
            }
        } else if b == pattern_at(pat) {
            pat = pat + 1;
        } else {
            pat = 0;
            digits.clear();
        }
        proof {
            let stepped = scan_step(pre, b);
            assert(stepped.0 =~= ScanState { pat: pat as int, digits: digits@ });
            assert(tips@ + scan_outputs(ScanState { pat: pat as int, digits: digits@ },
                input@.skip(i + 1)) =~= scan_outputs(initial_scan(), input@));
        }
        i = i + 1;
    }
    proof {
        assert(input@.skip(input@.len() as int) =~= Seq::<u8>::empty());
    }
    tips
}

/// The pattern byte expected at match index `i`.
fn pattern_at(i: usize) -> (r: u8)
    requires
        i < 5,
    ensures
        r == pattern_byte(i as int),
{
    if i == 0 {
        84
    } else if i == 1 {
        73
    } else if i == 2 {
        80
    } else if i == 3 {
        83
    } else {
        61
    }
}

} // verus!
