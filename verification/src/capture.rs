//! The tolerant `TIPS=` scanner: picks every `TIPS=<digits>` reading out of
//! a raw serial byte stream.
//!
//! The scanner walks the bytes once.  It matches the pattern `TIPS=` byte
//! by byte; once matched, it collects the digit run that follows and
//! reports its value when a non-digit arrives.  A pattern mismatch re-tests
//! the offending byte against the start of the pattern, so overlapping
//! occurrences such as `TITIPS=9` are still found; an empty digit run
//! reports nothing.

use vstd::prelude::*;

use crate::digits::{
    digits_val, is_digit, is_numeric_nonascii, lemma_digits_val_nonneg, parse_digits,
};

verus! {

/// Abstract scanner state: how much of `TIPS=` has matched, and the digit
/// run collected so far.
#[verifier::ext_equal]
pub ghost struct ScanState {
    pub pat: int,
    pub digits: Seq<u8>,
}

/// The pattern byte expected at match index `i`: the bytes of `TIPS=`.
pub open spec fn pattern_byte(i: int) -> u8 {
    if i == 0 {
        84
    } else if i == 1 {
        73
    } else if i == 2 {
        80
    } else if i == 3 {
        83
    } else {
        61
    }
}

/// The scanner before any byte: nothing matched, no digits.
pub open spec fn initial_scan() -> ScanState {
    ScanState { pat: 0, digits: Seq::empty() }
}

/// States the scanner can actually be in.
pub open spec fn scan_wf(st: ScanState) -> bool {
    &&& 0 <= st.pat <= 5
    &&& (st.digits.len() > 0 ==> st.pat == 5)
    &&& (forall|j: int| 0 <= j < st.digits.len() ==> is_digit(st.digits[j]))
}

/// One step of the scanner on byte `b`: the next state, and the digit run
/// whose value is reported by this byte, if any.
pub open spec fn scan_step(st: ScanState, b: u8) -> (ScanState, Option<Seq<u8>>) {
    let reset = ScanState { pat: 0, digits: Seq::empty() };
    let first = if st.pat == 5 {
        if !is_digit(b) {
            (
                reset,
                if st.digits.len() > 0 {
                    Some(st.digits)
                } else {
                    None::<Seq<u8>>
                },
            )
        } else {
            (st, None::<Seq<u8>>)
        }
    } else if b != pattern_byte(st.pat) {
        (reset, None::<Seq<u8>>)
    } else {
        (st, None::<Seq<u8>>)
    };
    let st1 = first.0;
    let st2 = if st1.pat == 5 && is_digit(b) {
        ScanState { pat: 5, digits: st1.digits.push(b) }
    } else if b == pattern_byte(st1.pat) {
        ScanState { pat: st1.pat + 1, digits: st1.digits }
    } else {
        st1
    };
    (st2, first.1)
}

/// The bytes this scanner is specified on: none of them may be a
/// non-ASCII numeric while a digit run is open, and no reported digit run
/// may be worth more than a 32-bit counter holds.
pub open spec fn byte_ok(st: ScanState, b: u8) -> bool {
    st.pat == 5 ==> {
        &&& !is_numeric_nonascii(b)
        &&& ((!is_digit(b) && st.digits.len() > 0) ==> digits_val(st.digits) <= u32::MAX)
    }
}

/// Whether every byte of `s`, fed from `st`, stays within the specified
/// inputs.
pub open spec fn scan_ok(st: ScanState, s: Seq<u8>) -> bool
    decreases s.len(),
{
    s.len() == 0 || (byte_ok(st, s[0]) && scan_ok(scan_step(st, s[0]).0, s.skip(1)))
}

/// The values the scanner reports on `s`, fed from `st`, in order.
pub open spec fn scan_outputs(st: ScanState, s: Seq<u8>) -> Seq<u32>
    decreases s.len(),
{
    if s.len() == 0 {
        Seq::empty()
    } else {
        let stepped = scan_step(st, s[0]);
        let tail = scan_outputs(stepped.0, s.skip(1));
        match stepped.1 {
            Some(d) => seq![digits_val(d) as u32] + tail,
            None => tail,
        }
    }
}

/// Scan a byte stream for `TIPS=<digits>` readings and return the value of
/// each completed reading, in order.
pub fn read_telem(input: &[u8]) -> (tips: Vec<u32>)
    requires
        scan_ok(initial_scan(), input@),
    ensures
        tips@ == scan_outputs(initial_scan(), input@),
{
    let mut pat: usize = 0;
    let mut digits: Vec<u8> = Vec::new();
    let mut tips: Vec<u32> = Vec::new();
    let mut i: usize = 0;
    proof {
        assert(input@.skip(0) =~= input@);
        assert(ScanState { pat: 0int, digits: digits@ } =~= initial_scan());
        assert(tips@ + scan_outputs(initial_scan(), input@) =~= scan_outputs(
            initial_scan(),
            input@,
        ));
    }
    while i < input.len()
        invariant
            i <= input@.len(),
            scan_wf(ScanState { pat: pat as int, digits: digits@ }),
            pat <= 5,
            scan_ok(ScanState { pat: pat as int, digits: digits@ }, input@.skip(i as int)),
            scan_outputs(initial_scan(), input@) == tips@ + scan_outputs(
                ScanState { pat: pat as int, digits: digits@ },
                input@.skip(i as int),
            ),
        decreases input@.len() - i,
    {
        let ghost pre = ScanState { pat: pat as int, digits: digits@ };
        let ghost suffix = input@.skip(i as int);
        let b = input[i];
        proof {
            assert(suffix[0] == b);
            assert(suffix.skip(1) =~= input@.skip(i + 1));
        }
        let is_d = 48 <= b && b <= 57;
        // first phase: close an open digit run, or restart a failed match
        if pat == 5 {
            if !is_d {
                if digits.len() > 0 {
                    proof {
                        lemma_digits_val_nonneg(digits@);
                    }
                    let v = parse_digits(&digits);
                    tips.push(v);
                }
                pat = 0;
                digits.clear();
            }
        } else if b != pattern_at(pat) {
            pat = 0;
            digits.clear();
        }
        // second phase: extend the digit run, or advance the pattern match
        if pat == 5 && is_d {
            digits.push(b);
        } else {
            assert(pat < 5);
            if b == pattern_at(pat) {
                pat = pat + 1;
            }
        }
        proof {
            let stepped = scan_step(pre, b);
            assert(stepped.0 =~= ScanState { pat: pat as int, digits: digits@ });
            assert(tips@ + scan_outputs(ScanState { pat: pat as int, digits: digits@ },
                input@.skip(i + 1)) =~= scan_outputs(initial_scan(), input@));
        }
        i = i + 1;
    }
    proof {
        assert(input@.skip(input@.len() as int) =~= Seq::<u8>::empty());
    }
    tips
}

/// The pattern byte expected at match index `i`.
fn pattern_at(i: usize) -> (r: u8)
    requires
        i < 5,
    ensures
        r == pattern_byte(i as int),
{
    if i == 0 {
        84
    } else if i == 1 {
        73
    } else if i == 2 {
        80
    } else if i == 3 {
        83
    } else {
        61
    }
}

} // verus!
