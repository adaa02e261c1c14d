//! The pulse decoder of the DHT22 humidity and temperature sensor.
//!
//! The sensor answers with 41 pulses; the caller times each pulse's low and
//! high phase into an array of 82 counts.  The first pulse is handshake;
//! the remaining 40 encode 40 bits, a bit being 1 when its high phase
//! outlasts the average low phase.  The 40 bits form five bytes: two of
//! humidity, two of temperature, one checksum.

use vstd::prelude::*;

use vstd::arithmetic::power2::{lemma2_to64, lemma_pow2_unfold, pow2};

verus! {

/// Why a sensor read failed.
#[derive(Debug, Clone, Copy, PartialEq, Eq, Structural)]
pub enum DhtError {
    /// The checksum byte did not match the four data bytes.
    Checksum,
    /// A pin could not be driven or read.
    IO,
    /// A pulse outlasted the polling budget.
    Timeout,
}

/// A temperature and humidity reading from the DHT22, as the sensor's own
/// fixed-point words: tenths of a percent and tenths of a degree Celsius,
/// with the temperature's sign carried separately.
#[derive(Debug, Clone, Copy, PartialEq, Eq, Structural)]
pub struct Reading {
    /// Relative humidity, in tenths of a percent.
    pub humidity_tenths: u16,
    /// Temperature magnitude, in tenths of a degree Celsius.
    pub temperature_tenths: u16,
    /// Whether the temperature is below zero.
    pub temperature_negative: bool,
}

/// The sum of the low-phase counts at even indexes from `i` on.
pub open spec fn low_pulse_sum(s: Seq<usize>, i: int) -> int
    decreases 84 - i,
{
    if i < 0 || i >= 82 {
        0
    } else {
        s[i] + low_pulse_sum(s, i + 2)
    }
}

/// A sum of counts is never negative.
pub proof fn lemma_low_pulse_sum_nonneg(s: Seq<usize>, i: int)
    requires
        s.len() == 82,
    ensures
        low_pulse_sum(s, i) >= 0,
    decreases 84 - i,
{
    if 0 <= i < 82 {
        lemma_low_pulse_sum_nonneg(s, i + 2);
    }
}

/// The threshold a high phase must reach to count as a 1 bit: the average
/// low-phase count, the low phase between bits having a fixed width.
pub open spec fn bit_threshold(s: Seq<usize>) -> int {
    low_pulse_sum(s, 2) / 40
}

/// Bit `j` of the answer: 1 when its high phase reaches the threshold.
pub open spec fn bit_value(s: Seq<usize>, thr: int, j: int) -> int {
    if s[3 + 2 * j] >= thr {
        1
    } else {
        0
    }
}

/// The value of byte `k` after its first `n` bits, most significant first.
pub open spec fn byte_of_bits(s: Seq<usize>, thr: int, k: int, n: int) -> int
    decreases n,
{
    if n <= 0 {
        0
    } else {
        byte_of_bits(s, thr, k, n - 1) * 2 + bit_value(s, thr, 8 * k + n - 1)
    }
}

/// `n` bits make a value below two to the `n`.
pub proof fn lemma_byte_of_bits_bound(s: Seq<usize>, thr: int, k: int, n: int)
    requires
        0 <= n <= 8,
    ensures
        0 <= byte_of_bits(s, thr, k, n) < pow2(n as nat),
    decreases n,
{
    lemma2_to64();
    if n > 0 {
        lemma_byte_of_bits_bound(s, thr, k, n - 1);
        lemma_pow2_unfold(n as nat);
    }
}

/// Data byte `k` of the answer.
pub open spec fn data_byte(s: Seq<usize>, k: int) -> int {
    byte_of_bits(s, bit_threshold(s), k, 8)
}

/// Whether the checksum byte matches the low byte of the four data bytes'
/// sum.
pub open spec fn checksum_matches(s: Seq<usize>) -> bool {
    data_byte(s, 4) == (data_byte(s, 0) + data_byte(s, 1) + data_byte(s, 2) + data_byte(s, 3))
        % 256
}

/// The reading the 40 bits encode.
pub open spec fn reading_of(s: Seq<usize>) -> Reading {
    Reading {
        humidity_tenths: (data_byte(s, 0) * 256 + data_byte(s, 1)) as u16,
        temperature_tenths: ((data_byte(s, 2) % 128) * 256 + data_byte(s, 3)) as u16,
        temperature_negative: data_byte(s, 2) >= 128,
    }
}

/// Decode the 82 pulse counts of one sensor answer.  The counts' sum must
/// fit the machine word that accumulates it.
pub fn decode(arr: &[usize; 82]) -> (r: Result<Reading, DhtError>)
    requires
        low_pulse_sum(arr@, 2) <= usize::MAX,
    ensures
        checksum_matches(arr@) ==> r == Ok::<Reading, DhtError>(reading_of(arr@)),
        !checksum_matches(arr@) ==> r == Err::<Reading, DhtError>(DhtError::Checksum),
{
    let total = sum_low_pulses(arr);
    let threshold = total / 40;

    let mut data: [u8; 5] = [0u8; 5];
    let mut k: usize = 0;
    while k < 5
        invariant
            k <= 5,
            threshold == bit_threshold(arr@),
            forall|j: int| 0 <= j < k ==> data@[j] == data_byte(arr@, j),
            forall|j: int| k <= j < 5 ==> data@[j] == 0u8,
        decreases 5 - k,
    {
        let mut n: usize = 0;
        while n < 8
            invariant
                k < 5,
                n <= 8,
                threshold == bit_threshold(arr@),
                forall|j: int| 0 <= j < k ==> data@[j] == data_byte(arr@, j),
                forall|j: int| k < j < 5 ==> data@[j] == 0u8,
                data@[k as int] == byte_of_bits(arr@, threshold as int, k as int, n as int),
            decreases 8 - n,
        {
            proof {
                lemma_byte_of_bits_bound(arr@, threshold as int, k as int, n as int);
                lemma_byte_of_bits_bound(arr@, threshold as int, k as int, n + 1);
                lemma2_to64();
            }
            let bit: u8 = if arr[3 + 2 * (8 * k + n)] >= threshold {
                1
            } else {
                0
            };
            data[k] = data[k] * 2 + bit;
            n = n + 1;
        }
        k = k + 1;
    }

    proof {
        lemma_byte_of_bits_bound(arr@, threshold as int, 0, 8);
        lemma_byte_of_bits_bound(arr@, threshold as int, 1, 8);
        lemma_byte_of_bits_bound(arr@, threshold as int, 2, 8);
        lemma_byte_of_bits_bound(arr@, threshold as int, 3, 8);
        lemma2_to64();
    }
    let sum_low = ((data[0] as u32 + data[1] as u32 + data[2] as u32 + data[3] as u32) % 256) as u8;
    if data[4] != sum_low {
        return Err(DhtError::Checksum);
    }

    let h_dec: u16 = data[0] as u16 * 256 + data[1] as u16;
    let t_dec: u16 = (data[2] % 128) as u16 * 256 + data[3] as u16;
    Ok(
        Reading {
            humidity_tenths: h_dec,
            temperature_tenths: t_dec,
            temperature_negative: data[2] >= 128,
        },
    )
}

/// Sum the low-phase counts at even indexes from 2 on.
fn sum_low_pulses(arr: &[usize; 82]) -> (r: usize)
    requires
        low_pulse_sum(arr@, 2) <= usize::MAX,
    ensures
        r == low_pulse_sum(arr@, 2),
{
    let mut acc: usize = 0;
    let mut i: usize = 2;
    proof {
        lemma_low_pulse_sum_nonneg(arr@, 2);
    }
    while i < 82
        invariant
            2 <= i <= 83,
            i % 2 == 0,
            low_pulse_sum(arr@, 2) <= usize::MAX,
            acc == low_pulse_sum(arr@, 2) - low_pulse_sum(arr@, i as int),
        decreases 84 - i,
    {
        proof {
            lemma_low_pulse_sum_nonneg(arr@, i + 2);
        }
        acc = acc + arr[i];
        i = i + 2;
    }
    acc
}

} // verus!
