//! Baud-rate divisors: the integer and fractional divisor for a wanted baud
//! rate and a reference clock, and the baud rate they really give.

use vstd::prelude::*;

verus! {

/// The pair of divisors written to the integer and fractional baud-rate
/// registers.
#[derive(Clone, Copy, Debug, PartialEq, Eq, Structural)]
pub struct Divisor {
    /// Integer part, 1 to 65535.
    pub integer: u16,
    /// Fractional part, in 64ths.
    pub fraction: u8,
}

/// Eight times the clock frequency over the wanted baud rate, rounded down:
/// the divisor in 128ths.
pub open spec fn raw_divisor(wanted_baudrate: u32, frequency: u32) -> u64 {
    (8 * frequency / (wanted_baudrate as int)) as u64
}

/// The integer part before clamping.
pub open spec fn integer_candidate(wanted_baudrate: u32, frequency: u32) -> u64 {
    raw_divisor(wanted_baudrate, frequency) >> 7
}

/// The fractional part before clamping: the low seven bits, rounded to 64ths.
pub open spec fn fraction_candidate(wanted_baudrate: u32, frequency: u32) -> u64 {
    (((raw_divisor(wanted_baudrate, frequency) & 0x7F) + 1) / 2) as u64
}

/// The divisor pair for a wanted baud rate: the candidates, clamped to the
/// fastest rate where the integer part would be 0 and to the slowest where it
/// would not fit 16 bits.
pub open spec fn divisor_for(wanted_baudrate: u32, frequency: u32) -> Divisor {
    let ibrd = integer_candidate(wanted_baudrate, frequency);
    if ibrd == 0 {
        Divisor { integer: 1, fraction: 0 }
    } else if ibrd >= 65535 {
        Divisor { integer: 65535, fraction: 0 }
    } else {
        Divisor {
            integer: ibrd as u16,
            fraction: fraction_candidate(wanted_baudrate, frequency) as u8,
        }
    }
}

impl Divisor {
    /// What `for_baudrate` establishes: an integer part of at least 1 and a
    /// fractional part of at most 64.
    pub open spec fn wf(self) -> bool {
        1 <= self.integer && self.fraction <= 64
    }

    /// The baud rate that this pair gives at a clock frequency: four times the
    /// frequency over the divisor in 64ths, rounded down.
    pub open spec fn spec_effective_baudrate(self, frequency: u32) -> int {
        (4 * frequency) / (64 * self.integer + self.fraction)
    }

    /// Computes the divisor pair for a wanted baud rate at a clock frequency.
    pub fn for_baudrate(wanted_baudrate: u32, frequency: u32) -> (d: Divisor)
        requires
            wanted_baudrate > 0,
        ensures
            d == divisor_for(wanted_baudrate, frequency),
            d.wf(),
    {
        let baudrate_div: u64 = 8 * (frequency as u64) / (wanted_baudrate as u64);
        let ibrd: u64 = baudrate_div >> 7;
        assert(baudrate_div & 0x7F <= 0x7F) by (bit_vector);
        let fbrd: u64 = ((baudrate_div & 0x7F) + 1) / 2;
        assert(ibrd < 65535 ==> ibrd as u16 == ibrd);
        if ibrd == 0 {
            Divisor { integer: 1, fraction: 0 }
        } else if ibrd >= 65535 {
            Divisor { integer: 65535, fraction: 0 }
        } else {
            Divisor { integer: ibrd as u16, fraction: fbrd as u8 }
        }
    }

    /// Computes the baud rate that this pair gives at a clock frequency.
    pub fn effective_baudrate(&self, frequency: u32) -> (baud: u32)
        requires
            self.wf(),
        ensures
            baud == self.spec_effective_baudrate(frequency),
    {
        let denominator: u64 = 64 * (self.integer as u64) + (self.fraction as u64);
        let baud: u64 = (4 * (frequency as u64)) / denominator;
        assert(baud <= frequency) by (nonlinear_arith)
            requires
                baud == (4 * frequency) / (denominator as int),
                denominator >= 64,
        ;
        baud as u32
    }
}

/// The divisor pair and the baud rate it gives depend on the wanted baud rate
/// and the clock frequency alone: the same inputs give the same pair and the
/// same rate.
pub proof fn divisor_is_determined(
    wanted_a: u32,
    frequency_a: u32,
    wanted_b: u32,
    frequency_b: u32,
)
    requires
        wanted_a == wanted_b,
        frequency_a == frequency_b,
    ensures
        divisor_for(wanted_a, frequency_a) == divisor_for(wanted_b, frequency_b),
        divisor_for(wanted_a, frequency_a).spec_effective_baudrate(frequency_a) == divisor_for(
            wanted_b,
            frequency_b,
        ).spec_effective_baudrate(frequency_b),
{
}

/// Where the integer candidate is 0 the pair is clamped to (1, 0), whatever
/// the raw divisor is.
pub proof fn clamp_low(wanted_baudrate: u32, frequency: u32)
    requires
        wanted_baudrate > 0,
        raw_divisor(wanted_baudrate, frequency) >> 7 == 0,
    ensures
        divisor_for(wanted_baudrate, frequency) == (Divisor { integer: 1, fraction: 0 }),
{
}

/// Where the integer candidate is 65535 or more the pair is clamped to
/// (65535, 0).
pub proof fn clamp_high(wanted_baudrate: u32, frequency: u32)
    requires
        wanted_baudrate > 0,
        raw_divisor(wanted_baudrate, frequency) >> 7 >= 65535,
    ensures
        divisor_for(wanted_baudrate, frequency) == (Divisor { integer: 65535, fraction: 0 }),
{
}

/// Between the clamps the pair is the candidates themselves, and 128 times
/// the integer part plus the low seven bits gives the raw divisor back.
pub proof fn unclamped(wanted_baudrate: u32, frequency: u32)
    requires
        wanted_baudrate > 0,
        0 < raw_divisor(wanted_baudrate, frequency) >> 7 < 65535,
    ensures
        divisor_for(wanted_baudrate, frequency).integer == raw_divisor(wanted_baudrate, frequency)
            / 128,
        divisor_for(wanted_baudrate, frequency).fraction == (raw_divisor(
            wanted_baudrate,
            frequency,
        ) % 128 + 1) / 2,
{
    let raw = raw_divisor(wanted_baudrate, frequency);
    assert(raw >> 7 == raw / 128 && raw & 0x7F == raw % 128) by (bit_vector);
}

} // verus!
