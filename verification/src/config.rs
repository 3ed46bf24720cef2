//! Line configuration of the UART.

use vstd::prelude::*;

verus! {

/// Data bits
#[derive(Clone, Copy, Debug, PartialEq, Eq, Structural)]
pub enum DataBits {
    /// 5 bits
    Five,
    /// 6 bits
    Six,
    /// 7 bits
    Seven,
    /// 8 bits
    Eight,
}

/// Stop bits
#[derive(Clone, Copy, Debug, PartialEq, Eq, Structural)]
pub enum StopBits {
    /// 1 bit
    One,
    /// 2 bits
    Two,
}

/// Parity
/// The "none" state of parity is represented with the Option type (None).
#[derive(Clone, Copy, Debug, PartialEq, Eq, Structural)]
pub enum Parity {
    /// Odd parity
    Odd,
    /// Even parity
    Even,
}

/// A struct holding the configuration for an UART device.
#[derive(Clone, Copy, Debug)]
pub struct UARTConfig {
    /// Wanted baud rate, in bits per second. Must not be zero.
    pub baudrate: u32,
    /// Number of data bits in a frame.
    pub data_bits: DataBits,
    /// Number of stop bits that end a frame.
    pub stop_bits: StopBits,
    /// Parity of a frame; `None` disables parity.
    pub parity: Option<Parity>,
}

impl DataBits {
    /// Number of data bits in a frame.
    pub open spec fn count(self) -> nat {
        match self {
            DataBits::Five => 5,
            DataBits::Six => 6,
            DataBits::Seven => 7,
            DataBits::Eight => 8,
        }
    }
}

impl StopBits {
    /// Number of stop bits that end a frame.
    pub open spec fn count(self) -> nat {
        match self {
            StopBits::One => 1,
            StopBits::Two => 2,
        }
    }
}

impl UARTConfig {
    /// A configuration can be programmed only if it asks for a positive baud rate.
    pub open spec fn wf(self) -> bool {
        self.baudrate > 0
    }
}

} // verus!
