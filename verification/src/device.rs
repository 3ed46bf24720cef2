//! The register surface of the UART, and the record of what was done to it.

use crate::format::LineControl;
use vstd::prelude::*;

verus! {

/// One access to a register of the device.
pub enum Access {
    /// The integer baud-rate divisor register was written.
    IntegerDivisor { integer: u16 },
    /// The fractional baud-rate divisor register was written.
    FractionalDivisor { fraction: u8 },
    /// The line-control register was written back as it stood, which latches
    /// the divisors.
    Latch,
    /// The line-control register was written, all fields at once.
    LineControl { fields: LineControl },
    /// The control register was written.
    Control { enable: bool, transmit: bool, receive: bool },
    /// The DMA-control register was written.
    DmaControl { transmit: bool, receive: bool },
    /// The flag register was read for the transmit-FIFO-full flag.
    TransmitFlag { full: bool },
    /// The flag register was read for the receive-FIFO-empty flag.
    ReceiveFlag { empty: bool },
    /// A byte was written to the data register.
    Transmit { byte: u8 },
    /// A byte was read from the data register.
    Receive { byte: u8 },
}

impl Access {
    /// Whether the access moves data or polls a FIFO flag, and so leaves the
    /// programmed configuration alone.
    pub open spec fn is_transfer(self) -> bool {
        self is TransmitFlag || self is ReceiveFlag || self is Transmit || self is Receive
    }
}

/// Trait to handle both underlying devices: one register layout, whichever
/// device stands behind it.
///
/// A device is described by the accesses made to it so far; each method adds
/// the access it makes, with the value the device gave where it gives one.
/// Nothing is promised of that value, with one exception: a FIFO does not stay
/// blocked for ever. Each poll that finds the transmit FIFO full or the
/// receive FIFO empty uses up some of a finite patience, so that a caller who
/// polls until the FIFO moves does end.
pub trait UARTDevice {
    /// Every access made so far, oldest first. An implementation that Verus
    /// checks defines it; the empty record here stands for one that it does
    /// not see.
    open spec fn trace(&self) -> Seq<Access> {
        Seq::empty()
    }

    /// A bound on how many polls in a row can yet find a FIFO blocked.
    open spec fn patience(&self) -> nat {
        0
    }

    /// Writes the integer baud-rate divisor.
    fn write_integer_divisor(&mut self, integer: u16)
        ensures
            final(self).trace() == old(self).trace().push(Access::IntegerDivisor { integer }),
    ;

    /// Writes the fractional baud-rate divisor. The register holds six bits.
    fn write_fractional_divisor(&mut self, fraction: u8)
        ensures
            final(self).trace() == old(self).trace().push(Access::FractionalDivisor { fraction }),
    ;

    /// Writes the line-control register back without changing what it holds,
    /// which latches the divisors.
    fn latch_divisors(&mut self)
        ensures
            final(self).trace() == old(self).trace().push(Access::Latch),
    ;

    /// Writes the line-control register, all fields in one access.
    fn write_line_control(&mut self, fields: LineControl)
        ensures
            final(self).trace() == old(self).trace().push(Access::LineControl { fields }),
    ;

    /// Writes the UART-enable, transmit-enable and receive-enable bits of the
    /// control register.
    fn write_control(&mut self, enable: bool, transmit: bool, receive: bool)
        ensures
            final(self).trace() == old(self).trace().push(
                Access::Control { enable, transmit, receive },
            ),
    ;

    /// Writes the transmit and receive DMA-request enables.
    fn write_dma_control(&mut self, transmit: bool, receive: bool)
        ensures
            final(self).trace() == old(self).trace().push(Access::DmaControl { transmit, receive }),
    ;

    /// Reads the transmit-FIFO-full flag.
    fn transmit_fifo_full(&mut self) -> (full: bool)
        ensures
            final(self).trace() == old(self).trace().push(Access::TransmitFlag { full }),
            full ==> final(self).patience() < old(self).patience(),
    ;

    /// Reads the receive-FIFO-empty flag.
    fn receive_fifo_empty(&mut self) -> (empty: bool)
        ensures
            final(self).trace() == old(self).trace().push(Access::ReceiveFlag { empty }),
            empty ==> final(self).patience() < old(self).patience(),
    ;

    /// Writes a byte to the data register, which queues it in the transmit
    /// FIFO.
    fn write_data(&mut self, byte: u8)
        ensures
            final(self).trace() == old(self).trace().push(Access::Transmit { byte }),
    ;

    /// Reads a byte from the data register, which takes it off the receive
    /// FIFO.
    fn read_data(&mut self) -> (byte: u8)
        ensures
            final(self).trace() == old(self).trace().push(Access::Receive { byte }),
    ;
}

} // verus!
