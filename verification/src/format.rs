//! Line format: how word length, stop bits and parity are laid out in the
//! line-control register.

use crate::config::{DataBits, Parity, StopBits};
use vstd::prelude::*;

verus! {

/// The fields of the line-control register that this driver programs.
#[derive(Clone, Copy, Debug, PartialEq, Eq, Structural)]
pub struct LineControl {
    /// Parity enable.
    pub parity_enable: bool,
    /// Even parity select; without effect while parity is disabled.
    pub even_parity: bool,
    /// Two stop bits select.
    pub two_stop_bits: bool,
    /// Enable FIFOs.
    pub fifo_enable: bool,
    /// Word length, a 2-bit field.
    pub word_length: u8,
}

/// The 2-bit word-length field for a number of data bits.
pub open spec fn word_length_code(data_bits: DataBits) -> u8 {
    match data_bits {
        DataBits::Five => 0b00,
        DataBits::Six => 0b01,
        DataBits::Seven => 0b10,
        DataBits::Eight => 0b11,
    }
}

/// The line-control fields after the format has been set on `w`: parity
/// enable, word length and stop-bit select are replaced; the parity polarity
/// is replaced only where parity is present; the FIFO enable is kept.
pub open spec fn line_format(
    w: LineControl,
    data_bits: DataBits,
    stop_bits: StopBits,
    parity: Option<Parity>,
) -> LineControl {
    LineControl {
        parity_enable: parity.is_some(),
        even_parity: match parity {
            Some(p) => p == Parity::Even,
            None => w.even_parity,
        },
        two_stop_bits: stop_bits == StopBits::Two,
        fifo_enable: w.fifo_enable,
        word_length: word_length_code(data_bits),
    }
}

impl LineControl {
    /// The register with every field cleared.
    pub open spec fn cleared() -> LineControl {
        LineControl {
            parity_enable: false,
            even_parity: false,
            two_stop_bits: false,
            fifo_enable: false,
            word_length: 0,
        }
    }

    /// The value of the register: parity enable in bit 1, even parity in
    /// bit 2, two stop bits in bit 3, FIFO enable in bit 4 and the word length
    /// in bits 5 and 6.
    pub open spec fn spec_bits(self) -> u8 {
        ((if self.parity_enable { 0x02u8 } else { 0u8 })
            | (if self.even_parity { 0x04u8 } else { 0u8 })
            | (if self.two_stop_bits { 0x08u8 } else { 0u8 })
            | (if self.fifo_enable { 0x10u8 } else { 0u8 })
            | ((self.word_length & 0x03u8) << 5u8))
    }

    /// The register with every field cleared.
    pub fn new() -> (w: LineControl)
        ensures
            w == LineControl::cleared(),
    {
        LineControl {
            parity_enable: false,
            even_parity: false,
            two_stop_bits: false,
            fifo_enable: false,
            word_length: 0,
        }
    }

    /// The value to write to the line-control register.
    pub fn bits(&self) -> (b: u8)
        ensures
            b == self.spec_bits(),
    {
        let pen: u8 = if self.parity_enable { 0x02 } else { 0 };
        let eps: u8 = if self.even_parity { 0x04 } else { 0 };
        let stp2: u8 = if self.two_stop_bits { 0x08 } else { 0 };
        let fen: u8 = if self.fifo_enable { 0x10 } else { 0 };
        pen | eps | stp2 | fen | ((self.word_length & 0x03) << 5)
    }
}

/// Format configuration: sets parity, word length and stop bits on `w`.
pub fn set_format(
    w: &mut LineControl,
    data_bits: &DataBits,
    stop_bits: &StopBits,
    parity: &Option<Parity>,
)
    ensures
        *final(w) == line_format(*old(w), *data_bits, *stop_bits, *parity),
{
    match parity {
        Some(p) => {
            w.parity_enable = true;
            match p {
                Parity::Odd => {
                    w.even_parity = false;
                },
                Parity::Even => {
                    w.even_parity = true;
                },
            }
        },
        None => {
            w.parity_enable = false;
        },
    }

    w.word_length = match data_bits {
        DataBits::Five => 0b00,
        DataBits::Six => 0b01,
        DataBits::Seven => 0b10,
        DataBits::Eight => 0b11,
    };

    match stop_bits {
        StopBits::One => {
            w.two_stop_bits = false;
        },
        StopBits::Two => {
            w.two_stop_bits = true;
        },
    }
}

/// The word-length encoding maps 5, 6, 7 and 8 data bits to 0b00, 0b01, 0b10
/// and 0b11, and no two word lengths to the same code.
pub proof fn word_length_code_is_injective(a: DataBits, b: DataBits)
    ensures
        word_length_code(a) == a.count() - 5,
        word_length_code(a) <= 0b11,
        word_length_code(a) == word_length_code(b) <==> a == b,
{
}

/// Parity present sets parity enable, with the polarity bit set exactly for
/// even parity; parity absent clears parity enable and leaves the polarity
/// bit as it was.
pub proof fn parity_encoding(
    w: LineControl,
    data_bits: DataBits,
    stop_bits: StopBits,
    parity: Option<Parity>,
)
    ensures
        line_format(w, data_bits, stop_bits, parity).parity_enable <==> parity.is_some(),
        parity matches Some(p) ==> (line_format(w, data_bits, stop_bits, parity).even_parity <==> p
            == Parity::Even),
        parity.is_none() ==> line_format(w, data_bits, stop_bits, parity).even_parity
            == w.even_parity,
{
}

/// One stop bit clears the stop-bit select, two stop bits set it.
pub proof fn stop_bit_encoding(
    w: LineControl,
    data_bits: DataBits,
    stop_bits: StopBits,
    parity: Option<Parity>,
)
    ensures
        line_format(w, data_bits, stop_bits, parity).two_stop_bits <==> stop_bits.count() == 2,
        !line_format(w, data_bits, stop_bits, parity).two_stop_bits <==> stop_bits.count() == 1,
{
}

/// The register value shows each field: no two settings whose word lengths
/// fit the 2-bit field share a value.
pub proof fn bits_are_injective(a: LineControl, b: LineControl)
    requires
        a.word_length <= 0b11,
        b.word_length <= 0b11,
    ensures
        a.spec_bits() == b.spec_bits() <==> a == b,
{
    let (wa, wb) = (a.word_length, b.word_length);
    let pa: u8 = if a.parity_enable { 0x02u8 } else { 0u8 };
    let ea: u8 = if a.even_parity { 0x04u8 } else { 0u8 };
    let sa: u8 = if a.two_stop_bits { 0x08u8 } else { 0u8 };
    let fa: u8 = if a.fifo_enable { 0x10u8 } else { 0u8 };
    let pb: u8 = if b.parity_enable { 0x02u8 } else { 0u8 };
    let eb: u8 = if b.even_parity { 0x04u8 } else { 0u8 };
    let sb: u8 = if b.two_stop_bits { 0x08u8 } else { 0u8 };
    let fb: u8 = if b.fifo_enable { 0x10u8 } else { 0u8 };
    assert((pa | ea | sa | fa | ((wa & 0x03u8) << 5u8)) == (pb | eb | sb | fb | ((wb & 0x03u8)
        << 5u8)) ==> pa == pb && ea == eb && sa == sb && fa == fb && wa == wb) by (bit_vector)
        requires
            wa <= 0b11,
            wb <= 0b11,
            pa == 0x02u8 || pa == 0u8,
            pb == 0x02u8 || pb == 0u8,
            ea == 0x04u8 || ea == 0u8,
            eb == 0x04u8 || eb == 0u8,
            sa == 0x08u8 || sa == 0u8,
            sb == 0x08u8 || sb == 0u8,
            fa == 0x10u8 || fa == 0u8,
            fb == 0x10u8 || fb == 0u8,
    ;
}

} // verus!
