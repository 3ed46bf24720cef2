//! Common configurations for UART.

use crate::config::{DataBits, StopBits, UARTConfig};
use vstd::prelude::*;

verus! {

/// The configuration with 8 data bits, no parity and 1 stop bit at a baud
/// rate.
pub open spec fn eight_n_one(baudrate: u32) -> UARTConfig {
    UARTConfig {
        baudrate,
        data_bits: DataBits::Eight,
        stop_bits: StopBits::One,
        parity: None,
    }
}

/// 9600 baud, 8 data bits, no parity, 1 stop bit
pub fn _9600_8_N_1() -> (config: UARTConfig)
    ensures
        config == eight_n_one(9600),
        config.wf(),
{
    UARTConfig {
        baudrate: 9600,
        data_bits: DataBits::Eight,
        stop_bits: StopBits::One,
        parity: None,
    }
}

/// 19200 baud, 8 data bits, no parity, 1 stop bit
pub fn _19200_8_N_1() -> (config: UARTConfig)
    ensures
        config == eight_n_one(19200),
        config.wf(),
{
    UARTConfig {
        baudrate: 19200,
        data_bits: DataBits::Eight,
        stop_bits: StopBits::One,
        parity: None,
    }
}

/// 38400 baud, 8 data bits, no parity, 1 stop bit
pub fn _38400_8_N_1() -> (config: UARTConfig)
    ensures
        config == eight_n_one(38400),
        config.wf(),
{
    UARTConfig {
        baudrate: 38400,
        data_bits: DataBits::Eight,
        stop_bits: StopBits::One,
        parity: None,
    }
}

/// 57600 baud, 8 data bits, no parity, 1 stop bit
pub fn _57600_8_N_1() -> (config: UARTConfig)
    ensures
        config == eight_n_one(57600),
        config.wf(),
{
    UARTConfig {
        baudrate: 57600,
        data_bits: DataBits::Eight,
        stop_bits: StopBits::One,
        parity: None,
    }
}

/// 115200 baud, 8 data bits, no parity, 1 stop bit
pub fn _115200_8_N_1() -> (config: UARTConfig)
    ensures
        config == eight_n_one(115200),
        config.wf(),
{
    UARTConfig {
        baudrate: 115200,
        data_bits: DataBits::Eight,
        stop_bits: StopBits::One,
        parity: None,
    }
}

} // verus!
