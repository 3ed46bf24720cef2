//! Driver core for a PL011-compatible UART: line configuration, baud-rate
//! divisors, the enabled/disabled lifecycle and FIFO-bounded transfers.

pub mod baudrate;
pub mod common_configs;
pub mod config;
pub mod device;
pub mod format;
pub mod peripheral;
pub mod trace;
