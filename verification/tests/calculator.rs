use rp2040_uart::baudrate::Divisor;
use rp2040_uart::common_configs;
use rp2040_uart::config::{DataBits, Parity, StopBits, UARTConfig};
use rp2040_uart::format::{set_format, LineControl};

fn formatted(data_bits: DataBits, stop_bits: StopBits, parity: Option<Parity>) -> LineControl {
    let mut w = LineControl::new();
    set_format(&mut w, &data_bits, &stop_bits, &parity);
    w
}

#[test]
fn divisor_for_115200_at_125_mhz() {
    // 8 * 125_000_000 / 115200 = 8680 = 67 * 128 + 104
    let d = Divisor::for_baudrate(115200, 125_000_000);
    assert_eq!(d.integer, 67);
    assert_eq!(d.fraction, 52);
    // 500_000_000 / (64 * 67 + 52) = 500_000_000 / 4340
    assert_eq!(d.effective_baudrate(125_000_000), 115_207);
}

#[test]
fn effective_baudrate_is_within_a_few_percent() {
    for baud in [9600u32, 19200, 38400, 57600, 115200] {
        let d = Divisor::for_baudrate(baud, 125_000_000);
        let effective = d.effective_baudrate(125_000_000);
        let off = if effective > baud { effective - baud } else { baud - effective };
        assert!(off * 100 < baud * 3, "{} gave {}", baud, effective);
    }
}

#[test]
fn divisor_for_9600_at_125_mhz() {
    // 8 * 125_000_000 / 9600 = 104166 = 813 * 128 + 102
    let d = Divisor::for_baudrate(9600, 125_000_000);
    assert_eq!(d, Divisor { integer: 813, fraction: 51 });
    assert_eq!(d.effective_baudrate(125_000_000), 500_000_000 / (64 * 813 + 51));
}

#[test]
fn divisor_is_the_same_on_every_call() {
    let first = Divisor::for_baudrate(57600, 48_000_000);
    let second = Divisor::for_baudrate(57600, 48_000_000);
    assert_eq!(first, second);
    assert_eq!(first.effective_baudrate(48_000_000), second.effective_baudrate(48_000_000));
}

#[test]
fn divisor_clamps_low() {
    // raw = 100, whose integer part is 0
    let d = Divisor::for_baudrate(10_000_000, 125_000_000);
    assert_eq!(d, Divisor { integer: 1, fraction: 0 });
    assert_eq!(d.effective_baudrate(125_000_000), 7_812_500);
    // raw = 127 would round its fraction up to 64: the clamp drops it
    let d = Divisor::for_baudrate(8, 127);
    assert_eq!(d, Divisor { integer: 1, fraction: 0 });
    // raw = 0
    let d = Divisor::for_baudrate(9600, 0);
    assert_eq!(d, Divisor { integer: 1, fraction: 0 });
    assert_eq!(d.effective_baudrate(0), 0);
}

#[test]
fn divisor_clamps_high() {
    // raw = 1_000_000_000, whose integer part is over 65535
    let d = Divisor::for_baudrate(1, 125_000_000);
    assert_eq!(d, Divisor { integer: 65535, fraction: 0 });
    assert_eq!(d.effective_baudrate(125_000_000), 119);
    // raw = 65535 * 128 exactly
    let d = Divisor::for_baudrate(8, 65535 * 128);
    assert_eq!(d, Divisor { integer: 65535, fraction: 0 });
    // one below: the last pair that is not clamped
    let d = Divisor::for_baudrate(8, 65535 * 128 - 1);
    assert_eq!(d, Divisor { integer: 65534, fraction: 64 });
}

#[test]
fn divisor_fraction_rounds_up_to_64() {
    // raw = 255 = 1 * 128 + 127
    let d = Divisor::for_baudrate(8, 255);
    assert_eq!(d, Divisor { integer: 1, fraction: 64 });
    assert_eq!(d.effective_baudrate(255), 7);
    // raw = 128: nothing to round
    let d = Divisor::for_baudrate(8, 128);
    assert_eq!(d, Divisor { integer: 1, fraction: 0 });
    // raw = 129: (1 + 1) / 2
    let d = Divisor::for_baudrate(8, 129);
    assert_eq!(d, Divisor { integer: 1, fraction: 1 });
}

#[test]
fn divisor_takes_the_largest_inputs() {
    let d = Divisor::for_baudrate(1, u32::MAX);
    assert_eq!(d, Divisor { integer: 65535, fraction: 0 });
    assert_eq!(d.effective_baudrate(u32::MAX), 4096);
    let d = Divisor::for_baudrate(u32::MAX, u32::MAX);
    assert_eq!(d, Divisor { integer: 1, fraction: 0 });
    assert_eq!(d.effective_baudrate(u32::MAX), 268_435_455);
}

#[test]
fn word_length_codes() {
    assert_eq!(formatted(DataBits::Five, StopBits::One, None).word_length, 0b00);
    assert_eq!(formatted(DataBits::Six, StopBits::One, None).word_length, 0b01);
    assert_eq!(formatted(DataBits::Seven, StopBits::One, None).word_length, 0b10);
    assert_eq!(formatted(DataBits::Eight, StopBits::One, None).word_length, 0b11);
}

#[test]
fn parity_present_sets_enable_and_polarity() {
    let even = formatted(DataBits::Eight, StopBits::One, Some(Parity::Even));
    assert!(even.parity_enable);
    assert!(even.even_parity);
    let odd = formatted(DataBits::Eight, StopBits::One, Some(Parity::Odd));
    assert!(odd.parity_enable);
    assert!(!odd.even_parity);
}

#[test]
fn parity_absent_clears_enable_and_keeps_polarity() {
    let mut w = LineControl::new();
    w.parity_enable = true;
    w.even_parity = true;
    set_format(&mut w, &DataBits::Eight, &StopBits::One, &None);
    assert!(!w.parity_enable);
    assert!(w.even_parity);
    let none = formatted(DataBits::Eight, StopBits::One, None);
    assert!(!none.parity_enable);
    assert!(!none.even_parity);
}

#[test]
fn stop_bit_select() {
    assert!(!formatted(DataBits::Eight, StopBits::One, None).two_stop_bits);
    assert!(formatted(DataBits::Eight, StopBits::Two, None).two_stop_bits);
}

#[test]
fn set_format_keeps_the_fifo_enable() {
    let mut w = LineControl::new();
    w.fifo_enable = true;
    set_format(&mut w, &DataBits::Seven, &StopBits::Two, &Some(Parity::Odd));
    assert!(w.fifo_enable);
    assert!(!formatted(DataBits::Seven, StopBits::Two, Some(Parity::Odd)).fifo_enable);
}

#[test]
fn set_format_replaces_an_earlier_format() {
    let mut w = formatted(DataBits::Eight, StopBits::Two, Some(Parity::Even));
    set_format(&mut w, &DataBits::Five, &StopBits::One, &Some(Parity::Odd));
    assert_eq!(w, formatted(DataBits::Five, StopBits::One, Some(Parity::Odd)));
}

#[test]
fn line_control_register_value() {
    assert_eq!(LineControl::new().bits(), 0);
    let mut w = LineControl::new();
    w.fifo_enable = true;
    set_format(&mut w, &DataBits::Eight, &StopBits::One, &None);
    assert_eq!(w.bits(), 0b0111_0000);
    set_format(&mut w, &DataBits::Seven, &StopBits::Two, &Some(Parity::Even));
    assert_eq!(w.bits(), 0b0101_1110);
    set_format(&mut w, &DataBits::Five, &StopBits::One, &Some(Parity::Odd));
    assert_eq!(w.bits(), 0b0001_0010);
    set_format(&mut w, &DataBits::Six, &StopBits::One, &None);
    assert_eq!(w.bits(), 0b0011_0000);
}

#[test]
fn line_control_register_values_differ() {
    let mut seen: Vec<u8> = Vec::new();
    for data_bits in [DataBits::Five, DataBits::Six, DataBits::Seven, DataBits::Eight] {
        for stop_bits in [StopBits::One, StopBits::Two] {
            for parity in [None, Some(Parity::Odd), Some(Parity::Even)] {
                let bits = formatted(data_bits, stop_bits, parity).bits();
                assert!(!seen.contains(&bits));
                seen.push(bits);
            }
        }
    }
    assert_eq!(seen.len(), 24);
}

#[test]
fn presets_are_8_n_1() {
    let presets: [(UARTConfig, u32); 5] = [
        (common_configs::_9600_8_N_1(), 9600),
        (common_configs::_19200_8_N_1(), 19200),
        (common_configs::_38400_8_N_1(), 38400),
        (common_configs::_57600_8_N_1(), 57600),
        (common_configs::_115200_8_N_1(), 115200),
    ];
    for (config, baudrate) in presets {
        assert_eq!(config.baudrate, baudrate);
        assert_eq!(config.data_bits, DataBits::Eight);
        assert_eq!(config.stop_bits, StopBits::One);
        assert_eq!(config.parity, None);
    }
}
