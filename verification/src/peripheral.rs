//! The UART peripheral: its lifecycle, and transfers through its FIFOs.

use crate::baudrate::{divisor_for, Divisor};
use crate::config::UARTConfig;
use crate::device::{Access, UARTDevice};
use crate::format::{line_format, set_format, LineControl};
use crate::trace::{
    ends_empty, follow_polls_concat, last_fractional_divisor, last_integer_divisor,
    latched_divisor, read_accesses, read_accesses_take, reads_follow_polls, receive_accesses,
    receive_accesses_step, receive_side, received, received_concat, transfers_keep_divisor,
    transfers_only, transmit_accesses, transmit_accesses_send, transmit_accesses_step,
    transmit_side, transmitted, transmitted_concat, write_accesses, write_accesses_send,
    writes_follow_polls,
};
use core::convert::Infallible;
use vstd::prelude::*;

verus! {

/// `nb::Error`, the error of a non-blocking operation. Its values are not
/// looked into here: with `Infallible` for the other error there is only
/// `WouldBlock`.
#[verifier::external_type_specification]
#[verifier::external_body]
#[verifier::reject_recursive_types(E)]
pub struct ExError<E>(nb::Error<E>);

/// State of the UART Peripheral.
pub trait State {

}

/// UART is enabled.
pub struct Enabled;

/// UART is disabled.
pub struct Disabled;

impl State for Enabled {

}

impl State for Disabled {

}

/// An UART Peripheral based on an underlying UART device.
pub struct UARTPeripheral<S: State, D: UARTDevice> {
    device: D,
    _state: S,
    config: UARTConfig,
    effective_baudrate: u32,
    frequency: Ghost<u32>,
}

/// What a peripheral holds: the device, the configuration it was last enabled
/// with, the clock frequency it was enabled at and the baud rate that was
/// programmed.
pub struct PeripheralView<D> {
    pub device: D,
    pub config: UARTConfig,
    pub frequency: u32,
    pub effective_baudrate: u32,
}

/// The accesses that program the divisors for a wanted baud rate: both
/// divisor registers, then the write that latches them.
pub open spec fn baudrate_accesses(wanted_baudrate: u32, frequency: u32) -> Seq<Access> {
    let d = divisor_for(wanted_baudrate, frequency);
    seq![
        Access::IntegerDivisor { integer: d.integer },
        Access::FractionalDivisor { fraction: d.fraction },
        Access::Latch,
    ]
}

/// The line-control fields for a configuration: its format, with the FIFOs
/// enabled.
pub open spec fn line_control_for(config: UARTConfig) -> LineControl {
    line_format(
        LineControl { fifo_enable: true, ..LineControl::cleared() },
        config.data_bits,
        config.stop_bits,
        config.parity,
    )
}

/// The accesses that enable a device: the divisors, the line format with the
/// FIFOs enabled, the UART with its transmitter and receiver, and the DMA
/// requests of both directions.
pub open spec fn enable_accesses(config: UARTConfig, frequency: u32) -> Seq<Access> {
    baudrate_accesses(config.baudrate, frequency).push(
        Access::LineControl { fields: line_control_for(config) },
    ).push(Access::Control { enable: true, transmit: true, receive: true }).push(
        Access::DmaControl { transmit: true, receive: true },
    )
}

/// The number of bytes that a non-blocking transfer moved: none where it
/// would block.
pub open spec fn moved(result: Result<usize, nb::Error<Infallible>>) -> int {
    match result {
        Ok(count) => count as int,
        Err(_) => 0,
    }
}

impl<D: UARTDevice> PeripheralView<D> {
    /// The stored baud rate is the one that the divisor pair latched in the
    /// device gives at the clock frequency, and that pair is the one computed
    /// for the configuration.
    pub open spec fn rate_is_latched(self) -> bool {
        &&& latched_divisor(self.device.trace()) == Some(
            divisor_for(self.config.baudrate, self.frequency),
        )
        &&& self.effective_baudrate == divisor_for(
            self.config.baudrate,
            self.frequency,
        ).spec_effective_baudrate(self.frequency)
    }

    /// The accesses that the device has made since it was as in `earlier`.
    pub open spec fn accesses_since(self, earlier: Self) -> Seq<Access> {
        self.device.trace().skip(earlier.device.trace().len() as int)
    }

    /// The same peripheral after its device made the accesses `s`.
    pub open spec fn after(self, other: Self, s: Seq<Access>) -> bool {
        &&& other.device.trace() == self.device.trace() + s
        &&& other.config == self.config
        &&& other.frequency == self.frequency
        &&& other.effective_baudrate == self.effective_baudrate
    }
}

impl<S: State, D: UARTDevice> View for UARTPeripheral<S, D> {
    type V = PeripheralView<D>;

    closed spec fn view(&self) -> PeripheralView<D> {
        PeripheralView {
            device: self.device,
            config: self.config,
            frequency: self.frequency@,
            effective_baudrate: self.effective_baudrate,
        }
    }
}

/// The `WouldBlock` variant of `nb::Error`, the only value of the type where
/// the other error is `Infallible`. Nothing is claimed of it.
#[verifier::external_body]
fn would_block() -> nb::Error<Infallible> {
    nb::Error::WouldBlock
}

/// Baudrate configuration: programs the divisors for the wanted baud rate
/// and latches them, and returns the baud rate that they give.
pub fn configure_baudrate<D: UARTDevice>(
    device: &mut D,
    wanted_baudrate: u32,
    frequency: u32,
) -> (effective: u32)
    requires
        wanted_baudrate > 0,
    ensures
        effective == divisor_for(wanted_baudrate, frequency).spec_effective_baudrate(frequency),
        final(device).trace() == old(device).trace() + baudrate_accesses(
            wanted_baudrate,
            frequency,
        ),
{
    let divisor = Divisor::for_baudrate(wanted_baudrate, frequency);

    // Load PL011's baud divisor registers
    device.write_integer_divisor(divisor.integer);
    device.write_fractional_divisor(divisor.fraction);

    // PL011 needs a (dummy) line control register write to latch in the
    // divisors. We don't want to actually change LCR contents here.
    device.latch_divisors();

    assert(device.trace() =~= old(device).trace() + baudrate_accesses(wanted_baudrate, frequency));
    divisor.effective_baudrate(frequency)
}

impl<S: State, D: UARTDevice> UARTPeripheral<S, D> {
    fn transition<To: State>(self, state: To) -> (to: UARTPeripheral<To, D>)
        ensures
            to@ == self@,
    {
        UARTPeripheral {
            device: self.device,
            config: self.config,
            effective_baudrate: self.effective_baudrate,
            frequency: self.frequency,
            _state: state,
        }
    }

    /// Releases the underlying device.
    pub fn free(self) -> (device: D)
        ensures
            device == self@.device,
    {
        self.device
    }

    /// The configuration that the peripheral was last enabled with.
    pub fn config(&self) -> (config: &UARTConfig)
        ensures
            *config == self@.config,
    {
        &self.config
    }

    /// The baud rate that was programmed, which may differ from the one
    /// that the configuration asked for.
    pub fn effective_baudrate(&self) -> (baud: u32)
        ensures
            baud == self@.effective_baudrate,
    {
        self.effective_baudrate
    }
}

impl<D: UARTDevice> UARTPeripheral<Disabled, D> {
    /// Enables the provided UART device with the given configuration.
    ///
    /// The device is programmed in this order: the baud-rate divisors and the
    /// write that latches them; the line format, with the FIFOs enabled, in
    /// one write; the UART with its transmitter and receiver; the DMA
    /// requests of both directions.
    pub fn enable(device: D, config: UARTConfig, frequency: u32) -> (uart: UARTPeripheral<
        Enabled,
        D,
    >)
        requires
            config.wf(),
        ensures
            uart@.config == config,
            uart@.frequency == frequency,
            uart@.effective_baudrate == divisor_for(
                config.baudrate,
                frequency,
            ).spec_effective_baudrate(frequency),
            uart@.device.trace() == device.trace() + enable_accesses(config, frequency),
            uart@.rate_is_latched(),
    {
        let mut device = device;
        let ghost before = device.trace();

        let effective_baudrate = configure_baudrate(&mut device, config.baudrate, frequency);

        let mut w = LineControl::new();
        w.fifo_enable = true;
        set_format(&mut w, &config.data_bits, &config.stop_bits, &config.parity);
        device.write_line_control(w);

        // Enable the UART, both TX and RX
        device.write_control(true, true, true);

        device.write_dma_control(true, true);

        proof {
            assert(device.trace() =~= before + enable_accesses(config, frequency));
            lemma_enable_latches(before, config, frequency);
        }
        UARTPeripheral {
            device,
            config,
            effective_baudrate,
            frequency: Ghost(frequency),
            _state: Enabled,
        }
    }
}

impl<D: UARTDevice> UARTPeripheral<Enabled, D> {
    /// Disable this UART Peripheral, falling back to the Disabled state.
    /// No register of the device is touched.
    pub fn disable(self) -> (uart: UARTPeripheral<Disabled, D>)
        ensures
            uart@ == self@,
    {
        self.transition(Disabled)
    }

    fn uart_is_writable(&mut self) -> (writable: bool)
        ensures
            old(self)@.after(final(self)@, seq![Access::TransmitFlag { full: !writable }]),
            !writable ==> final(self)@.device.patience() < old(self)@.device.patience(),
    {
        let full = self.device.transmit_fifo_full();
        assert(self.device.trace() =~= old(self).device.trace() + seq![
            Access::TransmitFlag { full },
        ]);
        !full
    }

    fn uart_is_readable(&mut self) -> (readable: bool)
        ensures
            old(self)@.after(final(self)@, seq![Access::ReceiveFlag { empty: !readable }]),
            !readable ==> final(self)@.device.patience() < old(self)@.device.patience(),
    {
        let empty = self.device.receive_fifo_empty();
        assert(self.device.trace() =~= old(self).device.trace() + seq![
            Access::ReceiveFlag { empty },
        ]);
        !empty
    }

    /// Writes bytes to the UART.
    /// This function writes as long as it can. As soon that the FIFO is full, if :
    /// - 0 bytes were written, a WouldBlock Error is returned
    /// - some bytes were written, it is deemed to be a success
    /// Upon success, the number of written bytes is returned.
    ///
    /// The device is polled before each byte and not after the last one.
    pub fn write(&mut self, data: &[u8]) -> (result: Result<usize, nb::Error<Infallible>>)
        ensures
            0 <= moved(result) <= data@.len(),
            result is Err <==> moved(result) == 0 && data@.len() > 0,
            old(self)@.after(final(self)@, write_accesses(data@, moved(result))),
            result is Err ==> final(self)@.device.patience() < old(self)@.device.patience(),
            old(self)@.rate_is_latched() ==> final(self)@.rate_is_latched(),
    {
        let mut bytes_written: usize = 0;

        while bytes_written < data.len()
            invariant
                bytes_written <= data@.len(),
                old(self)@.after(self@, transmit_accesses(data@.take(bytes_written as int))),
                bytes_written == 0 ==> self@.device == old(self)@.device,
            decreases data@.len() - bytes_written,
        {
            if !self.uart_is_writable() {
                proof {
                    let sent = transmit_accesses(data@.take(bytes_written as int));
                    assert(self@.device.trace() =~= old(self)@.device.trace() + sent.push(
                        Access::TransmitFlag { full: true },
                    ));
                    write_accesses_send(data@, bytes_written as int);
                    lemma_transfers_keep_rate(
                        old(self)@,
                        self@,
                        write_accesses(data@, bytes_written as int),
                    );
                }
                if bytes_written == 0 {
                    return Err(would_block());
                } else {
                    return Ok(bytes_written);
                }
            }
            self.device.write_data(data[bytes_written]);

            proof {
                transmit_accesses_step(data@, bytes_written as int);
                assert(self@.device.trace() =~= old(self)@.device.trace() + transmit_accesses(
                    data@.take(bytes_written + 1),
                ));
            }
            bytes_written += 1;
        }
        proof {
            assert(data@.take(bytes_written as int) =~= data@);
            write_accesses_send(data@, bytes_written as int);
            lemma_transfers_keep_rate(old(self)@, self@, write_accesses(data@, bytes_written as int));
        }
        Ok(bytes_written)
    }

    /// Reads bytes from the UART.
    /// This function reads as long as it can. As soon that the FIFO is empty, if :
    /// - 0 bytes were read, a WouldBlock Error is returned
    /// - some bytes were read, it is deemed to be a success
    /// Upon success, the number of read bytes is returned.
    ///
    /// The device is polled before each byte and once more when the buffer is
    /// full. The bytes read fill the front of the buffer; the rest of it is
    /// left as it was.
    pub fn read(&mut self, buffer: &mut [u8]) -> (result: Result<usize, nb::Error<Infallible>>)
        ensures
            final(buffer)@.len() == old(buffer)@.len(),
            0 <= moved(result) <= old(buffer)@.len(),
            final(buffer)@.skip(moved(result)) == old(buffer)@.skip(moved(result)),
            old(self)@.after(
                final(self)@,
                read_accesses(
                    final(buffer)@.take(moved(result)),
                    ends_empty(final(self)@.device.trace()),
                ),
            ),
            ends_empty(final(self)@.device.trace()) || moved(result) == old(buffer)@.len(),
            result is Err <==> moved(result) == 0 && ends_empty(final(self)@.device.trace()),
            result is Err ==> final(self)@.device.patience() < old(self)@.device.patience(),
            old(self)@.rate_is_latched() ==> final(self)@.rate_is_latched(),
    {
        let mut bytes_read: usize = 0;

        loop
            invariant
                buffer@.len() == old(buffer)@.len(),
                bytes_read <= buffer@.len(),
                forall|i: int| bytes_read <= i < buffer@.len() ==> buffer@[i] == old(buffer)@[i],
                old(self)@.after(self@, receive_accesses(buffer@.take(bytes_read as int))),
                bytes_read == 0 ==> self@.device == old(self)@.device,
            decreases buffer@.len() - bytes_read,
        {
            let readable = self.uart_is_readable();
            proof {
                let taken = receive_accesses(buffer@.take(bytes_read as int));
                assert(self@.device.trace() =~= old(self)@.device.trace() + taken.push(
                    Access::ReceiveFlag { empty: !readable },
                ));
                assert(self@.device.trace().last() == Access::ReceiveFlag { empty: !readable });
                read_accesses_take(buffer@.take(bytes_read as int), !readable);
                assert(buffer@.skip(bytes_read as int) =~= old(buffer)@.skip(bytes_read as int));
                lemma_transfers_keep_rate(
                    old(self)@,
                    self@,
                    read_accesses(buffer@.take(bytes_read as int), !readable),
                );
            }
            if !readable {
                if bytes_read == 0 {
                    return Err(would_block());
                } else {
                    return Ok(bytes_read);
                }
            }
            if bytes_read < buffer.len() {
                let ghost filled = buffer@;
                let byte = self.device.read_data();
                buffer[bytes_read] = byte;
                proof {
                    assert(buffer@.take(bytes_read as int) =~= filled.take(bytes_read as int));
                    receive_accesses_step(buffer@, bytes_read as int);
                    assert(self@.device.trace() =~= old(self)@.device.trace() + receive_accesses(
                        buffer@.take(bytes_read + 1),
                    ));
                }
                bytes_read += 1;
            } else {
                return Ok(bytes_read);
            }
        }
    }

    /// Writes bytes to the UART.
    /// This function blocks until the full buffer has been sent.
    ///
    /// It polls the transmit flag and queues bytes, nothing else, and the
    /// bytes it queues are those of `data`, in order.
    pub fn write_full_blocking(&mut self, data: &[u8])
        ensures
            old(self)@.after(final(self)@, final(self)@.accesses_since(old(self)@)),
            transmit_side(final(self)@.accesses_since(old(self)@)),
            writes_follow_polls(final(self)@.accesses_since(old(self)@)),
            transmitted(final(self)@.accesses_since(old(self)@)) == data@,
            data@.len() > 0 ==> final(self)@.device.trace().last() == (Access::Transmit {
                byte: data@.last(),
            }),
            transmitted(final(self)@.device.trace()) == transmitted(old(self)@.device.trace())
                + data@,
            received(final(self)@.device.trace()) == received(old(self)@.device.trace()),
            old(self)@.rate_is_latched() ==> final(self)@.rate_is_latched(),
    {
        let mut offset: usize = 0;
        let ghost mut done: Seq<Access> = Seq::empty();
        proof {
            assert(old(self)@.device.trace() + done =~= old(self)@.device.trace());
            assert(data@.take(0) =~= Seq::<u8>::empty());
        }

        while offset != data.len()
            invariant
                offset <= data@.len(),
                old(self)@.after(self@, done),
                transmit_side(done),
                writes_follow_polls(done),
                transmitted(done) == data@.take(offset as int),
                received(done) == Seq::<u8>::empty(),
                offset == data@.len() > 0 ==> done.len() > 0 && done.last() == (Access::Transmit {
                    byte: data@.last(),
                }),
            decreases data@.len() - offset, self@.device.patience(),
        {
            let rest = vstd::slice::slice_subrange(data, offset, data.len());
            let result = self.write(rest);
            proof {
                let step = write_accesses(rest@, moved(result));
                write_accesses_send(rest@, moved(result));
                follow_polls_concat(done, step);
                if moved(result) == rest@.len() {
                    transmit_accesses_send(rest@);
                    assert(rest@.last() == data@.last());
                }
                transmitted_concat(done, step);
                received_concat(done, step);
                assert(self@.device.trace() =~= old(self)@.device.trace() + (done + step));
                assert(data@.take(offset as int) + rest@.take(moved(result)) =~= data@.take(
                    offset + moved(result),
                ));
                done = done + step;
            }
            match result {
                Ok(written_bytes) => {
                    offset += written_bytes;
                },
                Err(_) => {},
            }
        }
        proof {
            assert(data@.take(offset as int) =~= data@);
            transmitted_concat(old(self)@.device.trace(), done);
            received_concat(old(self)@.device.trace(), done);
            assert(received(old(self)@.device.trace()) + Seq::<u8>::empty() =~= received(
                old(self)@.device.trace(),
            ));
            lemma_transfers_keep_rate(old(self)@, self@, done);
            assert(self@.accesses_since(old(self)@) =~= done);
        }
    }

    /// Reads bytes from the UART.
    /// This function blocks until the full buffer has been received.
    ///
    /// It polls the receive flag and takes bytes, nothing else, and the bytes
    /// it takes fill the buffer, in order.
    pub fn read_full_blocking(&mut self, buffer: &mut [u8])
        ensures
            final(buffer)@.len() == old(buffer)@.len(),
            old(self)@.after(final(self)@, final(self)@.accesses_since(old(self)@)),
            receive_side(final(self)@.accesses_since(old(self)@)),
            reads_follow_polls(final(self)@.accesses_since(old(self)@)),
            received(final(self)@.accesses_since(old(self)@)) == final(buffer)@,
            received(final(self)@.device.trace()) == received(old(self)@.device.trace())
                + final(buffer)@,
            transmitted(final(self)@.device.trace()) == transmitted(old(self)@.device.trace()),
            old(self)@.rate_is_latched() ==> final(self)@.rate_is_latched(),
    {
        let mut offset: usize = 0;
        let ghost mut done: Seq<Access> = Seq::empty();
        proof {
            assert(old(self)@.device.trace() + done =~= old(self)@.device.trace());
            assert(buffer@.take(0) =~= Seq::<u8>::empty());
        }

        while offset != buffer.len()
            invariant
                buffer@.len() == old(buffer)@.len(),
                offset <= buffer@.len(),
                old(self)@.after(self@, done),
                receive_side(done),
                reads_follow_polls(done),
                received(done) == buffer@.take(offset as int),
                transmitted(done) == Seq::<u8>::empty(),
            decreases buffer@.len() - offset, self@.device.patience(),
        {
            let ghost whole = buffer@;
            let (_, rest) = buffer.split_at_mut(offset);
            let result = self.read(rest);
            proof {
                let empty = ends_empty(self@.device.trace());
                let step = read_accesses(rest@.take(moved(result)), empty);
                read_accesses_take(rest@.take(moved(result)), empty);
                follow_polls_concat(done, step);
                received_concat(done, step);
                transmitted_concat(done, step);
                assert(self@.device.trace() =~= old(self)@.device.trace() + (done + step));
                assert(buffer@ =~= whole.take(offset as int) + rest@);
                assert(buffer@.take(offset as int) =~= whole.take(offset as int));
                assert(buffer@.take(offset as int) + rest@.take(moved(result)) =~= buffer@.take(
                    offset + moved(result),
                ));
                done = done + step;
            }
            match result {
                Ok(bytes_read) => {
                    offset += bytes_read;
                },
                Err(_) => {},
            }
        }
        proof {
            assert(buffer@.take(offset as int) =~= buffer@);
            received_concat(old(self)@.device.trace(), done);
            transmitted_concat(old(self)@.device.trace(), done);
            assert(transmitted(old(self)@.device.trace()) + Seq::<u8>::empty() =~= transmitted(
                old(self)@.device.trace(),
            ));
            lemma_transfers_keep_rate(old(self)@, self@, done);
            assert(self@.accesses_since(old(self)@) =~= done);
        }
    }
}

/// Transfers leave the programmed rate as it is: a peripheral whose stored
/// baud rate is the latched one still has it after accesses that only move
/// data or poll flags.
pub proof fn lemma_transfers_keep_rate<D: UARTDevice>(
    before: PeripheralView<D>,
    after: PeripheralView<D>,
    s: Seq<Access>,
)
    requires
        before.after(after, s),
        transmit_side(s) || receive_side(s) || transfers_only(s),
    ensures
        before.rate_is_latched() ==> after.rate_is_latched(),
{
    assert(transfers_only(s)) by {
        assert forall|i: int| 0 <= i < s.len() implies (#[trigger] s[i]).is_transfer() by {
            if transmit_side(s) {
                assert(s[i] is TransmitFlag || s[i] is Transmit);
            } else if receive_side(s) {
                assert(s[i] is ReceiveFlag || s[i] is Receive);
            }
        }
    }
    transfers_keep_divisor(before.device.trace(), s);
}

/// After the accesses that enable a device, the pair latched is the one
/// computed for the configuration, whatever was done to the device before.
pub proof fn lemma_enable_latches(before: Seq<Access>, config: UARTConfig, frequency: u32)
    ensures
        latched_divisor(before + enable_accesses(config, frequency)) == Some(
            divisor_for(config.baudrate, frequency),
        ),
{
    let d = divisor_for(config.baudrate, frequency);
    let t1 = before.push(Access::IntegerDivisor { integer: d.integer });
    let t2 = t1.push(Access::FractionalDivisor { fraction: d.fraction });
    let t3 = t2.push(Access::Latch);
    let t4 = t3.push(Access::LineControl { fields: line_control_for(config) });
    let t5 = t4.push(Access::Control { enable: true, transmit: true, receive: true });
    let t6 = t5.push(Access::DmaControl { transmit: true, receive: true });
    assert(t6 =~= before + enable_accesses(config, frequency));
    assert(t2.drop_last() =~= t1);
    assert(t3.drop_last() =~= t2);
    assert(t4.drop_last() =~= t3);
    assert(t5.drop_last() =~= t4);
    assert(t6.drop_last() =~= t5);
    assert(last_integer_divisor(t1) == Some(d.integer));
    assert(last_integer_divisor(t2) == Some(d.integer));
    assert(last_integer_divisor(t3) == Some(d.integer));
    assert(last_fractional_divisor(t2) == Some(d.fraction));
    assert(last_fractional_divisor(t3) == Some(d.fraction));
    assert(latched_divisor(t4) == Some(d));
    assert(latched_divisor(t5) == Some(d));
    assert(latched_divisor(t6) == Some(d));
}

} // verus!
