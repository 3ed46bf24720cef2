//! What a record of accesses says: the bytes that went out and came in, and
//! the divisors that the device has latched.

use crate::baudrate::Divisor;
use crate::device::Access;
use vstd::prelude::*;

verus! {

/// The accesses that queue `data` byte by byte: before each byte a poll that
/// finds room in the transmit FIFO.
pub open spec fn transmit_accesses(data: Seq<u8>) -> Seq<Access>
    decreases data.len(),
{
    if data.len() == 0 {
        Seq::empty()
    } else {
        transmit_accesses(data.drop_last()).push(Access::TransmitFlag { full: false }).push(
            Access::Transmit { byte: data.last() },
        )
    }
}

/// The accesses that take `data` off the receive FIFO byte by byte: before
/// each byte a poll that finds the FIFO not empty.
pub open spec fn receive_accesses(data: Seq<u8>) -> Seq<Access>
    decreases data.len(),
{
    if data.len() == 0 {
        Seq::empty()
    } else {
        receive_accesses(data.drop_last()).push(Access::ReceiveFlag { empty: false }).push(
            Access::Receive { byte: data.last() },
        )
    }
}

/// The accesses of one non-blocking write that queued the first `count`
/// bytes of `data`: those bytes, and where bytes are left over the poll that
/// found the FIFO full.
pub open spec fn write_accesses(data: Seq<u8>, count: int) -> Seq<Access> {
    if count < data.len() {
        transmit_accesses(data.take(count)).push(Access::TransmitFlag { full: true })
    } else {
        transmit_accesses(data)
    }
}

/// The accesses of one non-blocking read that received `data`: those bytes,
/// and the poll that ended the read.
pub open spec fn read_accesses(data: Seq<u8>, empty: bool) -> Seq<Access> {
    receive_accesses(data).push(Access::ReceiveFlag { empty })
}

/// Whether the record ends with a poll that found the receive FIFO empty.
pub open spec fn ends_empty(t: Seq<Access>) -> bool {
    t.len() > 0 && t.last() == (Access::ReceiveFlag { empty: true })
}

/// The bytes written to the data register, oldest first.
pub open spec fn transmitted(t: Seq<Access>) -> Seq<u8>
    decreases t.len(),
{
    if t.len() == 0 {
        Seq::empty()
    } else {
        match t.last() {
            Access::Transmit { byte } => transmitted(t.drop_last()).push(byte),
            _ => transmitted(t.drop_last()),
        }
    }
}

/// The bytes read from the data register, oldest first.
pub open spec fn received(t: Seq<Access>) -> Seq<u8>
    decreases t.len(),
{
    if t.len() == 0 {
        Seq::empty()
    } else {
        match t.last() {
            Access::Receive { byte } => received(t.drop_last()).push(byte),
            _ => received(t.drop_last()),
        }
    }
}

/// Whether every access polls the transmit flag or writes a byte.
pub open spec fn transmit_side(t: Seq<Access>) -> bool {
    forall|i: int| 0 <= i < t.len() ==> (#[trigger] t[i] is TransmitFlag) || t[i] is Transmit
}

/// Whether every access polls the receive flag or reads a byte.
pub open spec fn receive_side(t: Seq<Access>) -> bool {
    forall|i: int| 0 <= i < t.len() ==> (#[trigger] t[i] is ReceiveFlag) || t[i] is Receive
}

/// Whether every access moves data or polls a FIFO flag.
pub open spec fn transfers_only(t: Seq<Access>) -> bool {
    forall|i: int| 0 <= i < t.len() ==> (#[trigger] t[i]).is_transfer()
}

/// Whether every byte was written to the data register right after a poll
/// that found room in the transmit FIFO.
pub open spec fn writes_follow_polls(t: Seq<Access>) -> bool {
    forall|i: int|
        0 <= i < t.len() && (#[trigger] t[i]) is Transmit ==> i > 0 && t[i - 1] == (
        Access::TransmitFlag { full: false })
}

/// Whether every byte was read from the data register right after a poll
/// that found the receive FIFO not empty.
pub open spec fn reads_follow_polls(t: Seq<Access>) -> bool {
    forall|i: int|
        0 <= i < t.len() && (#[trigger] t[i]) is Receive ==> i > 0 && t[i - 1] == (
        Access::ReceiveFlag { empty: false })
}

/// The integer divisor written last, if one was written.
pub open spec fn last_integer_divisor(t: Seq<Access>) -> Option<u16>
    decreases t.len(),
{
    if t.len() == 0 {
        None
    } else {
        match t.last() {
            Access::IntegerDivisor { integer } => Some(integer),
            _ => last_integer_divisor(t.drop_last()),
        }
    }
}

/// The fractional divisor written last, if one was written.
pub open spec fn last_fractional_divisor(t: Seq<Access>) -> Option<u8>
    decreases t.len(),
{
    if t.len() == 0 {
        None
    } else {
        match t.last() {
            Access::FractionalDivisor { fraction } => Some(fraction),
            _ => last_fractional_divisor(t.drop_last()),
        }
    }
}

/// The divisor pair that the device works with: the pair that stood in the
/// divisor registers at the last write to the line-control register. `None`
/// until both divisors were written and such a write followed.
pub open spec fn latched_divisor(t: Seq<Access>) -> Option<Divisor>
    decreases t.len(),
{
    if t.len() == 0 {
        None
    } else if t.last() is Latch || t.last() is LineControl {
        match (last_integer_divisor(t.drop_last()), last_fractional_divisor(t.drop_last())) {
            (Some(integer), Some(fraction)) => Some(Divisor { integer, fraction }),
            _ => latched_divisor(t.drop_last()),
        }
    } else {
        latched_divisor(t.drop_last())
    }
}

/// Queuing one more byte adds a poll that finds room and the byte.
pub proof fn transmit_accesses_step(data: Seq<u8>, count: int)
    requires
        0 <= count < data.len(),
    ensures
        transmit_accesses(data.take(count + 1)) == transmit_accesses(data.take(count)).push(
            Access::TransmitFlag { full: false },
        ).push(Access::Transmit { byte: data[count] }),
{
    assert(data.take(count + 1).drop_last() =~= data.take(count));
}

/// Receiving one more byte adds a poll that finds the FIFO not empty and the
/// byte.
pub proof fn receive_accesses_step(data: Seq<u8>, count: int)
    requires
        0 <= count < data.len(),
    ensures
        receive_accesses(data.take(count + 1)) == receive_accesses(data.take(count)).push(
            Access::ReceiveFlag { empty: false },
        ).push(Access::Receive { byte: data[count] }),
{
    assert(data.take(count + 1).drop_last() =~= data.take(count));
}

/// The bytes that went out over two records in a row are those of the first,
/// then those of the second.
pub proof fn transmitted_concat(a: Seq<Access>, b: Seq<Access>)
    ensures
        transmitted(a + b) == transmitted(a) + transmitted(b),
    decreases b.len(),
{
    if b.len() == 0 {
        assert(a + b =~= a);
        assert(transmitted(a) + transmitted(b) =~= transmitted(a));
    } else {
        assert((a + b).drop_last() =~= a + b.drop_last());
        assert((a + b).last() == b.last());
        transmitted_concat(a, b.drop_last());
        match b.last() {
            Access::Transmit { byte } => {
                assert(transmitted(a) + transmitted(b.drop_last()).push(byte) =~= (transmitted(a)
                    + transmitted(b.drop_last())).push(byte));
            },
            _ => {},
        }
    }
}

/// The bytes that came in over two records in a row are those of the first,
/// then those of the second.
pub proof fn received_concat(a: Seq<Access>, b: Seq<Access>)
    ensures
        received(a + b) == received(a) + received(b),
    decreases b.len(),
{
    if b.len() == 0 {
        assert(a + b =~= a);
        assert(received(a) + received(b) =~= received(a));
    } else {
        assert((a + b).drop_last() =~= a + b.drop_last());
        assert((a + b).last() == b.last());
        received_concat(a, b.drop_last());
        match b.last() {
            Access::Receive { byte } => {
                assert(received(a) + received(b.drop_last()).push(byte) =~= (received(a)
                    + received(b.drop_last())).push(byte));
            },
            _ => {},
        }
    }
}

/// Queuing `data` touches the transmit side only, sends exactly `data`,
/// each byte after a poll that found room, and receives nothing. It ends with
/// the last byte.
pub proof fn transmit_accesses_send(data: Seq<u8>)
    ensures
        transmit_side(transmit_accesses(data)),
        writes_follow_polls(transmit_accesses(data)),
        transmitted(transmit_accesses(data)) == data,
        received(transmit_accesses(data)) == Seq::<u8>::empty(),
        data.len() > 0 ==> transmit_accesses(data).len() > 0 && transmit_accesses(data).last() == (
        Access::Transmit { byte: data.last() }),
    decreases data.len(),
{
    if data.len() > 0 {
        transmit_accesses_send(data.drop_last());
        let head = transmit_accesses(data.drop_last());
        let polled = head.push(Access::TransmitFlag { full: false });
        let all = polled.push(Access::Transmit { byte: data.last() });
        assert forall|i: int| 0 <= i < all.len() && (#[trigger] all[i]) is Transmit implies i > 0
            && all[i - 1] == (Access::TransmitFlag { full: false }) by {
            if i < head.len() {
                assert(head[i] is Transmit);
            }
        }
        assert(polled.drop_last() =~= head);
        assert(all.drop_last() =~= polled);
        assert(transmitted(polled) == transmitted(head));
        assert(transmitted(all) == transmitted(polled).push(data.last()));
        assert(data.drop_last().push(data.last()) =~= data);
        assert(received(polled) == received(head));
        assert(received(all) == received(polled));
    }
}

/// Receiving `data` touches the receive side only, receives exactly `data`,
/// each byte after a poll that found the FIFO not empty, and sends nothing.
pub proof fn receive_accesses_take(data: Seq<u8>)
    ensures
        receive_side(receive_accesses(data)),
        reads_follow_polls(receive_accesses(data)),
        received(receive_accesses(data)) == data,
        transmitted(receive_accesses(data)) == Seq::<u8>::empty(),
    decreases data.len(),
{
    if data.len() > 0 {
        receive_accesses_take(data.drop_last());
        let head = receive_accesses(data.drop_last());
        let polled = head.push(Access::ReceiveFlag { empty: false });
        let all = polled.push(Access::Receive { byte: data.last() });
        assert forall|i: int| 0 <= i < all.len() && (#[trigger] all[i]) is Receive implies i > 0
            && all[i - 1] == (Access::ReceiveFlag { empty: false }) by {
            if i < head.len() {
                assert(head[i] is Receive);
            }
        }
        assert(polled.drop_last() =~= head);
        assert(all.drop_last() =~= polled);
        assert(received(polled) == received(head));
        assert(received(all) == received(polled).push(data.last()));
        assert(data.drop_last().push(data.last()) =~= data);
        assert(transmitted(polled) == transmitted(head));
        assert(transmitted(all) == transmitted(polled));
    }
}

/// One non-blocking write touches the transmit side only and sends exactly
/// the bytes it counted, each after a poll that found room. Where it sent
/// all of `data` and there was any, it ends with the last byte.
pub proof fn write_accesses_send(data: Seq<u8>, count: int)
    requires
        0 <= count <= data.len(),
    ensures
        transmit_side(write_accesses(data, count)),
        writes_follow_polls(write_accesses(data, count)),
        transmitted(write_accesses(data, count)) == data.take(count),
        received(write_accesses(data, count)) == Seq::<u8>::empty(),
        0 < count == data.len() ==> write_accesses(data, count).len() > 0 && write_accesses(
            data,
            count,
        ).last() is Transmit,
{
    transmit_accesses_send(data.take(count));
    if count < data.len() {
        let sent = transmit_accesses(data.take(count));
        let all = sent.push(Access::TransmitFlag { full: true });
        assert(all.drop_last() =~= sent);
        assert forall|i: int| 0 <= i < all.len() && (#[trigger] all[i]) is Transmit implies i > 0
            && all[i - 1] == (Access::TransmitFlag { full: false }) by {
            assert(sent[i] is Transmit);
        }
    } else {
        assert(data.take(count) =~= data);
    }
}

/// One non-blocking read touches the receive side only and receives exactly
/// the bytes it counted, each after a poll that found the FIFO not empty.
pub proof fn read_accesses_take(data: Seq<u8>, empty: bool)
    ensures
        receive_side(read_accesses(data, empty)),
        reads_follow_polls(read_accesses(data, empty)),
        received(read_accesses(data, empty)) == data,
        transmitted(read_accesses(data, empty)) == Seq::<u8>::empty(),
{
    receive_accesses_take(data);
    let taken = receive_accesses(data);
    let all = taken.push(Access::ReceiveFlag { empty });
    assert(all.drop_last() =~= taken);
    assert forall|i: int| 0 <= i < all.len() && (#[trigger] all[i]) is Receive implies i > 0
        && all[i - 1] == (Access::ReceiveFlag { empty: false }) by {
        assert(taken[i] is Receive);
    }
}

/// Two records in which every byte follows its poll make one such record.
pub proof fn follow_polls_concat(a: Seq<Access>, b: Seq<Access>)
    ensures
        writes_follow_polls(a) && writes_follow_polls(b) ==> writes_follow_polls(a + b),
        reads_follow_polls(a) && reads_follow_polls(b) ==> reads_follow_polls(a + b),
        transmit_side(a) && transmit_side(b) ==> transmit_side(a + b),
        receive_side(a) && receive_side(b) ==> receive_side(a + b),
{
    let t = a + b;
    if writes_follow_polls(a) && writes_follow_polls(b) {
        assert forall|i: int| 0 <= i < t.len() && (#[trigger] t[i]) is Transmit implies i > 0
            && t[i - 1] == (Access::TransmitFlag { full: false }) by {
            if i < a.len() {
                assert(a[i] is Transmit);
            } else {
                assert(b[i - a.len()] is Transmit);
                assert(t[i - 1] == b[i - a.len() - 1]);
            }
        }
    }
    if reads_follow_polls(a) && reads_follow_polls(b) {
        assert forall|i: int| 0 <= i < t.len() && (#[trigger] t[i]) is Receive implies i > 0
            && t[i - 1] == (Access::ReceiveFlag { empty: false }) by {
            if i < a.len() {
                assert(a[i] is Receive);
            } else {
                assert(b[i - a.len()] is Receive);
                assert(t[i - 1] == b[i - a.len() - 1]);
            }
        }
    }
    if transmit_side(a) && transmit_side(b) {
        assert forall|i: int| 0 <= i < t.len() implies (#[trigger] t[i] is TransmitFlag)
            || t[i] is Transmit by {
            if i < a.len() {
                assert(a[i] is TransmitFlag || a[i] is Transmit);
            } else {
                assert(b[i - a.len()] is TransmitFlag || b[i - a.len()] is Transmit);
            }
        }
    }
    if receive_side(a) && receive_side(b) {
        assert forall|i: int| 0 <= i < t.len() implies (#[trigger] t[i] is ReceiveFlag)
            || t[i] is Receive by {
            if i < a.len() {
                assert(a[i] is ReceiveFlag || a[i] is Receive);
            } else {
                assert(b[i - a.len()] is ReceiveFlag || b[i - a.len()] is Receive);
            }
        }
    }
}

/// Moving data and polling flags changes neither the divisors written last
/// nor the pair that the device has latched.
pub proof fn transfers_keep_divisor(t: Seq<Access>, s: Seq<Access>)
    requires
        transfers_only(s),
    ensures
        last_integer_divisor(t + s) == last_integer_divisor(t),
        last_fractional_divisor(t + s) == last_fractional_divisor(t),
        latched_divisor(t + s) == latched_divisor(t),
    decreases s.len(),
{
    if s.len() == 0 {
        assert(t + s =~= t);
    } else {
        assert((t + s).drop_last() =~= t + s.drop_last());
        assert((t + s).last() == s.last());
        assert(s[s.len() - 1].is_transfer());
        assert(transfers_only(s.drop_last())) by {
            assert forall|i: int| 0 <= i < s.drop_last().len() implies (#[trigger] s.drop_last()[i]).is_transfer() by {
                assert(s[i].is_transfer());
            }
        }
        transfers_keep_divisor(t, s.drop_last());
    }
}

} // verus!
