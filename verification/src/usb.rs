//! Byte streams on top of USB packets.
use vstd::prelude::*;

use crate::stream::circular_bytes::{extended, least, CircularBytes};

verus! {

/// The size of the largest packet at full speed.
pub const MAX_FULL_SPEED_PACKET_SIZE: usize = 64;

/// The packets that a read waits for before it gives up: one, and another in
/// case the first has no bytes.
pub const PACKETS_PER_READ: u8 = 2;

/// A stream of bytes from a packet receiver.
///
/// The caller receives the packets: [`UsbReadStream::read`] says when one is
/// needed and [`UsbReadStream::packet`] takes it.
pub struct UsbReadStream<R> {
    receiver: R,
    pending_read: CircularBytes<MAX_FULL_SPEED_PACKET_SIZE>,
}

/// How a read goes on.
#[derive(Debug, Clone, Copy, PartialEq, Eq, Structural)]
pub enum ReadStep {
    /// So many bytes were read.
    Done(usize),
    /// A packet is needed; so many may still be asked for.
    NeedPacket { tries_left: u8 },
}

impl<R> UsbReadStream<R> {
    /// The receiver.
    pub closed spec fn receiver(self) -> R {
        self.receiver
    }

    /// The bytes that were received and not read yet.
    pub closed spec fn pending(self) -> Seq<u8> {
        self.pending_read@
    }

    /// A stream of the bytes that `receiver` gets.
    pub fn new(receiver: R) -> (r: Self)
        ensures
            r.receiver() == receiver,
            r.pending() == Seq::<u8>::empty(),
    {
        UsbReadStream { receiver, pending_read: CircularBytes::new() }
    }

    /// The receiver, to get a packet from.
    pub fn receiver_mut(&mut self) -> (r: &mut R)
        ensures
            *r == old(self).receiver(),
            final(self).receiver() == *final(r),
            final(self).pending() == old(self).pending(),
    {
        &mut self.receiver
    }

    /// Begins to read into `buf`. Bytes that wait are read at once; otherwise a
    /// packet is needed.
    pub fn read(&mut self, buf: &mut [u8]) -> (r: ReadStep)
        ensures
            final(self).receiver() == old(self).receiver(),
            old(self).pending().len() == 0 ==> {
                &&& r == (ReadStep::NeedPacket { tries_left: PACKETS_PER_READ })
                &&& final(self).pending() == old(self).pending()
                &&& final(buf)@ == old(buf)@
            },
            old(self).pending().len() > 0 ==> delivered(
                old(self).pending(),
                old(buf)@,
                r,
                final(self).pending(),
                final(buf)@,
            ),
    {
        if !self.pending_read.is_empty() {
            return ReadStep::Done(self.pending_read.consume_to(buf));
        }
        ReadStep::NeedPacket { tries_left: PACKETS_PER_READ }
    }

    /// Goes on reading into `buf` with a packet that was received. An empty
    /// packet makes the read ask for another, unless it was the last try.
    pub fn packet(&mut self, tries_left: u8, packet: &[u8], buf: &mut [u8]) -> (r: ReadStep)
        requires
            0 < tries_left,
            packet@.len() <= MAX_FULL_SPEED_PACKET_SIZE,
        ensures
            final(self).receiver() == old(self).receiver(),
            packet@.len() == 0 && tries_left > 1 ==> {
                &&& r == (ReadStep::NeedPacket { tries_left: (tries_left - 1) as u8 })
                &&& final(self).pending() == old(self).pending()
                &&& final(buf)@ == old(buf)@
            },
            packet@.len() > 0 || tries_left == 1 ==> delivered(
                extended(old(self).pending(), packet@, MAX_FULL_SPEED_PACKET_SIZE as int),
                old(buf)@,
                r,
                final(self).pending(),
                final(buf)@,
            ),
    {
        if packet.len() == 0 && tries_left > 1 {
            return ReadStep::NeedPacket { tries_left: tries_left - 1 };
        }
        self.pending_read.extend_from_slice(packet);
        ReadStep::Done(self.pending_read.consume_to(buf))
    }
}

/// A read is done: as many of the bytes `waiting` as fit were moved to the front
/// of the buffer.
pub open spec fn delivered(
    waiting: Seq<u8>,
    buf: Seq<u8>,
    r: ReadStep,
    still_waiting: Seq<u8>,
    filled: Seq<u8>,
) -> bool {
    let n = least(waiting.len() as int, buf.len() as int);
    &&& r == ReadStep::Done(n as usize)
    &&& still_waiting == waiting.skip(n)
    &&& filled == waiting.take(n) + buf.skip(n)
}

/// A read loses no byte and keeps their order: what it moved to the buffer and
/// what still waits are the bytes that waited before.
pub proof fn law_reads_lose_nothing(
    waiting: Seq<u8>,
    buf: Seq<u8>,
    r: ReadStep,
    still_waiting: Seq<u8>,
    filled: Seq<u8>,
)
    requires
        delivered(waiting, buf, r, still_waiting, filled),
        buf.len() <= usize::MAX,
    ensures
        r matches ReadStep::Done(n) && filled.take(n as int) + still_waiting == waiting,
        filled.len() == buf.len(),
{
    let n = least(waiting.len() as int, buf.len() as int);
    assert(filled.take(n) =~= waiting.take(n));
    assert(waiting.take(n) + waiting.skip(n) =~= waiting);
}

/// A read hands over as much as it can: it fills the buffer, or nothing waits any
/// more. The rest of the buffer keeps its bytes.
pub proof fn law_reads_hand_over_all_they_can(
    waiting: Seq<u8>,
    buf: Seq<u8>,
    r: ReadStep,
    still_waiting: Seq<u8>,
    filled: Seq<u8>,
)
    requires
        delivered(waiting, buf, r, still_waiting, filled),
        buf.len() <= usize::MAX,
    ensures
        r matches ReadStep::Done(n) && (n == buf.len() || (n == waiting.len()
            && still_waiting.len() == 0)) && n <= waiting.len() && n <= buf.len(),
        r matches ReadStep::Done(n) && forall|i: int|
            0 <= i < buf.len() ==> #[trigger] filled[i] == (if i < n {
                waiting[i]
            } else {
                buf[i]
            }),
{
}

/// The part of `buf` that goes into the next packet.
pub open spec fn next_packet(buf: Seq<u8>) -> Seq<u8> {
    buf.take(least(buf.len() as int, MAX_FULL_SPEED_PACKET_SIZE as int))
}

/// The packets that carry all of `buf`, when each write goes on behind the one
/// before.
pub open spec fn packets_of(buf: Seq<u8>) -> Seq<Seq<u8>>
    decreases buf.len(),
{
    if buf.len() == 0 {
        Seq::empty()
    } else {
        seq![next_packet(buf)] + packets_of(buf.skip(next_packet(buf).len() as int))
    }
}

/// The packets that carry some bytes are those bytes in order, and none of them
/// is empty or too large.
pub proof fn law_packets_carry_the_bytes(buf: Seq<u8>)
    ensures
        packets_of(buf).flatten() == buf,
        forall|i: int|
            0 <= i < packets_of(buf).len() ==> 0 < (#[trigger] packets_of(buf)[i]).len()
                <= MAX_FULL_SPEED_PACKET_SIZE,
    decreases buf.len(),
{
    let packets = packets_of(buf);
    if buf.len() > 0 {
        let packet = next_packet(buf);
        let rest = buf.skip(packet.len() as int);
        law_packets_carry_the_bytes(rest);
        assert(packets.drop_first() =~= packets_of(rest));
        assert(packet + rest =~= buf);
        assert forall|i: int| 0 <= i < packets.len() implies 0 < (#[trigger] packets[i]).len()
            <= MAX_FULL_SPEED_PACKET_SIZE by {
            if i > 0 {
                assert(packets[i] == packets_of(rest)[i - 1]);
            }
        }
    } else {
        assert(packets.flatten() =~= buf);
    }
}

/// Every packet but the last one is as large as a packet can be, and a write of
/// no more than 64 bytes goes out in one.
pub proof fn law_packets_are_full(buf: Seq<u8>)
    ensures
        buf.len() <= 64 ==> next_packet(buf) == buf,
        buf.len() > 64 ==> next_packet(buf) == buf.subrange(0, 64),
        forall|i: int|
            0 <= i < packets_of(buf).len() - 1 ==> (#[trigger] packets_of(buf)[i]).len() == 64,
    decreases buf.len(),
{
    let packets = packets_of(buf);
    let packet = next_packet(buf);
    assert(buf.len() <= 64 ==> packet =~= buf);
    assert(buf.len() > 64 ==> packet =~= buf.subrange(0, 64));
    if buf.len() > 0 {
        let rest = buf.skip(packet.len() as int);
        law_packets_are_full(rest);
        assert forall|i: int| 0 <= i < packets.len() - 1 implies (#[trigger] packets[i]).len()
            == 64 by {
            if i > 0 {
                assert(packets[i] == packets_of(rest)[i - 1]);
            } else if buf.len() <= 64 {
                assert(packets_of(rest).len() == 0);
            }
        }
    }
}

/// A packet sender that takes a stream of bytes.
pub struct UsbWriteStream<S> {
    sender: S,
}

impl<S> UsbWriteStream<S> {
    /// The sender.
    pub closed spec fn sender(self) -> S {
        self.sender
    }

    /// A stream whose bytes `sender` sends.
    pub fn new(sender: S) -> (r: Self)
        ensures
            r.sender() == sender,
    {
        UsbWriteStream { sender }
    }

    /// The sender, to send a packet with.
    pub fn sender_mut(&mut self) -> (r: &mut S)
        ensures
            *r == old(self).sender(),
            final(self).sender() == *final(r),
    {
        &mut self.sender
    }

    /// The part of `buf` that goes into one packet. Once it was sent, its length
    /// is how much was written.
    pub fn write<'a>(&self, buf: &'a [u8]) -> (r: &'a [u8])
        ensures
            r@ == next_packet(buf@),
    {
        let len: usize = if buf.len() <= MAX_FULL_SPEED_PACKET_SIZE {
            buf.len()
        } else {
            MAX_FULL_SPEED_PACKET_SIZE
        };
        vstd::slice::slice_subrange(buf, 0, len)
    }
}

} // verus!
