//! The SPI interface of the NAND controller: register access, block transfers
//! and the state machines that carry them.
use core::marker::PhantomData;
use vstd::prelude::*;

use crate::bytes::{
    copy_at, law_short_numbers, le_bytes, le_value, lemma_le_value_of_bytes, pow256, splice,
    u32_from_le, u32_le,
};
use crate::spiex::byteswap::{byte_swap, law_swap_undoes_itself, mirrored, swapped};

pub mod byteswap;
pub mod clock;
pub mod dma_async;
pub mod lba;

verus! {

/// The level of a pin.
#[derive(Debug, Clone, Copy, PartialEq, Eq, Structural)]
pub enum Level {
    Low,
    High,
}

/// One of the state machines that drive the SPI lines.
#[derive(Debug, Clone, Copy, PartialEq, Eq, Structural)]
pub enum Machine {
    /// Full-duplex bytes, with the chip select driven apart.
    Spi,
    /// Whole blocks.
    Lba,
    /// Register writes back to back.
    RegBulk,
}

/// What the SPI lines are used for.
pub trait SpiexMode {
    /// The state machine that drives the lines in this mode.
    spec fn machine() -> Machine;
}

/// Single registers are read and written.
pub struct SpiMode;

/// Blocks are transferred.
pub struct LbaMode;

/// Several registers are written at once.
pub struct RegBulkMode;

impl SpiexMode for SpiMode {
    open spec fn machine() -> Machine {
        Machine::Spi
    }
}

impl SpiexMode for LbaMode {
    open spec fn machine() -> Machine {
        Machine::Lba
    }
}

impl SpiexMode for RegBulkMode {
    open spec fn machine() -> Machine {
        Machine::RegBulk
    }
}

/// The lines pass from one state machine to another: `off` is disabled, then
/// `on` is enabled.
#[derive(Debug, Clone, Copy, PartialEq, Eq, Structural)]
pub struct Handover {
    pub off: Machine,
    pub on: Machine,
}

/// Which state machines are enabled, and the level of the chip select.
pub struct SpiexState<Mode: SpiexMode> {
    spi: bool,
    lba: bool,
    reg_bulk: bool,
    cs: Level,
    _marker: PhantomData<Mode>,
}

impl<Mode: SpiexMode> SpiexState<Mode> {
    /// Only the state machine of the mode is enabled, so no two of them drive
    /// the lines at once.
    #[verifier::type_invariant]
    pub closed spec fn wf(self) -> bool {
        &&& self.spi == (Mode::machine() == Machine::Spi)
        &&& self.lba == (Mode::machine() == Machine::Lba)
        &&& self.reg_bulk == (Mode::machine() == Machine::RegBulk)
    }

    /// Whether a state machine is enabled.
    pub closed spec fn enabled(self, machine: Machine) -> bool {
        match machine {
            Machine::Spi => self.spi,
            Machine::Lba => self.lba,
            Machine::RegBulk => self.reg_bulk,
        }
    }

    /// The level of the chip select.
    pub closed spec fn cs(self) -> Level {
        self.cs
    }

    /// Whether a state machine is enabled.
    pub fn is_enabled(&self, machine: Machine) -> (r: bool)
        ensures
            r == self.enabled(machine),
            r <==> machine == Mode::machine(),
    {
        proof {
            use_type_invariant(self);
        }
        match machine {
            Machine::Spi => self.spi,
            Machine::Lba => self.lba,
            Machine::RegBulk => self.reg_bulk,
        }
    }
}

/// A part of reading or writing a register.
#[derive(Debug, Clone, Copy, PartialEq, Eq, Structural)]
pub enum RegStep {
    /// Set the chip select.
    Cs(Level),
    /// Send the bytes of the access and receive as many.
    Exchange,
}

/// How a register is read or written: the chip select is low around the bytes.
pub open spec fn reg_access_steps() -> Seq<RegStep> {
    seq![RegStep::Cs(Level::Low), RegStep::Exchange, RegStep::Cs(Level::High)]
}

/// The level of the chip select after several steps, if it was `cs` before.
pub open spec fn cs_after(cs: Level, steps: Seq<RegStep>) -> Level
    decreases steps.len(),
{
    if steps.len() == 0 {
        cs
    } else {
        match steps.last() {
            RegStep::Cs(level) => level,
            RegStep::Exchange => cs_after(cs, steps.drop_last()),
        }
    }
}

/// Whatever the chip select was before, a register access has it low while bytes
/// are exchanged and leaves it high; bytes are exchanged exactly once.
pub proof fn law_chip_select_frames_the_access(cs: Level, i: int)
    requires
        0 <= i < reg_access_steps().len(),
    ensures
        reg_access_steps()[i] == RegStep::Exchange ==> cs_after(cs, reg_access_steps().take(i))
            == Level::Low,
        reg_access_steps()[i] == RegStep::Exchange <==> i == 1,
        cs_after(cs, reg_access_steps()) == Level::High,
{
}

/// The byte that starts a register read: the register number above two bits that
/// say what follows. Numbers of 64 and more lose their upper bits.
pub open spec fn read_command(reg: u8) -> u8 {
    ((reg % 64) * 4 + 1) as u8
}

/// The byte that starts a register write.
pub open spec fn write_command(reg: u8) -> u8 {
    ((reg % 64) * 4 + 2) as u8
}

/// The byte that starts a register read.
fn read_command_byte(reg: u8) -> (r: u8)
    ensures
        r == read_command(reg),
        r == (reg << 2) | 1,
{
    assert((reg << 2) | 1 == (reg % 64) * 4 + 1) by (bit_vector);
    (reg << 2) | 1
}

/// The byte that starts a register write.
fn write_command_byte(reg: u8) -> (r: u8)
    ensures
        r == write_command(reg),
        r == (reg << 2) | 2,
{
    assert((reg << 2) | 2 == (reg % 64) * 4 + 2) by (bit_vector);
    (reg << 2) | 2
}

impl SpiexState<SpiMode> {
    /// The state after set-up: the SPI machine is enabled and the chip select is
    /// high.
    pub fn new() -> (r: Self)
        ensures
            r.cs() == Level::High,
            forall|m: Machine| #[trigger] r.enabled(m) <==> m == Machine::Spi,
    {
        SpiexState { spi: true, lba: false, reg_bulk: false, cs: Level::High, _marker: PhantomData }
    }

    /// How a register is read or written. The bytes to exchange are those of
    /// [`SpiexState::read_reg`] or [`SpiexState::write_reg`].
    pub fn reg_access() -> (r: [RegStep; 3])
        ensures
            r@ == reg_access_steps(),
    {
        let r: [RegStep; 3] = [RegStep::Cs(Level::Low), RegStep::Exchange, RegStep::Cs(Level::High)];
        assert(r@ =~= reg_access_steps());
        r
    }

    /// The bytes to send while six bytes are received, to read a register.
    pub fn read_reg(&self, reg: u8) -> (r: [u8; 6])
        ensures
            r@ == swapped(seq![read_command(reg), 0xff, 0, 0, 0, 0]),
            mirrored(r@[0]) == (reg << 2) | 1,
            r@.subrange(1, 6) == seq![0xffu8, 0, 0, 0, 0],
    {
        let mut out_data: [u8; 6] = [read_command_byte(reg), 0xff, 0, 0, 0, 0];
        assert(out_data@ =~= seq![read_command(reg), 0xff, 0, 0, 0, 0]);
        byte_swap(&mut out_data);
        proof {
            lemma_mirrored_twice(read_command(reg));
            assert((reg << 2) | 1 == (reg % 64) * 4 + 1) by (bit_vector);
            assert(mirrored(0) == 0 && mirrored(0xff) == 0xff) by (bit_vector);
            assert(out_data@.subrange(1, 6) =~= seq![0xffu8, 0, 0, 0, 0]);
        }
        out_data
    }

    /// The value of a register, from the six bytes received while reading it:
    /// the last four, least significant first.
    pub fn read_reg_value(&self, in_data: [u8; 6]) -> (r: u32)
        ensures
            r as nat == le_value(swapped(in_data@).skip(2)),
            r == mirrored(in_data@[2]) + 0x100 * mirrored(in_data@[3]) + 0x1_0000 * mirrored(
                in_data@[4],
            ) + 0x100_0000 * mirrored(in_data@[5]),
    {
        proof {
            law_register_values_are_spelled(0, 0, in_data@);
        }
        let mut data: [u8; 6] = in_data;
        byte_swap(&mut data);
        let value: [u8; 4] = [data[2], data[3], data[4], data[5]];
        assert(value@ =~= data@.skip(2));
        u32_from_le(value)
    }

    /// The bytes to send to write a register.
    pub fn write_reg(&self, reg: u8, value: u32) -> (r: [u8; 5])
        ensures
            r@ == swapped(seq![write_command(reg)] + le_bytes(value as nat, 4)),
            mirrored(r@[0]) == (reg << 2) | 2,
            mirrored(r@[1]) + 0x100 * mirrored(r@[2]) + 0x1_0000 * mirrored(r@[3]) + 0x100_0000
                * mirrored(r@[4]) == value,
    {
        proof {
            law_register_values_are_spelled(reg, value, seq![0, 0, 0, 0, 0, 0]);
            lemma_mirrored_twice(write_command(reg));
            assert((reg << 2) | 2 == (reg % 64) * 4 + 2) by (bit_vector);
        }
        let v: [u8; 4] = u32_le(value);
        let mut out_data: [u8; 5] = [write_command_byte(reg), v[0], v[1], v[2], v[3]];
        assert(out_data@ =~= seq![write_command(reg)] + v@);
        byte_swap(&mut out_data);
        out_data
    }

    /// Sets the chip select.
    pub fn set_cs(&mut self, level: Level)
        ensures
            final(self).cs() == level,
            forall|m: Machine| #[trigger]
                final(self).enabled(m) == old(self).enabled(m),
    {
        proof {
            use_type_invariant(&*self);
        }
        self.cs = level;
    }

    /// Hands the lines to the machine for blocks.
    pub fn into_lba(self) -> (r: (SpiexState<LbaMode>, Handover))
        ensures
            r.0.cs() == self.cs(),
            forall|m: Machine| #[trigger] r.0.enabled(m) <==> m == Machine::Lba,
            r.1 == (Handover { off: Machine::Spi, on: Machine::Lba }),
    {
        proof {
            use_type_invariant(&self);
        }
        (
            SpiexState {
                spi: false,
                lba: true,
                reg_bulk: self.reg_bulk,
                cs: self.cs,
                _marker: PhantomData,
            },
            Handover { off: Machine::Spi, on: Machine::Lba },
        )
    }

    /// Hands the lines to the machine for several register writes.
    pub fn into_reg_bulk(self) -> (r: (SpiexState<RegBulkMode>, Handover))
        ensures
            r.0.cs() == self.cs(),
            forall|m: Machine| #[trigger] r.0.enabled(m) <==> m == Machine::RegBulk,
            r.1 == (Handover { off: Machine::Spi, on: Machine::RegBulk }),
    {
        proof {
            use_type_invariant(&self);
        }
        (
            SpiexState {
                spi: false,
                lba: self.lba,
                reg_bulk: true,
                cs: self.cs,
                _marker: PhantomData,
            },
            Handover { off: Machine::Spi, on: Machine::RegBulk },
        )
    }
}

impl SpiexState<RegBulkMode> {
    /// Puts the bytes of the requests, one after the other, at the front of
    /// `out` and returns how many there are.
    pub fn write_reg_bulk(&self, requests: &[RegWriteRequest], out: &mut [u8]) -> (r: usize)
        requires
            6 * requests@.len() <= old(out)@.len(),
        ensures
            r == 6 * requests@.len(),
            final(out)@ == splice(old(out)@, 0, bulk_bytes(requests@)),
    {
        let n: usize = requests.len();
        let room: usize = out.len();
        let mut i: usize = 0;
        proof {
            assert(requests@.take(0) =~= Seq::<RegWriteRequest>::empty());
            assert(out@ =~= splice(old(out)@, 0, bulk_bytes(requests@.take(0))));
        }
        while i < n
            invariant
                n == requests@.len(),
                i <= n,
                6 * n <= room,
                room == old(out)@.len(),
                out@.len() == room,
                bulk_bytes(requests@.take(i as int)).len() == 6 * i,
                out@ == splice(old(out)@, 0, bulk_bytes(requests@.take(i as int))),
            decreases n - i,
        {
            let bytes: [u8; 6] = requests[i].as_bytes();
            copy_at(out, 6 * i, &bytes);
            proof {
                assert(requests@.take(i + 1).drop_last() =~= requests@.take(i as int));
                assert(requests@.take(i + 1).last() == requests@[i as int]);
                assert(out@ =~= splice(old(out)@, 0, bulk_bytes(requests@.take(i + 1))));
            }
            i = i + 1;
        }
        assert(requests@.take(n as int) =~= requests@);
        6 * n
    }

    /// Hands the lines back to the SPI machine.
    pub fn into_spi(self) -> (r: (SpiexState<SpiMode>, Handover))
        ensures
            r.0.cs() == self.cs(),
            forall|m: Machine| #[trigger] r.0.enabled(m) <==> m == Machine::Spi,
            r.1 == (Handover { off: Machine::RegBulk, on: Machine::Spi }),
    {
        proof {
            use_type_invariant(&self);
        }
        (
            SpiexState {
                spi: true,
                lba: self.lba,
                reg_bulk: false,
                cs: self.cs,
                _marker: PhantomData,
            },
            Handover { off: Machine::RegBulk, on: Machine::Spi },
        )
    }
}

impl SpiexState<LbaMode> {
    /// Hands the lines back to the SPI machine.
    pub fn into_spi(self) -> (r: (SpiexState<SpiMode>, Handover))
        ensures
            r.0.cs() == self.cs(),
            forall|m: Machine| #[trigger] r.0.enabled(m) <==> m == Machine::Spi,
            r.1 == (Handover { off: Machine::Lba, on: Machine::Spi }),
    {
        proof {
            use_type_invariant(&self);
        }
        (
            SpiexState {
                spi: true,
                lba: false,
                reg_bulk: self.reg_bulk,
                cs: self.cs,
                _marker: PhantomData,
            },
            Handover { off: Machine::Lba, on: Machine::Spi },
        )
    }
}

/// One of several register writes, as the state machine reads it: how many bits
/// to send, less one, then the bits.
#[derive(Debug, Clone, Copy)]
pub struct RegWriteRequest {
    bit_count: u8,
    reg: u8,
    value: [u8; 4],
}

/// The bytes of several requests, one after the other.
pub open spec fn bulk_bytes(requests: Seq<RegWriteRequest>) -> Seq<u8>
    decreases requests.len(),
{
    if requests.len() == 0 {
        Seq::empty()
    } else {
        bulk_bytes(requests.drop_last()) + requests.last()@
    }
}

/// The bytes that ask the state machine to write `value` to `reg`.
pub open spec fn reg_write_bytes(reg: u8, value: u32) -> Seq<u8> {
    seq![39u8] + swapped(seq![write_command(reg)] + le_bytes(value as nat, 4))
}

impl View for RegWriteRequest {
    type V = Seq<u8>;

    closed spec fn view(&self) -> Seq<u8> {
        seq![self.bit_count, self.reg] + self.value@
    }
}

/// A register write reaches the controller, which takes the lowest bit of each
/// byte first, as the command byte and the value, whether it is sent alone or as
/// one of several.
pub proof fn law_register_write_arrives(reg: u8, value: u32)
    ensures
        ({
            let sent = swapped(seq![write_command(reg)] + le_bytes(value as nat, 4));
            &&& swapped(sent) == seq![write_command(reg)] + le_bytes(value as nat, 4)
            &&& reg_write_bytes(reg, value).skip(1) == sent
        }),
{
    let sent = swapped(seq![write_command(reg)] + le_bytes(value as nat, 4));
    law_swap_undoes_itself(seq![write_command(reg)] + le_bytes(value as nat, 4));
    assert(reg_write_bytes(reg, value).skip(1) =~= sent);
}

/// A register that the controller answers to hold `value` is read as `value`,
/// whatever comes before the answer on the lines.
pub proof fn law_register_value_arrives(before: Seq<u8>, value: u32)
    requires
        before.len() == 2,
    ensures
        le_value(swapped(before + swapped(le_bytes(value as nat, 4))).skip(2)) == value,
{
    let answer = le_bytes(value as nat, 4);
    reveal_with_fuel(pow256, 5);
    lemma_le_value_of_bytes(value as nat, 4);
    law_swap_undoes_itself(answer);
    assert(swapped(before + swapped(answer)).skip(2) =~= swapped(swapped(answer)));
}

/// The command byte of a register access has the register number in its upper six
/// bits, and below it 1 for a read and 2 for a write. Of numbers above 63 only the
/// lower six bits count.
pub proof fn law_command_byte_names_the_register(reg: u8)
    ensures
        read_command(reg) >> 2 == reg & 0x3f,
        read_command(reg) & 3 == 1,
        write_command(reg) >> 2 == reg & 0x3f,
        write_command(reg) & 3 == 2,
        reg < 64 ==> reg & 0x3f == reg,
{
    assert(reg < 64 ==> reg & 0x3f == reg) by (bit_vector);
    let read = ((reg % 64) * 4 + 1) as u8;
    let write = ((reg % 64) * 4 + 2) as u8;
    assert(read >> 2 == reg & 0x3f && read & 3 == 1) by (bit_vector)
        requires
            read == ((reg % 64) * 4 + 1) as u8,
    ;
    assert(write >> 2 == reg & 0x3f && write & 3 == 2) by (bit_vector)
        requires
            write == ((reg % 64) * 4 + 2) as u8,
    ;
}

/// What a register access sends begins, with its bits put back in order, with the
/// register number in the upper six bits and the kind of the access in the lower
/// two. So accesses of different registers begin with different bytes, and so do
/// a read and a write of the same one.
pub proof fn law_accesses_begin_differently(reg: u8, other: u8, value: u32)
    requires
        reg < 64,
        other < 64,
    ensures
        ({
            let read = swapped(seq![read_command(reg), 0xff, 0, 0, 0, 0]);
            let write = swapped(seq![write_command(reg)] + le_bytes(value as nat, 4));
            let other_read = swapped(seq![read_command(other), 0xff, 0, 0, 0, 0]);
            let other_write = swapped(seq![write_command(other)] + le_bytes(value as nat, 4));
            &&& mirrored(read[0]) >> 2 == reg
            &&& mirrored(read[0]) & 3 == 1
            &&& mirrored(write[0]) >> 2 == reg
            &&& mirrored(write[0]) & 3 == 2
            &&& reg != other ==> read[0] != other_read[0] && write[0] != other_write[0]
            &&& read[0] != other_write[0]
        }),
{
    let a = read_command(reg);
    let b = write_command(reg);
    law_command_byte_names_the_register(reg);
    law_command_byte_names_the_register(other);
    law_swap_undoes_itself(seq![a, b, read_command(other), write_command(other)]);
    let twice = swapped(swapped(seq![a, b, read_command(other), write_command(other)]));
    assert(twice[0] == a && twice[1] == b && twice[2] == read_command(other) && twice[3]
        == write_command(other));
}

/// The value that a register write sends is spelled by the four bytes behind the
/// command byte, with their bits put back in order and the lowest byte first; a
/// value that is read is spelled the same way by the last four of six.
pub proof fn law_register_values_are_spelled(reg: u8, value: u32, in_data: Seq<u8>)
    requires
        in_data.len() == 6,
    ensures
        ({
            let sent = swapped(seq![write_command(reg)] + le_bytes(value as nat, 4));
            &&& sent.len() == 5
            &&& mirrored(sent[1]) + 0x100 * mirrored(sent[2]) + 0x1_0000 * mirrored(sent[3])
                + 0x100_0000 * mirrored(sent[4]) == value
        }),
        le_value(swapped(in_data).skip(2)) == mirrored(in_data[2]) + 0x100 * mirrored(in_data[3])
            + 0x1_0000 * mirrored(in_data[4]) + 0x100_0000 * mirrored(in_data[5]),
{
    let bytes = le_bytes(value as nat, 4);
    let plain = seq![write_command(reg)] + bytes;
    reveal_with_fuel(pow256, 5);
    lemma_le_value_of_bytes(value as nat, 4);
    law_swap_undoes_itself(plain);
    assert forall|i: int| 0 <= i < 5 implies mirrored(#[trigger] swapped(plain)[i]) == plain[i] by {
        assert(swapped(swapped(plain))[i] == plain[i]);
    }
    assert(bytes =~= seq![bytes[0], bytes[1], bytes[2], bytes[3]]);
    law_short_numbers(bytes[0], bytes[1], bytes[2], bytes[3]);
    let value_bytes = swapped(in_data).skip(2);
    assert(value_bytes =~= seq![value_bytes[0], value_bytes[1], value_bytes[2], value_bytes[3]]);
    law_short_numbers(value_bytes[0], value_bytes[1], value_bytes[2], value_bytes[3]);
}

/// Several requests go out one after the other, six bytes each: first how many
/// bits follow, less one, then those of a single register write.
pub proof fn law_requests_follow_each_other(requests: Seq<RegWriteRequest>, k: int)
    requires
        0 <= k < requests.len(),
    ensures
        bulk_bytes(requests).len() == 6 * requests.len(),
        bulk_bytes(requests).subrange(6 * k, 6 * k + 6) == requests[k]@,
    decreases requests.len(),
{
    let front = requests.drop_last();
    lemma_bulk_len(requests);
    lemma_bulk_len(front);
    if k < front.len() {
        law_requests_follow_each_other(front, k);
        assert(bulk_bytes(requests).subrange(6 * k, 6 * k + 6) =~= bulk_bytes(front).subrange(
            6 * k,
            6 * k + 6,
        ));
    } else {
        assert(bulk_bytes(requests).subrange(6 * k, 6 * k + 6) =~= requests[k]@);
    }
}

/// Mirroring a byte twice gives it back.
proof fn lemma_mirrored_twice(b: u8)
    ensures
        mirrored(mirrored(b)) == b,
{
    law_swap_undoes_itself(seq![b]);
    assert(swapped(swapped(seq![b]))[0] == b);
}

proof fn lemma_bulk_len(requests: Seq<RegWriteRequest>)
    ensures
        bulk_bytes(requests).len() == 6 * requests.len(),
    decreases requests.len(),
{
    if requests.len() > 0 {
        lemma_bulk_len(requests.drop_last());
    }
}

/// The bytes of one request: 39, then the bytes of a single register write.
pub proof fn law_request_is_a_counted_write(reg: u8, value: u32)
    ensures
        reg_write_bytes(reg, value).len() == 6,
        reg_write_bytes(reg, value)[0] == 39,
        reg_write_bytes(reg, value).subrange(1, 6) == swapped(
            seq![write_command(reg)] + le_bytes(value as nat, 4),
        ),
{
    lemma_le_value_of_u32(value);
    assert(reg_write_bytes(reg, value).subrange(1, 6) =~= swapped(
        seq![write_command(reg)] + le_bytes(value as nat, 4),
    ));
}

proof fn lemma_le_value_of_u32(value: u32)
    ensures
        le_bytes(value as nat, 4).len() == 4,
{
    reveal_with_fuel(pow256, 5);
    lemma_le_value_of_bytes(value as nat, 4);
}

impl RegWriteRequest {
    /// The request to write `value` to `reg`.
    pub fn new(reg: u8, value: u32) -> (r: Self)
        ensures
            r@ == reg_write_bytes(reg, value),
    {
        let v: [u8; 4] = u32_le(value);
        let mut bytes: [u8; 5] = [write_command_byte(reg), v[0], v[1], v[2], v[3]];
        assert(bytes@ =~= seq![write_command(reg)] + v@);
        byte_swap(&mut bytes);
        let r = RegWriteRequest {
            // doubles as a loop counter in the state machine, so it keeps its bits
            bit_count: 8 + 4 * 8 - 1,
            reg: bytes[0],
            value: [bytes[1], bytes[2], bytes[3], bytes[4]],
        };
        assert(r@ =~= reg_write_bytes(reg, value));
        r
    }

    /// The bytes as the state machine reads them.
    pub fn as_bytes(&self) -> (r: [u8; 6])
        ensures
            r@ == self@,
    {
        let r: [u8; 6] = [
            self.bit_count,
            self.reg,
            self.value[0],
            self.value[1],
            self.value[2],
            self.value[3],
        ];
        assert(r@ =~= self@);
        r
    }
}

} // verus!
