//! The console side: what is done to its NAND controller and its reset lines.
//!
//! An operation on the NAND is a sequence of [`NandStep`]s. A [`NandRun`] goes
//! through it: it names the next [`NandAction`], the caller performs it and
//! reports back.
use vstd::prelude::*;

use crate::bytes::le_bytes;
use crate::spiex::byteswap::mirrored;
use crate::spiex::{reg_write_bytes, Level, Machine, RegWriteRequest};

verus! {

/// The controller was not ready in time.
#[derive(Debug, Clone, Copy, PartialEq, Eq, Structural)]
pub struct TimeoutError;

/// The register with the flash configuration.
pub const CONFIG_REG: u8 = 0x00;

/// The register with the status of the controller.
pub const STATUS_REG: u8 = 0x04;

/// The register that takes commands.
pub const COMMAND_REG: u8 = 0x08;

/// The register that takes the address of a block.
pub const ADDRESS_REG: u8 = 0x0c;

/// A part of an operation on the NAND.
#[derive(Debug, Clone, Copy, PartialEq, Eq, Structural)]
pub enum NandStep {
    /// Write the status back as it was read, which clears it.
    ClearStatus,
    /// Write a register.
    WriteReg { reg: u8, value: u32 },
    /// Set bits of a register and keep the others.
    SetBits { reg: u8, mask: u32 },
    /// Wait until the controller is ready.
    WaitReady,
    /// Hand the SPI lines to the machine for blocks.
    EnterLba,
    /// Read a block.
    ReadBlock,
    /// Put the bits of the block that was read in order.
    SwapBlock,
    /// Write a block.
    WriteBlock,
    /// Take the SPI lines back from the machine for blocks.
    LeaveLba,
    /// Hand the SPI lines to the machine for several register writes.
    EnterRegBulk,
    /// Give the three commands that make the controller program the block.
    ProgramBlock,
    /// Take the SPI lines back from the machine for several register writes.
    LeaveRegBulk,
}

/// What is to be done next.
#[derive(Debug, Clone, Copy)]
pub enum NandAction {
    ReadReg { reg: u8 },
    WriteReg { reg: u8, value: u32 },
    EnterLba,
    ReadBlock,
    SwapBlock,
    WriteBlock,
    LeaveLba,
    EnterRegBulk,
    WriteRegBulk([RegWriteRequest; 3]),
    LeaveRegBulk,
    /// The operation is over.
    Finish(Result<(), TimeoutError>),
}

/// What is to be done next, with register requests as bytes.
pub enum NandActionView {
    ReadReg { reg: u8 },
    WriteReg { reg: u8, value: u32 },
    EnterLba,
    ReadBlock,
    SwapBlock,
    WriteBlock,
    LeaveLba,
    EnterRegBulk,
    WriteRegBulk(Seq<u8>, Seq<u8>, Seq<u8>),
    LeaveRegBulk,
    Finish(Result<(), TimeoutError>),
}

impl View for NandAction {
    type V = NandActionView;

    open spec fn view(&self) -> NandActionView {
        match *self {
            NandAction::ReadReg { reg } => NandActionView::ReadReg { reg },
            NandAction::WriteReg { reg, value } => NandActionView::WriteReg { reg, value },
            NandAction::EnterLba => NandActionView::EnterLba,
            NandAction::ReadBlock => NandActionView::ReadBlock,
            NandAction::SwapBlock => NandActionView::SwapBlock,
            NandAction::WriteBlock => NandActionView::WriteBlock,
            NandAction::LeaveLba => NandActionView::LeaveLba,
            NandAction::EnterRegBulk => NandActionView::EnterRegBulk,
            NandAction::WriteRegBulk(requests) => NandActionView::WriteRegBulk(
                requests@[0]@,
                requests@[1]@,
                requests@[2]@,
            ),
            NandAction::LeaveRegBulk => NandActionView::LeaveRegBulk,
            NandAction::Finish(r) => NandActionView::Finish(r),
        }
    }
}

/// An operation on its way.
pub struct RunView {
    /// The operation.
    pub steps: Seq<NandStep>,
    /// How many steps are behind.
    pub done: int,
    /// The register value that the present step has read.
    pub read: Option<u32>,
    /// Whether a wait took too long.
    pub timed_out: bool,
    /// How many ticks a wait may take.
    pub timeout: u64,
}

/// An operation that was not begun.
pub open spec fn unstarted(steps: Seq<NandStep>, timeout: u64) -> RunView {
    RunView { steps, done: 0, read: None, timed_out: false, timeout }
}

/// Whether the status says that the controller is ready.
pub open spec fn is_ready(status: u32) -> bool {
    status % 2 == 0
}

/// The action that takes an operation on.
pub open spec fn action_of(run: RunView) -> NandActionView {
    if run.timed_out {
        NandActionView::Finish(Err(TimeoutError))
    } else if run.done >= run.steps.len() {
        NandActionView::Finish(Ok(()))
    } else {
        match run.steps[run.done] {
            NandStep::ClearStatus => match run.read {
                None => NandActionView::ReadReg { reg: STATUS_REG },
                Some(status) => NandActionView::WriteReg { reg: STATUS_REG, value: status },
            },
            NandStep::WriteReg { reg, value } => NandActionView::WriteReg { reg, value },
            NandStep::SetBits { reg, mask } => match run.read {
                None => NandActionView::ReadReg { reg },
                Some(value) => NandActionView::WriteReg { reg, value: value | mask },
            },
            NandStep::WaitReady => NandActionView::ReadReg { reg: STATUS_REG },
            NandStep::EnterLba => NandActionView::EnterLba,
            NandStep::ReadBlock => NandActionView::ReadBlock,
            NandStep::SwapBlock => NandActionView::SwapBlock,
            NandStep::WriteBlock => NandActionView::WriteBlock,
            NandStep::LeaveLba => NandActionView::LeaveLba,
            NandStep::EnterRegBulk => NandActionView::EnterRegBulk,
            NandStep::ProgramBlock => NandActionView::WriteRegBulk(
                reg_write_bytes(COMMAND_REG, 0x55),
                reg_write_bytes(COMMAND_REG, 0xaa),
                reg_write_bytes(COMMAND_REG, 0x04),
            ),
            NandStep::LeaveRegBulk => NandActionView::LeaveRegBulk,
        }
    }
}

/// The operation after its action was performed. `value` is what a register read
/// gave, `elapsed` how many ticks a wait has taken.
pub open spec fn after_action(run: RunView, value: u32, elapsed: u64) -> RunView {
    if run.timed_out || run.done >= run.steps.len() {
        run
    } else {
        let next = RunView { done: run.done + 1, read: None, ..run };
        match run.steps[run.done] {
            NandStep::ClearStatus | NandStep::SetBits { .. } => match run.read {
                None => RunView { read: Some(value), ..run },
                Some(_) => next,
            },
            NandStep::WaitReady => if is_ready(value) {
                next
            } else if elapsed > run.timeout {
                RunView { timed_out: true, ..run }
            } else {
                run
            },
            _ => next,
        }
    }
}

/// Goes through an operation of `N` steps.
pub struct NandRun<const N: usize> {
    steps: [NandStep; N],
    done: usize,
    read: Option<u32>,
    timed_out: bool,
    timeout: u64,
}

impl<const N: usize> View for NandRun<N> {
    type V = RunView;

    closed spec fn view(&self) -> RunView {
        RunView {
            steps: self.steps@,
            done: self.done as int,
            read: self.read,
            timed_out: self.timed_out,
            timeout: self.timeout,
        }
    }
}

impl<const N: usize> NandRun<N> {
    /// Begins an operation in which a wait may take `timeout` ticks.
    pub fn new(steps: [NandStep; N], timeout: u64) -> (r: Self)
        ensures
            r@ == unstarted(steps@, timeout),
    {
        NandRun { steps, done: 0, read: None, timed_out: false, timeout }
    }

    /// Whether the present step is a wait. Its time counts from the moment at
    /// which this became so.
    pub fn is_waiting(&self) -> (r: bool)
        ensures
            r <==> !self@.timed_out && self@.done < N && self@.steps[self@.done]
                == NandStep::WaitReady,
    {
        !self.timed_out && self.done < N && self.steps[self.done] == NandStep::WaitReady
    }

    /// What is to be done next.
    pub fn action(&self) -> (r: NandAction)
        ensures
            r@ == action_of(self@),
    {
        if self.timed_out {
            return NandAction::Finish(Err(TimeoutError));
        }
        if self.done >= N {
            return NandAction::Finish(Ok(()));
        }
        match self.steps[self.done] {
            NandStep::ClearStatus => match self.read {
                None => NandAction::ReadReg { reg: STATUS_REG },
                Some(status) => NandAction::WriteReg { reg: STATUS_REG, value: status },
            },
            NandStep::WriteReg { reg, value } => NandAction::WriteReg { reg, value },
            NandStep::SetBits { reg, mask } => match self.read {
                None => NandAction::ReadReg { reg },
                Some(value) => NandAction::WriteReg { reg, value: value | mask },
            },
            NandStep::WaitReady => NandAction::ReadReg { reg: STATUS_REG },
            NandStep::EnterLba => NandAction::EnterLba,
            NandStep::ReadBlock => NandAction::ReadBlock,
            NandStep::SwapBlock => NandAction::SwapBlock,
            NandStep::WriteBlock => NandAction::WriteBlock,
            NandStep::LeaveLba => NandAction::LeaveLba,
            NandStep::EnterRegBulk => NandAction::EnterRegBulk,
            NandStep::ProgramBlock => NandAction::WriteRegBulk(
                [
                    RegWriteRequest::new(COMMAND_REG, 0x55),
                    RegWriteRequest::new(COMMAND_REG, 0xaa),
                    RegWriteRequest::new(COMMAND_REG, 0x04),
                ],
            ),
            NandStep::LeaveRegBulk => NandAction::LeaveRegBulk,
        }
    }

    /// Notes that the action was performed. `value` is what a register read
    /// gave, `elapsed` how many ticks the present wait has taken; either is
    /// looked at only where it applies.
    pub fn advance(&mut self, value: u32, elapsed: u64)
        ensures
            final(self)@ == after_action(old(self)@, value, elapsed),
    {
        if self.timed_out || self.done >= N {
            return;
        }
        match self.steps[self.done] {
            NandStep::ClearStatus | NandStep::SetBits { .. } => match self.read {
                None => {
                    self.read = Some(value);
                },
                Some(_) => {
                    self.read = None;
                    self.done = self.done + 1;
                },
            },
            NandStep::WaitReady => {
                assert(value & 0x1 == value % 2) by (bit_vector);
                if (value & 0x1) == 0 {
                    self.read = None;
                    self.done = self.done + 1;
                } else if elapsed > self.timeout {
                    self.timed_out = true;
                }
            },
            _ => {
                self.read = None;
                self.done = self.done + 1;
            },
        }
    }
}

/// The address of a block as the controller takes it: its number times the data
/// bytes in a block, in 32 bits.
pub open spec fn block_address(lba: u32) -> u32 {
    ((lba * 512) % 0x1_0000_0000) as u32
}

/// The address of a block as the controller takes it.
fn address_of(lba: u32) -> (r: u32)
    ensures
        r == block_address(lba),
        r == lba << 9,
{
    assert((lba << 9) as int == (lba * 512) % 0x1_0000_0000) by (bit_vector);
    lba << 9
}

/// How a block is read.
pub open spec fn read_steps(lba: u32) -> Seq<NandStep> {
    seq![
        NandStep::ClearStatus,
        NandStep::WriteReg { reg: ADDRESS_REG, value: block_address(lba) },
        NandStep::WriteReg { reg: COMMAND_REG, value: 0x03 },
        NandStep::WaitReady,
        NandStep::WriteReg { reg: ADDRESS_REG, value: 0 },
        NandStep::EnterLba,
        NandStep::ReadBlock,
        NandStep::SwapBlock,
        NandStep::LeaveLba,
    ]
}

/// How a block is written.
pub open spec fn write_steps(lba: u32) -> Seq<NandStep> {
    seq![
        NandStep::ClearStatus,
        NandStep::WriteReg { reg: ADDRESS_REG, value: 0 },
        NandStep::EnterLba,
        NandStep::WriteBlock,
        NandStep::LeaveLba,
        NandStep::WaitReady,
        NandStep::WriteReg { reg: ADDRESS_REG, value: block_address(lba) },
        NandStep::WaitReady,
        NandStep::EnterRegBulk,
        NandStep::ProgramBlock,
        NandStep::LeaveRegBulk,
        NandStep::WaitReady,
    ]
}

/// How the erase block that begins at a block is erased.
pub open spec fn erase_steps(lba: u32) -> Seq<NandStep> {
    seq![
        NandStep::ClearStatus,
        NandStep::SetBits { reg: CONFIG_REG, mask: 0x08 },
        NandStep::WriteReg { reg: ADDRESS_REG, value: block_address(lba) },
        NandStep::WriteReg { reg: COMMAND_REG, value: 0xaa },
        NandStep::WriteReg { reg: COMMAND_REG, value: 0x55 },
        NandStep::WriteReg { reg: COMMAND_REG, value: 0x05 },
        NandStep::WaitReady,
    ]
}

/// A part of stopping or starting the system management controller.
#[derive(Debug, Clone, Copy, PartialEq, Eq, Structural)]
pub enum SmcStep {
    /// Set the debug enable line.
    DbgEn(Level),
    /// Set the reset line.
    RstXdk(Level),
    /// Set the chip select of the NAND controller.
    Cs(Level),
    /// Wait so many milliseconds.
    Wait(u64),
}

/// The lines that lead to the console.
#[derive(Debug, Clone, Copy, PartialEq, Eq, Structural)]
pub struct XboxState {
    /// The debug enable line.
    pub dbg_en: Level,
    /// The reset line.
    pub rst_xdk: Level,
    /// The chip select of the NAND controller.
    pub cs: Level,
}

/// The lines after one step.
pub open spec fn after_smc_step(lines: XboxState, step: SmcStep) -> XboxState {
    match step {
        SmcStep::DbgEn(level) => XboxState { dbg_en: level, ..lines },
        SmcStep::RstXdk(level) => XboxState { rst_xdk: level, ..lines },
        SmcStep::Cs(level) => XboxState { cs: level, ..lines },
        SmcStep::Wait(_) => lines,
    }
}

/// The lines after several steps.
pub open spec fn after_smc_steps(lines: XboxState, steps: Seq<SmcStep>) -> XboxState
    decreases steps.len(),
{
    if steps.len() == 0 {
        lines
    } else {
        after_smc_step(after_smc_steps(lines, steps.drop_last()), steps.last())
    }
}

/// How the system management controller is started.
pub open spec fn start_smc_steps() -> Seq<SmcStep> {
    seq![
        SmcStep::DbgEn(Level::Low),
        SmcStep::RstXdk(Level::Low),
        SmcStep::Wait(50),
        SmcStep::RstXdk(Level::High),
    ]
}

/// How the system management controller is stopped.
pub open spec fn stop_smc_steps() -> Seq<SmcStep> {
    seq![
        SmcStep::DbgEn(Level::Low),
        SmcStep::Wait(50),
        SmcStep::Cs(Level::Low),
        SmcStep::RstXdk(Level::Low),
        SmcStep::Wait(50),
        SmcStep::DbgEn(Level::High),
        SmcStep::RstXdk(Level::High),
        SmcStep::Wait(50),
        SmcStep::Cs(Level::High),
        SmcStep::Wait(50),
    ]
}

impl XboxState {
    /// The lines after set-up.
    pub fn new() -> (r: Self)
        ensures
            r.dbg_en == Level::High,
            r.rst_xdk == Level::High,
            r.cs == Level::High,
    {
        XboxState { dbg_en: Level::High, rst_xdk: Level::High, cs: Level::High }
    }

    /// Notes that a step was taken.
    pub fn apply(&mut self, step: SmcStep)
        ensures
            *final(self) == after_smc_step(*old(self), step),
    {
        match step {
            SmcStep::DbgEn(level) => {
                self.dbg_en = level;
            },
            SmcStep::RstXdk(level) => {
                self.rst_xdk = level;
            },
            SmcStep::Cs(level) => {
                self.cs = level;
            },
            SmcStep::Wait(_) => {},
        }
    }

    /// Reads block `lba`. The controller has `timeout` ticks to get ready.
    pub fn read_lba(timeout: u64, lba: u32) -> (r: NandRun<9>)
        ensures
            r@ == unstarted(read_steps(lba), timeout),
    {
        let steps: [NandStep; 9] = [
            NandStep::ClearStatus,
            NandStep::WriteReg { reg: ADDRESS_REG, value: address_of(lba) },
            NandStep::WriteReg { reg: COMMAND_REG, value: 0x03 },
            NandStep::WaitReady,
            NandStep::WriteReg { reg: ADDRESS_REG, value: 0x0 },
            NandStep::EnterLba,
            NandStep::ReadBlock,
            NandStep::SwapBlock,
            NandStep::LeaveLba,
        ];
        assert(steps@ =~= read_steps(lba));
        NandRun::new(steps, timeout)
    }

    /// Writes block `lba`. The controller has `timeout` ticks to get ready, each
    /// time.
    pub fn write_lba(timeout: u64, lba: u32) -> (r: NandRun<12>)
        ensures
            r@ == unstarted(write_steps(lba), timeout),
    {
        let steps: [NandStep; 12] = [
            NandStep::ClearStatus,
            NandStep::WriteReg { reg: ADDRESS_REG, value: 0x00 },
            NandStep::EnterLba,
            NandStep::WriteBlock,
            NandStep::LeaveLba,
            NandStep::WaitReady,
            NandStep::WriteReg { reg: ADDRESS_REG, value: address_of(lba) },
            NandStep::WaitReady,
            NandStep::EnterRegBulk,
            NandStep::ProgramBlock,
            NandStep::LeaveRegBulk,
            NandStep::WaitReady,
        ];
        assert(steps@ =~= write_steps(lba));
        NandRun::new(steps, timeout)
    }

    /// The read that gives the flash configuration.
    pub fn get_flash_config() -> (r: NandAction)
        ensures
            r@ == (NandActionView::ReadReg { reg: CONFIG_REG }),
    {
        NandAction::ReadReg { reg: CONFIG_REG }
    }

    /// Erases the erase block that begins at block `lba`, not that block alone.
    /// The controller has `timeout` ticks to get ready.
    pub fn nand_erase_block(timeout: u64, lba: u32) -> (r: NandRun<7>)
        ensures
            r@ == unstarted(erase_steps(lba), timeout),
    {
        let steps: [NandStep; 7] = [
            NandStep::ClearStatus,
            NandStep::SetBits { reg: CONFIG_REG, mask: 0x08 },
            NandStep::WriteReg { reg: ADDRESS_REG, value: address_of(lba) },
            NandStep::WriteReg { reg: COMMAND_REG, value: 0xaa },
            NandStep::WriteReg { reg: COMMAND_REG, value: 0x55 },
            NandStep::WriteReg { reg: COMMAND_REG, value: 0x05 },
            NandStep::WaitReady,
        ];
        assert(steps@ =~= erase_steps(lba));
        NandRun::new(steps, timeout)
    }

    /// Starts the system management controller.
    pub fn start_smc() -> (r: [SmcStep; 4])
        ensures
            r@ == start_smc_steps(),
    {
        let r: [SmcStep; 4] = [
            SmcStep::DbgEn(Level::Low),
            SmcStep::RstXdk(Level::Low),
            SmcStep::Wait(50),
            SmcStep::RstXdk(Level::High),
        ];
        assert(r@ =~= start_smc_steps());
        r
    }

    /// Stops the system management controller.
    pub fn stop_smc() -> (r: [SmcStep; 10])
        ensures
            r@ == stop_smc_steps(),
    {
        let r: [SmcStep; 10] = [
            SmcStep::DbgEn(Level::Low),
            SmcStep::Wait(50),
            SmcStep::Cs(Level::Low),
            SmcStep::RstXdk(Level::Low),
            SmcStep::Wait(50),
            SmcStep::DbgEn(Level::High),
            SmcStep::RstXdk(Level::High),
            SmcStep::Wait(50),
            SmcStep::Cs(Level::High),
            SmcStep::Wait(50),
        ];
        assert(r@ =~= stop_smc_steps());
        r
    }
}

/// Whatever the lines were before, starting the system management controller
/// leaves the reset released and the debug enable low; stopping it leaves the
/// reset, the debug enable and the chip select released.
pub proof fn law_smc_leaves_reset_released(lines: XboxState)
    ensures
        after_smc_steps(lines, start_smc_steps()) == (XboxState {
            dbg_en: Level::Low,
            rst_xdk: Level::High,
            cs: lines.cs,
        }),
        after_smc_steps(lines, stop_smc_steps()) == (XboxState {
            dbg_en: Level::High,
            rst_xdk: Level::High,
            cs: Level::High,
        }),
{
    reveal_with_fuel(after_smc_steps, 11);
}

/// The state machine that drives the SPI lines after one step.
pub open spec fn driver_after(driver: Machine, step: NandStep) -> Machine {
    match step {
        NandStep::EnterLba => Machine::Lba,
        NandStep::EnterRegBulk => Machine::RegBulk,
        NandStep::LeaveLba | NandStep::LeaveRegBulk => Machine::Spi,
        _ => driver,
    }
}

/// The state machine that drives the SPI lines after the first `n` steps.
pub open spec fn driver_at(steps: Seq<NandStep>, n: int) -> Machine
    decreases n,
{
    if n <= 0 {
        Machine::Spi
    } else {
        driver_after(driver_at(steps, n - 1), steps[n - 1])
    }
}

/// The state machine that has to drive the SPI lines for a step.
pub open spec fn driver_for(step: NandStep) -> Machine {
    match step {
        NandStep::ReadBlock | NandStep::SwapBlock | NandStep::WriteBlock
        | NandStep::LeaveLba => Machine::Lba,
        NandStep::ProgramBlock | NandStep::LeaveRegBulk => Machine::RegBulk,
        _ => Machine::Spi,
    }
}

/// Whether each step finds the SPI lines driven by the machine that it needs,
/// and the last one leaves them to the SPI machine. Waits need that machine, so
/// an operation that times out leaves the lines to it as well.
pub open spec fn keeps_the_lines(steps: Seq<NandStep>) -> bool {
    &&& forall|i: int|
        0 <= i < steps.len() ==> driver_at(steps, i) == driver_for(#[trigger] steps[i])
    &&& driver_at(steps, steps.len() as int) == Machine::Spi
}

/// Every operation finds the SPI lines with the machine that each of its steps
/// needs, and gives them back to the SPI machine however it ends.
pub proof fn law_operations_keep_the_lines(lba: u32)
    ensures
        keeps_the_lines(read_steps(lba)),
        keeps_the_lines(write_steps(lba)),
        keeps_the_lines(erase_steps(lba)),
{
    reveal_with_fuel(driver_at, 13);
}

/// The controller is ready when the lowest bit of its status is clear.
pub proof fn law_ready_is_a_bit(status: u32)
    ensures
        is_ready(status) <==> status & 1 == 0,
        status & 1 == 0 || status & 1 == 1,
{
    assert(status & 1 == status % 2) by (bit_vector);
}

/// The address of a block is its number shifted left by nine bits. So it is 512
/// times the number where that fits 32 bits, and then different blocks have
/// different addresses.
pub proof fn law_block_address(lba: u32, other: u32)
    ensures
        block_address(lba) == lba << 9,
        lba < 0x80_0000 ==> block_address(lba) == 512 * lba,
        lba < 0x80_0000 && other < 0x80_0000 && lba != other ==> block_address(lba)
            != block_address(other),
{
    assert((lba << 9) as int == (lba * 512) % 0x1_0000_0000) by (bit_vector);
}

/// The bytes of the three commands that make the controller program a block.
proof fn lemma_program_bytes()
    ensures
        reg_write_bytes(0x08, 0x55) == seq![39u8, 0x44, 0xaa, 0, 0, 0],
        reg_write_bytes(0x08, 0xaa) == seq![39u8, 0x44, 0x55, 0, 0, 0],
        reg_write_bytes(0x08, 0x04) == seq![39u8, 0x44, 0x20, 0, 0, 0],
{
    reveal_with_fuel(le_bytes, 5);
    assert(mirrored(0x22) == 0x44 && mirrored(0x55) == 0xaa && mirrored(0xaa) == 0x55 && mirrored(
        0x04,
    ) == 0x20 && mirrored(0) == 0) by (bit_vector);
    assert(reg_write_bytes(0x08, 0x55) =~= seq![39u8, 0x44, 0xaa, 0, 0, 0]);
    assert(reg_write_bytes(0x08, 0xaa) =~= seq![39u8, 0x44, 0x55, 0, 0, 0]);
    assert(reg_write_bytes(0x08, 0x04) =~= seq![39u8, 0x44, 0x20, 0, 0, 0]);
}

/// An action means what its name says: what is seen of it is what it holds.
pub proof fn law_actions_mean_what_they_hold(
    reg: u8,
    value: u32,
    requests: [RegWriteRequest; 3],
    result: Result<(), TimeoutError>,
)
    ensures
        (NandAction::ReadReg { reg })@ == (NandActionView::ReadReg { reg }),
        (NandAction::WriteReg { reg, value })@ == (NandActionView::WriteReg { reg, value }),
        NandAction::EnterLba@ == NandActionView::EnterLba,
        NandAction::ReadBlock@ == NandActionView::ReadBlock,
        NandAction::SwapBlock@ == NandActionView::SwapBlock,
        NandAction::WriteBlock@ == NandActionView::WriteBlock,
        NandAction::LeaveLba@ == NandActionView::LeaveLba,
        NandAction::EnterRegBulk@ == NandActionView::EnterRegBulk,
        NandAction::LeaveRegBulk@ == NandActionView::LeaveRegBulk,
        NandAction::WriteRegBulk(requests)@ == NandActionView::WriteRegBulk(
            requests@[0]@,
            requests@[1]@,
            requests@[2]@,
        ),
        NandAction::Finish(result)@ == NandActionView::Finish(result),
{
}

/// A busy controller that still has time is asked again, as often as needed:
/// nothing else of the operation changes meanwhile.
pub proof fn law_busy_controller_is_asked_again(run: RunView, status: u32, elapsed: u64)
    requires
        !run.timed_out,
        0 <= run.done < run.steps.len(),
        run.steps[run.done] == NandStep::WaitReady,
        status & 1 == 1,
        elapsed <= run.timeout,
    ensures
        after_action(run, status, elapsed) == run,
        action_of(run) == (NandActionView::ReadReg { reg: 0x04 }),
{
    law_ready_is_a_bit(status);
}

/// A controller that is still busy when its time is over ends the operation with
/// the timeout, for good.
pub proof fn law_late_controller_ends_the_operation(
    run: RunView,
    status: u32,
    elapsed: u64,
    any_value: u32,
    any_elapsed: u64,
)
    requires
        !run.timed_out,
        0 <= run.done < run.steps.len(),
        run.steps[run.done] == NandStep::WaitReady,
        status & 1 == 1,
        elapsed > run.timeout,
    ensures
        ({
            let late = after_action(run, status, elapsed);
            &&& action_of(late) == NandActionView::Finish(Err(TimeoutError))
            &&& after_action(late, any_value, any_elapsed) == late
        }),
{
    law_ready_is_a_bit(status);
}

/// A controller that is ready lets the operation go on with its next step,
/// however long that took.
pub proof fn law_ready_controller_goes_on(run: RunView, status: u32, elapsed: u64)
    requires
        !run.timed_out,
        0 <= run.done < run.steps.len(),
        run.steps[run.done] == NandStep::WaitReady,
        status & 1 == 0,
    ensures
        after_action(run, status, elapsed) == (RunView { done: run.done + 1, read: None, ..run }),
{
    law_ready_is_a_bit(status);
}

/// The actions of an operation, in order, when they have these outcomes: what a
/// register read gave, and how many ticks a wait has taken.
pub open spec fn actions_from(run: RunView, outcomes: Seq<(u32, u64)>) -> Seq<NandActionView>
    decreases outcomes.len(),
{
    if outcomes.len() == 0 {
        Seq::empty()
    } else {
        seq![action_of(run)] + actions_from(
            after_action(run, outcomes[0].0, outcomes[0].1),
            outcomes.skip(1),
        )
    }
}

/// Reading a block: when the controller is ready at once, these are the actions,
/// whatever the status to be cleared was.
pub proof fn law_read_actions(lba: u32, timeout: u64, outcomes: Seq<(u32, u64)>)
    requires
        outcomes.len() == 11,
        outcomes[4].0 & 1 == 0,
    ensures
        actions_from(unstarted(read_steps(lba), timeout), outcomes) == seq![
            NandActionView::ReadReg { reg: 0x04 },
            NandActionView::WriteReg { reg: 0x04, value: outcomes[0].0 },
            NandActionView::WriteReg { reg: 0x0c, value: lba << 9 },
            NandActionView::WriteReg { reg: 0x08, value: 0x03 },
            NandActionView::ReadReg { reg: 0x04 },
            NandActionView::WriteReg { reg: 0x0c, value: 0 },
            NandActionView::EnterLba,
            NandActionView::ReadBlock,
            NandActionView::SwapBlock,
            NandActionView::LeaveLba,
            NandActionView::Finish(Ok(())),
        ],
{
    reveal_with_fuel(actions_from, 12);
    law_block_address(lba, 0);
    law_ready_is_a_bit(outcomes[4].0);
}

/// Writing a block: when the controller is ready at once, these are the actions,
/// whatever the status to be cleared was.
pub proof fn law_write_actions(lba: u32, timeout: u64, outcomes: Seq<(u32, u64)>)
    requires
        outcomes.len() == 14,
        outcomes[6].0 & 1 == 0,
        outcomes[8].0 & 1 == 0,
        outcomes[12].0 & 1 == 0,
    ensures
        actions_from(unstarted(write_steps(lba), timeout), outcomes) == seq![
            NandActionView::ReadReg { reg: 0x04 },
            NandActionView::WriteReg { reg: 0x04, value: outcomes[0].0 },
            NandActionView::WriteReg { reg: 0x0c, value: 0 },
            NandActionView::EnterLba,
            NandActionView::WriteBlock,
            NandActionView::LeaveLba,
            NandActionView::ReadReg { reg: 0x04 },
            NandActionView::WriteReg { reg: 0x0c, value: lba << 9 },
            NandActionView::ReadReg { reg: 0x04 },
            NandActionView::EnterRegBulk,
            NandActionView::WriteRegBulk(
                seq![39u8, 0x44, 0xaa, 0, 0, 0],
                seq![39u8, 0x44, 0x55, 0, 0, 0],
                seq![39u8, 0x44, 0x20, 0, 0, 0],
            ),
            NandActionView::LeaveRegBulk,
            NandActionView::ReadReg { reg: 0x04 },
            NandActionView::Finish(Ok(())),
        ],
{
    reveal_with_fuel(actions_from, 15);
    law_block_address(lba, 0);
    law_ready_is_a_bit(outcomes[6].0);
    law_ready_is_a_bit(outcomes[8].0);
    law_ready_is_a_bit(outcomes[12].0);
    lemma_program_bytes();
}

/// Erasing: when the controller is ready at once, these are the actions, whatever
/// the status to be cleared and the configuration were.
pub proof fn law_erase_actions(lba: u32, timeout: u64, outcomes: Seq<(u32, u64)>)
    requires
        outcomes.len() == 10,
        outcomes[8].0 & 1 == 0,
    ensures
        actions_from(unstarted(erase_steps(lba), timeout), outcomes) == seq![
            NandActionView::ReadReg { reg: 0x04 },
            NandActionView::WriteReg { reg: 0x04, value: outcomes[0].0 },
            NandActionView::ReadReg { reg: 0x00 },
            NandActionView::WriteReg { reg: 0x00, value: outcomes[2].0 | 0x08 },
            NandActionView::WriteReg { reg: 0x0c, value: lba << 9 },
            NandActionView::WriteReg { reg: 0x08, value: 0xaa },
            NandActionView::WriteReg { reg: 0x08, value: 0x55 },
            NandActionView::WriteReg { reg: 0x08, value: 0x05 },
            NandActionView::ReadReg { reg: 0x04 },
            NandActionView::Finish(Ok(())),
        ],
{
    reveal_with_fuel(actions_from, 11);
    law_block_address(lba, 0);
    law_ready_is_a_bit(outcomes[8].0);
}

/// The state machine that has to drive the SPI lines for an action.
pub open spec fn machine_for(action: NandActionView) -> Machine {
    match action {
        NandActionView::ReadBlock | NandActionView::SwapBlock | NandActionView::WriteBlock
        | NandActionView::LeaveLba => Machine::Lba,
        NandActionView::WriteRegBulk(..) | NandActionView::LeaveRegBulk => Machine::RegBulk,
        _ => Machine::Spi,
    }
}

/// An operation after its actions were performed with these outcomes: what a
/// register read gave, and how many ticks a wait has taken.
pub open spec fn run_after(run: RunView, outcomes: Seq<(u32, u64)>) -> RunView
    decreases outcomes.len(),
{
    if outcomes.len() == 0 {
        run
    } else {
        run_after(after_action(run, outcomes[0].0, outcomes[0].1), outcomes.skip(1))
    }
}

/// Whether an operation is somewhere within its steps, and at a wait if that
/// took too long.
pub open spec fn within_steps(run: RunView) -> bool {
    &&& 0 <= run.done <= run.steps.len()
    &&& run.timed_out ==> run.done < run.steps.len() && run.steps[run.done] == NandStep::WaitReady
}

proof fn lemma_run_stays_within(run: RunView, outcomes: Seq<(u32, u64)>)
    requires
        within_steps(run),
    ensures
        within_steps(run_after(run, outcomes)),
        run_after(run, outcomes).steps == run.steps,
        run_after(run, outcomes).timeout == run.timeout,
    decreases outcomes.len(),
{
    if outcomes.len() > 0 {
        lemma_run_stays_within(
            after_action(run, outcomes[0].0, outcomes[0].1),
            outcomes.skip(1),
        );
    }
}

/// However the controller answers, each action of an operation that keeps the
/// lines finds them with the machine that it needs; so does its end.
pub proof fn law_actions_fit_the_lines(
    steps: Seq<NandStep>,
    timeout: u64,
    outcomes: Seq<(u32, u64)>,
)
    requires
        keeps_the_lines(steps),
    ensures
        ({
            let run = run_after(unstarted(steps, timeout), outcomes);
            &&& run.steps == steps
            &&& within_steps(run)
            &&& driver_at(steps, run.done) == machine_for(action_of(run))
        }),
{
    let run = run_after(unstarted(steps, timeout), outcomes);
    lemma_run_stays_within(unstarted(steps, timeout), outcomes);
    if run.done < steps.len() {
        assert(driver_at(steps, run.done) == driver_for(steps[run.done]));
    }
}

/// An operation keeps the time that it was given for each wait, however the
/// controller answers, and begins with its first step.
pub proof fn law_operation_keeps_its_timeout(
    steps: Seq<NandStep>,
    timeout: u64,
    outcomes: Seq<(u32, u64)>,
)
    ensures
        run_after(unstarted(steps, timeout), outcomes).timeout == timeout,
        run_after(unstarted(steps, timeout), outcomes).steps == steps,
        unstarted(steps, timeout).done == 0,
        !unstarted(steps, timeout).timed_out,
        unstarted(steps, timeout).read is None,
{
    lemma_run_stays_within(unstarted(steps, timeout), outcomes);
}

} // verus!
