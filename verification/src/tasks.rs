//! What the tasks of the firmware decide.
//!
//! The USB task takes commands and the blocks of a range to be written, the NAND
//! task works them off. Range transfers are sequences: each names the next
//! action, the caller performs it and reports how it went.
use vstd::prelude::*;

use crate::command::{Request, Response, ResponseView};
use crate::spiex::lba::LBA_SIZE;
use crate::stream::codec::{Encoder, LengthDelimitedCodec};

verus! {

/// Room for a block and the length field in front of it.
pub const FRAME_SIZE: usize = LBA_SIZE + 2;

/// The greatest frame length that is sent to the host.
pub const MAX_FRAME_LEN: u16 = 768;

/// How many bytes from the host are buffered before they are framed.
pub const READ_BUFFER_SIZE: usize = 768;

/// How many bytes from the host are buffered at once.
pub const READ_GRAB_SIZE: usize = 64;

/// A block can always be sent to the host in a frame: it has room, and it is not
/// too long.
pub proof fn law_blocks_can_be_sent(codec: LengthDelimitedCodec<FRAME_SIZE, u16>, block: &[u8])
    requires
        codec.limit() == MAX_FRAME_LEN,
        block@.len() == LBA_SIZE,
    ensures
        codec.encode_requires(block, FRAME_SIZE as int),
        block@.len() <= codec.limit(),
{
}

/// What the USB task reads.
#[derive(Debug, Clone, Copy, PartialEq, Eq, Structural)]
pub enum UsbReadMode {
    /// Commands.
    Command,
    /// The blocks of a range to be written.
    LbaRange { start: u32, count: u32 },
}

/// What the USB task asks of the NAND task.
#[derive(Debug, Clone, Copy, PartialEq, Eq, Structural)]
pub enum SpiexTaskRequest {
    StopSmc,
    StartSmc,
    GetFlashConfig,
    ReadLbaRange { start: u32, count: u32 },
    WriteLbaRange { start: u32, count: u32 },
}

/// What the NAND task works on.
#[derive(Debug, Clone, Copy, PartialEq, Eq, Structural)]
pub enum SpiexMode {
    /// Requests.
    ReadRequest,
    /// A range to be read.
    ReadLbaRange { start: u32, count: u32 },
    /// A range to be written to a flash of this configuration.
    WriteLbaRange { flash_config: u32, start: u32, count: u32 },
}

/// What the USB task does about something that it received as a command.
#[derive(Debug, Clone, Copy, PartialEq, Eq, Structural)]
pub enum CommandStep {
    /// Pass this on to the NAND task and read on.
    Forward(SpiexTaskRequest),
    /// Cancel range transfers in both directions, answer that this was done, and
    /// read on.
    CancelAll,
    /// Read on.
    Ignore,
    /// Read something else.
    Switch(UsbReadMode),
}

/// What the USB task does about a command.
pub open spec fn step_for(request: Request) -> CommandStep {
    match request {
        Request::StopSmc => CommandStep::Forward(SpiexTaskRequest::StopSmc),
        Request::StartSmc => CommandStep::Forward(SpiexTaskRequest::StartSmc),
        Request::GetFlashConfig => CommandStep::Forward(SpiexTaskRequest::GetFlashConfig),
        Request::Cancel => CommandStep::CancelAll,
        Request::ReadLbaRange { start, count } => CommandStep::Forward(
            SpiexTaskRequest::ReadLbaRange { start, count },
        ),
        Request::WriteLbaRange { start, count } => CommandStep::Switch(
            UsbReadMode::LbaRange { start, count },
        ),
    }
}

/// What the USB task does about the next item of its command stream: a command,
/// something that was none, or the end of the stream.
pub fn read_command<E>(item: Option<Result<Request, E>>) -> (r: CommandStep)
    ensures
        r == match item {
            Some(Ok(request)) => step_for(request),
            Some(Err(_)) => CommandStep::Ignore,
            None => CommandStep::Switch(UsbReadMode::Command),
        },
{
    match item {
        Some(Ok(request)) => match request {
            Request::StopSmc => CommandStep::Forward(SpiexTaskRequest::StopSmc),
            Request::StartSmc => CommandStep::Forward(SpiexTaskRequest::StartSmc),
            Request::GetFlashConfig => CommandStep::Forward(SpiexTaskRequest::GetFlashConfig),
            Request::Cancel => CommandStep::CancelAll,
            Request::ReadLbaRange { start, count } => CommandStep::Forward(
                SpiexTaskRequest::ReadLbaRange { start, count },
            ),
            Request::WriteLbaRange { start, count } => CommandStep::Switch(
                UsbReadMode::LbaRange { start, count },
            ),
        },
        Some(Err(_)) => CommandStep::Ignore,
        None => CommandStep::Switch(UsbReadMode::Command),
    }
}

/// Whether reading from the NAND is to be cancelled after the USB task tried to
/// send a block to the host.
pub fn cancel_after_send(sent: bool) -> (r: bool)
    ensures
        r == !sent,
{
    !sent
}

/// What the NAND task does about a request.
#[derive(Debug, Clone, Copy, PartialEq, Eq, Structural)]
pub enum RequestStep {
    /// Stop the system management controller, then answer that this was done.
    StopSmc,
    /// Start the system management controller, then answer that this was done.
    StartSmc,
    /// Read the flash configuration, then answer with it.
    ReadFlashConfig,
    /// Work on something else.
    Switch(SpiexMode),
}

/// The NAND task between two range transfers.
pub struct RequestSession {
    flash_config: u32,
}

impl RequestSession {
    /// The flash configuration that was read last, or zero.
    pub closed spec fn config(self) -> u32 {
        self.flash_config
    }

    /// No request was received yet.
    pub fn new() -> (r: Self)
        ensures
            r.config() == 0,
    {
        RequestSession { flash_config: 0 }
    }

    /// What to do about a request.
    pub fn request(&self, request: SpiexTaskRequest) -> (r: RequestStep)
        ensures
            r == match request {
                SpiexTaskRequest::StopSmc => RequestStep::StopSmc,
                SpiexTaskRequest::StartSmc => RequestStep::StartSmc,
                SpiexTaskRequest::GetFlashConfig => RequestStep::ReadFlashConfig,
                SpiexTaskRequest::ReadLbaRange { start, count } => RequestStep::Switch(
                    SpiexMode::ReadLbaRange { start, count },
                ),
                SpiexTaskRequest::WriteLbaRange { start, count } => RequestStep::Switch(
                    SpiexMode::WriteLbaRange { flash_config: self.config(), start, count },
                ),
            },
    {
        match request {
            SpiexTaskRequest::StopSmc => RequestStep::StopSmc,
            SpiexTaskRequest::StartSmc => RequestStep::StartSmc,
            SpiexTaskRequest::GetFlashConfig => RequestStep::ReadFlashConfig,
            SpiexTaskRequest::ReadLbaRange { start, count } => RequestStep::Switch(
                SpiexMode::ReadLbaRange { start, count },
            ),
            SpiexTaskRequest::WriteLbaRange { start, count } => RequestStep::Switch(
                SpiexMode::WriteLbaRange { flash_config: self.flash_config, start, count },
            ),
        }
    }

    /// The answer once the system management controller was stopped or started.
    pub fn smc_done(&self) -> (r: Response)
        ensures
            r@ == ResponseView::Okay,
    {
        Response::Okay
    }

    /// Remembers the flash configuration that was read, for ranges to be written
    /// in this session, and answers with it.
    pub fn flash_config_read(&mut self, config: u32) -> (r: Response)
        ensures
            final(self).config() == config,
            r@ == ResponseView::FlashConfig(config),
    {
        self.flash_config = config;
        Response::FlashConfig(config)
    }
}

/// What the NAND task works on once a range was read or written, however that
/// went.
pub fn mode_after_range() -> (r: SpiexMode)
    ensures
        r == SpiexMode::ReadRequest,
{
    SpiexMode::ReadRequest
}

/// What the USB task reads once the blocks of a range were received, however that
/// went.
pub fn read_mode_after_range() -> (r: UsbReadMode)
    ensures
        r == UsbReadMode::Command,
{
    UsbReadMode::Command
}

/// The number of block `i` of a range that begins at `start`, in 32 bits.
pub open spec fn lba_at(start: u32, i: int) -> u32 {
    ((start + i) % 0x1_0000_0000) as u32
}

/// The number of block `i` of a range that begins at `start`.
pub(crate) fn block_number(start: u32, i: u32) -> (r: u32)
    ensures
        r == lba_at(start, i as int),
        r == if start + i < 0x1_0000_0000 {
            start + i
        } else {
            start + i - 0x1_0000_0000
        },
{
    start.wrapping_add(i)
}

/// How many bytes an erase block has, by the flash configuration.
pub open spec fn erase_block_size(flash_config: u32) -> u32 {
    let major = (flash_config / 0x2_0000) % 4;
    let minor = (flash_config / 0x10) % 4;
    if major >= 1 && minor == 2 {
        0x20000
    } else if major >= 1 && minor == 3 {
        0x40000
    } else {
        0x4000
    }
}

/// How many blocks an erase block has, by the flash configuration.
pub open spec fn blocks_per_erase(flash_config: u32) -> u32 {
    erase_block_size(flash_config) / 0x200
}

/// How many blocks an erase block has, by the flash configuration.
pub fn sectors_in_block(flash_config: u32) -> (r: u32)
    ensures
        r == blocks_per_erase(flash_config),
        r == 32 || r == 256 || r == 512,
        r == (if (flash_config >> 17) & 3 >= 1 && (flash_config >> 4) & 3 == 2 {
            256u32
        } else if (flash_config >> 17) & 3 >= 1 && (flash_config >> 4) & 3 == 3 {
            512
        } else {
            32
        }),
{
    let major: u32 = (flash_config >> 17) & 3;
    let minor: u32 = (flash_config >> 4) & 3;
    assert((flash_config >> 17) & 3 == (flash_config / 0x2_0000) % 4) by (bit_vector);
    assert((flash_config >> 4) & 3 == (flash_config / 0x10) % 4) by (bit_vector);
    let block_size: u32 = if major >= 1 && minor == 2 {
        0x20000
    } else if major >= 1 && minor == 3 {
        0x40000
    } else {
        0x4000
    };
    block_size / 0x200
}

/// How many blocks an erase block has, in numbers: by the two bits of the
/// configuration from bit 17 on and the two from bit 4 on.
pub proof fn law_erase_blocks_in_numbers(flash_config: u32)
    ensures
        ({
            let major = (flash_config >> 17) & 3;
            let minor = (flash_config >> 4) & 3;
            let blocks = blocks_per_erase(flash_config);
            &&& (major == 1 || major == 2 || major == 3) && minor == 2 ==> blocks == 256
            &&& (major == 1 || major == 2 || major == 3) && minor == 3 ==> blocks == 512
            &&& (major == 0 || minor == 0 || minor == 1) ==> blocks == 32
        }),
        erase_block_size(flash_config) == blocks_per_erase(flash_config) * 512,
{
    assert((flash_config >> 17) & 3 == (flash_config / 0x2_0000) % 4) by (bit_vector);
    assert((flash_config >> 4) & 3 == (flash_config / 0x10) % 4) by (bit_vector);
}

/// The blocks of a range have consecutive numbers from `start` on, in 32 bits, and
/// a range within 32 bits has each number once.
pub proof fn law_blocks_are_consecutive(start: u32, i: int, j: int)
    requires
        0 <= i,
        0 <= j,
    ensures
        start + i < 0x1_0000_0000 ==> lba_at(start, i) == start + i,
        lba_at(start, i) as int == (start + i) % 0x1_0000_0000,
        start + i < 0x1_0000_0000 && start + j < 0x1_0000_0000 && i != j ==> lba_at(start, i)
            != lba_at(start, j),
{
}

/// What becomes of each command, whatever range it names: a range to be read goes
/// to the NAND task unchanged, and a range to be written makes the USB task receive
/// exactly that range. Two different commands never lead to the same step.
pub proof fn law_commands_keep_their_range(start: u32, count: u32, other: Request, one: Request)
    ensures
        step_for(Request::ReadLbaRange { start, count }) == CommandStep::Forward(
            SpiexTaskRequest::ReadLbaRange { start, count },
        ),
        step_for(Request::WriteLbaRange { start, count }) == CommandStep::Switch(
            UsbReadMode::LbaRange { start, count },
        ),
        step_for(Request::Cancel) == CommandStep::CancelAll,
        step_for(Request::StopSmc) == CommandStep::Forward(SpiexTaskRequest::StopSmc),
        step_for(Request::StartSmc) == CommandStep::Forward(SpiexTaskRequest::StartSmc),
        step_for(Request::GetFlashConfig) == CommandStep::Forward(SpiexTaskRequest::GetFlashConfig),
        step_for(one) == step_for(other) ==> one == other,
{
}

} // verus!
