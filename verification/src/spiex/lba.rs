//! Block transfers: the command streams for the block state machine, and the
//! chained DMA that puts a block's data into them.
use vstd::prelude::*;

use crate::bytes::{copy_at, splice};
use crate::spiex::byteswap::{byte_swap, law_swap_undoes_itself, swapped};
use crate::spiex::{read_command, write_command, LbaMode, SpiexState};
use crate::spiex::{read_command_byte, write_command_byte};

verus! {

/// How many bytes a block has: its data and its spare area.
pub const LBA_SIZE: usize = 0x200 + 0x10;

/// How many words a block has. Each takes one command.
pub const LBA_COMMAND_BUFFER_SIZE: usize = LBA_SIZE / 4;

/// How many bytes the commands to read a block take.
pub const LBA_READ_BYTES: usize = LBA_COMMAND_BUFFER_SIZE * 7;

/// How many bytes the commands to write a block take.
pub const LBA_WRITE_BYTES: usize = LBA_COMMAND_BUFFER_SIZE * 8;

/// The command that reads one word of a block: a write to one register, then a
/// read of another.
#[derive(Debug, Clone, Copy)]
pub struct LbaReadCommand {
    first_reg: u8,
    first_reg_value: [u8; 4],
    second_reg: u8,
    output_read_marker: u8,
}

impl View for LbaReadCommand {
    type V = Seq<u8>;

    closed spec fn view(&self) -> Seq<u8> {
        seq![self.first_reg] + self.first_reg_value@ + seq![
            self.second_reg,
            self.output_read_marker,
        ]
    }
}

/// The bytes of the command that reads one word. The last one is not sent: it
/// makes the state machine send the read marker.
pub open spec fn word_read_bytes() -> Seq<u8> {
    swapped(seq![write_command(0x08), 0, 0, 0, 0, read_command(0x10)]) + seq![7u8]
}

impl LbaReadCommand {
    /// The command that reads the next word.
    pub fn new() -> (r: Self)
        ensures
            r@ == word_read_bytes(),
    {
        let mut bytes: [u8; 6] = [write_command_byte(0x08), 0, 0, 0, 0, read_command_byte(0x10)];
        assert(bytes@ =~= seq![write_command(0x08), 0, 0, 0, 0, read_command(0x10)]);
        byte_swap(&mut bytes);
        let r = LbaReadCommand {
            first_reg: bytes[0],
            first_reg_value: [bytes[1], bytes[2], bytes[3], bytes[4]],
            second_reg: bytes[5],
            // interpreted by the state machine, so it keeps its bits
            output_read_marker: 7,
        };
        assert(r@ =~= word_read_bytes());
        r
    }

    /// The bytes as the state machine reads them.
    pub fn as_bytes(&self) -> (r: [u8; 7])
        ensures
            r@ == self@,
    {
        let v: [u8; 4] = self.first_reg_value;
        let r: [u8; 7] = [
            self.first_reg,
            v[0],
            v[1],
            v[2],
            v[3],
            self.second_reg,
            self.output_read_marker,
        ];
        assert(r@ =~= self@);
        r
    }
}

/// The command that writes one word of a block: the word goes to one register,
/// then another is written.
#[derive(Debug, Clone, Copy)]
pub struct LbaWriteCommand {
    first_reg: u8,
    first_reg_value: [u8; 4],
    second_reg: u8,
    output_read_marker: u8,
    second_reg_value: u8,
}

impl View for LbaWriteCommand {
    type V = Seq<u8>;

    closed spec fn view(&self) -> Seq<u8> {
        seq![self.first_reg] + self.first_reg_value@ + seq![
            self.second_reg,
            self.output_read_marker,
            self.second_reg_value,
        ]
    }
}

/// The bytes of the command that writes one word, with zero in place of the word.
pub open spec fn word_write_bytes() -> Seq<u8> {
    swapped(seq![write_command(0x10), 0, 0, 0, 0, write_command(0x08), 0, 0x01])
}

impl LbaWriteCommand {
    /// The command that writes the next word, with zero in place of the word.
    pub fn new() -> (r: Self)
        ensures
            r@ == word_write_bytes(),
    {
        let mut bytes: [u8; 8] = [
            write_command_byte(0x10),
            0,
            0,
            0,
            0,
            write_command_byte(0x08),
            0,
            0x01,
        ];
        assert(bytes@ =~= seq![write_command(0x10), 0, 0, 0, 0, write_command(0x08), 0, 0x01]);
        byte_swap(&mut bytes);
        let r = LbaWriteCommand {
            first_reg: bytes[0],
            first_reg_value: [bytes[1], bytes[2], bytes[3], bytes[4]],
            second_reg: bytes[5],
            output_read_marker: bytes[6],
            second_reg_value: bytes[7],
        };
        assert(r@ =~= word_write_bytes());
        r
    }

    /// The bytes as the state machine reads them.
    pub fn as_bytes(&self) -> (r: [u8; 8])
        ensures
            r@ == self@,
    {
        let v: [u8; 4] = self.first_reg_value;
        let r: [u8; 8] = [
            self.first_reg,
            v[0],
            v[1],
            v[2],
            v[3],
            self.second_reg,
            self.output_read_marker,
            self.second_reg_value,
        ];
        assert(r@ =~= self@);
        r
    }
}

/// The bytes of the commands that read a block: the same command for each word.
pub open spec fn block_read_bytes() -> Seq<u8> {
    Seq::new(LBA_READ_BYTES as nat, |i: int| word_read_bytes()[i % 7])
}

/// The bytes of the commands that write a block, with zero in place of the data.
pub open spec fn block_write_template() -> Seq<u8> {
    Seq::new(LBA_WRITE_BYTES as nat, |i: int| word_write_bytes()[i % 8])
}

/// The bytes of the commands that write the block `data`: the word with number
/// `k` stands in the bytes 1 to 4 of the command with number `k`.
pub open spec fn block_write_bytes(data: Seq<u8>) -> Seq<u8> {
    Seq::new(
        LBA_WRITE_BYTES as nat,
        |i: int|
            if 1 <= i % 8 <= 4 {
                data[4 * (i / 8) + i % 8 - 1]
            } else {
                word_write_bytes()[i % 8]
            },
    )
}

impl SpiexState<LbaMode> {
    /// The bytes to send, while the bytes of a block are received, to read it.
    pub fn read_lba(&self) -> (r: [u8; LBA_READ_BYTES])
        ensures
            r@ == block_read_bytes(),
    {
        let command: [u8; 7] = LbaReadCommand::new().as_bytes();
        let mut r: [u8; LBA_READ_BYTES] = [0; LBA_READ_BYTES];
        let mut k: usize = 0;
        while k < LBA_COMMAND_BUFFER_SIZE
            invariant
                k <= LBA_COMMAND_BUFFER_SIZE,
                command@ == word_read_bytes(),
                forall|i: int| 0 <= i < 7 * k ==> #[trigger] r@[i] == word_read_bytes()[i % 7],
            decreases LBA_COMMAND_BUFFER_SIZE - k,
        {
            copy_at(&mut r, 7 * k, &command);
            k = k + 1;
        }
        assert(r@ =~= block_read_bytes());
        r
    }
}

/// The bytes of the commands that write a block, with zero in place of the data.
pub fn lba_write_command_buffer() -> (r: [u8; LBA_WRITE_BYTES])
    ensures
        r@ == block_write_template(),
{
    let command: [u8; 8] = LbaWriteCommand::new().as_bytes();
    let mut r: [u8; LBA_WRITE_BYTES] = [0; LBA_WRITE_BYTES];
    let mut k: usize = 0;
    while k < LBA_COMMAND_BUFFER_SIZE
        invariant
            k <= LBA_COMMAND_BUFFER_SIZE,
            command@ == word_write_bytes(),
            forall|i: int| 0 <= i < 8 * k ==> #[trigger] r@[i] == word_write_bytes()[i % 8],
        decreases LBA_COMMAND_BUFFER_SIZE - k,
    {
        copy_at(&mut r, 8 * k, &command);
        k = k + 1;
    }
    assert(r@ =~= block_write_template());
    r
}

/// One transfer of the DMA chain: `write_count` bytes to `write_addr`. A count of
/// zero ends the chain.
#[derive(Debug, Clone, Copy, PartialEq, Eq, Structural)]
pub struct LbaWriteDmaCommand {
    pub write_addr: u32,
    pub write_count: u32,
}

/// The transfers that put the data of a block into the commands at address
/// `base`: each takes one word to its place, and an empty one ends the chain.
pub open spec fn chain_for(base: int) -> Seq<LbaWriteDmaCommand> {
    Seq::new(
        (LBA_COMMAND_BUFFER_SIZE + 1) as nat,
        |k: int|
            if k < LBA_COMMAND_BUFFER_SIZE {
                LbaWriteDmaCommand { write_addr: (base + 8 * k + 1) as u32, write_count: 4 }
            } else {
                LbaWriteDmaCommand { write_addr: 0, write_count: 0 }
            },
    )
}

/// The memory `mem`, which begins at address `base`, after a chain of transfers
/// has taken its bytes from `data`.
pub open spec fn after_chain(
    mem: Seq<u8>,
    base: int,
    chain: Seq<LbaWriteDmaCommand>,
    data: Seq<u8>,
) -> Seq<u8>
    decreases chain.len(),
{
    if chain.len() == 0 || chain[0].write_count == 0 {
        mem
    } else {
        let n = chain[0].write_count as int;
        after_chain(
            splice(mem, chain[0].write_addr - base, data.take(n)),
            base,
            chain.skip(1),
            data.skip(n),
        )
    }
}

/// What makes the data of a block part of the commands that write it.
///
/// The commands themselves stand in a buffer that the state machine is fed from;
/// [`lba_write_command_buffer`] is what it holds at first.
pub struct LbaWriteData {
    // one transfer for each word, and the one that ends the chain
    dma_commands: [LbaWriteDmaCommand; 133],
}

impl LbaWriteData {
    /// The transfers.
    pub closed spec fn chain(self) -> Seq<LbaWriteDmaCommand> {
        self.dma_commands@
    }

    /// A chain that is to be initialised before it is used.
    pub fn uninit() -> (r: Self)
        ensures
            r.chain() == Seq::new(
                133,
                |k: int| LbaWriteDmaCommand { write_addr: 0, write_count: 0 },
            ),
    {
        let r = LbaWriteData {
            dma_commands: [LbaWriteDmaCommand { write_addr: 0, write_count: 0 }; 133],
        };
        assert(r.chain() =~= Seq::new(
            133,
            |k: int| LbaWriteDmaCommand { write_addr: 0, write_count: 0 },
        ));
        r
    }

    /// Aims the chain at a command buffer that begins at `pio_buffer_addr`.
    pub fn init(&mut self, pio_buffer_addr: u32)
        requires
            pio_buffer_addr + LBA_WRITE_BYTES <= 0x1_0000_0000,
        ensures
            final(self).chain() == chain_for(pio_buffer_addr as int),
    {
        let mut k: usize = 0;
        while k < LBA_COMMAND_BUFFER_SIZE
            invariant
                k <= LBA_COMMAND_BUFFER_SIZE,
                pio_buffer_addr + LBA_WRITE_BYTES <= 0x1_0000_0000,
                forall|j: int|
                    0 <= j < k ==> #[trigger] self.dma_commands@[j] == chain_for(
                        pio_buffer_addr as int,
                    )[j],
            decreases LBA_COMMAND_BUFFER_SIZE - k,
        {
            self.dma_commands[k] = LbaWriteDmaCommand {
                write_addr: pio_buffer_addr + 8 * (k as u32) + 1,
                write_count: 4,
            };
            k = k + 1;
        }
        self.dma_commands[LBA_COMMAND_BUFFER_SIZE] = LbaWriteDmaCommand {
            write_addr: 0,
            write_count: 0,
        };
        assert(self.chain() =~= chain_for(pio_buffer_addr as int));
    }

    /// The transfers, to be placed where the DMA can read them.
    pub fn dma_commands(&self) -> (r: &[LbaWriteDmaCommand; 133])
        ensures
            r@ == self.chain(),
    {
        &self.dma_commands
    }

    /// The register values that start the chain. The data channel takes bytes
    /// from the block at `lba_data_addr`; the control channel feeds it the
    /// transfers at `dma_commands_addr` by writing to its write address and
    /// transfer count registers at `dma0_al1_write_addr`.
    pub fn prepare(
        lba_data_addr: u32,
        dma_commands_addr: u32,
        dma0_al1_write_addr: u32,
        dma0_ctrl: u32,
        dma1_number: u8,
    ) -> (r: ChainStart)
        ensures
            r.data_read_addr == lba_data_addr,
            data_channel_set_up(dma0_ctrl, dma1_number, r.data_ctrl),
            r.control_read_addr == dma_commands_addr,
            r.control_write_addr == dma0_al1_write_addr,
            r.control_trans_count == 2,
            control_channel_set_up(dma1_number, r.control_ctrl),
    {
        let chain: u32 = (dma1_number as u32) & 0xf;
        let data_ctrl: u32 = (dma0_ctrl & 0xff9f_87c2) | 0x0020_0031 | (chain << 11);
        let control_ctrl: u32 = 0x0000_04f9 | (chain << 11);
        proof {
            lemma_data_channel(dma0_ctrl, dma1_number, data_ctrl);
            lemma_control_channel(dma1_number, control_ctrl);
        }
        ChainStart {
            data_read_addr: lba_data_addr,
            data_ctrl,
            control_read_addr: dma_commands_addr,
            control_write_addr: dma0_al1_write_addr,
            control_trans_count: 2,
            control_ctrl,
        }
    }
}

/// The register values of the two DMA channels of a chain.
#[derive(Debug, Clone, Copy, PartialEq, Eq, Structural)]
pub struct ChainStart {
    /// Where the data channel reads.
    pub data_read_addr: u32,
    /// How the data channel works, to be written without triggering it.
    pub data_ctrl: u32,
    /// Where the control channel reads.
    pub control_read_addr: u32,
    /// Where the control channel writes.
    pub control_write_addr: u32,
    /// How many words the control channel moves at a time.
    pub control_trans_count: u32,
    /// How the control channel works. Writing it starts the chain.
    pub control_ctrl: u32,
}

/// The bits of a channel control word from `shift` on, as wide as `mask`.
pub open spec fn bits(word: u32, shift: u32, mask: u32) -> u32 {
    (word >> shift) & mask
}

/// `word` is the control word `before`, changed so that the channel is enabled,
/// moves bytes, counts both addresses up, does not reverse bytes, chains to
/// channel `chain_to`, and raises its interrupt only at the end of the chain.
pub open spec fn data_channel_set_up(before: u32, chain_to: u8, word: u32) -> bool {
    &&& bits(word, 0, 1) == 1
    &&& bits(word, 1, 1) == bits(before, 1, 1)
    &&& bits(word, 2, 3) == 0
    &&& bits(word, 4, 1) == 1
    &&& bits(word, 5, 1) == 1
    &&& bits(word, 6, 0x1f) == bits(before, 6, 0x1f)
    &&& bits(word, 11, 0xf) == (chain_to as u32) & 0xf
    &&& bits(word, 15, 0x3f) == bits(before, 15, 0x3f)
    &&& bits(word, 21, 1) == 1
    &&& bits(word, 22, 1) == 0
    &&& bits(word, 23, 0x1ff) == bits(before, 23, 0x1ff)
}

/// `word` makes a channel enabled, move words, count both addresses up, keep its
/// write address within eight bytes, not reverse bytes, chain to channel
/// `chain_to`, and leaves every other setting zero.
pub open spec fn control_channel_set_up(chain_to: u8, word: u32) -> bool {
    &&& bits(word, 0, 1) == 1
    &&& bits(word, 1, 1) == 0
    &&& bits(word, 2, 3) == 2
    &&& bits(word, 4, 1) == 1
    &&& bits(word, 5, 1) == 1
    &&& bits(word, 6, 0xf) == 3
    &&& bits(word, 10, 1) == 1
    &&& bits(word, 11, 0xf) == (chain_to as u32) & 0xf
    &&& bits(word, 15, 0x1ffff) == 0
}

proof fn lemma_data_channel(before: u32, chain_to: u8, word: u32)
    requires
        word == (before & 0xff9f_87c2) | 0x0020_0031 | (((chain_to as u32) & 0xf) << 11),
    ensures
        data_channel_set_up(before, chain_to, word),
{
    assert(data_channel_set_up(before, chain_to, word)) by (bit_vector)
        requires
            word == (before & 0xff9f_87c2) | 0x0020_0031 | (((chain_to as u32) & 0xf) << 11),
    ;
}

proof fn lemma_control_channel(chain_to: u8, word: u32)
    requires
        word == 0x0000_04f9 | (((chain_to as u32) & 0xf) << 11),
    ensures
        control_channel_set_up(chain_to, word),
{
    assert(control_channel_set_up(chain_to, word)) by (bit_vector)
        requires
            word == 0x0000_04f9 | (((chain_to as u32) & 0xf) << 11),
    ;
}

/// What the chain leaves in the command buffer after the transfers from number
/// `k` on, if it did the ones before.
proof fn lemma_chain_from(k: int, mem: Seq<u8>, base: int, data: Seq<u8>)
    requires
        0 <= k <= LBA_COMMAND_BUFFER_SIZE,
        0 <= base,
        base + LBA_WRITE_BYTES <= 0x1_0000_0000,
        data.len() == LBA_SIZE,
        mem.len() == LBA_WRITE_BYTES,
        forall|i: int| 0 <= i < 8 * k ==> #[trigger] mem[i] == block_write_bytes(data)[i],
        forall|i: int|
            8 * k <= i < LBA_WRITE_BYTES && !(1 <= i % 8 <= 4) ==> #[trigger] mem[i]
                == word_write_bytes()[i % 8],
    ensures
        after_chain(mem, base, chain_for(base).skip(k), data.skip(4 * k)) == block_write_bytes(data),
    decreases LBA_COMMAND_BUFFER_SIZE - k,
{
    let chain = chain_for(base).skip(k);
    assert(chain[0] == chain_for(base)[k]);
    if k < LBA_COMMAND_BUFFER_SIZE {
        let word = data.skip(4 * k).take(4);
        let next = splice(mem, 8 * k + 1, word);
        assert(chain[0].write_addr - base == 8 * k + 1);
        assert forall|i: int| 0 <= i < 8 * (k + 1) implies #[trigger] next[i] == block_write_bytes(
            data,
        )[i] by {
            if 8 * k <= i {
                assert(i / 8 == k && i % 8 == i - 8 * k);
            }
        }
        assert(chain.skip(1) =~= chain_for(base).skip(k + 1));
        assert(data.skip(4 * k).skip(4) =~= data.skip(4 * (k + 1)));
        lemma_chain_from(k + 1, next, base, data);
    } else {
        assert(mem =~= block_write_bytes(data));
    }
}

/// The chain that [`LbaWriteData::init`] sets up turns the command buffer into
/// the commands that write the block: every byte of the data comes to its place
/// and nothing else changes.
pub proof fn law_chain_places_the_block(base: int, data: Seq<u8>)
    requires
        0 <= base,
        base + LBA_WRITE_BYTES <= 0x1_0000_0000,
        data.len() == LBA_SIZE,
    ensures
        after_chain(block_write_template(), base, chain_for(base), data) == block_write_bytes(data),
{
    assert(chain_for(base).skip(0) =~= chain_for(base));
    assert(data.skip(0) =~= data);
    lemma_chain_from(0, block_write_template(), base, data);
}

/// A block that the host sent, swapped before it is placed, reaches the
/// controller as it was sent: the word with number `k` is what the command with
/// number `k` writes to the data register.
pub proof fn law_block_reaches_the_controller(block: Seq<u8>, k: int)
    requires
        block.len() == LBA_SIZE,
        0 <= k < LBA_COMMAND_BUFFER_SIZE,
    ensures
        ({
            let received = swapped(block_write_bytes(swapped(block)));
            &&& received[8 * k] == write_command(0x10)
            &&& received.subrange(8 * k + 1, 8 * k + 5) == block.subrange(4 * k, 4 * k + 4)
        }),
{
    let sent = block_write_bytes(swapped(block));
    let received = swapped(sent);
    let head = seq![write_command(0x10), 0, 0, 0, 0, write_command(0x08), 0, 0x01];
    law_swap_undoes_itself(block);
    law_swap_undoes_itself(head);
    assert((8 * k) % 8 == 0);
    assert(received[8 * k] == swapped(swapped(head))[0]);
    let written = received.subrange(8 * k + 1, 8 * k + 5);
    let word = block.subrange(4 * k, 4 * k + 4);
    assert forall|j: int| 0 <= j < 4 implies #[trigger] written[j] == word[j] by {
        assert((8 * k + 1 + j) % 8 == 1 + j && (8 * k + 1 + j) / 8 == k);
        assert(received[8 * k + 1 + j] == swapped(swapped(block))[4 * k + j]);
    }
    assert(written =~= word);
}

/// Running the chain again with another block leaves nothing of the one before.
pub proof fn law_chain_replaces_the_block(base: int, before: Seq<u8>, data: Seq<u8>)
    requires
        0 <= base,
        base + LBA_WRITE_BYTES <= 0x1_0000_0000,
        before.len() == LBA_SIZE,
        data.len() == LBA_SIZE,
    ensures
        after_chain(block_write_bytes(before), base, chain_for(base), data) == block_write_bytes(
            data,
        ),
{
    assert(chain_for(base).skip(0) =~= chain_for(base));
    assert(data.skip(0) =~= data);
    lemma_chain_from(0, block_write_bytes(before), base, data);
}

/// Reading a block sends 132 commands of seven bytes: the command register is
/// written with zero, then the data register is read. With the bits put back in
/// order these are the command bytes of registers 0x08 and 0x10; the last byte is
/// for the state machine and is not sent.
pub proof fn law_block_is_read_word_by_word(k: int)
    requires
        0 <= k < 132,
    ensures
        block_read_bytes().len() == 7 * 132,
        ({
            let command = block_read_bytes().subrange(7 * k, 7 * k + 7);
            &&& swapped(command.subrange(0, 6)) == seq![0x22u8, 0, 0, 0, 0, 0x41]
            &&& command[6] == 7
        }),
{
    let plain = seq![write_command(0x08), 0, 0, 0, 0, read_command(0x10)];
    let command = block_read_bytes().subrange(7 * k, 7 * k + 7);
    law_swap_undoes_itself(plain);
    assert forall|j: int| 0 <= j < 7 implies #[trigger] command[j] == word_read_bytes()[j] by {
        assert((7 * k + j) % 7 == j);
    }
    assert(command.subrange(0, 6) =~= swapped(plain));
    assert(plain =~= seq![0x22u8, 0, 0, 0, 0, 0x41]);
}

/// Writing a block sends 132 commands of eight bytes: a word goes to the data
/// register, then the command register is written with one. With the bits put
/// back in order these are the command bytes of registers 0x10 and 0x08; the zero
/// behind the second tells the state machine that this is a write. The words are
/// those of the block, in order.
pub proof fn law_block_is_written_word_by_word(block: Seq<u8>, k: int)
    requires
        block.len() == 528,
        0 <= k < 132,
    ensures
        ({
            let sent = block_write_bytes(swapped(block));
            &&& sent.len() == 8 * 132
            &&& swapped(sent.subrange(8 * k, 8 * k + 8)) == seq![0x42u8] + block.subrange(
                4 * k,
                4 * k + 4,
            ) + seq![0x22u8, 0, 1]
        }),
        swapped(block_write_template().subrange(8 * k, 8 * k + 8)) == seq![
            0x42u8, 0, 0, 0, 0, 0x22, 0, 1,
        ],
{
    let plain = seq![write_command(0x10), 0, 0, 0, 0, write_command(0x08), 0, 0x01];
    let sent = block_write_bytes(swapped(block));
    let command = sent.subrange(8 * k, 8 * k + 8);
    let empty = block_write_template().subrange(8 * k, 8 * k + 8);
    let expected = seq![0x42u8] + block.subrange(4 * k, 4 * k + 4) + seq![0x22u8, 0, 1];
    law_swap_undoes_itself(plain);
    law_swap_undoes_itself(block);
    assert(plain =~= seq![0x42u8, 0, 0, 0, 0, 0x22, 0, 1]);
    assert forall|j: int| 0 <= j < 8 implies #[trigger] swapped(command)[j] == expected[j] by {
        assert((8 * k + j) % 8 == j && (8 * k + j) / 8 == k);
        if 1 <= j <= 4 {
            assert(swapped(swapped(block))[4 * k + j - 1] == block[4 * k + j - 1]);
        } else {
            assert(swapped(swapped(plain))[j] == plain[j]);
        }
    }
    assert(swapped(command) =~= expected);
    assert forall|j: int| 0 <= j < 8 implies #[trigger] swapped(empty)[j] == plain[j] by {
        assert((8 * k + j) % 8 == j);
        assert(swapped(swapped(plain))[j] == plain[j]);
    }
    assert(swapped(empty) =~= plain);
}

/// The chain takes four bytes to each command, just behind its first byte, and
/// ends with an empty transfer.
pub proof fn law_chain_in_numbers(base: int, k: int)
    requires
        0 <= base,
        base + 1056 <= 0x1_0000_0000,
        0 <= k < 132,
    ensures
        chain_for(base).len() == 133,
        chain_for(base)[k].write_addr == base + 8 * k + 1,
        chain_for(base)[k].write_count == 4,
        chain_for(base)[132].write_addr == 0,
        chain_for(base)[132].write_count == 0,
{
}

/// The control words in full. The data channel keeps every bit of its control
/// word but these: it is enabled, moves bytes, counts both addresses up, chains to
/// the control channel, is quiet and does not reverse bytes. The control channel
/// has exactly these set: it is enabled, moves words, counts both addresses up,
/// wraps its write address at eight bytes, and chains to itself.
pub proof fn law_control_words_in_full(before: u32, chain_to: u8, data: u32, control: u32)
    requires
        data_channel_set_up(before, chain_to, data),
        control_channel_set_up(chain_to, control),
        chain_to < 16,
    ensures
        data == (before & 0xff9f_87c2) | 0x0020_0031 | ((chain_to as u32) << 11),
        control == 0x0000_04f9 | ((chain_to as u32) << 11),
{
    assert(data == (before & 0xff9f_87c2) | 0x0020_0031 | ((chain_to as u32) << 11)) by (bit_vector)
        requires
            data_channel_set_up(before, chain_to, data),
            chain_to < 16,
    ;
    assert(control == 0x0000_04f9 | ((chain_to as u32) << 11)) by (bit_vector)
        requires
            control_channel_set_up(chain_to, control),
            chain_to < 16,
    ;
}

} // verus!
