use flasher::spiex::byteswap::byte_swap;
use flasher::spiex::lba::{
    lba_write_command_buffer, ChainStart, LbaReadCommand, LbaWriteCommand, LbaWriteData,
    LbaWriteDmaCommand, LBA_COMMAND_BUFFER_SIZE, LBA_SIZE,
};
use flasher::spiex::SpiexState;

#[test]
fn commands_have_their_bytes() {
    assert_eq!(LbaReadCommand::new().as_bytes(), [0x44, 0, 0, 0, 0, 0x82, 7]);
    assert_eq!(LbaWriteCommand::new().as_bytes(), [0x42, 0, 0, 0, 0, 0x44, 0, 0x80]);
}

#[test]
fn reading_repeats_one_command() {
    let (state, _) = SpiexState::new().into_lba();
    let bytes = state.read_lba();
    assert_eq!(bytes.len(), 924);
    for command in bytes.chunks(7) {
        assert_eq!(command, LbaReadCommand::new().as_bytes());
    }
}

#[test]
fn writing_repeats_one_command() {
    let bytes = lba_write_command_buffer();
    assert_eq!(bytes.len(), 1056);
    for command in bytes.chunks(8) {
        assert_eq!(command, LbaWriteCommand::new().as_bytes());
    }
}

#[test]
fn chain_is_empty_before_it_is_aimed() {
    let data = LbaWriteData::uninit();
    let empty = LbaWriteDmaCommand { write_addr: 0, write_count: 0 };
    assert_eq!(data.dma_commands(), &[empty; 133]);
}

#[test]
fn chain_aims_at_the_words() {
    let mut data = LbaWriteData::uninit();
    data.init(0x2000_0000);
    let chain = data.dma_commands();
    assert_eq!(chain[0], LbaWriteDmaCommand { write_addr: 0x2000_0001, write_count: 4 });
    assert_eq!(chain[1], LbaWriteDmaCommand { write_addr: 0x2000_0009, write_count: 4 });
    assert_eq!(chain[131], LbaWriteDmaCommand { write_addr: 0x2000_0419, write_count: 4 });
    assert_eq!(chain[132], LbaWriteDmaCommand { write_addr: 0, write_count: 0 });
}

fn run_chain(memory: &mut [u8], base: u32, chain: &[LbaWriteDmaCommand], data: &[u8]) {
    let mut rest = data;
    for transfer in chain {
        if transfer.write_count == 0 {
            return;
        }
        let count = transfer.write_count as usize;
        let at = (transfer.write_addr - base) as usize;
        memory[at..at + count].copy_from_slice(&rest[..count]);
        rest = &rest[count..];
    }
}

#[test]
fn chain_places_and_replaces_the_block() {
    let base = 0x2000_4000;
    let mut write = LbaWriteData::uninit();
    write.init(base);
    let mut memory = lba_write_command_buffer();
    for seed in [3usize, 11] {
        let block: Vec<u8> = (0..LBA_SIZE).map(|i| (i * seed) as u8).collect();
        let mut swapped = block.clone();
        byte_swap(&mut swapped);
        run_chain(&mut memory, base, write.dma_commands(), &swapped);
        let mut received = memory;
        byte_swap(&mut received);
        for k in 0..LBA_COMMAND_BUFFER_SIZE {
            assert_eq!(received[8 * k], 0x42);
            assert_eq!(received[8 * k + 1..8 * k + 5], block[4 * k..4 * k + 4]);
            assert_eq!(received[8 * k + 5..8 * k + 8], [0x22, 0, 0x01]);
        }
    }
}

#[test]
fn channels_are_set_up() {
    assert_eq!(
        LbaWriteData::prepare(0x2000_0000, 0x2000_1000, 0x5000_00d4, 0, 4),
        ChainStart {
            data_read_addr: 0x2000_0000,
            data_ctrl: 0x0020_2031,
            control_read_addr: 0x2000_1000,
            control_write_addr: 0x5000_00d4,
            control_trans_count: 2,
            control_ctrl: 0x24f9,
        }
    );
    assert_eq!(LbaWriteData::prepare(0, 0, 0, 0xffff_ffff, 4).data_ctrl, 0xffbf_a7f3);
}
