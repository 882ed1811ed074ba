use flasher::spiex::byteswap::byte_swap;
use flasher::spiex::clock::{calculate_clock_divider, spi_clock_divider, SPI_FREQUENCY_HZ};
use flasher::spiex::{Handover, Level, Machine, RegStep, RegWriteRequest, SpiexState};

#[test]
fn bits_are_mirrored_within_bytes() {
    let mut data = [0x01u8, 0x80, 0x22, 0xff, 0x00, 0x12];
    byte_swap(&mut data);
    assert_eq!(data, [0x80, 0x01, 0x44, 0xff, 0x00, 0x48]);
}

#[test]
fn bits_trade_places() {
    for byte in 0..=255u8 {
        let mut data = [byte];
        byte_swap(&mut data);
        assert_eq!(data[0], byte.reverse_bits());
    }
}

#[test]
fn swapping_twice_changes_nothing() {
    let mut data: Vec<u8> = (0..=255).collect();
    byte_swap(&mut data);
    byte_swap(&mut data);
    assert_eq!(data, (0..=255).collect::<Vec<u8>>());
}

#[test]
fn register_read_is_framed() {
    let state = SpiexState::new();
    assert_eq!(state.read_reg(0x04), [0x88, 0xff, 0, 0, 0, 0]);
    assert_eq!(state.read_reg_value([0xff, 0xff, 0x80, 0x40, 0xc0, 0x20]), 0x0403_0201);
}

#[test]
fn register_write_is_framed() {
    let state = SpiexState::new();
    assert_eq!(state.write_reg(0x0c, 0x600), [0x4c, 0, 0x60, 0, 0]);
    assert_eq!(state.write_reg(0x40, 0), state.write_reg(0x00, 0));
}

#[test]
fn register_write_arrives() {
    let state = SpiexState::new();
    let mut sent = state.write_reg(0x08, 0x1234_5678);
    let bulk = RegWriteRequest::new(0x08, 0x1234_5678).as_bytes();
    assert_eq!(bulk[0], 39);
    assert_eq!(bulk[1..], sent);
    byte_swap(&mut sent);
    assert_eq!(sent, [0x22, 0x78, 0x56, 0x34, 0x12]);
}

#[test]
fn register_value_arrives() {
    let mut answer = [0, 0, 0x78, 0x56, 0x34, 0x12];
    byte_swap(&mut answer);
    assert_eq!(SpiexState::new().read_reg_value(answer), 0x1234_5678);
}

#[test]
fn bulk_requests_follow_each_other() {
    let (state, _) = SpiexState::new().into_reg_bulk();
    let requests = [RegWriteRequest::new(0x08, 0x55), RegWriteRequest::new(0x08, 0xaa)];
    let mut out = [0xeeu8; 14];
    assert_eq!(state.write_reg_bulk(&requests, &mut out), 12);
    assert_eq!(out, [39, 0x44, 0xaa, 0, 0, 0, 39, 0x44, 0x55, 0, 0, 0, 0xee, 0xee]);
}

#[test]
fn one_machine_drives_the_lines() {
    let mut state = SpiexState::new();
    state.set_cs(Level::Low);
    assert!(state.is_enabled(Machine::Spi));
    assert!(!state.is_enabled(Machine::Lba));
    let (state, handover) = state.into_lba();
    assert_eq!(handover, Handover { off: Machine::Spi, on: Machine::Lba });
    assert!(state.is_enabled(Machine::Lba));
    assert!(!state.is_enabled(Machine::Spi));
    let (state, handover) = state.into_spi();
    assert_eq!(handover, Handover { off: Machine::Lba, on: Machine::Spi });
    let (state, handover) = state.into_reg_bulk();
    assert_eq!(handover, Handover { off: Machine::Spi, on: Machine::RegBulk });
    assert!(state.is_enabled(Machine::RegBulk));
    let (state, handover) = state.into_spi();
    assert_eq!(handover, Handover { off: Machine::RegBulk, on: Machine::Spi });
    assert!(state.is_enabled(Machine::Spi));
    assert!(!state.is_enabled(Machine::RegBulk));
}

#[test]
fn chip_select_frames_register_access() {
    assert_eq!(
        SpiexState::reg_access(),
        [RegStep::Cs(Level::Low), RegStep::Exchange, RegStep::Cs(Level::High)]
    );
}

#[test]
fn lines_are_clocked_at_fourteen_megahertz() {
    assert_eq!(SPI_FREQUENCY_HZ, 14_000_000);
    assert_eq!(spi_clock_divider(125_000_000), 571);
    assert_eq!(spi_clock_divider(u32::MAX), 19634);
    assert_eq!(spi_clock_divider(0), 0);
}

#[test]
fn divider_counts_four_instructions() {
    assert_eq!(calculate_clock_divider(125_000_000, 14_000_000), 571);
    assert_eq!(calculate_clock_divider(133_000_000, 14_000_000), 608);
    assert_eq!(calculate_clock_divider(4, 1), 256);
    assert_eq!(calculate_clock_divider(0, 1), 0);
    assert_eq!(calculate_clock_divider(8, 0x4000_0001), 512);
}
