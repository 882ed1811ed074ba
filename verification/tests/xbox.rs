use flasher::spiex::{Level, RegWriteRequest};
use flasher::xbox::{NandAction, NandRun, NandStep, SmcStep, TimeoutError, XboxState};

fn describe(action: &NandAction) -> String {
    match action {
        NandAction::ReadReg { reg } => format!("read {:x}", reg),
        NandAction::WriteReg { reg, value } => format!("write {:x} {:x}", reg, value),
        NandAction::EnterLba => format!("enter lba"),
        NandAction::ReadBlock => format!("read block"),
        NandAction::SwapBlock => format!("swap block"),
        NandAction::WriteBlock => format!("write block"),
        NandAction::LeaveLba => format!("leave lba"),
        NandAction::EnterRegBulk => format!("enter bulk"),
        NandAction::WriteRegBulk(requests) => {
            let commands = [0x55, 0xaa, 0x04].map(|c| RegWriteRequest::new(0x08, c).as_bytes());
            assert_eq!(requests.map(|r| r.as_bytes()), commands);
            format!("program")
        }
        NandAction::LeaveRegBulk => format!("leave bulk"),
        NandAction::Finish(result) => format!("finish {:?}", result),
    }
}

/// Runs an operation; reads are answered from `answers`, each with the time that
/// a wait has taken.
fn run<const N: usize>(mut run: NandRun<N>, answers: &[(u32, u64)]) -> Vec<String> {
    let mut left = answers;
    let mut seen = Vec::new();
    loop {
        let action = run.action();
        seen.push(describe(&action));
        match action {
            NandAction::Finish(_) => return seen,
            NandAction::ReadReg { .. } => {
                run.advance(left[0].0, left[0].1);
                left = &left[1..];
            }
            _ => run.advance(0, 0),
        }
    }
}

#[test]
fn reading_a_block() {
    assert_eq!(
        run(XboxState::read_lba(1000, 3), &[(0x5a, 0), (0, 0)]),
        [
            "read 4", "write 4 5a", "write c 600", "write 8 3", "read 4", "write c 0", "enter lba",
            "read block", "swap block", "leave lba", "finish Ok(())",
        ]
    );
}

#[test]
fn writing_a_block() {
    assert_eq!(
        run(XboxState::write_lba(1000, 3), &[(1, 0), (0, 0), (2, 0), (4, 0)]),
        [
            "read 4", "write 4 1", "write c 0", "enter lba", "write block", "leave lba", "read 4",
            "write c 600", "read 4", "enter bulk", "program", "leave bulk", "read 4",
            "finish Ok(())",
        ]
    );
}

#[test]
fn erasing_keeps_the_configuration() {
    assert_eq!(
        run(XboxState::nand_erase_block(1000, 0x20), &[(0, 0), (0x0234_0000, 0), (0, 0)]),
        [
            "read 4", "write 4 0", "read 0", "write 0 2340008", "write c 4000", "write 8 aa",
            "write 8 55", "write 8 5", "read 4", "finish Ok(())",
        ]
    );
}

#[test]
fn busy_controller_is_asked_again() {
    let seen = run(XboxState::read_lba(1000, 0), &[(0, 0), (1, 5), (3, 1000), (0xfffe, 2000)]);
    assert_eq!(seen[4..8], ["read 4", "read 4", "read 4", "write c 0"]);
    assert_eq!(seen[seen.len() - 1], "finish Ok(())");
}

#[test]
fn late_controller_ends_the_operation() {
    let seen = run(XboxState::read_lba(1000, 0), &[(0, 0), (1, 1001)]);
    assert_eq!(seen[4..], ["read 4", "finish Err(TimeoutError)"]);
    let seen = run(XboxState::write_lba(10, 0), &[(0, 0), (0, 0), (1, 10), (1, 11)]);
    assert_eq!(seen[seen.len() - 2..], ["read 4", "finish Err(TimeoutError)"]);
    let seen = run(XboxState::nand_erase_block(0, 0), &[(0, 0), (0, 0), (1, 1)]);
    assert_eq!(seen[seen.len() - 2..], ["read 4", "finish Err(TimeoutError)"]);
}

#[test]
fn finished_operation_stays_finished() {
    let mut run = NandRun::new([NandStep::WaitReady], 0);
    assert!(run.is_waiting());
    run.advance(1, 1);
    assert!(!run.is_waiting());
    run.advance(0, 0);
    assert!(matches!(run.action(), NandAction::Finish(Err(TimeoutError))));
    let mut run = NandRun::new([NandStep::EnterLba], 0);
    assert!(!run.is_waiting());
    run.advance(1, 1);
    run.advance(1, 1);
    assert!(matches!(run.action(), NandAction::Finish(Ok(()))));
}

#[test]
fn addresses_lose_their_upper_bits() {
    let seen = run(XboxState::read_lba(0, 0x80_0001), &[(0, 0), (0, 0)]);
    assert_eq!(seen[2], "write c 200");
}

#[test]
fn flash_config_is_in_the_first_register() {
    assert_eq!(describe(&XboxState::get_flash_config()), "read 0");
}

fn lines_after(steps: &[SmcStep]) -> XboxState {
    let mut lines = XboxState { dbg_en: Level::High, rst_xdk: Level::Low, cs: Level::High };
    for step in steps {
        lines.apply(*step);
    }
    lines
}

#[test]
fn starting_and_stopping_release_the_reset() {
    assert_eq!(
        lines_after(&XboxState::start_smc()),
        XboxState { dbg_en: Level::Low, rst_xdk: Level::High, cs: Level::High }
    );
    assert_eq!(lines_after(&XboxState::stop_smc()), XboxState::new());
}

#[test]
fn smc_sequences_are_timed() {
    assert_eq!(
        XboxState::start_smc(),
        [
            SmcStep::DbgEn(Level::Low),
            SmcStep::RstXdk(Level::Low),
            SmcStep::Wait(50),
            SmcStep::RstXdk(Level::High),
        ]
    );
    assert_eq!(
        XboxState::stop_smc(),
        [
            SmcStep::DbgEn(Level::Low),
            SmcStep::Wait(50),
            SmcStep::Cs(Level::Low),
            SmcStep::RstXdk(Level::Low),
            SmcStep::Wait(50),
            SmcStep::DbgEn(Level::High),
            SmcStep::RstXdk(Level::High),
            SmcStep::Wait(50),
            SmcStep::Cs(Level::High),
            SmcStep::Wait(50),
        ]
    );
}
