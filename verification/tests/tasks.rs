use flasher::command::{ErrorText, Failure, Mode, Request, Response};
use flasher::ranges::{
    ReadAction, ReadRange, ReceiveAction, ReceiveRange, WriteAction, WriteRange,
    NAND_TIMEOUT_MILLIS,
};
use flasher::spiex::lba::LBA_SIZE;
use flasher::stream::circular_bytes::CircularBytes;
use flasher::stream::codec::{Decoder, Encoder, LengthDelimitedCodec};
use flasher::tasks::{
    cancel_after_send, mode_after_range, read_command, read_mode_after_range, sectors_in_block,
    CommandStep, RequestSession, RequestStep, SpiexMode, SpiexTaskRequest, UsbReadMode, FRAME_SIZE,
    MAX_FRAME_LEN, READ_BUFFER_SIZE, READ_GRAB_SIZE,
};

fn step(request: Request) -> CommandStep {
    read_command::<()>(Some(Ok(request)))
}

#[test]
fn commands_are_passed_on() {
    assert_eq!(step(Request::StopSmc), CommandStep::Forward(SpiexTaskRequest::StopSmc));
    assert_eq!(step(Request::StartSmc), CommandStep::Forward(SpiexTaskRequest::StartSmc));
    assert_eq!(
        step(Request::GetFlashConfig),
        CommandStep::Forward(SpiexTaskRequest::GetFlashConfig)
    );
    assert_eq!(
        step(Request::ReadLbaRange { start: 1, count: 2 }),
        CommandStep::Forward(SpiexTaskRequest::ReadLbaRange { start: 1, count: 2 })
    );
    assert_eq!(step(Request::Cancel), CommandStep::CancelAll);
    assert_eq!(
        step(Request::WriteLbaRange { start: 1, count: 2 }),
        CommandStep::Switch(UsbReadMode::LbaRange { start: 1, count: 2 })
    );
    assert_ne!(Mode::Flasher, Mode::Uart);
}

#[test]
fn what_is_no_command_is_ignored() {
    assert_eq!(read_command(Some(Err("garbage"))), CommandStep::Ignore);
    assert_eq!(read_command::<()>(None), CommandStep::Switch(UsbReadMode::Command));
}

#[test]
fn failed_sending_cancels_reading() {
    assert!(cancel_after_send(false));
    assert!(!cancel_after_send(true));
}

#[test]
fn session_remembers_the_flash_config() {
    let mut session = RequestSession::new();
    let write = SpiexTaskRequest::WriteLbaRange { start: 4, count: 5 };
    assert_eq!(
        session.request(write),
        RequestStep::Switch(SpiexMode::WriteLbaRange { flash_config: 0, start: 4, count: 5 })
    );
    assert!(matches!(session.flash_config_read(0x1234), Response::FlashConfig(0x1234)));
    assert_eq!(
        session.request(write),
        RequestStep::Switch(SpiexMode::WriteLbaRange { flash_config: 0x1234, start: 4, count: 5 })
    );
}

#[test]
fn session_answers_requests() {
    let session = RequestSession::new();
    assert_eq!(session.request(SpiexTaskRequest::StopSmc), RequestStep::StopSmc);
    assert_eq!(session.request(SpiexTaskRequest::StartSmc), RequestStep::StartSmc);
    assert_eq!(session.request(SpiexTaskRequest::GetFlashConfig), RequestStep::ReadFlashConfig);
    assert_eq!(
        session.request(SpiexTaskRequest::ReadLbaRange { start: 4, count: 5 }),
        RequestStep::Switch(SpiexMode::ReadLbaRange { start: 4, count: 5 })
    );
    assert!(matches!(session.smc_done(), Response::Okay));
}

#[test]
fn erase_blocks_depend_on_the_configuration() {
    assert_eq!(sectors_in_block(0), 32);
    assert_eq!(sectors_in_block(2 << 4), 32);
    assert_eq!(sectors_in_block(1 << 17), 32);
    assert_eq!(sectors_in_block((1 << 17) | (2 << 4)), 256);
    assert_eq!(sectors_in_block((1 << 17) | (3 << 4)), 512);
    assert_eq!(sectors_in_block((3 << 17) | (3 << 4)), 512);
    assert_eq!(sectors_in_block((4 << 17) | (3 << 4)), 32);
    assert_eq!(sectors_in_block(0x0002_3010), 32);
}

fn text(failure: Failure) -> String {
    match Response::failed(failure) {
        Response::Error(text) => {
            assert_eq!(text.as_str(), failure.message());
            text.as_str().to_string()
        }
        _ => panic!("not an error"),
    }
}

#[test]
fn failures_are_told() {
    assert_eq!(text(Failure::UnexpectedEof), "unexpected eof when reading lba range from usb");
    assert_eq!(text(Failure::ReadTimeout), "timed out reading the lba data");
    assert_eq!(text(Failure::EraseTimeout), "timed out erasing nand block");
    assert_eq!(text(Failure::WriteTimeout), "timed out writing the lba data");
}

#[test]
fn receiving_a_range() {
    let mut range = ReceiveRange::new(10, 2);
    assert_eq!(
        range.action(),
        ReceiveAction::Begin(SpiexTaskRequest::WriteLbaRange { start: 10, count: 2 })
    );
    range.advance(false);
    for _ in 0..2 {
        assert_eq!(range.action(), ReceiveAction::TakeCancel);
        range.advance(false);
        assert_eq!(range.action(), ReceiveAction::AwaitFrame);
        range.advance(true);
        assert_eq!(range.action(), ReceiveAction::StoreFrame);
        range.advance(false);
    }
    assert_eq!(range.action(), ReceiveAction::Finish(None));
    range.advance(true);
    assert_eq!(range.action(), ReceiveAction::Finish(None));
}

#[test]
fn receiving_ends_early() {
    let mut range = ReceiveRange::new(10, 2);
    range.advance(false);
    range.advance(true);
    assert_eq!(range.action(), ReceiveAction::Finish(None));
    let mut range = ReceiveRange::new(10, 2);
    range.advance(false);
    range.advance(false);
    range.advance(false);
    assert_eq!(range.action(), ReceiveAction::Finish(Some(Failure::UnexpectedEof)));
    let mut range = ReceiveRange::new(10, 0);
    range.advance(false);
    assert_eq!(range.action(), ReceiveAction::Finish(None));
}

#[test]
fn reading_a_range() {
    let mut range = ReadRange::new(u32::MAX, 2);
    assert_eq!(range.action(), ReadAction::Begin);
    range.advance(false);
    for lba in [u32::MAX, 0] {
        assert_eq!(range.action(), ReadAction::TakeCancel);
        range.advance(false);
        assert_eq!(range.action(), ReadAction::ReadBlock { lba });
        range.advance(true);
        assert_eq!(range.action(), ReadAction::SendBlock);
        range.advance(false);
    }
    assert_eq!(range.action(), ReadAction::Finish(None));
}

#[test]
fn reading_ends_early() {
    let mut range = ReadRange::new(10, 2);
    range.advance(false);
    range.advance(true);
    assert_eq!(range.action(), ReadAction::Finish(None));
    let mut range = ReadRange::new(10, 2);
    range.advance(false);
    range.advance(false);
    range.advance(false);
    assert_eq!(range.action(), ReadAction::Finish(Some(Failure::ReadTimeout)));
}

#[test]
fn writing_a_range() {
    let mut range = WriteRange::new(0, 31, 2);
    let mut seen = Vec::new();
    while range.action() != WriteAction::Finish(None) {
        seen.push(range.action());
        range.advance(true);
    }
    assert_eq!(
        seen,
        [
            WriteAction::Begin,
            WriteAction::TakeBlock,
            WriteAction::WriteBlock { lba: 31 },
            WriteAction::Erase { lba: 32 },
            WriteAction::TakeBlock,
            WriteAction::WriteBlock { lba: 32 },
        ]
    );
}

#[test]
fn failed_erase_skips_the_block() {
    let mut range = WriteRange::new(0, 32, 2);
    range.advance(true);
    assert_eq!(range.action(), WriteAction::Erase { lba: 32 });
    range.advance(false);
    assert_eq!(range.action(), WriteAction::Report(Failure::EraseTimeout));
    range.advance(false);
    assert_eq!(range.action(), WriteAction::TakeBlock);
    range.advance(true);
    assert_eq!(range.action(), WriteAction::WriteBlock { lba: 33 });
    range.advance(false);
    assert_eq!(range.action(), WriteAction::Finish(Some(Failure::WriteTimeout)));
}

#[test]
fn ranges_end_and_stay_within() {
    for seed in 0..64u32 {
        let flag = |step: u32| (seed >> (step % 6)) & 1 == 1;
        let mut receive = ReceiveRange::new(30, 3);
        let mut read = ReadRange::new(30, 3);
        let mut write = WriteRange::new(0, 30, 3);
        for step in 0..10 {
            if let ReadAction::ReadBlock { lba } = read.action() {
                assert!((30..33).contains(&lba));
            }
            match write.action() {
                WriteAction::WriteBlock { lba } => assert!((30..33).contains(&lba)),
                WriteAction::Erase { lba } => assert_eq!(lba, 32),
                _ => {}
            }
            receive.advance(flag(step));
            read.advance(flag(step));
            write.advance(flag(step));
        }
        assert!(matches!(receive.action(), ReceiveAction::Finish(_)));
        assert!(matches!(read.action(), ReadAction::Finish(_)));
        assert!(matches!(write.action(), WriteAction::Finish(_)));
    }
}

#[test]
fn ranges_lead_back_to_commands_and_requests() {
    assert_eq!(mode_after_range(), SpiexMode::ReadRequest);
    assert_eq!(read_mode_after_range(), UsbReadMode::Command);
    assert_eq!(NAND_TIMEOUT_MILLIS, 1000);
}

#[test]
fn blocks_fit_their_frames() {
    let mut codec = LengthDelimitedCodec::<FRAME_SIZE, u16>::new(MAX_FRAME_LEN);
    let mut queue = CircularBytes::<FRAME_SIZE>::new();
    let block = [5u8; LBA_SIZE];
    assert_eq!(codec.encode(&block[..], &mut queue), Ok(()));
    assert_eq!(queue.len(), 530);
    let frame = codec.decode(&mut queue).unwrap().unwrap();
    assert_eq!(frame.as_slices(), (&block[..], &[][..]));
    assert_eq!((READ_BUFFER_SIZE, READ_GRAB_SIZE), (768, 64));
}

#[test]
fn messages_have_a_limit() {
    assert!(ErrorText::new(&"x".repeat(257)).is_none());
    let longest = "x".repeat(256);
    assert_eq!(ErrorText::new(&longest).unwrap().as_str(), longest);
}
