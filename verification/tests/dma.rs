use flasher::spiex::dma_async::{
    channel_event, init, poll_transfer, ChannelEvent, Signal, WaitPoll,
};

#[test]
fn interrupt_looks_at_its_bit() {
    assert_eq!(channel_event(0b1000, 3, false), ChannelEvent::Done);
    assert_eq!(channel_event(0b1000, 2, false), ChannelEvent::Idle);
    assert_eq!(channel_event(0b1000, 3, true), ChannelEvent::Error);
    assert_eq!(channel_event(0, 11, true), ChannelEvent::Error);
    assert_eq!(channel_event(0xffff_f7ff, 11, false), ChannelEvent::Idle);
}

#[test]
fn mask_names_two_channels() {
    assert_eq!(init(3, 4), 0b1_1000);
    assert_eq!(init(0, 11), 0x801);
    assert_eq!(init(5, 5), 0x20);
}

fn pending<T>(poll: WaitPoll<u8, T>) -> Option<u8> {
    match poll {
        WaitPoll::Pending { displaced } => displaced,
        WaitPoll::Ready(_) => panic!("not pending"),
    }
}

#[test]
fn value_is_taken_once() {
    let mut signal = Signal::<u8, &str>::new();
    assert_eq!(signal.signal("first"), None);
    assert_eq!(signal.signal("second"), None);
    assert!(matches!(signal.poll_wait(1, false), WaitPoll::Ready("second")));
    assert_eq!(pending(signal.poll_wait(1, false)), None);
}

#[test]
fn waiting_task_is_woken() {
    let mut signal = Signal::<u8, ()>::default();
    assert_eq!(signal.waiting(), None);
    assert_eq!(pending(signal.poll_wait(1, false)), None);
    assert_eq!(signal.waiting(), Some(&1));
    assert_eq!(pending(signal.poll_wait(2, true)), None);
    assert_eq!(signal.waiting(), Some(&1));
    assert_eq!(signal.signal(()), Some(1));
    assert_eq!(signal.waiting(), None);
}

#[test]
fn displaced_task_is_woken() {
    let mut signal = Signal::<u8, ()>::new();
    assert_eq!(pending(signal.poll_wait(1, false)), None);
    assert_eq!(pending(signal.poll_wait(2, false)), Some(1));
    assert_eq!(signal.signal(()), Some(2));
}

#[test]
fn reset_forgets_the_value() {
    let mut signal = Signal::<u8, ()>::new();
    signal.signal(());
    signal.reset();
    assert_eq!(pending(signal.poll_wait(1, false)), None);
}

#[test]
fn transfer_ends_with_its_signal() {
    let mut signal = Signal::<u8, ()>::new();
    assert_eq!(pending(poll_transfer(&mut signal, 1, false)), None);
    assert_eq!(signal.signal(()), Some(1));
    assert!(matches!(poll_transfer(&mut signal, 1, false), WaitPoll::Ready(())));
    assert_eq!(pending(poll_transfer(&mut signal, 1, false)), None);
}
