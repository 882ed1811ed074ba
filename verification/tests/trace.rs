use flasher::trace::{task_name, Event, EventBuffer, EventWrite};

fn wire(event: &Event) -> Vec<u8> {
    let mut array = vec![0xee; event.serialized_size()];
    event.serialize(&mut array);
    array
}

const TICKS: u64 = 0x0102_0304_0506_0708;

#[test]
fn executor_events_use_the_first_bytes() {
    assert_eq!(
        wire(&Event::poll_start(0x0a0b_0c0d, TICKS)),
        [0, 0x0d, 0x0c, 0x0b, 0x0a, 0xee, 0xee, 0xee, 0xee, 8, 7, 6, 5, 4, 3, 2, 1]
    );
    assert_eq!(
        wire(&Event::executor_idle(0x0a0b_0c0d, TICKS)),
        [1, 0x0d, 0x0c, 0x0b, 0x0a, 0xee, 0xee, 0xee, 0xee, 8, 7, 6, 5, 4, 3, 2, 1]
    );
}

#[test]
fn task_events_name_executor_and_task() {
    assert_eq!(
        wire(&Event::task_exec_begin(0x11, 0x2000_1234, TICKS)),
        [3, 0x11, 0, 0, 0, 0x34, 0x12, 0, 0x20, 8, 7, 6, 5, 4, 3, 2, 1]
    );
}

#[test]
fn task_events_have_their_numbers() {
    assert_eq!(wire(&Event::task_new(1, 2, None, TICKS))[0], 2);
    assert_eq!(wire(&Event::task_exec_begin(1, 2, TICKS))[0], 3);
    assert_eq!(wire(&Event::task_exec_end(1, 2, TICKS))[0], 4);
    assert_eq!(wire(&Event::task_ready_begin(1, 2, TICKS))[0], 5);
    assert_eq!(wire(&Event::task_end(1, 2, TICKS))[0], 6);
}

#[test]
fn new_task_carries_its_name() {
    assert_eq!(
        wire(&Event::task_new(0x11, 0x2000_1234, Some("usb"), TICKS)),
        [
            2, 0x11, 0, 0, 0, 0x34, 0x12, 0, 0x20, 3, b'u', b's', b'b', 8, 7, 6, 5, 4, 3, 2, 1
        ]
    );
}

#[test]
fn tasks_without_a_usable_name_are_unknown() {
    let unnamed = wire(&Event::task_new(1, 2, None, TICKS));
    assert_eq!(unnamed.len(), 25);
    assert_eq!(&unnamed[9..17], b"\x07unknown");
    let long = "123456789012345678901234567890123";
    assert_eq!(wire(&Event::task_new(1, 2, Some(long), TICKS)), unnamed);
    let longest = "12345678901234567890123456789012";
    assert_eq!(Event::task_new(1, 2, Some(longest), TICKS).serialized_size(), 50);
    let _ = task_name(Some("usb")).clone();
}

#[test]
fn most_events_fit_the_buffer_size() {
    assert_eq!(Event::max_size(), 45);
    assert_eq!(Event::task_end(1, 2, TICKS).serialized_size(), 17);
    let name = "123456789012345678901234567";
    assert_eq!(Event::task_new(1, 2, Some(name), TICKS).serialized_size(), 45);
}

#[test]
fn bytes_behind_the_event_are_left_alone() {
    let mut array = [0xeeu8; 20];
    Event::task_end(1, 2, 0).serialize(&mut array);
    assert_eq!(array[17..], [0xee; 3]);
}

fn offered(write: &EventWrite, buffer: &EventBuffer) -> Option<Vec<u8>> {
    write.offer(buffer).map(|event| wire(&event))
}

fn held(buffer: &EventBuffer) -> Vec<Vec<u8>> {
    let mut write = EventWrite::begin(buffer);
    let mut events = Vec::new();
    while let Some(event) = offered(&write, buffer) {
        events.push(event);
        write.answer(true);
    }
    events
}

fn event(id: u32) -> Event {
    Event::poll_start(id, id as u64)
}

#[test]
fn empty_buffer_offers_nothing() {
    let mut buffer = EventBuffer::new();
    let write = EventWrite::begin(&buffer);
    assert_eq!(offered(&write, &buffer), None);
    let back = write.finish(&mut buffer, event(1)).unwrap();
    assert_eq!(wire(&back), wire(&event(1)));
    buffer.keep(back);
    assert_eq!(held(&buffer), [wire(&event(1))]);
}

#[test]
fn refused_event_stops_the_offers() {
    let mut buffer = EventBuffer::new();
    for id in 0..3 {
        buffer.keep(event(id));
    }
    let mut write = EventWrite::begin(&buffer);
    assert_eq!(offered(&write, &buffer), Some(wire(&event(0))));
    write.answer(true);
    assert_eq!(offered(&write, &buffer), Some(wire(&event(1))));
    write.answer(false);
    assert_eq!(offered(&write, &buffer), None);
    assert!(write.finish(&mut buffer, event(9)).is_none());
    assert_eq!(held(&buffer), [wire(&event(1)), wire(&event(2)), wire(&event(9))]);
}

#[test]
fn taken_events_hand_the_new_one_back() {
    let mut buffer = EventBuffer::new();
    buffer.keep(event(0));
    let mut write = EventWrite::begin(&buffer);
    write.answer(true);
    assert_eq!(offered(&write, &buffer), None);
    let back = write.finish(&mut buffer, event(9)).unwrap();
    assert_eq!(wire(&back), wire(&event(9)));
    assert!(held(&buffer).is_empty());
}

#[test]
fn full_buffer_drops_new_events() {
    let mut buffer = EventBuffer::new();
    for id in 0..130 {
        buffer.keep(event(id));
    }
    let events = held(&buffer);
    assert_eq!(events.len(), 128);
    assert_eq!(events[127], wire(&event(127)));
}

/// Writes an event to a receiver that takes the next `room` events, as the
/// firmware does, and returns what the receiver took.
fn write(buffer: &mut EventBuffer, new: Event, mut room: usize) -> Vec<Vec<u8>> {
    let mut taken = Vec::new();
    let mut take = |event: &Event| {
        if room == 0 {
            return false;
        }
        room -= 1;
        taken.push(wire(event));
        true
    };
    let mut write = EventWrite::begin(buffer);
    while let Some(buffered) = write.offer(buffer) {
        write.answer(take(&buffered));
    }
    if let Some(back) = write.finish(buffer, new) {
        if !take(&back) {
            buffer.keep(back);
        }
    }
    taken
}

#[test]
fn no_event_is_lost_or_sent_twice() {
    let mut buffer = EventBuffer::new();
    let mut taken = Vec::new();
    for (id, room) in [0usize, 0, 1, 0, 2, 0, 9, 1, 0, 0, 9].into_iter().enumerate() {
        taken.extend(write(&mut buffer, event(id as u32), room));
    }
    assert!(held(&buffer).is_empty());
    assert_eq!(taken, (0..11).map(|id| wire(&event(id))).collect::<Vec<_>>());
}

#[test]
fn full_buffer_keeps_its_events() {
    let mut buffer = EventBuffer::new();
    for id in 0..128 {
        assert!(write(&mut buffer, event(id), 0).is_empty());
    }
    let before = held(&buffer);
    assert!(write(&mut buffer, event(999), 0).is_empty());
    assert_eq!(held(&buffer), before);
}
