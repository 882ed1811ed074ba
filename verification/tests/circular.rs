use flasher::stream::circular_bytes::{CircularBytes, WrapRange};
use flasher::stream::BufReader;

fn contents<const S: usize>(queue: &CircularBytes<S>) -> Vec<u8> {
    let (front, back) = queue.as_slices();
    [front, back].concat()
}

#[test]
fn queue_wraps_around() {
    let mut queue = CircularBytes::<4>::new();
    assert!(queue.is_empty());
    queue.extend_from_slice(&[1, 2, 3]);
    let mut out = [0u8; 2];
    assert_eq!(queue.consume_to(&mut out), 2);
    assert_eq!(out, [1, 2]);
    queue.extend_from_slice(&[4, 5, 6, 7]);
    assert_eq!(queue.len(), 4);
    assert_eq!(queue.as_slices(), (&[3u8, 4][..], &[5u8, 6][..]));
}

#[test]
fn new_queue_is_empty() {
    let queue = CircularBytes::<5>::new();
    assert_eq!(queue.capacity(), 5);
    assert_eq!(queue.len(), 0);
    assert!(queue.is_empty());
    assert_eq!(queue.as_slices(), (&[][..], &[][..]));
}

#[test]
fn surplus_bytes_are_ignored() {
    let mut queue = CircularBytes::<3>::new();
    queue.extend_from_slice(&[1, 2, 3, 4, 5]);
    assert_eq!(contents(&queue), [1, 2, 3]);
    queue.extend_from_slice(&[6]);
    assert_eq!(contents(&queue), [1, 2, 3]);
}

#[test]
fn two_offers_are_one_joined() {
    let mut apart = CircularBytes::<4>::new();
    apart.extend_from_slice(&[1, 2, 3]);
    apart.extend_from_slice(&[4, 5]);
    let mut joined = CircularBytes::<4>::new();
    joined.extend_from_slice(&[1, 2, 3, 4, 5]);
    assert_eq!(contents(&apart), contents(&joined));
    assert_eq!(contents(&apart), [1, 2, 3, 4]);
}

#[test]
fn bytes_come_out_in_order() {
    let mut queue = CircularBytes::<7>::new();
    let mut next_in = 0u8;
    let mut next_out = 0u8;
    for round in 0..40usize {
        let count = round % 5;
        let data: Vec<u8> = (0..count).map(|i| next_in.wrapping_add(i as u8)).collect();
        let room = queue.capacity() - queue.len();
        queue.extend_from_slice(&data);
        next_in = next_in.wrapping_add(count.min(room) as u8);
        let mut out = [0u8; 3];
        let taken = queue.consume_to(&mut out);
        for byte in &out[..taken] {
            assert_eq!(*byte, next_out);
            next_out = next_out.wrapping_add(1);
        }
    }
}

#[test]
fn clearing_starts_over() {
    let mut queue = CircularBytes::<4>::new();
    queue.extend_from_slice(&[1, 2, 3]);
    let mut out = [0u8; 2];
    queue.consume_to(&mut out);
    queue.clear();
    assert!(queue.is_empty());
    queue.extend_from_slice(&[8, 9, 10, 11]);
    assert_eq!(queue.as_slices(), (&[8u8, 9, 10, 11][..], &[][..]));
}

#[test]
fn truncating_keeps_one_end() {
    let mut queue = CircularBytes::<6>::new();
    queue.extend_from_slice(&[1, 2, 3, 4, 5]);
    queue.truncate_front(3);
    assert_eq!(contents(&queue), [3, 4, 5]);
    queue.truncate_back(2);
    assert_eq!(contents(&queue), [3, 4]);
    queue.truncate_front(10);
    assert_eq!(contents(&queue), [3, 4]);
    queue.truncate_back(10);
    assert_eq!(contents(&queue), [3, 4]);
    queue.truncate_back(0);
    assert!(queue.is_empty());
}

#[test]
fn mutable_slices_write_through() {
    let mut queue = CircularBytes::<4>::new();
    queue.extend_from_slice(&[1, 2, 3]);
    let mut out = [0u8; 2];
    queue.consume_to(&mut out);
    queue.extend_from_slice(&[4, 5, 6]);
    {
        let (front, back) = queue.as_mut_slices();
        assert_eq!(front, [3, 4]);
        assert_eq!(back, [5, 6]);
        front[1] = 40;
        back[0] = 50;
    }
    assert_eq!(contents(&queue), [3, 40, 50, 6]);
}

#[test]
fn filling_makes_the_queue_full() {
    let mut queue = CircularBytes::<3>::new();
    queue.extend_from_slice(&[1, 2]);
    queue.fill(9);
    assert_eq!(queue.as_slices(), (&[9u8, 9, 9][..], &[][..]));
    assert_eq!(queue.len(), 3);
}

#[test]
fn consuming_leaves_the_rest_of_the_slice() {
    let mut queue = CircularBytes::<4>::new();
    queue.extend_from_slice(&[1, 2]);
    let mut out = [7u8; 4];
    assert_eq!(queue.consume_to(&mut out), 2);
    assert_eq!(out, [1, 2, 7, 7]);
    assert_eq!(queue.consume_to(&mut out), 0);
    assert_eq!(out, [1, 2, 7, 7]);
}

#[test]
fn consuming_exactly_is_all_or_nothing() {
    let mut queue = CircularBytes::<4>::new();
    queue.extend_from_slice(&[1, 2]);
    let mut out = [7u8; 3];
    assert!(!queue.consume_to_exact(&mut out));
    assert_eq!(out, [7, 7, 7]);
    assert_eq!(contents(&queue), [1, 2]);
    queue.extend_from_slice(&[3, 4]);
    assert!(queue.consume_to_exact(&mut out));
    assert_eq!(out, [1, 2, 3]);
    assert_eq!(contents(&queue), [4]);
}

#[test]
fn queue_without_storage_gives_nothing() {
    let mut queue = CircularBytes::<0>::new();
    assert_eq!(queue.capacity(), 0);
    let mut out = [7u8; 1];
    assert!(!queue.consume_to_exact(&mut out));
    assert_eq!(out, [7]);
}

#[test]
fn run_and_inverse_share_no_place() {
    let mut run = WrapRange::<8>::new();
    run.add_back(6);
    run.add_front(4);
    run.add_back(4);
    assert_eq!(run.len(), 6);
    let (first, second) = run.parts();
    assert_eq!((first, second), (4..8, 0..2));
    let inverse = run.invert();
    assert_eq!(inverse.len(), 2);
    assert_eq!(inverse.parts(), (2..4, 0..0));
}

#[test]
fn run_saturates_at_both_ends() {
    let mut run = WrapRange::<4>::new();
    run.add_back(usize::MAX);
    assert_eq!(run.len(), 4);
    run.add_back(1);
    assert_eq!(run.len(), 4);
    run.sub_back(1);
    assert_eq!(run.len(), 3);
    run.sub_back(9);
    assert_eq!(run.len(), 0);
    run.add_front(5);
    assert_eq!(run.len(), 0);
}

#[test]
fn run_up_to_the_end_has_an_empty_second_part() {
    let mut run = WrapRange::<4>::new();
    run.add_back(4);
    run.add_front(1);
    assert_eq!(run.parts(), (1..4, 0..0));
}

#[test]
fn reader_buffers_what_was_grabbed() {
    let mut reader = BufReader::<4, 3, &str>::new("port");
    assert_eq!(*reader.stream_mut(), "port");
    assert_eq!(reader.fill(&[1, 2, 3]), [1, 2, 3]);
    reader.consume(2);
    assert_eq!(reader.fill(&[4, 5, 6]), [3, 4]);
    reader.consume(2);
    assert_eq!(reader.fill(&[]), [5, 6]);
    reader.consume(9);
    assert!(reader.fill(&[]).is_empty());
}
