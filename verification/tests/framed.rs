use flasher::stream::circular_bytes::CircularBytes;
use flasher::stream::codec::{CodecError, LengthDelimitedCodec};
use flasher::stream::converted;
use flasher::stream::framed::{FramePoll, Framed, ReadFrame};
use flasher::stream::serde::{Deserializer, Postcard, SerdeFramed, Serializer};

#[derive(Debug, PartialEq)]
enum Problem {
    Codec,
    Format(u8),
    Port(&'static str),
}

impl From<CodecError> for Problem {
    fn from(error: CodecError) -> Self {
        match error {
            CodecError::ValueTooLong => Problem::Codec,
        }
    }
}

impl From<u8> for Problem {
    fn from(error: u8) -> Self {
        Problem::Format(error)
    }
}

impl From<&'static str> for Problem {
    fn from(error: &'static str) -> Self {
        Problem::Port(error)
    }
}

type Stream = Framed<8, Vec<u8>, LengthDelimitedCodec<8, u16>, Problem>;

fn stream() -> Stream {
    Framed::new(Vec::new(), LengthDelimitedCodec::new(6))
}

fn next(framed: &mut Stream) -> Option<Vec<u8>> {
    match framed.poll_next() {
        FramePoll::Ready(Ok(item)) => {
            let (front, back) = item.as_slices();
            Some([front, back].concat())
        }
        FramePoll::Ready(Err(problem)) => panic!("{:?}", problem),
        FramePoll::NeedInput => None,
    }
}

fn feed(framed: &mut Stream, bytes: &[u8]) -> usize {
    framed.read_parts().1.feed(bytes)
}

#[test]
fn fresh_stream_needs_input() {
    let mut framed = stream();
    assert_eq!(next(&mut framed), None);
    assert_eq!(feed(&mut framed, &[]), 0);
    assert_eq!(next(&mut framed), None);
}

#[test]
fn items_come_out_as_bytes_come_in() {
    let mut framed = stream();
    assert_eq!(feed(&mut framed, &[2, 0, 7]), 3);
    assert_eq!(next(&mut framed), None);
    assert_eq!(next(&mut framed), None);
    assert_eq!(feed(&mut framed, &[8, 1, 0, 9]), 4);
    assert_eq!(next(&mut framed), Some(vec![7, 8]));
    assert_eq!(next(&mut framed), Some(vec![9]));
    assert_eq!(next(&mut framed), None);
}

#[test]
fn feeding_stops_when_the_buffer_is_full() {
    let mut framed = stream();
    assert_eq!(feed(&mut framed, &[6, 0, 1, 2, 3, 4, 5, 6, 9, 9]), 8);
    assert_eq!(next(&mut framed), Some(vec![1, 2, 3, 4, 5, 6]));
    assert_eq!(next(&mut framed), None);
}

#[test]
fn sent_items_reach_the_other_side() {
    let mut sender = stream();
    let mut receiver = stream();
    for item in [&[1u8, 2, 3][..], &[4u8][..], &[][..]] {
        assert_eq!(sender.begin_send(item), Ok(()));
        {
            let (port, outgoing) = sender.write_parts();
            let (first, second) = outgoing.outgoing();
            port.extend_from_slice(first);
            port.extend_from_slice(second);
        }
        sender.end_send();
    }
    let wire = sender.write_parts().0.clone();
    assert_eq!(wire, [3, 0, 1, 2, 3, 1, 0, 4, 0, 0]);
    let mut received = Vec::new();
    for byte in wire {
        feed(&mut receiver, &[byte]);
        while let Some(item) = next(&mut receiver) {
            received.push(item);
        }
    }
    assert_eq!(received, [vec![1, 2, 3], vec![4], vec![]]);
}

#[test]
fn refused_items_leave_nothing_to_write() {
    let mut framed = stream();
    assert_eq!(framed.begin_send(&[0u8; 7][..]), Err(Problem::Codec));
    assert_eq!(framed.write_parts().1.outgoing(), (&[][..], &[][..]));
}

#[test]
fn unwritten_bytes_stay_in_front() {
    let mut framed = stream();
    assert_eq!(framed.begin_send(&[1u8][..]), Ok(()));
    assert_eq!(framed.begin_send(&[2u8][..]), Ok(()));
    assert_eq!(framed.write_parts().1.outgoing(), (&[1u8, 0, 1, 1, 0, 2][..], &[][..]));
    framed.end_send();
    assert_eq!(framed.write_parts().1.outgoing(), (&[][..], &[][..]));
}

#[test]
fn decoding_is_tried_again_while_it_helps() {
    let mut read = ReadFrame::<4>::default();
    read.feed(&[1, 2]);
    let answer: FramePoll<u8, Problem> = read.settle(Err(3u8));
    assert!(matches!(answer, FramePoll::Ready(Err(Problem::Format(3)))));
    let answer: FramePoll<u8, Problem> = read.settle(Ok::<_, u8>(Some(5)));
    assert!(matches!(answer, FramePoll::Ready(Ok(5))));
    let answer: FramePoll<u8, Problem> = read.settle(Ok::<_, u8>(None));
    assert!(matches!(answer, FramePoll::NeedInput));
}

#[test]
fn errors_are_converted() {
    assert_eq!(converted::<u32, u8, Problem>(Ok(7)), Ok(7));
    assert_eq!(converted::<u32, u8, Problem>(Err(9)), Err(Problem::Format(9)));
}

struct Decimal;

impl Serializer<3, u8> for Decimal {
    type Error = u8;

    fn serialize(&mut self, item: &u8) -> Result<CircularBytes<3>, u8> {
        if *item == 13 {
            return Err(13);
        }
        let mut bytes = CircularBytes::new();
        bytes.extend_from_slice(format!("{}", item).as_bytes());
        Ok(bytes)
    }
}

impl Deserializer<u8> for Decimal {
    type Error = u8;

    fn deserialize(&mut self, src: &[u8]) -> Result<u8, u8> {
        let text = String::from_utf8(src.to_vec()).map_err(|_| 1)?;
        text.parse().map_err(|_| 2)
    }
}

type Values = SerdeFramed<4, 3, u32, u8, u8, Decimal, Problem>;

#[test]
fn values_are_read_from_frames() {
    let mut values: Values = SerdeFramed::new(5, Decimal);
    let mut frame = CircularBytes::<4>::new();
    frame.extend_from_slice(b"201");
    assert_eq!(values.accept(Ok::<_, &'static str>(frame)), Ok(201));
    let mut frame = CircularBytes::<4>::new();
    frame.extend_from_slice(b"20x");
    assert_eq!(values.accept(Ok::<_, &'static str>(frame)), Err(Problem::Format(2)));
    assert_eq!(values.accept(Err("unplugged")), Err(Problem::Port("unplugged")));
    *values.get_transport_mut() += 1;
    assert_eq!(*values.get_transport_mut(), 6);
}

#[test]
fn values_become_frames() {
    let mut values: Values = SerdeFramed::new(5, Decimal);
    let frame = values.prepare(&42);
    assert_eq!(frame.map(|f| f.as_slices().0.to_vec()), Ok(b"42".to_vec()));
    let frame = values.prepare(&13);
    assert_eq!(frame.map(|f| f.len()), Err(Problem::Format(13)));
}

#[test]
fn postcard_format_can_be_copied() {
    let format = Postcard::<u8, u8>::new();
    let _copy: Postcard<u8, u8> = format.clone();
}
