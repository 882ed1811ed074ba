use flasher::stream::circular_bytes::CircularBytes;
use flasher::stream::codec::{CodecError, Decoder, Encoder, LengthDelimitedCodec};
use flasher::stream::length::FrameLength;

fn contents<const S: usize>(queue: &CircularBytes<S>) -> Vec<u8> {
    let (front, back) = queue.as_slices();
    [front, back].concat()
}

#[test]
fn frame_starts_with_its_length() {
    let mut codec = LengthDelimitedCodec::<16, u16>::new(768);
    let mut queue = CircularBytes::<16>::new();
    assert_eq!(codec.encode(&[7u8, 8, 9][..], &mut queue), Ok(()));
    assert_eq!(contents(&queue), [3, 0, 7, 8, 9]);
}

#[test]
fn too_long_items_are_refused() {
    let mut codec = LengthDelimitedCodec::<16, u16>::new(2);
    let mut queue = CircularBytes::<16>::new();
    assert_eq!(codec.encode(&[7u8, 8][..], &mut queue), Ok(()));
    assert_eq!(codec.encode(&[7u8, 8, 9][..], &mut queue), Err(CodecError::ValueTooLong));
    assert_eq!(contents(&queue), [2, 0, 7, 8]);
    assert_eq!(CodecError::ValueTooLong.message(), "value too long to fit into the stream");
}

#[test]
fn too_long_items_need_no_room() {
    let mut codec = LengthDelimitedCodec::<16, u16>::new(2);
    let mut queue = CircularBytes::<0>::new();
    assert_eq!(codec.encode(&[7u8, 8, 9][..], &mut queue), Err(CodecError::ValueTooLong));
}

#[test]
fn decoding_gives_back_what_was_encoded() {
    let mut codec = LengthDelimitedCodec::<8, u16>::new(8);
    let mut queue = CircularBytes::<32>::new();
    for item in [&[1u8, 2, 3][..], &[][..], &[4u8][..]] {
        assert_eq!(codec.encode(item, &mut queue), Ok(()));
    }
    queue.extend_from_slice(&[9]);
    let mut items = Vec::new();
    while let Ok(Some(item)) = codec.decode(&mut queue) {
        items.push(contents(&item));
    }
    assert_eq!(items, [vec![1, 2, 3], vec![], vec![4]]);
    assert_eq!(contents(&queue), [9]);
}

#[test]
fn cuts_in_the_stream_do_not_matter() {
    let wire = [2u8, 0, 10, 11, 3, 0, 20, 21, 22, 0, 0, 1, 0, 30];
    for cut in 0..wire.len() {
        let mut codec = LengthDelimitedCodec::<8, u16>::new(8);
        let mut queue = CircularBytes::<16>::new();
        let mut items = Vec::new();
        for piece in [&wire[..cut], &wire[cut..]] {
            queue.extend_from_slice(piece);
            while let Ok(Some(item)) = codec.decode(&mut queue) {
                items.push(contents(&item));
            }
        }
        assert_eq!(items, [vec![10, 11], vec![20, 21, 22], vec![], vec![30]]);
        assert!(queue.is_empty());
    }
}

#[test]
fn single_bytes_make_up_a_frame() {
    let mut codec = LengthDelimitedCodec::<4, u32>::new(4);
    let mut queue = CircularBytes::<8>::new();
    for byte in [2u8, 0, 0, 0, 5] {
        queue.extend_from_slice(&[byte]);
        assert!(matches!(codec.decode(&mut queue), Ok(None)));
    }
    queue.extend_from_slice(&[6]);
    let item = codec.decode(&mut queue).unwrap().unwrap();
    assert_eq!(item.as_slices(), (&[5u8, 6][..], &[][..]));
}

#[test]
fn a_clone_continues_where_the_codec_was() {
    let mut codec = LengthDelimitedCodec::<4, u16>::new(4);
    let mut queue = CircularBytes::<8>::new();
    queue.extend_from_slice(&[2, 0]);
    assert!(matches!(codec.decode(&mut queue), Ok(None)));
    assert!(queue.is_empty());
    let mut copy = codec.clone();
    queue.extend_from_slice(&[1, 2]);
    let item = copy.decode(&mut queue).unwrap().unwrap();
    assert_eq!(contents(&item), [1, 2]);
}

#[test]
fn items_beyond_the_length_field_are_refused() {
    let mut codec = LengthDelimitedCodec::<512, u8>::new(255);
    let mut queue = CircularBytes::<512>::new();
    for len in [256, 257, 300] {
        let item = vec![7u8; len];
        assert!(codec.refuses(&item));
        assert_eq!(codec.encode(&item[..], &mut queue), Err(CodecError::ValueTooLong));
        assert!(queue.is_empty());
    }
    let item = [7u8; 255];
    assert!(!codec.refuses(&item));
    assert_eq!(codec.encode(&item[..], &mut queue), Ok(()));
    assert_eq!(queue.len(), 256);
    assert_eq!(contents(&queue)[0], 255);
}

#[test]
fn cut_off_frame_lies_in_one_piece() {
    let mut codec = LengthDelimitedCodec::<8, u8>::new(8);
    let mut queue = CircularBytes::<6>::new();
    queue.extend_from_slice(&[1, 2, 3, 4]);
    assert_eq!(codec.encode(&[9u8, 9, 9][..], &mut queue), Ok(()));
    assert_eq!(queue.as_slices(), (&[1u8, 2, 3, 4, 3, 9][..], &[][..]));
}

#[test]
fn decoding_moves_the_start_of_the_queue() {
    let mut codec = LengthDelimitedCodec::<4, u8>::new(4);
    let mut queue = CircularBytes::<4>::new();
    queue.extend_from_slice(&[2, 7, 8]);
    let item = codec.decode(&mut queue).unwrap().unwrap();
    assert_eq!(contents(&item), [7, 8]);
    queue.extend_from_slice(&[2, 5]);
    assert_eq!(queue.as_slices(), (&[2u8][..], &[5u8][..]));
    assert!(matches!(codec.decode(&mut queue), Ok(None)));
    assert!(matches!(codec.decode(&mut queue), Ok(None)));
    assert_eq!(queue.as_slices(), (&[5u8][..], &[][..]));
}

#[test]
fn full_queue_takes_the_start_of_a_frame() {
    let mut codec = LengthDelimitedCodec::<4, u16>::new(4);
    let mut queue = CircularBytes::<6>::new();
    queue.extend_from_slice(&[9, 9, 9]);
    assert_eq!(codec.encode(&[1u8, 2][..], &mut queue), Ok(()));
    assert_eq!(contents(&queue), [9, 9, 9, 2, 0, 1]);
}

fn round_trip<LenType: FrameLength>(limit: LenType, width: usize) {
    let mut codec = LengthDelimitedCodec::<4, LenType>::new(limit);
    let mut queue = CircularBytes::<32>::new();
    assert_eq!(codec.encode(&[1u8, 2, 3][..], &mut queue), Ok(()));
    let mut wire = vec![0u8; width];
    wire[0] = 3;
    wire.extend_from_slice(&[1, 2, 3]);
    assert_eq!(contents(&queue), wire);
    let item = codec.decode(&mut queue).unwrap().unwrap();
    assert_eq!(contents(&item), [1, 2, 3]);
    assert!(queue.is_empty());
}

#[test]
fn every_length_type_makes_frames() {
    round_trip::<u8>(200, 1);
    round_trip::<u16>(200, 2);
    round_trip::<u32>(200, 4);
    round_trip::<u64>(200, 8);
    round_trip::<u128>(200, 16);
    round_trip::<usize>(200, (usize::BITS / 8) as usize);
}

#[test]
fn length_fields_are_little_endian() {
    let bytes = [1u8, 2, 3, 4, 5, 6, 7, 8, 9, 10, 11, 12, 13, 14, 15, 16];
    assert_eq!(<u8 as FrameLength>::from_le_bytes(&bytes), 0x01);
    assert_eq!(<u16 as FrameLength>::from_le_bytes(&bytes), 0x0201);
    assert_eq!(<u32 as FrameLength>::from_le_bytes(&bytes), 0x0403_0201);
    assert_eq!(<u64 as FrameLength>::from_le_bytes(&bytes), 0x0807_0605_0403_0201);
    assert_eq!(
        <u128 as FrameLength>::from_le_bytes(&bytes),
        0x100f_0e0d_0c0b_0a09_0807_0605_0403_0201
    );
    assert_eq!(<usize as FrameLength>::from_le_bytes(&bytes), 0x0807_0605_0403_0201);
    assert_eq!(<u8 as FrameLength>::to_le_bytes(0x01)[..1], bytes[..1]);
    assert_eq!(<u16 as FrameLength>::to_le_bytes(0x0201)[..2], bytes[..2]);
    assert_eq!(<u32 as FrameLength>::to_le_bytes(0x0403_0201)[..4], bytes[..4]);
    assert_eq!(<u64 as FrameLength>::to_le_bytes(0x0807_0605_0403_0201)[..8], bytes[..8]);
    assert_eq!(
        <u128 as FrameLength>::to_le_bytes(0x100f_0e0d_0c0b_0a09_0807_0605_0403_0201),
        bytes
    );
    assert_eq!(<usize as FrameLength>::to_le_bytes(0x0807_0605_0403_0201)[..8], bytes[..8]);
}

#[test]
fn lengths_are_cut_to_their_width() {
    assert_eq!(<u8 as FrameLength>::from_usize(0x1_02), 0x02);
    assert_eq!(<u16 as FrameLength>::from_usize(0x1_0203), 0x0203);
    assert_eq!(<u32 as FrameLength>::from_usize(0x1_0203_0405), 0x0203_0405);
    assert_eq!(<u64 as FrameLength>::from_usize(0x0203), 0x0203);
    assert_eq!(<u128 as FrameLength>::to_usize((1u128 << 64) + 5), 5);
    assert!(<u16 as FrameLength>::exceeds(5, 4));
    assert!(!<u16 as FrameLength>::exceeds(4, 4));
    assert_eq!(<u32 as FrameLength>::byte_count(), 4);
}
