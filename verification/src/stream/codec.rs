//! Turning items into bytes on a stream and back: the length-delimited codec.
use vstd::arithmetic::div_mod::{lemma_mod_decreases, lemma_small_mod};
use vstd::prelude::*;

use crate::bytes::{
    law_short_numbers, le_bytes, le_value, lemma_le_bytes_len, lemma_le_value_of_bytes, pow256,
};
use crate::stream::circular_bytes::{extended, law_offers_join, wrap, CircularBytes};
use crate::stream::length::{usize_range, FrameLength};

verus! {

/// Why an item could not be encoded.
#[derive(Debug, Clone, Copy, PartialEq, Eq, Structural)]
pub enum CodecError {
    /// The item is longer than the codec lets a frame be.
    ValueTooLong,
}

impl CodecError {
    /// The text that describes the error to a reader.
    pub fn message(&self) -> (r: &'static str)
        ensures
            r@ == "value too long to fit into the stream"@,
    {
        match self {
            CodecError::ValueTooLong => "value too long to fit into the stream",
        }
    }
}

/// Writes items into a byte queue.
pub trait Encoder<Item>: Sized {
    type Error: From<CodecError>;

    /// Whether the item can be written into a queue of `capacity` bytes.
    spec fn encode_requires(self, item: Item, capacity: int) -> bool;

    /// What encoding does: `held` and `now` are the bytes in the queue before
    /// and after.
    spec fn encode_ensures(
        self,
        item: Item,
        held: Seq<u8>,
        capacity: int,
        post: Self,
        now: Seq<u8>,
        r: Result<(), Self::Error>,
    ) -> bool;

    /// Writes `item` at the end of `dst`.
    fn encode<const S: usize>(&mut self, item: Item, dst: &mut CircularBytes<S>) -> (r: Result<
        (),
        Self::Error,
    >)
        requires
            old(self).encode_requires(item, S as int),
        ensures
            old(self).encode_ensures(item, old(dst)@, S as int, *final(self), final(dst)@, r),
    ;
}

/// Reads items out of a byte queue.
pub trait Decoder: Sized {
    type Item;

    type Error: From<CodecError>;

    /// Whether decoding can go on from the bytes `held` in a queue of `capacity`
    /// bytes.
    spec fn decode_requires(self, held: Seq<u8>, capacity: int) -> bool;

    /// What decoding does: `held` and `now` are the bytes in the queue before
    /// and after.
    spec fn decode_ensures(
        self,
        held: Seq<u8>,
        post: Self,
        now: Seq<u8>,
        r: Result<Option<Self::Item>, Self::Error>,
    ) -> bool;

    /// Takes one item from the front of `src`, or `None` while it is incomplete.
    fn decode<const S: usize>(&mut self, src: &mut CircularBytes<S>) -> (r: Result<
        Option<Self::Item>,
        Self::Error,
    >)
        requires
            old(self).decode_requires(old(src)@, S as int),
        ensures
            old(self).decode_ensures(old(src)@, *final(self), final(src)@, r),
    ;
}

/// Where a decoder stands within a frame.
#[derive(Clone, Copy)]
enum LengthDelimitedCodecState {
    Head,
    Data(usize),
}

/// Frames that start with their length in bytes, as a `LenType`. Decoded frames
/// have room for `DECODE_SIZE` bytes.
pub struct LengthDelimitedCodec<const DECODE_SIZE: usize, LenType: FrameLength> {
    max_frame_len: LenType,
    state: LengthDelimitedCodecState,
}

impl<const DECODE_SIZE: usize, LenType: FrameLength> Clone for LengthDelimitedCodec<
    DECODE_SIZE,
    LenType,
> {
    fn clone(&self) -> (r: Self)
        ensures
            r == *self,
    {
        Self { max_frame_len: self.max_frame_len, state: self.state }
    }
}

/// The bytes that announce a frame of `len` bytes.
pub open spec fn frame_head<LenType: FrameLength>(len: nat) -> Seq<u8> {
    le_bytes(len, LenType::width())
}

/// The frame length that the bytes of a length field announce.
pub open spec fn announced(head: Seq<u8>) -> int {
    (le_value(head) % usize_range()) as int
}

/// The outcome of one attempt to take a frame from the bytes `held`. `pending`
/// is the length of the frame whose length field was taken before.
pub struct FrameStep {
    /// The length of the frame that is still awaited, if it is known by now.
    pub pending: Option<int>,
    /// The bytes that stay in the queue.
    pub held: Seq<u8>,
    /// The frame that was taken.
    pub frame: Option<Seq<u8>>,
}

/// Takes the next `n` bytes as a frame once they are all there.
pub open spec fn data_step(n: int, held: Seq<u8>) -> FrameStep {
    if held.len() < n {
        FrameStep { pending: Some(n), held, frame: None }
    } else {
        FrameStep { pending: None, held: held.skip(n), frame: Some(held.take(n)) }
    }
}

/// Takes the length field of `width` bytes if it is awaited, then the frame.
pub open spec fn frame_step(pending: Option<int>, held: Seq<u8>, width: int) -> FrameStep {
    match pending {
        Some(n) => data_step(n, held),
        None => if held.len() < width {
            FrameStep { pending: None, held, frame: None }
        } else {
            data_step(announced(held.take(width)), held.skip(width))
        },
    }
}

impl<const DECODE_SIZE: usize, LenType: FrameLength> LengthDelimitedCodec<DECODE_SIZE, LenType> {
    /// The greatest frame length that is encoded.
    pub closed spec fn limit(self) -> LenType {
        self.max_frame_len
    }

    /// The length of the frame that is awaited, once its length field was read.
    pub closed spec fn pending(self) -> Option<int> {
        match self.state {
            LengthDelimitedCodecState::Head => None,
            LengthDelimitedCodecState::Data(n) => Some(n as int),
        }
    }

    /// A codec that has read nothing and encodes frames of at most
    /// `max_frame_len` bytes.
    pub fn new(max_frame_len: LenType) -> (r: Self)
        ensures
            r.limit() == max_frame_len,
            r.pending() == None::<int>,
    {
        Self { max_frame_len, state: LengthDelimitedCodecState::Head }
    }

    /// Whether `item` is too long to be encoded.
    pub fn refuses(&self, item: &[u8]) -> (r: bool)
        ensures
            r <==> item@.len() > self.limit().value(),
    {
        let len: LenType = LenType::from_usize(item.len());
        proof {
            let range = pow256(LenType::width());
            self.max_frame_len.lemma_value_fits();
            len.lemma_value_fits();
            if item@.len() < range {
                lemma_small_mod(item@.len(), range);
            }
            lemma_mod_decreases(item@.len(), range);
            lemma_small_mod(len.value(), usize_range());
        }
        len.to_usize() != item.len() || len.exceeds(self.max_frame_len)
    }

    /// Takes a length field from the front of `src`, if it is complete.
    fn decode_head<const S: usize>(&self, src: &mut CircularBytes<S>) -> (r: Option<usize>)
        ensures
            old(src).bounded(),
            match r {
                Some(n) => {
                    &&& 0 < LenType::width() <= old(src)@.len()
                    &&& n == announced(old(src)@.take(LenType::width() as int))
                    &&& final(src)@ == old(src)@.skip(LenType::width() as int)
                    &&& final(src).offset() == wrap(
                        old(src).offset() + LenType::width(),
                        S as int,
                    )
                },
                None => {
                    &&& old(src)@.len() < LenType::width()
                    &&& *final(src) == *old(src)
                },
            },
    {
        let width: usize = LenType::byte_count();
        let mut bytes: [u8; 16] = [0; 16];
        let buffer: &mut [u8] = &mut bytes;
        let (head, _unused) = buffer.split_at_mut(width);
        if !src.consume_to_exact(head) {
            return None;
        }
        assert(bytes@.take(width as int) =~= old(src)@.take(width as int));
        Some(LenType::from_le_bytes(&bytes).to_usize())
    }

    /// Takes a frame of `n` bytes from the front of `src`, if it is complete.
    fn decode_data<const S: usize>(&self, n: usize, src: &mut CircularBytes<S>) -> (r: Option<
        CircularBytes<DECODE_SIZE>,
    >)
        requires
            n <= old(src)@.len() ==> 0 < S && n <= DECODE_SIZE,
        ensures
            old(src).bounded(),
            match r {
                Some(data) => {
                    &&& n <= old(src)@.len()
                    &&& data@ == old(src)@.take(n as int)
                    &&& data.offset() == 0
                    &&& final(src)@ == old(src)@.skip(n as int)
                    &&& final(src).offset() == wrap(old(src).offset() + n, S as int)
                },
                None => {
                    &&& old(src)@.len() < n
                    &&& *final(src) == *old(src)
                },
            },
    {
        if src.len() < n {
            return None;
        }
        let mut data = CircularBytes::<DECODE_SIZE>::new();
        data.fill(0);

        let (front, _back) = data.as_mut_slices();
        let (slice, _rest) = front.split_at_mut(n);
        src.consume_to(slice);

        data.truncate_back(n);
        assert(data@ =~= old(src)@.take(n as int));
        Some(data)
    }
}

impl<const DECODE_SIZE: usize, LenType: FrameLength> Encoder<&[u8]> for LengthDelimitedCodec<
    DECODE_SIZE,
    LenType,
> {
    type Error = CodecError;

    open spec fn encode_requires(self, item: &[u8], capacity: int) -> bool {
        item@.len() > self.limit().value() || LenType::width() + item@.len() <= capacity
    }

    open spec fn encode_ensures(
        self,
        item: &[u8],
        held: Seq<u8>,
        capacity: int,
        post: Self,
        now: Seq<u8>,
        r: Result<(), CodecError>,
    ) -> bool {
        &&& post == self
        &&& r == (if item@.len() > self.limit().value() {
            Err::<(), CodecError>(CodecError::ValueTooLong)
        } else {
            Ok(())
        })
        &&& r is Err ==> now == held
        &&& r is Ok ==> now == extended(
            held,
            frame_head::<LenType>(item@.len()) + item@,
            capacity,
        )
    }

    fn encode<const S: usize>(&mut self, item: &[u8], dst: &mut CircularBytes<S>) -> (r: Result<
        (),
        CodecError,
    >)
        ensures
            final(dst).offset() == old(dst).offset(),
            r is Err ==> *final(dst) == *old(dst),
    {
        if self.refuses(item) {
            return Err(CodecError::ValueTooLong);
        }
        let len: LenType = LenType::from_usize(item.len());
        proof {
            self.max_frame_len.lemma_value_fits();
            lemma_small_mod(item@.len(), pow256(LenType::width()));
        }
        let field: [u8; 16] = len.to_le_bytes();
        let bytes: &[u8] = vstd::slice::slice_subrange(&field, 0, LenType::byte_count());
        dst.extend_from_slice(bytes);
        dst.extend_from_slice(item);
        proof {
            law_offers_join(old(dst)@, bytes@, item@, S as int);
        }
        Ok(())
    }
}

impl<const DECODE_SIZE: usize, LenType: FrameLength> Decoder for LengthDelimitedCodec<
    DECODE_SIZE,
    LenType,
> {
    type Item = CircularBytes<DECODE_SIZE>;

    type Error = CodecError;

    open spec fn decode_requires(self, held: Seq<u8>, capacity: int) -> bool {
        match frame_step(self.pending(), held, LenType::width() as int).frame {
            Some(frame) => 0 < capacity && frame.len() <= DECODE_SIZE,
            None => true,
        }
    }

    open spec fn decode_ensures(
        self,
        held: Seq<u8>,
        post: Self,
        now: Seq<u8>,
        r: Result<Option<CircularBytes<DECODE_SIZE>>, CodecError>,
    ) -> bool {
        let step = frame_step(self.pending(), held, LenType::width() as int);
        &&& post.limit() == self.limit()
        &&& post.pending() == step.pending
        &&& now == step.held
        &&& match (r, step.frame) {
            (Ok(Some(item)), Some(frame)) => item@ == frame && item.offset() == 0,
            (Ok(None), None) => true,
            _ => false,
        }
    }

    fn decode<const S: usize>(&mut self, src: &mut CircularBytes<S>) -> (r: Result<
        Option<CircularBytes<DECODE_SIZE>>,
        CodecError,
    >)
        ensures
            old(src).bounded(),
            final(src)@.len() <= old(src)@.len(),
            final(src).offset() == wrap(
                old(src).offset() + old(src)@.len() - final(src)@.len(),
                S as int,
            ),
            r == Ok::<Option<CircularBytes<DECODE_SIZE>>, CodecError>(None) && final(src)@.len()
                == old(src)@.len() ==> *final(src) == *old(src),
    {
        let n: usize = match self.state {
            LengthDelimitedCodecState::Head => match self.decode_head(src) {
                Some(n) => {
                    self.state = LengthDelimitedCodecState::Data(n);
                    n
                },
                None => return Ok(None),
            },
            LengthDelimitedCodecState::Data(n) => n,
        };
        match self.decode_data(n, src) {
            Some(data) => {
                self.state = LengthDelimitedCodecState::Head;
                Ok(Some(data))
            },
            None => Ok(None),
        }
    }
}

/// A frame on a stream: its length field, then its bytes.
pub open spec fn framed_bytes<LenType: FrameLength>(item: Seq<u8>) -> Seq<u8> {
    frame_head::<LenType>(item.len()) + item
}

/// Frames one after the other on a stream.
pub open spec fn wire_of<LenType: FrameLength>(items: Seq<Seq<u8>>) -> Seq<u8>
    decreases items.len(),
{
    if items.len() == 0 {
        Seq::empty()
    } else {
        framed_bytes::<LenType>(items[0]) + wire_of::<LenType>(items.skip(1))
    }
}

/// What repeated decoding makes of the bytes `held` until it needs more.
pub struct Drained {
    /// The frames that were taken, in order.
    pub frames: Seq<Seq<u8>>,
    /// The length of the frame that is awaited, if it is known by then.
    pub pending: Option<int>,
    /// The bytes that stay in the queue.
    pub held: Seq<u8>,
}

/// What repeated decoding makes of the bytes `held` until it needs more.
pub open spec fn drained(pending: Option<int>, held: Seq<u8>, width: int) -> Drained
    decreases held.len(), (if pending is Some { 1int } else { 0int }),
    when width > 0 && (pending matches Some(n) ==> 0 <= n)
{
    let step = frame_step(pending, held, width);
    match step.frame {
        Some(frame) => {
            let rest = drained(step.pending, step.held, width);
            Drained { frames: seq![frame] + rest.frames, ..rest }
        },
        None => Drained { frames: Seq::empty(), pending: step.pending, held: step.held },
    }
}

/// What was encoded is decoded: a frame that starts the queue comes out as the
/// item it was made from, and the bytes behind it stay. The item has to be
/// short enough for its length field and for memory.
pub proof fn law_decode_inverts_encode<LenType: FrameLength>(item: Seq<u8>, rest: Seq<u8>)
    requires
        item.len() < pow256(LenType::width()),
        item.len() <= usize::MAX,
    ensures
        frame_step(None, framed_bytes::<LenType>(item) + rest, LenType::width() as int)
            == (FrameStep { pending: None, held: rest, frame: Some(item) }),
{
    let w = LenType::width();
    let wire = framed_bytes::<LenType>(item) + rest;
    lemma_small_mod(item.len(), pow256(w));
    lemma_small_mod(item.len(), usize_range());
    lemma_le_value_of_bytes(item.len(), w);
    assert(wire.take(w as int) =~= frame_head::<LenType>(item.len()));
    assert(wire.skip(w as int) =~= item + rest);
    assert((item + rest).take(item.len() as int) =~= item);
    assert((item + rest).skip(item.len() as int) =~= rest);
}

/// How a stream is cut into pieces does not matter: decoding a first piece in
/// vain and going on when more bytes came is decoding all of them at once.
pub proof fn law_decode_ignores_cuts(pending: Option<int>, first: Seq<u8>, more: Seq<u8>, width: int)
    requires
        0 < width,
        pending matches Some(n) ==> 0 <= n,
        frame_step(pending, first, width).frame is None,
    ensures
        ({
            let waiting = frame_step(pending, first, width);
            frame_step(waiting.pending, waiting.held + more, width) == frame_step(
                pending,
                first + more,
                width,
            )
        }),
{
    if pending is None && width <= first.len() {
        assert((first + more).take(width) =~= first.take(width));
        assert((first + more).skip(width) =~= first.skip(width) + more);
    }
}

/// The same for any number of frames: decoding what came first, and then what is
/// left of it together with more bytes, takes the same frames as decoding all
/// bytes at once, and ends the same.
pub proof fn law_frames_ignore_cuts(pending: Option<int>, first: Seq<u8>, more: Seq<u8>, width: int)
    requires
        0 < width,
        pending matches Some(n) ==> 0 <= n,
    ensures
        ({
            let early = drained(pending, first, width);
            let late = drained(early.pending, early.held + more, width);
            drained(pending, first + more, width) == (Drained {
                frames: early.frames + late.frames,
                ..late
            })
        }),
    decreases first.len(), (if pending is Some { 1int } else { 0int }),
{
    let step = frame_step(pending, first, width);
    let early = drained(pending, first, width);
    let late = drained(early.pending, early.held + more, width);
    if step.frame is Some {
        let n = step.frame->0.len() as int;
        if pending is None {
            assert((first + more).take(width) =~= first.take(width));
            assert((first + more).skip(width) =~= first.skip(width) + more);
            let body = first.skip(width);
            assert((body + more).take(n) =~= body.take(n));
            assert((body + more).skip(n) =~= body.skip(n) + more);
        } else {
            assert((first + more).take(n) =~= first.take(n));
            assert((first + more).skip(n) =~= first.skip(n) + more);
        }
        assert(frame_step(pending, first + more, width) == (FrameStep {
            held: step.held + more,
            ..step
        }));
        law_frames_ignore_cuts(step.pending, step.held, more, width);
        assert(drained(pending, first + more, width).frames =~= early.frames + late.frames);
    } else {
        law_decode_ignores_cuts(pending, first, more, width);
        assert(early.frames + late.frames =~= late.frames);
    }
}

/// Items sent one after the other arrive as the same items in the same order,
/// and nothing is left over.
pub proof fn law_items_arrive_in_order<LenType: FrameLength>(items: Seq<Seq<u8>>)
    requires
        forall|i: int|
            0 <= i < items.len() ==> (#[trigger] items[i]).len() < pow256(LenType::width())
                && items[i].len() <= usize::MAX,
    ensures
        drained(None, wire_of::<LenType>(items), LenType::width() as int) == (Drained {
            frames: items,
            pending: None,
            held: Seq::empty(),
        }),
    decreases items.len(),
{
    LenType::lemma_width();
    let wire = wire_of::<LenType>(items);
    if items.len() > 0 {
        let rest = items.skip(1);
        assert forall|i: int| 0 <= i < rest.len() implies (#[trigger] rest[i]).len() < pow256(
            LenType::width(),
        ) && rest[i].len() <= usize::MAX by {
            assert(rest[i] == items[i + 1]);
        }
        assert(items[0].len() < pow256(LenType::width()));
        law_items_arrive_in_order::<LenType>(rest);
        law_decode_inverts_encode::<LenType>(items[0], wire_of::<LenType>(rest));
        assert(seq![items[0]] + rest =~= items);
    } else {
        assert(items =~= Seq::empty());
    }
}

/// An item that was encoded into an empty queue with room for it is decoded from
/// there, and the bytes that come behind it stay.
pub proof fn law_encoded_item_is_decoded<const DECODE_SIZE: usize, LenType: FrameLength>(
    codec: LengthDelimitedCodec<DECODE_SIZE, LenType>,
    item: &[u8],
    capacity: int,
    post: LengthDelimitedCodec<DECODE_SIZE, LenType>,
    now: Seq<u8>,
    rest: Seq<u8>,
)
    requires
        codec.encode_requires(item, capacity),
        codec.encode_ensures(item, Seq::empty(), capacity, post, now, Ok(())),
        item@.len() <= usize::MAX,
    ensures
        frame_step(None, now + rest, LenType::width() as int) == (FrameStep {
            pending: None,
            held: rest,
            frame: Some(item@),
        }),
{
    codec.limit().lemma_value_fits();
    lemma_le_bytes_len(item@.len(), LenType::width());
    assert(now =~= framed_bytes::<LenType>(item@));
    law_decode_inverts_encode::<LenType>(item@, rest);
}

/// An item is refused exactly when it has more bytes than the codec was made for,
/// and then nothing was written; either way the codec stays as it was.
pub proof fn law_limit_is_the_greatest_length<const DECODE_SIZE: usize, LenType: FrameLength>(
    codec: LengthDelimitedCodec<DECODE_SIZE, LenType>,
    item: &[u8],
    held: Seq<u8>,
    capacity: int,
    post: LengthDelimitedCodec<DECODE_SIZE, LenType>,
    now: Seq<u8>,
    r: Result<(), CodecError>,
)
    requires
        codec.encode_ensures(item, held, capacity, post, now, r),
    ensures
        r is Ok <==> item@.len() <= codec.limit().value(),
        r matches Err(e) ==> e == CodecError::ValueTooLong && now == held,
        post == codec,
{
}

/// The length field on the wire spells the length of the item: behind what the
/// queue held come `width` bytes that spell, lowest byte first, how many bytes
/// the item has, and then those bytes.
pub proof fn law_field_spells_the_length<const DECODE_SIZE: usize, LenType: FrameLength>(
    codec: LengthDelimitedCodec<DECODE_SIZE, LenType>,
    item: &[u8],
    held: Seq<u8>,
    capacity: int,
    post: LengthDelimitedCodec<DECODE_SIZE, LenType>,
    now: Seq<u8>,
)
    requires
        codec.encode_ensures(item, held, capacity, post, now, Ok(())),
        held.len() + LenType::width() + item@.len() <= capacity,
    ensures
        ({
            let body = held.len() + LenType::width() as int;
            &&& now.len() == body + item@.len()
            &&& now.subrange(0, held.len() as int) == held
            &&& le_value(now.subrange(held.len() as int, body)) == item@.len()
            &&& now.subrange(body, now.len() as int) == item@
        }),
{
    let w = LenType::width();
    let body = held.len() + w as int;
    codec.limit().lemma_value_fits();
    lemma_le_value_of_bytes(item@.len(), w);
    assert(now.subrange(0, held.len() as int) =~= held);
    assert(now.subrange(held.len() as int, body) =~= le_bytes(item@.len(), w));
    assert(now.subrange(body, now.len() as int) =~= item@);
}

/// The same for a length field of two bytes, in numbers.
pub proof fn law_two_byte_field_spells_the_length<const DECODE_SIZE: usize>(
    codec: LengthDelimitedCodec<DECODE_SIZE, u16>,
    item: &[u8],
    held: Seq<u8>,
    capacity: int,
    post: LengthDelimitedCodec<DECODE_SIZE, u16>,
    now: Seq<u8>,
)
    requires
        codec.encode_ensures(item, held, capacity, post, now, Ok(())),
        held.len() + 2 + item@.len() <= capacity,
    ensures
        now.len() == held.len() + 2 + item@.len(),
        now[held.len() as int] + 0x100 * now[held.len() as int + 1] == item@.len(),
        forall|i: int| 0 <= i < held.len() ==> now[i] == held[i],
        forall|i: int| 0 <= i < item@.len() ==> now[held.len() as int + 2 + i] == #[trigger] item@[i],
{
    law_field_spells_the_length(codec, item, held, capacity, post, now);
    let h = held.len() as int;
    let head = now.subrange(h, h + 2);
    let body = now.subrange(h + 2, now.len() as int);
    law_short_numbers(head[0], head[1], 0, 0);
    assert(head =~= seq![now[h], now[h + 1]]);
    assert forall|i: int| 0 <= i < h implies now[i] == held[i] by {
        assert(now.subrange(0, h)[i] == now[i]);
    }
    assert forall|i: int| 0 <= i < item@.len() implies now[h + 2 + i] == #[trigger] item@[i] by {
        assert(body[i] == now[h + 2 + i]);
    }
}

/// A frame has exactly as many bytes as the length field in front of it spells,
/// lowest byte first; it is taken as soon as they are there, and what is behind
/// it stays.
pub proof fn law_frame_has_the_spelled_length<const DECODE_SIZE: usize, LenType: FrameLength>(
    codec: LengthDelimitedCodec<DECODE_SIZE, LenType>,
    held: Seq<u8>,
    post: LengthDelimitedCodec<DECODE_SIZE, LenType>,
    now: Seq<u8>,
    r: Result<Option<CircularBytes<DECODE_SIZE>>, CodecError>,
)
    requires
        codec.pending() is None,
        codec.decode_ensures(held, post, now, r),
        LenType::width() <= held.len(),
        le_value(held.subrange(0, LenType::width() as int)) <= usize::MAX,
    ensures
        ({
            let w = LenType::width() as int;
            let n = le_value(held.subrange(0, w)) as int;
            if w + n <= held.len() {
                &&& r matches Ok(Some(item)) && item@ == held.subrange(w, w + n)
                &&& now == held.subrange(w + n, held.len() as int)
                &&& post.pending() is None
            } else {
                &&& r matches Ok(None)
                &&& now == held.subrange(w, held.len() as int)
                &&& post.pending() == Some(n)
            }
        }),
{
    let w = LenType::width() as int;
    let n = le_value(held.subrange(0, w));
    lemma_small_mod(n, usize_range());
    assert(held.take(w) =~= held.subrange(0, w));
    assert(held.skip(w) =~= held.subrange(w, held.len() as int));
    if w + n <= held.len() {
        assert(held.skip(w).take(n as int) =~= held.subrange(w, w + n));
        assert(held.skip(w).skip(n as int) =~= held.subrange(w + n, held.len() as int));
    }
}

/// The same for a length field of two bytes, in numbers.
pub proof fn law_frame_has_the_two_byte_length<const DECODE_SIZE: usize>(
    codec: LengthDelimitedCodec<DECODE_SIZE, u16>,
    held: Seq<u8>,
    post: LengthDelimitedCodec<DECODE_SIZE, u16>,
    now: Seq<u8>,
    r: Result<Option<CircularBytes<DECODE_SIZE>>, CodecError>,
)
    requires
        codec.pending() is None,
        codec.decode_ensures(held, post, now, r),
        2 <= held.len(),
    ensures
        ({
            let n = held[0] + 0x100 * held[1];
            if 2 + n <= held.len() {
                r matches Ok(Some(item)) && item@ == held.subrange(2, 2 + n)
            } else {
                r matches Ok(None) && post.pending() == Some(n)
            }
        }),
{
    law_short_numbers(held[0], held[1], 0, 0);
    assert(held.subrange(0, 2) =~= seq![held[0], held[1]]);
    law_frame_has_the_spelled_length(codec, held, post, now, r);
}

/// Once a length is known, that many bytes are awaited and then taken; before
/// that, a length field that is not complete leaves everything as it is.
pub proof fn law_awaited_bytes_are_taken<const DECODE_SIZE: usize, LenType: FrameLength>(
    codec: LengthDelimitedCodec<DECODE_SIZE, LenType>,
    held: Seq<u8>,
    post: LengthDelimitedCodec<DECODE_SIZE, LenType>,
    now: Seq<u8>,
    r: Result<Option<CircularBytes<DECODE_SIZE>>, CodecError>,
)
    requires
        codec.decode_ensures(held, post, now, r),
    ensures
        match codec.pending() {
            Some(n) => if n <= held.len() {
                &&& r matches Ok(Some(item)) && item@ == held.subrange(0, n)
                &&& now == held.subrange(n, held.len() as int)
                &&& post.pending() is None
            } else {
                &&& r matches Ok(None)
                &&& now == held
                &&& post.pending() == Some(n)
            },
            None => held.len() < LenType::width() ==> {
                &&& r matches Ok(None)
                &&& now == held
                &&& post.pending() is None
            },
        },
{
    if codec.pending() is Some {
        let n = codec.pending()->0;
        if n <= held.len() {
            assert(held.take(n) =~= held.subrange(0, n));
            assert(held.skip(n) =~= held.subrange(n, held.len() as int));
        }
    }
}

/// One call of [`Decoder::decode`]: the codec and the bytes in the queue before
/// and after, and the result.
pub struct DecodeCall<const DECODE_SIZE: usize, LenType: FrameLength> {
    pub before: LengthDelimitedCodec<DECODE_SIZE, LenType>,
    pub held: Seq<u8>,
    pub after: LengthDelimitedCodec<DECODE_SIZE, LenType>,
    pub left: Seq<u8>,
    pub result: Result<Option<CircularBytes<DECODE_SIZE>>, CodecError>,
}

/// Whether `calls` are calls of `decode`, one after the other, that begin with
/// this codec and these bytes and go on until one gives no frame.
pub open spec fn decoded_until_none<const DECODE_SIZE: usize, LenType: FrameLength>(
    codec: LengthDelimitedCodec<DECODE_SIZE, LenType>,
    held: Seq<u8>,
    calls: Seq<DecodeCall<DECODE_SIZE, LenType>>,
) -> bool
    decreases calls.len(),
{
    &&& calls.len() > 0
    &&& calls[0].before == codec
    &&& calls[0].held == held
    &&& codec.decode_ensures(held, calls[0].after, calls[0].left, calls[0].result)
    &&& match calls[0].result {
        Ok(Some(_)) => decoded_until_none(calls[0].after, calls[0].left, calls.skip(1)),
        _ => calls.len() == 1,
    }
}

/// The frames that calls of `decode` gave.
pub open spec fn frames_of<const DECODE_SIZE: usize, LenType: FrameLength>(
    calls: Seq<DecodeCall<DECODE_SIZE, LenType>>,
) -> Seq<Seq<u8>>
    decreases calls.len(),
{
    if calls.len() == 0 {
        Seq::empty()
    } else {
        match calls[0].result {
            Ok(Some(item)) => seq![item@] + frames_of(calls.skip(1)),
            _ => Seq::empty(),
        }
    }
}

/// Whether each of the calls could be made on a queue of `capacity` bytes and
/// none of them failed.
pub open spec fn all_in_order<const DECODE_SIZE: usize, LenType: FrameLength>(
    calls: Seq<DecodeCall<DECODE_SIZE, LenType>>,
    capacity: int,
) -> bool {
    forall|i: int|
        0 <= i < calls.len() ==> (#[trigger] calls[i]).before.decode_requires(
            calls[i].held,
            capacity,
        ) && calls[i].result is Ok
}

/// Calls of `decode` until none gives a frame give the frames that the bytes hold.
proof fn lemma_calls_drain<const DECODE_SIZE: usize, LenType: FrameLength>(
    codec: LengthDelimitedCodec<DECODE_SIZE, LenType>,
    held: Seq<u8>,
    calls: Seq<DecodeCall<DECODE_SIZE, LenType>>,
    capacity: int,
)
    requires
        0 < LenType::width(),
        0 < capacity,
        decoded_until_none(codec, held, calls),
    ensures
        drained(codec.pending(), held, LenType::width() as int) == (Drained {
            frames: frames_of(calls),
            pending: calls.last().after.pending(),
            held: calls.last().left,
        }),
        (forall|i: int|
            0 <= i < frames_of(calls).len() ==> (#[trigger] frames_of(calls)[i]).len()
                <= DECODE_SIZE) ==> all_in_order(calls, capacity),
    decreases calls.len(),
{
    let call = calls[0];
    let rest = calls.skip(1);
    let frames = frames_of(calls);
    if let Ok(Some(item)) = call.result {
        reveal_with_fuel(decoded_until_none, 2);
        lemma_calls_drain(call.after, call.left, rest, capacity);
        assert(rest.last() == calls.last());
        if forall|i: int| 0 <= i < frames.len() ==> (#[trigger] frames[i]).len() <= DECODE_SIZE {
            assert(frames[0] == item@);
            assert forall|i: int| 0 <= i < frames_of(rest).len() implies (#[trigger] frames_of(
                rest,
            )[i]).len() <= DECODE_SIZE by {
                assert(frames[i + 1] == frames_of(rest)[i]);
            }
            assert forall|i: int| 0 <= i < calls.len() implies (
            #[trigger] calls[i]).before.decode_requires(calls[i].held, capacity)
                && calls[i].result is Ok by {
                if i > 0 {
                    assert(calls[i] == rest[i - 1]);
                }
            }
        }
    }
}

/// A piece of a stream that was appended to the queue, and the calls of `decode`
/// that followed.
pub struct DecodeRound<const DECODE_SIZE: usize, LenType: FrameLength> {
    pub piece: Seq<u8>,
    pub calls: Seq<DecodeCall<DECODE_SIZE, LenType>>,
}

/// Whether `rounds` follow each other, beginning with this codec and these bytes
/// in the queue: each appends its piece and decodes until there is no frame.
pub open spec fn decoded_in_rounds<const DECODE_SIZE: usize, LenType: FrameLength>(
    codec: LengthDelimitedCodec<DECODE_SIZE, LenType>,
    held: Seq<u8>,
    rounds: Seq<DecodeRound<DECODE_SIZE, LenType>>,
) -> bool
    decreases rounds.len(),
{
    rounds.len() > 0 ==> {
        let calls = rounds[0].calls;
        &&& decoded_until_none(codec, held + rounds[0].piece, calls)
        &&& decoded_in_rounds(calls.last().after, calls.last().left, rounds.skip(1))
    }
}

/// The pieces of the rounds, joined.
pub open spec fn stream_of<const DECODE_SIZE: usize, LenType: FrameLength>(
    rounds: Seq<DecodeRound<DECODE_SIZE, LenType>>,
) -> Seq<u8>
    decreases rounds.len(),
{
    if rounds.len() == 0 {
        Seq::empty()
    } else {
        rounds[0].piece + stream_of(rounds.skip(1))
    }
}

/// The frames that the rounds gave.
pub open spec fn frames_of_rounds<const DECODE_SIZE: usize, LenType: FrameLength>(
    rounds: Seq<DecodeRound<DECODE_SIZE, LenType>>,
) -> Seq<Seq<u8>>
    decreases rounds.len(),
{
    if rounds.len() == 0 {
        Seq::empty()
    } else {
        frames_of(rounds[0].calls) + frames_of_rounds(rounds.skip(1))
    }
}

/// Whether decoding changes nothing until more bytes come.
spec fn at_rest(pending: Option<int>, held: Seq<u8>, width: int) -> bool {
    drained(pending, held, width) == (Drained { frames: Seq::empty(), pending, held })
}

/// Where decoding ends, it is at rest.
proof fn lemma_drained_is_at_rest(pending: Option<int>, held: Seq<u8>, width: int)
    requires
        0 < width,
        pending matches Some(n) ==> 0 <= n,
    ensures
        ({
            let end = drained(pending, held, width);
            at_rest(end.pending, end.held, width)
        }),
    decreases held.len(), (if pending is Some { 1int } else { 0int }),
{
    let step = frame_step(pending, held, width);
    if step.frame is Some {
        lemma_drained_is_at_rest(step.pending, step.held, width);
    }
}

proof fn lemma_rounds_drain<const DECODE_SIZE: usize, LenType: FrameLength>(
    codec: LengthDelimitedCodec<DECODE_SIZE, LenType>,
    held: Seq<u8>,
    rounds: Seq<DecodeRound<DECODE_SIZE, LenType>>,
    capacity: int,
)
    requires
        0 < LenType::width(),
        0 < capacity,
        at_rest(codec.pending(), held, LenType::width() as int),
        decoded_in_rounds(codec, held, rounds),
    ensures
        ({
            let all = drained(
                codec.pending(),
                held + stream_of(rounds),
                LenType::width() as int,
            );
            &&& all.frames == frames_of_rounds(rounds)
            &&& rounds.len() > 0 ==> all.pending == rounds.last().calls.last().after.pending()
            &&& rounds.len() > 0 ==> all.held == rounds.last().calls.last().left
            &&& (forall|i: int|
                0 <= i < all.frames.len() ==> (#[trigger] all.frames[i]).len() <= DECODE_SIZE)
                ==> forall|r: int|
                0 <= r < rounds.len() ==> all_in_order((#[trigger] rounds[r]).calls, capacity)
        }),
    decreases rounds.len(),
{
    let width = LenType::width() as int;
    if rounds.len() == 0 {
        assert(held + stream_of(rounds) =~= held);
    } else {
        let piece = rounds[0].piece;
        let calls = rounds[0].calls;
        let rest = rounds.skip(1);
        lemma_calls_drain(codec, held + piece, calls, capacity);
        lemma_drained_is_at_rest(codec.pending(), held + piece, width);
        lemma_rounds_drain(calls.last().after, calls.last().left, rest, capacity);
        law_frames_ignore_cuts(codec.pending(), held + piece, stream_of(rest), width);
        assert(held + stream_of(rounds) =~= held + piece + stream_of(rest));
        let all = drained(codec.pending(), held + stream_of(rounds), width);
        let first = frames_of(calls);
        let later = frames_of_rounds(rest);
        assert(all.frames == first + later);
        if rest.len() > 0 {
            assert(rest.last() == rounds.last());
        } else {
            assert(calls.last().left + stream_of(rest) =~= calls.last().left);
        }
        if forall|i: int|
            0 <= i < all.frames.len() ==> (#[trigger] all.frames[i]).len() <= DECODE_SIZE {
            assert forall|i: int| 0 <= i < first.len() implies (#[trigger] first[i]).len()
                <= DECODE_SIZE by {
                assert(all.frames[i] == first[i]);
            }
            assert forall|i: int| 0 <= i < later.len() implies (#[trigger] later[i]).len()
                <= DECODE_SIZE by {
                assert(all.frames[first.len() + i] == later[i]);
            }
            assert forall|r: int| 0 <= r < rounds.len() implies all_in_order(
                (#[trigger] rounds[r]).calls,
                capacity,
            ) by {
                if r > 0 {
                    assert(rounds[r] == rest[r - 1]);
                }
            }
        }
    }
}

/// Frames come out the same however a stream is cut. A fresh codec is given a
/// stream of encoded items in pieces, and after each piece `decode` is called
/// until it gives no frame: the calls can all be made, none fails, and they give
/// exactly the items, in order and each once. Nothing is left over at the end.
pub proof fn law_cut_stream_gives_the_items<const DECODE_SIZE: usize, LenType: FrameLength>(
    codec: LengthDelimitedCodec<DECODE_SIZE, LenType>,
    rounds: Seq<DecodeRound<DECODE_SIZE, LenType>>,
    items: Seq<Seq<u8>>,
    capacity: int,
)
    requires
        0 < capacity,
        codec.pending() is None,
        decoded_in_rounds(codec, Seq::empty(), rounds),
        stream_of(rounds) == wire_of::<LenType>(items),
        forall|i: int|
            0 <= i < items.len() ==> (#[trigger] items[i]).len() < pow256(LenType::width())
                && items[i].len() <= DECODE_SIZE,
    ensures
        frames_of_rounds(rounds) == items,
        forall|r: int|
            0 <= r < rounds.len() ==> all_in_order((#[trigger] rounds[r]).calls, capacity),
        rounds.len() > 0 ==> rounds.last().calls.last().left == Seq::<u8>::empty(),
        rounds.len() > 0 ==> rounds.last().calls.last().after.pending() is None,
{
    LenType::lemma_width();
    let wire = wire_of::<LenType>(items);
    assert(Seq::<u8>::empty() + stream_of(rounds) =~= wire);
    lemma_rounds_drain(codec, Seq::empty(), rounds, capacity);
    assert forall|i: int| 0 <= i < items.len() implies (#[trigger] items[i]).len() < pow256(
        LenType::width(),
    ) && items[i].len() <= usize::MAX by {
        assert(items[i].len() <= DECODE_SIZE);
    }
    law_items_arrive_in_order::<LenType>(items);
}

/// A queue that holds no more bytes than a decoded frame has room for can
/// always be decoded from.
pub proof fn law_small_queue_is_decodable<const DECODE_SIZE: usize, LenType: FrameLength>(
    codec: LengthDelimitedCodec<DECODE_SIZE, LenType>,
    held: Seq<u8>,
    capacity: int,
)
    requires
        held.len() <= DECODE_SIZE,
        0 < capacity,
    ensures
        codec.decode_requires(held, capacity),
{
}

} // verus!
