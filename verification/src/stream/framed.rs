//! Items framed by a codec, on top of a byte stream.
//!
//! The stream itself is read and written by the caller: [`Framed::poll_next`]
//! says when more bytes are needed and [`ReadFrame::feed`] takes them, while
//! [`Framed::begin_send`] prepares the bytes that [`WriteFrame::outgoing`]
//! hands out.
use core::marker::PhantomData;
use vstd::prelude::*;

use crate::stream::circular_bytes::{least, CircularBytes};
use crate::stream::codec::{
    law_awaited_bytes_are_taken, CodecError, Decoder, Encoder, LengthDelimitedCodec,
};
use crate::stream::length::FrameLength;
use crate::stream::{converted, converts_to};

verus! {

/// The bytes that were read from a stream and not decoded yet.
#[derive(Debug)]
pub struct ReadFrame<const S: usize> {
    is_readable: bool,
    buf: CircularBytes<S>,
}

impl<const S: usize> ReadFrame<S> {
    /// Whether the next step is to decode rather than to read.
    pub closed spec fn readable(self) -> bool {
        self.is_readable
    }

    /// The bytes that wait to be decoded.
    pub closed spec fn held(self) -> Seq<u8> {
        self.buf@
    }

    /// Takes as many of `bytes` as there is room for and returns how many that
    /// were. Decoding is tried next if there were any.
    pub fn feed(&mut self, bytes: &[u8]) -> (r: usize)
        requires
            0 < S,
        ensures
            old(self).held().len() <= S,
            r == least(bytes@.len() as int, S - old(self).held().len()),
            final(self).held() == old(self).held() + bytes@.take(r as int),
            final(self).readable() == (old(self).readable() || r != 0),
    {
        let available: usize = self.buf.capacity() - self.buf.len();
        let byte_count: usize = if available <= bytes.len() {
            available
        } else {
            bytes.len()
        };
        let taken: &[u8] = vstd::slice::slice_subrange(bytes, 0, byte_count);
        self.buf.extend_from_slice(taken);
        assert(taken@.take(byte_count as int) =~= taken@);
        self.is_readable = self.is_readable || byte_count != 0;
        byte_count
    }

    /// What is answered once decoding was tried, and whether to try again: only
    /// while items come out and bytes are left, or after a failure.
    pub fn settle<T, D, E: From<D>>(&mut self, decoded: Result<Option<T>, D>) -> (r: FramePoll<T, E>)
        requires
            old(self).readable(),
        ensures
            final(self).held() == old(self).held(),
            settled(decoded, final(self).held(), final(self).readable(), r),
    {
        match decoded {
            Ok(Some(item)) => {
                if self.buf.is_empty() {
                    self.is_readable = false;
                }
                FramePoll::Ready(Ok(item))
            },
            Ok(None) => {
                self.is_readable = false;
                FramePoll::NeedInput
            },
            Err(e) => FramePoll::Ready(converted(Err(e))),
        }
    }
}

impl<const S: usize> Default for ReadFrame<S> {
    /// Nothing read yet.
    fn default() -> (r: Self)
        ensures
            !r.readable(),
            r.held() == Seq::<u8>::empty(),
    {
        ReadFrame { is_readable: false, buf: CircularBytes::new() }
    }
}

/// The bytes that were encoded and not written to a stream yet.
#[derive(Debug)]
pub struct WriteFrame<const S: usize> {
    buf: CircularBytes<S>,
}

impl<const S: usize> WriteFrame<S> {
    /// The bytes that wait to be written.
    pub closed spec fn held(self) -> Seq<u8> {
        self.buf@
    }

    /// The bytes that wait to be written, in two pieces: all of the first, then
    /// all of the second.
    pub fn outgoing(&self) -> (r: (&[u8], &[u8]))
        ensures
            r.0@ + r.1@ == self.held(),
    {
        let r = self.buf.as_slices();
        assert(r.0@ + r.1@ =~= self.held());
        r
    }
}

impl<const S: usize> Default for WriteFrame<S> {
    /// Nothing to write.
    fn default() -> (r: Self)
        ensures
            r.held() == Seq::<u8>::empty(),
    {
        WriteFrame { buf: CircularBytes::new() }
    }
}

/// What a framed stream answers when it is asked for its next item.
pub enum FramePoll<T, E> {
    /// An item, or the reason why there is none.
    Ready(Result<T, E>),
    /// More bytes have to be fed first.
    NeedInput,
}

/// What is answered, and whether decoding is tried again, once it was tried and
/// left the bytes `held`.
pub open spec fn settled<T, D, E: From<D>>(
    decoded: Result<Option<T>, D>,
    held: Seq<u8>,
    readable: bool,
    r: FramePoll<T, E>,
) -> bool {
    match decoded {
        Ok(Some(item)) => r == FramePoll::<T, E>::Ready(Ok(item)) && readable == (held.len() > 0),
        Ok(None) => r is NeedInput && !readable,
        Err(e) => readable && (r matches FramePoll::Ready(answer) && converts_to(
            Err::<T, D>(e),
            answer,
        )),
    }
}

/// A stream `R` that carries items by way of the codec `C`, with room for
/// `MAX_SIZE` bytes in each direction. Failures are reported as an `E`.
pub struct Framed<const MAX_SIZE: usize, R, C, E> {
    stream: R,
    read: ReadFrame<MAX_SIZE>,
    write: WriteFrame<MAX_SIZE>,
    codec: C,
    _marker: PhantomData<E>,
}

impl<const MAX_SIZE: usize, R, C, E> Framed<MAX_SIZE, R, C, E> {
    /// The stream underneath.
    pub closed spec fn stream(self) -> R {
        self.stream
    }

    /// The codec.
    pub closed spec fn codec(self) -> C {
        self.codec
    }

    /// The reading direction.
    pub closed spec fn reading(self) -> ReadFrame<MAX_SIZE> {
        self.read
    }

    /// The writing direction.
    pub closed spec fn writing(self) -> WriteFrame<MAX_SIZE> {
        self.write
    }

    /// Frames `stream` by way of `codec`.
    pub fn new(stream: R, codec: C) -> (r: Self)
        ensures
            r.stream() == stream,
            r.codec() == codec,
            !r.reading().readable(),
            r.reading().held() == Seq::<u8>::empty(),
            r.writing().held() == Seq::<u8>::empty(),
    {
        Framed {
            stream,
            read: ReadFrame::default(),
            write: WriteFrame::default(),
            codec,
            _marker: PhantomData,
        }
    }

    /// The codec, to ask what it refuses.
    pub fn get_codec(&self) -> (r: &C)
        ensures
            *r == self.codec(),
    {
        &self.codec
    }

    /// The stream, to read from, and where to feed what was read.
    pub fn read_parts(&mut self) -> (r: (&mut R, &mut ReadFrame<MAX_SIZE>))
        ensures
            *r.0 == old(self).stream(),
            *r.1 == old(self).reading(),
            final(self).stream() == *final(r.0),
            final(self).reading() == *final(r.1),
            final(self).codec() == old(self).codec(),
            final(self).writing() == old(self).writing(),
    {
        (&mut self.stream, &mut self.read)
    }

    /// The stream, to write to, and what is to be written.
    pub fn write_parts(&mut self) -> (r: (&mut R, &WriteFrame<MAX_SIZE>))
        ensures
            *r.0 == old(self).stream(),
            *r.1 == old(self).writing(),
            final(self).stream() == *final(r.0),
            final(self).reading() == old(self).reading(),
            final(self).codec() == old(self).codec(),
            final(self).writing() == old(self).writing(),
    {
        (&mut self.stream, &self.write)
    }
}

impl<const MAX_SIZE: usize, R, C: Decoder, E: From<C::Error>> Framed<MAX_SIZE, R, C, E> {
    /// Decodes the next item from the bytes fed so far.
    pub fn poll_next(&mut self) -> (r: FramePoll<C::Item, E>)
        requires
            old(self).reading().readable() ==> old(self).codec().decode_requires(
                old(self).reading().held(),
                MAX_SIZE as int,
            ),
        ensures
            final(self).stream() == old(self).stream(),
            final(self).writing() == old(self).writing(),
            !old(self).reading().readable() ==> *final(self) == *old(self) && r is NeedInput,
            old(self).reading().readable() ==> exists|d: Result<Option<C::Item>, C::Error>|
                {
                    &&& #[trigger] old(self).codec().decode_ensures(
                        old(self).reading().held(),
                        final(self).codec(),
                        final(self).reading().held(),
                        d,
                    )
                    &&& settled(
                        d,
                        final(self).reading().held(),
                        final(self).reading().readable(),
                        r,
                    )
                },
    {
        if !self.read.is_readable {
            return FramePoll::NeedInput;
        }
        let decoded = self.codec.decode(&mut self.read.buf);
        let ghost d = decoded;
        let r = self.read.settle(decoded);
        assert(old(self).codec().decode_ensures(
            old(self).reading().held(),
            self.codec(),
            self.reading().held(),
            d,
        ));
        r
    }
}

impl<const MAX_SIZE: usize, R, C, E> Framed<MAX_SIZE, R, C, E> {
    /// Encodes `value` behind what still waits to be written.
    pub fn begin_send<I>(&mut self, value: I) -> (r: Result<(), E>) where
        C: Encoder<I>,
        E: From<<C as Encoder<I>>::Error>,

        requires
            old(self).codec().encode_requires(value, MAX_SIZE as int),
        ensures
            final(self).stream() == old(self).stream(),
            final(self).reading() == old(self).reading(),
            exists|d: Result<(), <C as Encoder<I>>::Error>|
                {
                    &&& #[trigger] old(self).codec().encode_ensures(
                        value,
                        old(self).writing().held(),
                        MAX_SIZE as int,
                        final(self).codec(),
                        final(self).writing().held(),
                        d,
                    )
                    &&& converts_to(d, r)
                },
    {
        let encoded = self.codec.encode(value, &mut self.write.buf);
        assert(old(self).codec().encode_ensures(
            value,
            old(self).writing().held(),
            MAX_SIZE as int,
            self.codec(),
            self.writing().held(),
            encoded,
        ));
        converted(encoded)
    }

    /// Forgets the bytes that waited to be written, once they are.
    pub fn end_send(&mut self)
        ensures
            final(self).stream() == old(self).stream(),
            final(self).codec() == old(self).codec(),
            final(self).reading() == old(self).reading(),
            final(self).writing().held() == Seq::<u8>::empty(),
    {
        self.write.buf.clear();
    }
}

/// No item is left waiting: when a stream is not tried again before more bytes
/// come, too few bytes are left for the length field, or for the frame whose
/// length is known. An item that was decoded is what is answered, and decoding
/// a stream never fails.
pub proof fn law_no_item_is_left_waiting<
    const DECODE_SIZE: usize,
    LenType: FrameLength,
    E: From<CodecError>,
>(
    codec: LengthDelimitedCodec<DECODE_SIZE, LenType>,
    held: Seq<u8>,
    decoded: Result<Option<CircularBytes<DECODE_SIZE>>, CodecError>,
    post: LengthDelimitedCodec<DECODE_SIZE, LenType>,
    now: Seq<u8>,
    readable: bool,
    r: FramePoll<CircularBytes<DECODE_SIZE>, E>,
)
    requires
        codec.decode_ensures(held, post, now, decoded),
        settled(decoded, now, readable, r),
    ensures
        !readable ==> match post.pending() {
            Some(n) => now.len() < n,
            None => now.len() < LenType::width(),
        },
        readable ==> now.len() > 0,
        match r {
            FramePoll::Ready(Ok(item)) => decoded == Ok::<
                Option<CircularBytes<DECODE_SIZE>>,
                CodecError,
            >(Some(item)),
            FramePoll::Ready(Err(_)) => false,
            FramePoll::NeedInput => !readable && (decoded matches Ok(None)),
        },
{
    LenType::lemma_width();
    law_awaited_bytes_are_taken(codec, held, post, now, decoded);
}

/// The outcome of decoding is passed on: an item as it is, nothing as the wish
/// for more bytes, a failure as a failure.
pub proof fn law_decoded_items_are_passed_on<T, D, E: From<D>>(
    decoded: Result<Option<T>, D>,
    held: Seq<u8>,
    readable: bool,
    r: FramePoll<T, E>,
)
    requires
        settled(decoded, held, readable, r),
    ensures
        decoded matches Ok(Some(item)) ==> r == FramePoll::<T, E>::Ready(Ok(item)) && (readable
            <==> held.len() != 0),
        decoded matches Ok(None) ==> r is NeedInput && !readable,
        decoded is Err ==> readable && (r matches FramePoll::Ready(answer) && answer is Err),
{
}

} // verus!
