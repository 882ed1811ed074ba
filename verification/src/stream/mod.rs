//! Byte streams: the circular buffer, framing and buffered reading.
use vstd::prelude::*;
use vstd::std_specs::convert::FromSpec;

use crate::stream::circular_bytes::{extended, least, wrap, CircularBytes};

pub mod circular_bytes;
pub mod codec;
pub mod framed;
pub mod length;
pub mod serde;

verus! {

/// Whether `c` is the result `r`, with the error as an `E` if it is one.
pub open spec fn converts_to<T, F, E: From<F>>(r: Result<T, F>, c: Result<T, E>) -> bool {
    match r {
        Ok(value) => c == Ok::<T, E>(value),
        Err(f) => c matches Err(e) && (<E as FromSpec<F>>::obeys_from_spec() ==> e == <E as FromSpec<
            F,
        >>::from_spec(f)),
    }
}

/// Converting a result keeps its value, and keeps a failure a failure.
pub proof fn law_conversion_keeps_values<T, F, E: From<F>>(r: Result<T, F>, c: Result<T, E>)
    requires
        converts_to(r, c),
    ensures
        r is Ok <==> c is Ok,
        r matches Ok(value) ==> c == Ok::<T, E>(value),
        r matches Err(f) ==> (<E as FromSpec<F>>::obeys_from_spec() ==> c == Err::<T, E>(
            <E as FromSpec<F>>::from_spec(f),
        )),
{
}

/// The result, with the error as an `E` if it is one.
pub fn converted<T, F, E: From<F>>(r: Result<T, F>) -> (c: Result<T, E>)
    ensures
        converts_to(r, c),
{
    match r {
        Ok(value) => Ok(value),
        Err(f) => Err(E::from(f)),
    }
}

/// A stream `S` behind a buffer of `BUF_SIZE` bytes, into which at most
/// `GRAB_SIZE` bytes are loaded at once.
///
/// The caller reads from the stream and hands the bytes to [`BufReader::fill`].
pub struct BufReader<const BUF_SIZE: usize, const GRAB_SIZE: usize, S> {
    buffer: CircularBytes<BUF_SIZE>,
    stream: S,
}

impl<const BUF_SIZE: usize, const GRAB_SIZE: usize, S> BufReader<BUF_SIZE, GRAB_SIZE, S> {
    /// The stream underneath.
    pub closed spec fn stream(self) -> S {
        self.stream
    }

    /// The buffer.
    pub closed spec fn buffer(self) -> CircularBytes<BUF_SIZE> {
        self.buffer
    }

    /// Puts an empty buffer in front of `stream`.
    pub fn new(stream: S) -> (r: Self)
        ensures
            r.stream() == stream,
            r.buffer()@ == Seq::<u8>::empty(),
            r.buffer().offset() == 0,
    {
        Self { buffer: CircularBytes::new(), stream }
    }

    /// The stream, to read at most `GRAB_SIZE` bytes from.
    pub fn stream_mut(&mut self) -> (r: &mut S)
        ensures
            *r == old(self).stream(),
            final(self).stream() == *final(r),
            final(self).buffer() == old(self).buffer(),
    {
        &mut self.stream
    }

    /// Loads bytes that were read from the stream, as many as the buffer has
    /// room for, and returns what the buffer holds up to the end of its storage.
    pub fn fill(&mut self, grabbed: &[u8]) -> (r: &[u8])
        requires
            0 < BUF_SIZE,
            grabbed@.len() <= GRAB_SIZE,
        ensures
            final(self).stream() == old(self).stream(),
            final(self).buffer()@ == extended(old(self).buffer()@, grabbed@, BUF_SIZE as int),
            final(self).buffer().offset() == old(self).buffer().offset(),
            old(self).buffer()@.len() <= final(self).buffer()@.len() <= BUF_SIZE,
            0 <= final(self).buffer().front_len() <= final(self).buffer()@.len(),
            r@ == final(self).buffer()@.take(final(self).buffer().front_len()),
            final(self).buffer()@.len() > 0 ==> r@.len() > 0,
    {
        self.buffer.extend_from_slice(grabbed);
        self.buffer.as_slices().0
    }

    /// Drops the oldest `amt` bytes of the buffer, or all if there are fewer.
    pub fn consume(&mut self, amt: usize)
        requires
            0 < BUF_SIZE,
        ensures
            final(self).stream() == old(self).stream(),
            final(self).buffer()@ == old(self).buffer()@.skip(
                least(amt as int, old(self).buffer()@.len() as int),
            ),
            final(self).buffer().offset() == wrap(
                old(self).buffer().offset() + least(
                    amt as int,
                    old(self).buffer()@.len() as int,
                ),
                BUF_SIZE as int,
            ),
    {
        let kept: usize = self.buffer.len().saturating_sub(amt);
        self.buffer.truncate_front(kept);
    }
}

} // verus!
