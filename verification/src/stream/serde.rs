//! Values in place of bytes: framed streams with a serialisation format on top.
use core::marker::PhantomData;
use vstd::prelude::*;

use crate::stream::circular_bytes::CircularBytes;
use crate::stream::{converted, converts_to};

verus! {

/// Turns values into at most `MAX_SIZE` bytes.
pub trait Serializer<const MAX_SIZE: usize, T>: Sized {
    type Error;

    /// What serialising a value does. A format says here how the outcome follows
    /// from the value; one that does not promises nothing.
    open spec fn serialize_ensures(
        self,
        item: T,
        post: Self,
        r: Result<CircularBytes<MAX_SIZE>, Self::Error>,
    ) -> bool {
        true
    }

    /// The bytes of `item`.
    fn serialize(&mut self, item: &T) -> (r: Result<CircularBytes<MAX_SIZE>, Self::Error>)
        ensures
            old(self).serialize_ensures(*item, *final(self), r),
    ;
}

/// Turns bytes into values.
pub trait Deserializer<T>: Sized {
    type Error;

    /// What deserialising bytes does. A format says here how the outcome follows
    /// from the bytes; one that does not promises nothing.
    open spec fn deserialize_ensures(
        self,
        src: Seq<u8>,
        post: Self,
        r: Result<T, Self::Error>,
    ) -> bool {
        true
    }

    /// The value that `src` stands for.
    fn deserialize(&mut self, src: &[u8]) -> (r: Result<T, Self::Error>)
        ensures
            old(self).deserialize_ensures(src@, *final(self), r),
    ;
}

/// A transport of byte frames that carries values by way of the format `Codec`.
/// Failures of either are reported as an `E`.
///
/// The caller moves the frames: [`SerdeFramed::accept`] takes what the transport
/// received, [`SerdeFramed::prepare`] gives what the transport is to send.
pub struct SerdeFramed<
    const STREAM_SIZE: usize,
    const SINK_SIZE: usize,
    Transport,
    StreamItem,
    SinkItem,
    Codec,
    E,
> {
    transport: Transport,
    codec: Codec,
    _marker: PhantomData<(StreamItem, SinkItem, E)>,
}

impl<
    const STREAM_SIZE: usize,
    const SINK_SIZE: usize,
    Transport,
    StreamItem,
    SinkItem,
    Codec,
    E,
> SerdeFramed<STREAM_SIZE, SINK_SIZE, Transport, StreamItem, SinkItem, Codec, E> {
    /// The transport.
    pub closed spec fn transport(self) -> Transport {
        self.transport
    }

    /// The format.
    pub closed spec fn codec(self) -> Codec {
        self.codec
    }

    /// Carries values over `transport` by way of `codec`.
    pub fn new(transport: Transport, codec: Codec) -> (r: Self)
        ensures
            r.transport() == transport,
            r.codec() == codec,
    {
        Self { transport, codec, _marker: PhantomData }
    }

    /// The transport, for frames that are no values.
    pub fn get_transport_mut(&mut self) -> (r: &mut Transport)
        ensures
            *r == old(self).transport(),
            final(self).transport() == *final(r),
            final(self).codec() == old(self).codec(),
    {
        &mut self.transport
    }

    /// The value in a frame that the transport received, or why there is none.
    /// Only the bytes before the end of the frame's storage are looked at.
    pub fn accept<TransportError>(
        &mut self,
        frame: Result<CircularBytes<STREAM_SIZE>, TransportError>,
    ) -> (r: Result<StreamItem, E>) where
        Codec: Deserializer<StreamItem>,
        E: From<TransportError> + From<<Codec as Deserializer<StreamItem>>::Error>,

        ensures
            final(self).transport() == old(self).transport(),
            match frame {
                Ok(bytes) => exists|d: Result<StreamItem, <Codec as Deserializer<StreamItem>>::Error>|
                    {
                        &&& #[trigger] old(self).codec().deserialize_ensures(
                            bytes@.take(bytes.front_len()),
                            final(self).codec(),
                            d,
                        )
                        &&& converts_to(d, r)
                    },
                Err(e) => {
                    &&& final(self).codec() == old(self).codec()
                    &&& converts_to(Err::<StreamItem, TransportError>(e), r)
                },
            },
    {
        let bytes = match frame {
            Ok(bytes) => bytes,
            Err(e) => return converted(Err(e)),
        };
        let d = self.codec.deserialize(bytes.as_slices().0);
        assert(old(self).codec().deserialize_ensures(
            bytes@.take(bytes.front_len()),
            self.codec(),
            d,
        ));
        converted(d)
    }

    /// The frame for `value`, or why there is none. What goes over the transport
    /// is its first contiguous piece.
    pub fn prepare(&mut self, value: &SinkItem) -> (r: Result<CircularBytes<SINK_SIZE>, E>) where
        Codec: Serializer<SINK_SIZE, SinkItem>,
        E: From<<Codec as Serializer<SINK_SIZE, SinkItem>>::Error>,

        ensures
            final(self).transport() == old(self).transport(),
            exists|
                d: Result<
                    CircularBytes<SINK_SIZE>,
                    <Codec as Serializer<SINK_SIZE, SinkItem>>::Error,
                >,
            |
                {
                    &&& #[trigger] old(self).codec().serialize_ensures(
                        *value,
                        final(self).codec(),
                        d,
                    )
                    &&& converts_to(d, r)
                },
    {
        let d = self.codec.serialize(value);
        assert(old(self).codec().serialize_ensures(*value, self.codec(), d));
        converted(d)
    }
}

/// The postcard format, which reads `StreamItem`s and writes `SinkItem`s.
pub struct Postcard<StreamItem, SinkItem> {
    _marker: PhantomData<(StreamItem, SinkItem)>,
}

impl<StreamItem, SinkItem> Postcard<StreamItem, SinkItem> {
    /// The format. It has no state, so this is its only value.
    pub closed spec fn format() -> Self {
        Postcard { _marker: PhantomData }
    }

    /// The format.
    pub fn new() -> (r: Self)
        ensures
            r == Self::format(),
    {
        Postcard { _marker: PhantomData }
    }
}

impl<StreamItem, SinkItem> Clone for Postcard<StreamItem, SinkItem> {
    fn clone(&self) -> (r: Self)
        ensures
            r == *self,
            r == Self::format(),
    {
        Postcard { _marker: PhantomData }
    }
}

} // verus!
