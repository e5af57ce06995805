//! A wire protocol for two cooperating processes joined by a byte pipe.
//!
//! Values travel as raw, fixed-width images or as length-prefixed frames.
//! Every encode and decode is a resumable operation: it is polled, makes what
//! progress the transport allows, and goes on byte for byte where it stopped.
//!
//! The library does no input or output itself. A stream holds a buffered read
//! half and a buffered write half around two endpoints that it never calls;
//! whoever drives the endpoints moves the bytes between them and the halves.
//! Floating-point numbers travel as their bit patterns, through the unsigned
//! integer of the same width.

pub mod blocking;
pub mod entity;
pub mod error;
pub mod half;
pub mod laws;
pub mod order;
pub mod serde;
pub mod wire;

use vstd::prelude::*;
use crate::error::TransportError;
use crate::half::{
    flush_outcome, read_count, read_outcome, write_count, write_outcome, Ending, ReadHalf,
    ReadView, WriteHalf, WriteView,
};
use crate::order::ByteOrder;
use crate::serde::de::{
    DeserializeI128, DeserializeI16, DeserializeI32, DeserializeI64, DeserializeI8,
    DeserializeIsize, DeserializeU128, DeserializeU16, DeserializeU32, DeserializeU64,
    DeserializeU8, DeserializeUsize,
};
use crate::serde::ser::{
    SerializeI128, SerializeI16, SerializeI32, SerializeI64, SerializeI8, SerializeIsize,
    SerializeU128, SerializeU16, SerializeU32, SerializeU64, SerializeU8, SerializeUsize,
};
use crate::serde::{
    fresh, unwritten, AsyncDe, AsyncSer, DeserializeFuture, EncodeState, Poll, SerializeFuture,
    StageFuture,
};
use crate::serde::ser::{bytes_wire, text_wire, SerializeScalarStage};
use crate::serde::de::DeserializeScalarStage;

verus! {

/// The duplex stream: a buffered read half and a buffered write half, each
/// around its endpoint.
///
/// Every typed read or write hands out a fresh operation that borrows its
/// half exclusively, so the bytes of two values never interleave on one half.
/// The two halves are independent of each other.
pub struct IpcStream<R, W> {
    read_stream: ReadHalf<R>,
    write_stream: WriteHalf<W>,
}

/// The first of `bufs` that is not empty, or an empty run of bytes.
pub open spec fn first_filled(bufs: Seq<&[u8]>) -> Seq<u8>
    decreases bufs.len(),
{
    if bufs.len() == 0 {
        Seq::empty()
    } else if bufs[0]@.len() > 0 {
        bufs[0]@
    } else {
        first_filled(bufs.skip(1))
    }
}

impl<R, W> IpcStream<R, W> {
    /// The read half.
    pub closed spec fn reader(&self) -> ReadHalf<R> {
        self.read_stream
    }

    /// The write half.
    pub closed spec fn writer(&self) -> WriteHalf<W> {
        self.write_stream
    }

    /// A stream around the two endpoints, with open and empty halves, in the
    /// given byte order.
    pub fn with_order(reader: R, writer: W, order: ByteOrder) -> (stream: Self)
        ensures
            stream.reader()@ == (ReadView { bytes: Seq::empty(), ending: Ending::Open, order }),
            stream.reader().endpoint_spec() == reader,
            stream.writer()@ == (WriteView {
                pending: Seq::empty(),
                capacity: crate::half::DEFAULT_CAPACITY as nat,
                ending: Ending::Open,
                order,
            }),
            stream.writer().endpoint_spec() == writer,
    {
        IpcStream {
            read_stream: ReadHalf::new(reader, order),
            write_stream: WriteHalf::new(writer, order),
        }
    }

    /// A stream around the two endpoints, with open and empty halves, in the
    /// byte order of this machine.
    pub fn new(reader: R, writer: W) -> (stream: Self)
        ensures
            stream.reader()@.bytes == Seq::<u8>::empty(),
            stream.reader()@.ending == Ending::Open,
            stream.reader().endpoint_spec() == reader,
            stream.writer()@.pending == Seq::<u8>::empty(),
            stream.writer()@.capacity == crate::half::DEFAULT_CAPACITY as nat,
            stream.writer()@.ending == Ending::Open,
            stream.writer().endpoint_spec() == writer,
            stream.writer()@.order == stream.reader()@.order,
    {
        Self::with_order(reader, writer, ByteOrder::native())
    }

    /// A stream from halves that exist already.
    pub fn from_halves(read_stream: ReadHalf<R>, write_stream: WriteHalf<W>) -> (stream: Self)
        ensures
            stream.reader() == read_stream,
            stream.writer() == write_stream,
    {
        IpcStream { read_stream, write_stream }
    }

    /// The stream to a child process whose pipe handles were taken: there is
    /// one only if both handles are there.
    pub fn connect_to_child(stdout: Option<R>, stdin: Option<W>) -> (stream: Option<Self>)
        ensures
            stream is Some <==> stdout is Some && stdin is Some,
            stream matches Some(s) ==> {
                &&& s.reader()@.bytes == Seq::<u8>::empty()
                &&& s.reader()@.ending == Ending::Open
                &&& s.reader().endpoint_spec() == stdout->Some_0
                &&& s.writer()@.pending == Seq::<u8>::empty()
                &&& s.writer()@.capacity == crate::half::DEFAULT_CAPACITY as nat
                &&& s.writer()@.ending == Ending::Open
                &&& s.writer().endpoint_spec() == stdin->Some_0
                &&& s.writer()@.order == s.reader()@.order
            },
    {
        match stdout {
            Some(reader) => match stdin {
                Some(writer) => Some(Self::new(reader, writer)),
                None => None,
            },
            None => None,
        }
    }

    /// The read half, to look at.
    pub fn read_half(&self) -> (half: &ReadHalf<R>)
        ensures
            *half == self.reader(),
    {
        &self.read_stream
    }

    /// The write half, to look at.
    pub fn write_half(&self) -> (half: &WriteHalf<W>)
        ensures
            *half == self.writer(),
    {
        &self.write_stream
    }

    /// The read half, to supply it with the bytes that arrived.
    pub fn read_half_mut(&mut self) -> (half: &mut ReadHalf<R>)
        ensures
            *half == old(self).reader(),
            final(self).reader() == *final(half),
            final(self).writer() == old(self).writer(),
    {
        &mut self.read_stream
    }

    /// The write half, to take out the bytes that are to be sent.
    pub fn write_half_mut(&mut self) -> (half: &mut WriteHalf<W>)
        ensures
            *half == old(self).writer(),
            final(self).writer() == *final(half),
            final(self).reader() == old(self).reader(),
    {
        &mut self.write_stream
    }

    /// Gives up the stream for its halves.
    pub fn into_halves(self) -> (halves: (ReadHalf<R>, WriteHalf<W>))
        ensures
            halves.0 == self.reader(),
            halves.1 == self.writer(),
    {
        (self.read_stream, self.write_stream)
    }

    /// An operation that writes a byte buffer: the count of its bytes, then
    /// the bytes.
    pub fn write_buf<'a>(&'a mut self, buf: &'a [u8]) -> (future: SerializeFuture<'a, [u8], W>)
        ensures
            unwritten(&future.inner),
            forall|order: ByteOrder| #[trigger]
                future.inner.whole(order) == bytes_wire(buf@, order),
            *future.shared == old(self).writer(),
            final(self).writer() == *final(future.shared),
            final(self).reader() == old(self).reader(),
    {
        <[u8] as AsyncSer<'a, W>>::write_to(buf, &mut self.write_stream)
    }

    /// An operation that writes a string: the count of its UTF-8 bytes, then
    /// the bytes.
    pub fn write_str<'a>(&'a mut self, str: &'a str) -> (future: SerializeFuture<'a, str, W>)
        ensures
            unwritten(&future.inner),
            forall|order: ByteOrder| #[trigger]
                future.inner.whole(order) == text_wire(str@, order),
            *future.shared == old(self).writer(),
            final(self).writer() == *final(future.shared),
            final(self).reader() == old(self).reader(),
    {
        <str as AsyncSer<'a, W>>::write_to(str, &mut self.write_stream)
    }

    /// An operation that reads a byte buffer.
    pub fn read_buf(&mut self) -> (future: DeserializeFuture<'_, [u8], R>)
        ensures
            fresh(&future.inner),
            *future.shared == old(self).reader(),
            final(self).reader() == *final(future.shared),
            final(self).writer() == old(self).writer(),
    {
        <[u8] as AsyncDe<R>>::read_from(&mut self.read_stream)
    }

    /// An operation that reads a string.
    pub fn read_str(&mut self) -> (future: DeserializeFuture<'_, str, R>)
        ensures
            fresh(&future.inner),
            *future.shared == old(self).reader(),
            final(self).reader() == *final(future.shared),
            final(self).writer() == old(self).writer(),
    {
        <str as AsyncDe<R>>::read_from(&mut self.read_stream)
    }

    /// An operation that writes an `usize` in the byte order of the stream.
    pub fn write_usize(&mut self, val: usize) -> (future: SerializeUsize<'_, W>)
        ensures
            future.inner.value() == val,
            future.inner.written() == 0,
            unwritten(&future.inner),
            *future.shared == old(self).writer(),
            final(self).writer() == *final(future.shared),
            final(self).reader() == old(self).reader(),
    {
        StageFuture::new(&mut self.write_stream, SerializeScalarStage::new(val))
    }

    /// An operation that reads an `usize` in the byte order of the stream.
    pub fn read_usize(&mut self) -> (future: DeserializeUsize<'_, R>)
        ensures
            future.inner.got() == Seq::<u8>::empty(),
            fresh(&future.inner),
            *future.shared == old(self).reader(),
            final(self).reader() == *final(future.shared),
            final(self).writer() == old(self).writer(),
    {
        StageFuture::new(&mut self.read_stream, DeserializeScalarStage::new())
    }

    /// An operation that writes an `isize` in the byte order of the stream.
    pub fn write_isize(&mut self, val: isize) -> (future: SerializeIsize<'_, W>)
        ensures
            future.inner.value() == val,
            future.inner.written() == 0,
            unwritten(&future.inner),
            *future.shared == old(self).writer(),
            final(self).writer() == *final(future.shared),
            final(self).reader() == old(self).reader(),
    {
        StageFuture::new(&mut self.write_stream, SerializeScalarStage::new(val))
    }

    /// An operation that reads an `isize` in the byte order of the stream.
    pub fn read_isize(&mut self) -> (future: DeserializeIsize<'_, R>)
        ensures
            future.inner.got() == Seq::<u8>::empty(),
            fresh(&future.inner),
            *future.shared == old(self).reader(),
            final(self).reader() == *final(future.shared),
            final(self).writer() == old(self).writer(),
    {
        StageFuture::new(&mut self.read_stream, DeserializeScalarStage::new())
    }

    /// An operation that writes an `u128` in the byte order of the stream.
    pub fn write_u128(&mut self, val: u128) -> (future: SerializeU128<'_, W>)
        ensures
            future.inner.value() == val,
            future.inner.written() == 0,
            unwritten(&future.inner),
            *future.shared == old(self).writer(),
            final(self).writer() == *final(future.shared),
            final(self).reader() == old(self).reader(),
    {
        StageFuture::new(&mut self.write_stream, SerializeScalarStage::new(val))
    }

    /// An operation that reads an `u128` in the byte order of the stream.
    pub fn read_u128(&mut self) -> (future: DeserializeU128<'_, R>)
        ensures
            future.inner.got() == Seq::<u8>::empty(),
            fresh(&future.inner),
            *future.shared == old(self).reader(),
            final(self).reader() == *final(future.shared),
            final(self).writer() == old(self).writer(),
    {
        StageFuture::new(&mut self.read_stream, DeserializeScalarStage::new())
    }

    /// An operation that writes an `i128` in the byte order of the stream.
    pub fn write_i128(&mut self, val: i128) -> (future: SerializeI128<'_, W>)
        ensures
            future.inner.value() == val,
            future.inner.written() == 0,
            unwritten(&future.inner),
            *future.shared == old(self).writer(),
            final(self).writer() == *final(future.shared),
            final(self).reader() == old(self).reader(),
    {
        StageFuture::new(&mut self.write_stream, SerializeScalarStage::new(val))
    }

    /// An operation that reads an `i128` in the byte order of the stream.
    pub fn read_i128(&mut self) -> (future: DeserializeI128<'_, R>)
        ensures
            future.inner.got() == Seq::<u8>::empty(),
            fresh(&future.inner),
            *future.shared == old(self).reader(),
            final(self).reader() == *final(future.shared),
            final(self).writer() == old(self).writer(),
    {
        StageFuture::new(&mut self.read_stream, DeserializeScalarStage::new())
    }

    /// An operation that writes an `u64` in the byte order of the stream.
    pub fn write_u64(&mut self, val: u64) -> (future: SerializeU64<'_, W>)
        ensures
            future.inner.value() == val,
            future.inner.written() == 0,
            unwritten(&future.inner),
            *future.shared == old(self).writer(),
            final(self).writer() == *final(future.shared),
            final(self).reader() == old(self).reader(),
    {
        StageFuture::new(&mut self.write_stream, SerializeScalarStage::new(val))
    }

    /// An operation that reads an `u64` in the byte order of the stream.
    pub fn read_u64(&mut self) -> (future: DeserializeU64<'_, R>)
        ensures
            future.inner.got() == Seq::<u8>::empty(),
            fresh(&future.inner),
            *future.shared == old(self).reader(),
            final(self).reader() == *final(future.shared),
            final(self).writer() == old(self).writer(),
    {
        StageFuture::new(&mut self.read_stream, DeserializeScalarStage::new())
    }

    /// An operation that writes an `u32` in the byte order of the stream.
    pub fn write_u32(&mut self, val: u32) -> (future: SerializeU32<'_, W>)
        ensures
            future.inner.value() == val,
            future.inner.written() == 0,
            unwritten(&future.inner),
            *future.shared == old(self).writer(),
            final(self).writer() == *final(future.shared),
            final(self).reader() == old(self).reader(),
    {
        StageFuture::new(&mut self.write_stream, SerializeScalarStage::new(val))
    }

    /// An operation that reads an `u32` in the byte order of the stream.
    pub fn read_u32(&mut self) -> (future: DeserializeU32<'_, R>)
        ensures
            future.inner.got() == Seq::<u8>::empty(),
            fresh(&future.inner),
            *future.shared == old(self).reader(),
            final(self).reader() == *final(future.shared),
            final(self).writer() == old(self).writer(),
    {
        StageFuture::new(&mut self.read_stream, DeserializeScalarStage::new())
    }

    /// An operation that writes an `u16` in the byte order of the stream.
    pub fn write_u16(&mut self, val: u16) -> (future: SerializeU16<'_, W>)
        ensures
            future.inner.value() == val,
            future.inner.written() == 0,
            unwritten(&future.inner),
            *future.shared == old(self).writer(),
            final(self).writer() == *final(future.shared),
            final(self).reader() == old(self).reader(),
    {
        StageFuture::new(&mut self.write_stream, SerializeScalarStage::new(val))
    }

    /// An operation that reads an `u16` in the byte order of the stream.
    pub fn read_u16(&mut self) -> (future: DeserializeU16<'_, R>)
        ensures
            future.inner.got() == Seq::<u8>::empty(),
            fresh(&future.inner),
            *future.shared == old(self).reader(),
            final(self).reader() == *final(future.shared),
            final(self).writer() == old(self).writer(),
    {
        StageFuture::new(&mut self.read_stream, DeserializeScalarStage::new())
    }

    /// An operation that writes an `i64` in the byte order of the stream.
    pub fn write_i64(&mut self, val: i64) -> (future: SerializeI64<'_, W>)
        ensures
            future.inner.value() == val,
            future.inner.written() == 0,
            unwritten(&future.inner),
            *future.shared == old(self).writer(),
            final(self).writer() == *final(future.shared),
            final(self).reader() == old(self).reader(),
    {
        StageFuture::new(&mut self.write_stream, SerializeScalarStage::new(val))
    }

    /// An operation that reads an `i64` in the byte order of the stream.
    pub fn read_i64(&mut self) -> (future: DeserializeI64<'_, R>)
        ensures
            future.inner.got() == Seq::<u8>::empty(),
            fresh(&future.inner),
            *future.shared == old(self).reader(),
            final(self).reader() == *final(future.shared),
            final(self).writer() == old(self).writer(),
    {
        StageFuture::new(&mut self.read_stream, DeserializeScalarStage::new())
    }

    /// An operation that writes an `i32` in the byte order of the stream.
    pub fn write_i32(&mut self, val: i32) -> (future: SerializeI32<'_, W>)
        ensures
            future.inner.value() == val,
            future.inner.written() == 0,
            unwritten(&future.inner),
            *future.shared == old(self).writer(),
            final(self).writer() == *final(future.shared),
            final(self).reader() == old(self).reader(),
    {
        StageFuture::new(&mut self.write_stream, SerializeScalarStage::new(val))
    }

    /// An operation that reads an `i32` in the byte order of the stream.
    pub fn read_i32(&mut self) -> (future: DeserializeI32<'_, R>)
        ensures
            future.inner.got() == Seq::<u8>::empty(),
            fresh(&future.inner),
            *future.shared == old(self).reader(),
            final(self).reader() == *final(future.shared),
            final(self).writer() == old(self).writer(),
    {
        StageFuture::new(&mut self.read_stream, DeserializeScalarStage::new())
    }

    /// An operation that writes an `i16` in the byte order of the stream.
    pub fn write_i16(&mut self, val: i16) -> (future: SerializeI16<'_, W>)
        ensures
            future.inner.value() == val,
            future.inner.written() == 0,
            unwritten(&future.inner),
            *future.shared == old(self).writer(),
            final(self).writer() == *final(future.shared),
            final(self).reader() == old(self).reader(),
    {
        StageFuture::new(&mut self.write_stream, SerializeScalarStage::new(val))
    }

    /// An operation that reads an `i16` in the byte order of the stream.
    pub fn read_i16(&mut self) -> (future: DeserializeI16<'_, R>)
        ensures
            future.inner.got() == Seq::<u8>::empty(),
            fresh(&future.inner),
            *future.shared == old(self).reader(),
            final(self).reader() == *final(future.shared),
            final(self).writer() == old(self).writer(),
    {
        StageFuture::new(&mut self.read_stream, DeserializeScalarStage::new())
    }

    /// An operation that writes an `u8` in the byte order of the stream.
    pub fn write_u8(&mut self, val: u8) -> (future: SerializeU8<'_, W>)
        ensures
            future.inner.value() == val,
            future.inner.written() == 0,
            unwritten(&future.inner),
            *future.shared == old(self).writer(),
            final(self).writer() == *final(future.shared),
            final(self).reader() == old(self).reader(),
    {
        StageFuture::new(&mut self.write_stream, SerializeScalarStage::new(val))
    }

    /// An operation that reads an `u8` in the byte order of the stream.
    pub fn read_u8(&mut self) -> (future: DeserializeU8<'_, R>)
        ensures
            future.inner.got() == Seq::<u8>::empty(),
            fresh(&future.inner),
            *future.shared == old(self).reader(),
            final(self).reader() == *final(future.shared),
            final(self).writer() == old(self).writer(),
    {
        StageFuture::new(&mut self.read_stream, DeserializeScalarStage::new())
    }

    /// An operation that writes an `i8` in the byte order of the stream.
    pub fn write_i8(&mut self, val: i8) -> (future: SerializeI8<'_, W>)
        ensures
            future.inner.value() == val,
            future.inner.written() == 0,
            unwritten(&future.inner),
            *future.shared == old(self).writer(),
            final(self).writer() == *final(future.shared),
            final(self).reader() == old(self).reader(),
    {
        StageFuture::new(&mut self.write_stream, SerializeScalarStage::new(val))
    }

    /// An operation that reads an `i8` in the byte order of the stream.
    pub fn read_i8(&mut self) -> (future: DeserializeI8<'_, R>)
        ensures
            future.inner.got() == Seq::<u8>::empty(),
            fresh(&future.inner),
            *future.shared == old(self).reader(),
            final(self).reader() == *final(future.shared),
            final(self).writer() == old(self).writer(),
    {
        StageFuture::new(&mut self.read_stream, DeserializeScalarStage::new())
    }

    /// One raw read of at most `max` bytes from the read half, appended to
    /// `dst`.
    pub fn poll_read(&mut self, dst: &mut Vec<u8>, max: usize) -> (out: Poll<
        Result<usize, TransportError>,
    >)
        ensures
            out == read_outcome(old(self).reader()@, max),
            final(dst)@ == old(dst)@ + old(self).reader()@.bytes.take(
                read_count(old(self).reader()@, max) as int,
            ),
            final(self).reader()@ == (ReadView {
                bytes: old(self).reader()@.bytes.skip(read_count(old(self).reader()@, max) as int),
                ..old(self).reader()@
            }),
            final(self).reader().endpoint_spec() == old(self).reader().endpoint_spec(),
            final(self).writer() == old(self).writer(),
    {
        self.read_stream.poll_read(dst, max)
    }

    /// One raw write of `buf` to the write half.
    pub fn poll_write(&mut self, buf: &[u8]) -> (out: Poll<Result<usize, TransportError>>)
        ensures
            out == write_outcome(old(self).writer()@, buf@.len()),
            final(self).writer()@ == (WriteView {
                pending: old(self).writer()@.pending + buf@.take(
                    write_count(old(self).writer()@, buf@.len()) as int,
                ),
                ..old(self).writer()@
            }),
            final(self).writer().endpoint_spec() == old(self).writer().endpoint_spec(),
            final(self).reader() == old(self).reader(),
    {
        self.write_stream.poll_write(buf)
    }

    /// One raw write of the first of `bufs` that is not empty.
    pub fn poll_write_vectored(&mut self, bufs: &[&[u8]]) -> (out: Poll<
        Result<usize, TransportError>,
    >)
        ensures
            out == write_outcome(old(self).writer()@, first_filled(bufs@).len()),
            final(self).writer()@ == (WriteView {
                pending: old(self).writer()@.pending + first_filled(bufs@).take(
                    write_count(old(self).writer()@, first_filled(bufs@).len()) as int,
                ),
                ..old(self).writer()@
            }),
            final(self).writer().endpoint_spec() == old(self).writer().endpoint_spec(),
            final(self).reader() == old(self).reader(),
    {
        let n: usize = bufs.len();
        let mut i: usize = 0;
        proof {
            assert(bufs@.skip(0) =~= bufs@);
        }
        while i < n
            invariant
                i <= n,
                n == bufs@.len(),
                *self == *old(self),
                first_filled(bufs@) == first_filled(bufs@.skip(i as int)),
            decreases n - i,
        {
            if bufs[i].len() > 0 {
                proof {
                    assert(bufs@.skip(i as int)[0] == bufs@[i as int]);
                }
                return self.write_stream.poll_write(bufs[i]);
            }
            proof {
                assert(bufs@.skip(i as int)[0] == bufs@[i as int]);
                assert(bufs@.skip(i as int).skip(1) =~= bufs@.skip(i + 1));
            }
            i = i + 1;
        }
        proof {
            assert(bufs@.skip(n as int).len() == 0);
        }
        let nothing: Vec<u8> = Vec::new();
        self.write_stream.poll_write(nothing.as_slice())
    }

    /// Whether several buffers are written in one go: never, the first that
    /// is not empty is written.
    pub fn is_write_vectored(&self) -> (vectored: bool)
        ensures
            !vectored,
    {
        false
    }

    /// Whether everything written has left the write half.
    pub fn poll_flush(&self) -> (out: Poll<Result<(), TransportError>>)
        ensures
            out == flush_outcome(self.writer()@),
    {
        self.write_stream.poll_flush()
    }

    /// Flushes the write half and then closes it.
    pub fn poll_shutdown(&mut self) -> (out: Poll<Result<(), TransportError>>)
        ensures
            out == flush_outcome(old(self).writer()@),
            final(self).writer()@ == (WriteView {
                ending: if old(self).writer()@.ending is Open && old(
                    self,
                ).writer()@.pending.len() == 0 {
                    Ending::Closed
                } else {
                    old(self).writer()@.ending
                },
                ..old(self).writer()@
            }),
            final(self).writer().endpoint_spec() == old(self).writer().endpoint_spec(),
            final(self).reader() == old(self).reader(),
    {
        self.write_stream.poll_shutdown()
    }

    /// The bytes that the read half has buffered, to look at before a parse
    /// is committed to. With none buffered the ending of the half decides as
    /// it does for a read.
    pub fn poll_fill_buf(&self) -> (out: Poll<Result<&[u8], TransportError>>)
        ensures
            match out {
                Poll::Ready(Ok(bytes)) => {
                    &&& bytes@ == self.reader()@.bytes
                    &&& bytes@.len() > 0 || self.reader()@.ending is Closed
                },
                Poll::Ready(Err(e)) => {
                    &&& self.reader()@.bytes.len() == 0
                    &&& self.reader()@.ending == Ending::Failed(e)
                },
                Poll::Pending => {
                    &&& self.reader()@.bytes.len() == 0
                    &&& self.reader()@.ending is Open
                },
            },
    {
        let bytes = self.read_stream.fill_buf();
        if bytes.len() > 0 {
            Poll::Ready(Ok(bytes))
        } else {
            match self.read_stream.ending() {
                Ending::Open => Poll::Pending,
                Ending::Closed => Poll::Ready(Ok(bytes)),
                Ending::Failed(e) => Poll::Ready(Err(e)),
            }
        }
    }

    /// Marks the `amt` oldest buffered bytes of the read half as read; all of
    /// them if there are fewer.
    pub fn consume(&mut self, amt: usize)
        ensures
            final(self).reader()@ == (ReadView {
                bytes: if amt <= old(self).reader()@.bytes.len() {
                    old(self).reader()@.bytes.skip(amt as int)
                } else {
                    Seq::empty()
                },
                ..old(self).reader()@
            }),
            final(self).reader().endpoint_spec() == old(self).reader().endpoint_spec(),
            final(self).writer() == old(self).writer(),
    {
        self.read_stream.consume(amt)
    }
}

} // verus!
