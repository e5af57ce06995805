//! The synchronous mirror of the stream.
//!
//! A blocking operation runs to its end at once, against what the halves
//! hold. Where the asynchronous operation would report that it is not done
//! yet, the synchronous one fails: a read that runs out of buffered bytes
//! ends with `UnexpectedEof`, as a read from memory does, and a write that
//! finds no room ends with `WriteZero`. Besides the byte order of the stream,
//! every scalar can be read and written in an order given by name, for peers
//! that fix one.

use vstd::prelude::*;
use vstd::slice::slice_subrange;
use crate::error::Error;
use crate::half::{write_count, Ending, ReadHalf, ReadView, WriteHalf, WriteView};
use crate::order::ByteOrder;
use crate::serde::de::{frame_parse, poll_fill, scalar_rest, text};
use crate::serde::ser::{bytes_wire, poll_drain, text_wire};
use crate::serde::{
    AsyncDe, AsyncSer, DecodeState, EncodeState, Parsed, Poll, ReadStage, Scalar, StagePoller,
    WriteStage,
};
use crate::wire::image;

verus! {

/// The error of a read that ran out of buffered bytes.
pub open spec fn ran_dry(ending: Ending) -> Error {
    match ending {
        Ending::Failed(e) => Error::Transport(e),
        _ => Error::UnexpectedEof,
    }
}

/// The error of a write that found no room.
pub open spec fn choked(ending: Ending) -> Error {
    match ending {
        Ending::Failed(e) => Error::Transport(e),
        _ => Error::WriteZero,
    }
}

/// What a blocking read makes of the buffered bytes, given what they amount
/// to: the value and the bytes after it, or the error and what is left.
pub open spec fn read_result<Item, M>(
    parsed: Parsed<M>,
    model: spec_fn(Item) -> M,
    before: ReadView,
    after: ReadView,
    result: Result<Item, Error>,
) -> bool {
    &&& after.ending == before.ending
    &&& after.order == before.order
    &&& match parsed {
        Parsed::Done { value, rest } => {
            &&& result matches Ok(item) && model(item) == value
            &&& after.bytes == rest
        },
        Parsed::Invalid { rest } => {
            &&& result == Err::<Item, Error>(Error::InvalidData)
            &&& after.bytes == rest
        },
        Parsed::Incomplete => {
            &&& result == Err::<Item, Error>(ran_dry(before.ending))
            &&& after.bytes == Seq::<u8>::empty()
        },
    }
}

/// What a blocking write of `bytes` does to the write half, and what it
/// reports: the bytes that found room are pending, and only if that is all
/// of them the write succeeded.
pub open spec fn write_result(
    bytes: Seq<u8>,
    before: WriteView,
    after: WriteView,
    result: Result<(), Error>,
) -> bool {
    let n = write_count(before, bytes.len());
    &&& after == (WriteView { pending: before.pending + bytes.take(n as int), ..before })
    &&& result == if n == bytes.len() {
        Ok::<(), Error>(())
    } else {
        Err::<(), Error>(choked(before.ending))
    }
}

/// The synchronous stream: the same two halves, with operations that run to
/// their end at once.
pub struct IpcStream<R, W> {
    input_stream: ReadHalf<R>,
    output_stream: WriteHalf<W>,
}

impl<R, W> IpcStream<R, W> {
    /// The read half.
    pub closed spec fn input(&self) -> ReadHalf<R> {
        self.input_stream
    }

    /// The write half.
    pub closed spec fn output(&self) -> WriteHalf<W> {
        self.output_stream
    }

    /// A stream around the two endpoints, in the given byte order. The read
    /// half is empty and open; the write half is empty and takes as much as
    /// memory holds.
    pub fn with_order(reader: R, writer: W, order: ByteOrder) -> (stream: Self)
        ensures
            stream.input()@ == (ReadView { bytes: Seq::empty(), ending: Ending::Open, order }),
            stream.input().endpoint_spec() == reader,
            stream.output()@ == (WriteView {
                pending: Seq::empty(),
                capacity: usize::MAX as nat,
                ending: Ending::Open,
                order,
            }),
            stream.output().endpoint_spec() == writer,
    {
        IpcStream {
            input_stream: ReadHalf::new(reader, order),
            output_stream: WriteHalf::with_capacity(writer, usize::MAX, order),
        }
    }

    /// A stream around the two endpoints, in the byte order of this machine.
    pub fn new(reader: R, writer: W) -> (stream: Self)
        ensures
            stream.input()@.bytes == Seq::<u8>::empty(),
            stream.input()@.ending == Ending::Open,
            stream.input().endpoint_spec() == reader,
            stream.output()@.pending == Seq::<u8>::empty(),
            stream.output()@.capacity == usize::MAX as nat,
            stream.output()@.ending == Ending::Open,
            stream.output().endpoint_spec() == writer,
            stream.output()@.order == stream.input()@.order,
    {
        Self::with_order(reader, writer, ByteOrder::native())
    }

    /// A stream from halves that exist already.
    pub fn from_halves(input_stream: ReadHalf<R>, output_stream: WriteHalf<W>) -> (stream: Self)
        ensures
            stream.input() == input_stream,
            stream.output() == output_stream,
    {
        IpcStream { input_stream, output_stream }
    }

    /// The stream to a child process whose pipe handles were taken: there is
    /// one only if both handles are there.
    pub fn connect_to_child(stdout: Option<R>, stdin: Option<W>) -> (stream: Option<Self>)
        ensures
            stream is Some <==> stdout is Some && stdin is Some,
            stream matches Some(s) ==> {
                &&& s.input()@.bytes == Seq::<u8>::empty()
                &&& s.input()@.ending == Ending::Open
                &&& s.input().endpoint_spec() == stdout->Some_0
                &&& s.output()@.pending == Seq::<u8>::empty()
                &&& s.output()@.capacity == usize::MAX as nat
                &&& s.output()@.ending == Ending::Open
                &&& s.output().endpoint_spec() == stdin->Some_0
                &&& s.output()@.order == s.input()@.order
            },
    {
        match stdout {
            Some(reader) => match stdin {
                Some(writer) => Some(Self::new(reader, writer)),
                None => None,
            },
            None => None,
        }
    }

    /// The read half, to look at.
    pub fn read_half(&self) -> (half: &ReadHalf<R>)
        ensures
            *half == self.input(),
    {
        &self.input_stream
    }

    /// The write half, to look at.
    pub fn write_half(&self) -> (half: &WriteHalf<W>)
        ensures
            *half == self.output(),
    {
        &self.output_stream
    }

    /// The read half, to supply it with the bytes that arrived.
    pub fn read_half_mut(&mut self) -> (half: &mut ReadHalf<R>)
        ensures
            *half == old(self).input(),
            final(self).input() == *final(half),
            final(self).output() == old(self).output(),
    {
        &mut self.input_stream
    }

    /// The write half, to take out the bytes that are to be sent.
    pub fn write_half_mut(&mut self) -> (half: &mut WriteHalf<W>)
        ensures
            *half == old(self).output(),
            final(self).output() == *final(half),
            final(self).input() == old(self).input(),
    {
        &mut self.output_stream
    }

    /// Gives up the stream for its halves.
    pub fn into_halves(self) -> (halves: (ReadHalf<R>, WriteHalf<W>))
        ensures
            halves.0 == self.input(),
            halves.1 == self.output(),
    {
        (self.input_stream, self.output_stream)
    }

    /// Writes one value of a type that has an encode stage.
    pub fn write_value<'a, T: AsyncSer<'a, W> + ?Sized>(&mut self, value: &'a T) -> (result: Result<
        (),
        Error,
    >)
        ensures
            write_result(
                value.wire(old(self).output()@.order),
                old(self).output()@,
                final(self).output()@,
                result,
            ),
            final(self).output().endpoint_spec() == old(self).output().endpoint_spec(),
            final(self).input() == old(self).input(),
    {
        let mut stage = value.write_to_stage();
        let ghost stage0 = stage;
        let ghost before = self.output_stream;
        let out = stage.poll_stage(&mut self.output_stream);
        proof {
            stage0.lemma_polled(&before, &stage, &self.output_stream, &out);
        }
        match out {
            Poll::Ready(result) => result,
            Poll::Pending => Err(Error::WriteZero),
        }
    }

    /// Reads one value of a type that has a decode stage.
    pub fn read_value<T: AsyncDe<R> + ?Sized>(&mut self) -> (result: Result<T::Owned, Error>)
        ensures
            read_result(
                T::DeserializeStage::parse(old(self).input()@.bytes, old(self).input()@.order),
                |item: T::Owned| T::DeserializeStage::model(&item),
                old(self).input()@,
                final(self).input()@,
                result,
            ),
            final(self).input().endpoint_spec() == old(self).input().endpoint_spec(),
            final(self).output() == old(self).output(),
    {
        let mut stage = T::read_from_stage();
        let ghost stage0 = stage;
        let ghost before = self.input_stream;
        let out = stage.poll_stage(&mut self.input_stream);
        proof {
            stage0.lemma_polled(&before, &stage, &self.input_stream, &out);
        }
        match out {
            Poll::Ready(result) => result,
            Poll::Pending => Err(Error::UnexpectedEof),
        }
    }

    /// Writes a scalar in the given byte order.
    pub fn write_scalar<T: Scalar>(&mut self, val: T, order: ByteOrder) -> (result: Result<
        (),
        Error,
    >)
        ensures
            write_result(
                image(val.number(), T::width(), order),
                old(self).output()@,
                final(self).output()@,
                result,
            ),
            final(self).output().endpoint_spec() == old(self).output().endpoint_spec(),
            final(self).input() == old(self).input(),
    {
        let bytes = val.to_wire(order);
        let mut written: usize = 0;
        proof {
            assert(bytes@.skip(0) =~= bytes@);
        }
        match poll_drain(bytes.as_slice(), &mut written, &mut self.output_stream) {
            Poll::Ready(result) => result,
            Poll::Pending => Err(Error::WriteZero),
        }
    }

    /// Reads a scalar in the given byte order.
    pub fn read_scalar<T: Scalar>(&mut self, order: ByteOrder) -> (result: Result<T, Error>)
        ensures
            read_result(
                scalar_rest::<T>(Seq::empty(), old(self).input()@.bytes, order),
                |item: T| item,
                old(self).input()@,
                final(self).input()@,
                result,
            ),
            final(self).input().endpoint_spec() == old(self).input().endpoint_spec(),
            final(self).output() == old(self).output(),
    {
        let width: usize = T::size();
        let mut got: Vec<u8> = Vec::new();
        match poll_fill(&mut got, width, &mut self.input_stream) {
            Poll::Ready(Ok(())) => Ok(
                T::from_wire(slice_subrange(got.as_slice(), 0, width), order),
            ),
            Poll::Ready(Err(e)) => Err(e),
            Poll::Pending => Err(Error::UnexpectedEof),
        }
    }

    /// Writes a byte buffer: the count of its bytes, then the bytes.
    pub fn write_buf(&mut self, buf: &[u8]) -> (result: Result<(), Error>)
        ensures
            write_result(
                bytes_wire(buf@, old(self).output()@.order),
                old(self).output()@,
                final(self).output()@,
                result,
            ),
            final(self).output().endpoint_spec() == old(self).output().endpoint_spec(),
            final(self).input() == old(self).input(),
    {
        self.write_value::<[u8]>(buf)
    }

    /// Writes a string: the count of its UTF-8 bytes, then the bytes.
    pub fn write_str(&mut self, buf: &str) -> (result: Result<(), Error>)
        ensures
            write_result(
                text_wire(buf@, old(self).output()@.order),
                old(self).output()@,
                final(self).output()@,
                result,
            ),
            final(self).output().endpoint_spec() == old(self).output().endpoint_spec(),
            final(self).input() == old(self).input(),
    {
        self.write_value::<str>(buf)
    }

    /// Reads a byte buffer.
    pub fn read_buff(&mut self) -> (result: Result<Vec<u8>, Error>)
        ensures
            read_result(
                frame_parse(1, old(self).input()@.bytes, old(self).input()@.order),
                |item: Vec<u8>| item@,
                old(self).input()@,
                final(self).input()@,
                result,
            ),
            final(self).input().endpoint_spec() == old(self).input().endpoint_spec(),
            final(self).output() == old(self).output(),
    {
        self.read_value::<[u8]>()
    }

    /// Reads a string.
    pub fn read_string(&mut self) -> (result: Result<String, Error>)
        ensures
            read_result(
                text(frame_parse(1, old(self).input()@.bytes, old(self).input()@.order)),
                |item: String| item@,
                old(self).input()@,
                final(self).input()@,
                result,
            ),
            final(self).input().endpoint_spec() == old(self).input().endpoint_spec(),
            final(self).output() == old(self).output(),
    {
        self.read_value::<str>()
    }

    /// Writes an `u64` in the byte order of the stream.
    pub fn write_u64(&mut self, val: u64) -> (result: Result<(), Error>)
        ensures
            write_result(
                image(val.number(), u64::width(), old(self).output()@.order),
                old(self).output()@,
                final(self).output()@,
                result,
            ),
            final(self).output().endpoint_spec() == old(self).output().endpoint_spec(),
            final(self).input() == old(self).input(),
    {
        let order = self.output_stream.order();
        self.write_scalar::<u64>(val, order)
    }

    /// Writes an `u64` in big-endian order.
    pub fn write_u64_be(&mut self, val: u64) -> (result: Result<(), Error>)
        ensures
            write_result(
                image(val.number(), u64::width(), ByteOrder::Big),
                old(self).output()@,
                final(self).output()@,
                result,
            ),
            final(self).output().endpoint_spec() == old(self).output().endpoint_spec(),
            final(self).input() == old(self).input(),
    {
        let order = ByteOrder::Big;
        self.write_scalar::<u64>(val, order)
    }

    /// Writes an `u64` in little-endian order.
    pub fn write_u64_le(&mut self, val: u64) -> (result: Result<(), Error>)
        ensures
            write_result(
                image(val.number(), u64::width(), ByteOrder::Little),
                old(self).output()@,
                final(self).output()@,
                result,
            ),
            final(self).output().endpoint_spec() == old(self).output().endpoint_spec(),
            final(self).input() == old(self).input(),
    {
        let order = ByteOrder::Little;
        self.write_scalar::<u64>(val, order)
    }

    /// Reads an `u64` in the byte order of the stream.
    pub fn read_u64(&mut self) -> (result: Result<u64, Error>)
        ensures
            read_result(
                scalar_rest::<u64>(Seq::empty(), old(self).input()@.bytes, old(self).input()@.order),
                |item: u64| item,
                old(self).input()@,
                final(self).input()@,
                result,
            ),
            final(self).input().endpoint_spec() == old(self).input().endpoint_spec(),
            final(self).output() == old(self).output(),
    {
        let order = self.input_stream.order();
        self.read_scalar::<u64>(order)
    }

    /// Reads an `u64` in big-endian order.
    pub fn read_u64_be(&mut self) -> (result: Result<u64, Error>)
        ensures
            read_result(
                scalar_rest::<u64>(Seq::empty(), old(self).input()@.bytes, ByteOrder::Big),
                |item: u64| item,
                old(self).input()@,
                final(self).input()@,
                result,
            ),
            final(self).input().endpoint_spec() == old(self).input().endpoint_spec(),
            final(self).output() == old(self).output(),
    {
        let order = ByteOrder::Big;
        self.read_scalar::<u64>(order)
    }

    /// Reads an `u64` in little-endian order.
    pub fn read_u64_le(&mut self) -> (result: Result<u64, Error>)
        ensures
            read_result(
                scalar_rest::<u64>(Seq::empty(), old(self).input()@.bytes, ByteOrder::Little),
                |item: u64| item,
                old(self).input()@,
                final(self).input()@,
                result,
            ),
            final(self).input().endpoint_spec() == old(self).input().endpoint_spec(),
            final(self).output() == old(self).output(),
    {
        let order = ByteOrder::Little;
        self.read_scalar::<u64>(order)
    }

    /// Writes an `u32` in the byte order of the stream.
    pub fn write_u32(&mut self, val: u32) -> (result: Result<(), Error>)
        ensures
            write_result(
                image(val.number(), u32::width(), old(self).output()@.order),
                old(self).output()@,
                final(self).output()@,
                result,
            ),
            final(self).output().endpoint_spec() == old(self).output().endpoint_spec(),
            final(self).input() == old(self).input(),
    {
        let order = self.output_stream.order();
        self.write_scalar::<u32>(val, order)
    }

    /// Writes an `u32` in big-endian order.
    pub fn write_u32_be(&mut self, val: u32) -> (result: Result<(), Error>)
        ensures
            write_result(
                image(val.number(), u32::width(), ByteOrder::Big),
                old(self).output()@,
                final(self).output()@,
                result,
            ),
            final(self).output().endpoint_spec() == old(self).output().endpoint_spec(),
            final(self).input() == old(self).input(),
    {
        let order = ByteOrder::Big;
        self.write_scalar::<u32>(val, order)
    }

    /// Writes an `u32` in little-endian order.
    pub fn write_u32_le(&mut self, val: u32) -> (result: Result<(), Error>)
        ensures
            write_result(
                image(val.number(), u32::width(), ByteOrder::Little),
                old(self).output()@,
                final(self).output()@,
                result,
            ),
            final(self).output().endpoint_spec() == old(self).output().endpoint_spec(),
            final(self).input() == old(self).input(),
    {
        let order = ByteOrder::Little;
        self.write_scalar::<u32>(val, order)
    }

    /// Reads an `u32` in the byte order of the stream.
    pub fn read_u32(&mut self) -> (result: Result<u32, Error>)
        ensures
            read_result(
                scalar_rest::<u32>(Seq::empty(), old(self).input()@.bytes, old(self).input()@.order),
                |item: u32| item,
                old(self).input()@,
                final(self).input()@,
                result,
            ),
            final(self).input().endpoint_spec() == old(self).input().endpoint_spec(),
            final(self).output() == old(self).output(),
    {
        let order = self.input_stream.order();
        self.read_scalar::<u32>(order)
    }

    /// Reads an `u32` in big-endian order.
    pub fn read_u32_be(&mut self) -> (result: Result<u32, Error>)
        ensures
            read_result(
                scalar_rest::<u32>(Seq::empty(), old(self).input()@.bytes, ByteOrder::Big),
                |item: u32| item,
                old(self).input()@,
                final(self).input()@,
                result,
            ),
            final(self).input().endpoint_spec() == old(self).input().endpoint_spec(),
            final(self).output() == old(self).output(),
    {
        let order = ByteOrder::Big;
        self.read_scalar::<u32>(order)
    }

    /// Reads an `u32` in little-endian order.
    pub fn read_u32_le(&mut self) -> (result: Result<u32, Error>)
        ensures
            read_result(
                scalar_rest::<u32>(Seq::empty(), old(self).input()@.bytes, ByteOrder::Little),
                |item: u32| item,
                old(self).input()@,
                final(self).input()@,
                result,
            ),
            final(self).input().endpoint_spec() == old(self).input().endpoint_spec(),
            final(self).output() == old(self).output(),
    {
        let order = ByteOrder::Little;
        self.read_scalar::<u32>(order)
    }

    /// Writes an `u16` in the byte order of the stream.
    pub fn write_u16(&mut self, val: u16) -> (result: Result<(), Error>)
        ensures
            write_result(
                image(val.number(), u16::width(), old(self).output()@.order),
                old(self).output()@,
                final(self).output()@,
                result,
            ),
            final(self).output().endpoint_spec() == old(self).output().endpoint_spec(),
            final(self).input() == old(self).input(),
    {
        let order = self.output_stream.order();
        self.write_scalar::<u16>(val, order)
    }

    /// Writes an `u16` in big-endian order.
    pub fn write_u16_be(&mut self, val: u16) -> (result: Result<(), Error>)
        ensures
            write_result(
                image(val.number(), u16::width(), ByteOrder::Big),
                old(self).output()@,
                final(self).output()@,
                result,
            ),
            final(self).output().endpoint_spec() == old(self).output().endpoint_spec(),
            final(self).input() == old(self).input(),
    {
        let order = ByteOrder::Big;
        self.write_scalar::<u16>(val, order)
    }

    /// Writes an `u16` in little-endian order.
    pub fn write_u16_le(&mut self, val: u16) -> (result: Result<(), Error>)
        ensures
            write_result(
                image(val.number(), u16::width(), ByteOrder::Little),
                old(self).output()@,
                final(self).output()@,
                result,
            ),
            final(self).output().endpoint_spec() == old(self).output().endpoint_spec(),
            final(self).input() == old(self).input(),
    {
        let order = ByteOrder::Little;
        self.write_scalar::<u16>(val, order)
    }

    /// Reads an `u16` in the byte order of the stream.
    pub fn read_u16(&mut self) -> (result: Result<u16, Error>)
        ensures
            read_result(
                scalar_rest::<u16>(Seq::empty(), old(self).input()@.bytes, old(self).input()@.order),
                |item: u16| item,
                old(self).input()@,
                final(self).input()@,
                result,
            ),
            final(self).input().endpoint_spec() == old(self).input().endpoint_spec(),
            final(self).output() == old(self).output(),
    {
        let order = self.input_stream.order();
        self.read_scalar::<u16>(order)
    }

    /// Reads an `u16` in big-endian order.
    pub fn read_u16_be(&mut self) -> (result: Result<u16, Error>)
        ensures
            read_result(
                scalar_rest::<u16>(Seq::empty(), old(self).input()@.bytes, ByteOrder::Big),
                |item: u16| item,
                old(self).input()@,
                final(self).input()@,
                result,
            ),
            final(self).input().endpoint_spec() == old(self).input().endpoint_spec(),
            final(self).output() == old(self).output(),
    {
        let order = ByteOrder::Big;
        self.read_scalar::<u16>(order)
    }

    /// Reads an `u16` in little-endian order.
    pub fn read_u16_le(&mut self) -> (result: Result<u16, Error>)
        ensures
            read_result(
                scalar_rest::<u16>(Seq::empty(), old(self).input()@.bytes, ByteOrder::Little),
                |item: u16| item,
                old(self).input()@,
                final(self).input()@,
                result,
            ),
            final(self).input().endpoint_spec() == old(self).input().endpoint_spec(),
            final(self).output() == old(self).output(),
    {
        let order = ByteOrder::Little;
        self.read_scalar::<u16>(order)
    }

    /// Writes an `u8` in the byte order of the stream.
    pub fn write_u8(&mut self, val: u8) -> (result: Result<(), Error>)
        ensures
            write_result(
                image(val.number(), u8::width(), old(self).output()@.order),
                old(self).output()@,
                final(self).output()@,
                result,
            ),
            final(self).output().endpoint_spec() == old(self).output().endpoint_spec(),
            final(self).input() == old(self).input(),
    {
        let order = self.output_stream.order();
        self.write_scalar::<u8>(val, order)
    }

    /// Writes an `u8` in big-endian order.
    pub fn write_u8_be(&mut self, val: u8) -> (result: Result<(), Error>)
        ensures
            write_result(
                image(val.number(), u8::width(), ByteOrder::Big),
                old(self).output()@,
                final(self).output()@,
                result,
            ),
            final(self).output().endpoint_spec() == old(self).output().endpoint_spec(),
            final(self).input() == old(self).input(),
    {
        let order = ByteOrder::Big;
        self.write_scalar::<u8>(val, order)
    }

    /// Writes an `u8` in little-endian order.
    pub fn write_u8_le(&mut self, val: u8) -> (result: Result<(), Error>)
        ensures
            write_result(
                image(val.number(), u8::width(), ByteOrder::Little),
                old(self).output()@,
                final(self).output()@,
                result,
            ),
            final(self).output().endpoint_spec() == old(self).output().endpoint_spec(),
            final(self).input() == old(self).input(),
    {
        let order = ByteOrder::Little;
        self.write_scalar::<u8>(val, order)
    }

    /// Reads an `u8` in the byte order of the stream.
    pub fn read_u8(&mut self) -> (result: Result<u8, Error>)
        ensures
            read_result(
                scalar_rest::<u8>(Seq::empty(), old(self).input()@.bytes, old(self).input()@.order),
                |item: u8| item,
                old(self).input()@,
                final(self).input()@,
                result,
            ),
            final(self).input().endpoint_spec() == old(self).input().endpoint_spec(),
            final(self).output() == old(self).output(),
    {
        let order = self.input_stream.order();
        self.read_scalar::<u8>(order)
    }

    /// Reads an `u8` in big-endian order.
    pub fn read_u8_be(&mut self) -> (result: Result<u8, Error>)
        ensures
            read_result(
                scalar_rest::<u8>(Seq::empty(), old(self).input()@.bytes, ByteOrder::Big),
                |item: u8| item,
                old(self).input()@,
                final(self).input()@,
                result,
            ),
            final(self).input().endpoint_spec() == old(self).input().endpoint_spec(),
            final(self).output() == old(self).output(),
    {
        let order = ByteOrder::Big;
        self.read_scalar::<u8>(order)
    }

    /// Reads an `u8` in little-endian order.
    pub fn read_u8_le(&mut self) -> (result: Result<u8, Error>)
        ensures
            read_result(
                scalar_rest::<u8>(Seq::empty(), old(self).input()@.bytes, ByteOrder::Little),
                |item: u8| item,
                old(self).input()@,
                final(self).input()@,
                result,
            ),
            final(self).input().endpoint_spec() == old(self).input().endpoint_spec(),
            final(self).output() == old(self).output(),
    {
        let order = ByteOrder::Little;
        self.read_scalar::<u8>(order)
    }

    /// Writes an `usize` in the byte order of the stream.
    pub fn write_usize(&mut self, val: usize) -> (result: Result<(), Error>)
        ensures
            write_result(
                image(val.number(), usize::width(), old(self).output()@.order),
                old(self).output()@,
                final(self).output()@,
                result,
            ),
            final(self).output().endpoint_spec() == old(self).output().endpoint_spec(),
            final(self).input() == old(self).input(),
    {
        let order = self.output_stream.order();
        self.write_scalar::<usize>(val, order)
    }

    /// Writes an `usize` in big-endian order.
    pub fn write_usize_be(&mut self, val: usize) -> (result: Result<(), Error>)
        ensures
            write_result(
                image(val.number(), usize::width(), ByteOrder::Big),
                old(self).output()@,
                final(self).output()@,
                result,
            ),
            final(self).output().endpoint_spec() == old(self).output().endpoint_spec(),
            final(self).input() == old(self).input(),
    {
        let order = ByteOrder::Big;
        self.write_scalar::<usize>(val, order)
    }

    /// Writes an `usize` in little-endian order.
    pub fn write_usize_le(&mut self, val: usize) -> (result: Result<(), Error>)
        ensures
            write_result(
                image(val.number(), usize::width(), ByteOrder::Little),
                old(self).output()@,
                final(self).output()@,
                result,
            ),
            final(self).output().endpoint_spec() == old(self).output().endpoint_spec(),
            final(self).input() == old(self).input(),
    {
        let order = ByteOrder::Little;
        self.write_scalar::<usize>(val, order)
    }

    /// Reads an `usize` in the byte order of the stream.
    pub fn read_usize(&mut self) -> (result: Result<usize, Error>)
        ensures
            read_result(
                scalar_rest::<usize>(Seq::empty(), old(self).input()@.bytes, old(self).input()@.order),
                |item: usize| item,
                old(self).input()@,
                final(self).input()@,
                result,
            ),
            final(self).input().endpoint_spec() == old(self).input().endpoint_spec(),
            final(self).output() == old(self).output(),
    {
        let order = self.input_stream.order();
        self.read_scalar::<usize>(order)
    }

    /// Reads an `usize` in big-endian order.
    pub fn read_usize_be(&mut self) -> (result: Result<usize, Error>)
        ensures
            read_result(
                scalar_rest::<usize>(Seq::empty(), old(self).input()@.bytes, ByteOrder::Big),
                |item: usize| item,
                old(self).input()@,
                final(self).input()@,
                result,
            ),
            final(self).input().endpoint_spec() == old(self).input().endpoint_spec(),
            final(self).output() == old(self).output(),
    {
        let order = ByteOrder::Big;
        self.read_scalar::<usize>(order)
    }

    /// Reads an `usize` in little-endian order.
    pub fn read_usize_le(&mut self) -> (result: Result<usize, Error>)
        ensures
            read_result(
                scalar_rest::<usize>(Seq::empty(), old(self).input()@.bytes, ByteOrder::Little),
                |item: usize| item,
                old(self).input()@,
                final(self).input()@,
                result,
            ),
            final(self).input().endpoint_spec() == old(self).input().endpoint_spec(),
            final(self).output() == old(self).output(),
    {
        let order = ByteOrder::Little;
        self.read_scalar::<usize>(order)
    }

    /// Writes an `i64` in the byte order of the stream.
    pub fn write_i64(&mut self, val: i64) -> (result: Result<(), Error>)
        ensures
            write_result(
                image(val.number(), i64::width(), old(self).output()@.order),
                old(self).output()@,
                final(self).output()@,
                result,
            ),
            final(self).output().endpoint_spec() == old(self).output().endpoint_spec(),
            final(self).input() == old(self).input(),
    {
        let order = self.output_stream.order();
        self.write_scalar::<i64>(val, order)
    }

    /// Writes an `i64` in big-endian order.
    pub fn write_i64_be(&mut self, val: i64) -> (result: Result<(), Error>)
        ensures
            write_result(
                image(val.number(), i64::width(), ByteOrder::Big),
                old(self).output()@,
                final(self).output()@,
                result,
            ),
            final(self).output().endpoint_spec() == old(self).output().endpoint_spec(),
            final(self).input() == old(self).input(),
    {
        let order = ByteOrder::Big;
        self.write_scalar::<i64>(val, order)
    }

    /// Writes an `i64` in little-endian order.
    pub fn write_i64_le(&mut self, val: i64) -> (result: Result<(), Error>)
        ensures
            write_result(
                image(val.number(), i64::width(), ByteOrder::Little),
                old(self).output()@,
                final(self).output()@,
                result,
            ),
            final(self).output().endpoint_spec() == old(self).output().endpoint_spec(),
            final(self).input() == old(self).input(),
    {
        let order = ByteOrder::Little;
        self.write_scalar::<i64>(val, order)
    }

    /// Reads an `i64` in the byte order of the stream.
    pub fn read_i64(&mut self) -> (result: Result<i64, Error>)
        ensures
            read_result(
                scalar_rest::<i64>(Seq::empty(), old(self).input()@.bytes, old(self).input()@.order),
                |item: i64| item,
                old(self).input()@,
                final(self).input()@,
                result,
            ),
            final(self).input().endpoint_spec() == old(self).input().endpoint_spec(),
            final(self).output() == old(self).output(),
    {
        let order = self.input_stream.order();
        self.read_scalar::<i64>(order)
    }

    /// Reads an `i64` in big-endian order.
    pub fn read_i64_be(&mut self) -> (result: Result<i64, Error>)
        ensures
            read_result(
                scalar_rest::<i64>(Seq::empty(), old(self).input()@.bytes, ByteOrder::Big),
                |item: i64| item,
                old(self).input()@,
                final(self).input()@,
                result,
            ),
            final(self).input().endpoint_spec() == old(self).input().endpoint_spec(),
            final(self).output() == old(self).output(),
    {
        let order = ByteOrder::Big;
        self.read_scalar::<i64>(order)
    }

    /// Reads an `i64` in little-endian order.
    pub fn read_i64_le(&mut self) -> (result: Result<i64, Error>)
        ensures
            read_result(
                scalar_rest::<i64>(Seq::empty(), old(self).input()@.bytes, ByteOrder::Little),
                |item: i64| item,
                old(self).input()@,
                final(self).input()@,
                result,
            ),
            final(self).input().endpoint_spec() == old(self).input().endpoint_spec(),
            final(self).output() == old(self).output(),
    {
        let order = ByteOrder::Little;
        self.read_scalar::<i64>(order)
    }

    /// Writes an `i32` in the byte order of the stream.
    pub fn write_i32(&mut self, val: i32) -> (result: Result<(), Error>)
        ensures
            write_result(
                image(val.number(), i32::width(), old(self).output()@.order),
                old(self).output()@,
                final(self).output()@,
                result,
            ),
            final(self).output().endpoint_spec() == old(self).output().endpoint_spec(),
            final(self).input() == old(self).input(),
    {
        let order = self.output_stream.order();
        self.write_scalar::<i32>(val, order)
    }

    /// Writes an `i32` in big-endian order.
    pub fn write_i32_be(&mut self, val: i32) -> (result: Result<(), Error>)
        ensures
            write_result(
                image(val.number(), i32::width(), ByteOrder::Big),
                old(self).output()@,
                final(self).output()@,
                result,
            ),
            final(self).output().endpoint_spec() == old(self).output().endpoint_spec(),
            final(self).input() == old(self).input(),
    {
        let order = ByteOrder::Big;
        self.write_scalar::<i32>(val, order)
    }

    /// Writes an `i32` in little-endian order.
    pub fn write_i32_le(&mut self, val: i32) -> (result: Result<(), Error>)
        ensures
            write_result(
                image(val.number(), i32::width(), ByteOrder::Little),
                old(self).output()@,
                final(self).output()@,
                result,
            ),
            final(self).output().endpoint_spec() == old(self).output().endpoint_spec(),
            final(self).input() == old(self).input(),
    {
        let order = ByteOrder::Little;
        self.write_scalar::<i32>(val, order)
    }

    /// Reads an `i32` in the byte order of the stream.
    pub fn read_i32(&mut self) -> (result: Result<i32, Error>)
        ensures
            read_result(
                scalar_rest::<i32>(Seq::empty(), old(self).input()@.bytes, old(self).input()@.order),
                |item: i32| item,
                old(self).input()@,
                final(self).input()@,
                result,
            ),
            final(self).input().endpoint_spec() == old(self).input().endpoint_spec(),
            final(self).output() == old(self).output(),
    {
        let order = self.input_stream.order();
        self.read_scalar::<i32>(order)
    }

    /// Reads an `i32` in big-endian order.
    pub fn read_i32_be(&mut self) -> (result: Result<i32, Error>)
        ensures
            read_result(
                scalar_rest::<i32>(Seq::empty(), old(self).input()@.bytes, ByteOrder::Big),
                |item: i32| item,
                old(self).input()@,
                final(self).input()@,
                result,
            ),
            final(self).input().endpoint_spec() == old(self).input().endpoint_spec(),
            final(self).output() == old(self).output(),
    {
        let order = ByteOrder::Big;
        self.read_scalar::<i32>(order)
    }

    /// Reads an `i32` in little-endian order.
    pub fn read_i32_le(&mut self) -> (result: Result<i32, Error>)
        ensures
            read_result(
                scalar_rest::<i32>(Seq::empty(), old(self).input()@.bytes, ByteOrder::Little),
                |item: i32| item,
                old(self).input()@,
                final(self).input()@,
                result,
            ),
            final(self).input().endpoint_spec() == old(self).input().endpoint_spec(),
            final(self).output() == old(self).output(),
    {
        let order = ByteOrder::Little;
        self.read_scalar::<i32>(order)
    }

    /// Writes an `i16` in the byte order of the stream.
    pub fn write_i16(&mut self, val: i16) -> (result: Result<(), Error>)
        ensures
            write_result(
                image(val.number(), i16::width(), old(self).output()@.order),
                old(self).output()@,
                final(self).output()@,
                result,
            ),
            final(self).output().endpoint_spec() == old(self).output().endpoint_spec(),
            final(self).input() == old(self).input(),
    {
        let order = self.output_stream.order();
        self.write_scalar::<i16>(val, order)
    }

    /// Writes an `i16` in big-endian order.
    pub fn write_i16_be(&mut self, val: i16) -> (result: Result<(), Error>)
        ensures
            write_result(
                image(val.number(), i16::width(), ByteOrder::Big),
                old(self).output()@,
                final(self).output()@,
                result,
            ),
            final(self).output().endpoint_spec() == old(self).output().endpoint_spec(),
            final(self).input() == old(self).input(),
    {
        let order = ByteOrder::Big;
        self.write_scalar::<i16>(val, order)
    }

    /// Writes an `i16` in little-endian order.
    pub fn write_i16_le(&mut self, val: i16) -> (result: Result<(), Error>)
        ensures
            write_result(
                image(val.number(), i16::width(), ByteOrder::Little),
                old(self).output()@,
                final(self).output()@,
                result,
            ),
            final(self).output().endpoint_spec() == old(self).output().endpoint_spec(),
            final(self).input() == old(self).input(),
    {
        let order = ByteOrder::Little;
        self.write_scalar::<i16>(val, order)
    }

    /// Reads an `i16` in the byte order of the stream.
    pub fn read_i16(&mut self) -> (result: Result<i16, Error>)
        ensures
            read_result(
                scalar_rest::<i16>(Seq::empty(), old(self).input()@.bytes, old(self).input()@.order),
                |item: i16| item,
                old(self).input()@,
                final(self).input()@,
                result,
            ),
            final(self).input().endpoint_spec() == old(self).input().endpoint_spec(),
            final(self).output() == old(self).output(),
    {
        let order = self.input_stream.order();
        self.read_scalar::<i16>(order)
    }

    /// Reads an `i16` in big-endian order.
    pub fn read_i16_be(&mut self) -> (result: Result<i16, Error>)
        ensures
            read_result(
                scalar_rest::<i16>(Seq::empty(), old(self).input()@.bytes, ByteOrder::Big),
                |item: i16| item,
                old(self).input()@,
                final(self).input()@,
                result,
            ),
            final(self).input().endpoint_spec() == old(self).input().endpoint_spec(),
            final(self).output() == old(self).output(),
    {
        let order = ByteOrder::Big;
        self.read_scalar::<i16>(order)
    }

    /// Reads an `i16` in little-endian order.
    pub fn read_i16_le(&mut self) -> (result: Result<i16, Error>)
        ensures
            read_result(
                scalar_rest::<i16>(Seq::empty(), old(self).input()@.bytes, ByteOrder::Little),
                |item: i16| item,
                old(self).input()@,
                final(self).input()@,
                result,
            ),
            final(self).input().endpoint_spec() == old(self).input().endpoint_spec(),
            final(self).output() == old(self).output(),
    {
        let order = ByteOrder::Little;
        self.read_scalar::<i16>(order)
    }

    /// Writes an `i8` in the byte order of the stream.
    pub fn write_i8(&mut self, val: i8) -> (result: Result<(), Error>)
        ensures
            write_result(
                image(val.number(), i8::width(), old(self).output()@.order),
                old(self).output()@,
                final(self).output()@,
                result,
            ),
            final(self).output().endpoint_spec() == old(self).output().endpoint_spec(),
            final(self).input() == old(self).input(),
    {
        let order = self.output_stream.order();
        self.write_scalar::<i8>(val, order)
    }

    /// Writes an `i8` in big-endian order.
    pub fn write_i8_be(&mut self, val: i8) -> (result: Result<(), Error>)
        ensures
            write_result(
                image(val.number(), i8::width(), ByteOrder::Big),
                old(self).output()@,
                final(self).output()@,
                result,
            ),
            final(self).output().endpoint_spec() == old(self).output().endpoint_spec(),
            final(self).input() == old(self).input(),
    {
        let order = ByteOrder::Big;
        self.write_scalar::<i8>(val, order)
    }

    /// Writes an `i8` in little-endian order.
    pub fn write_i8_le(&mut self, val: i8) -> (result: Result<(), Error>)
        ensures
            write_result(
                image(val.number(), i8::width(), ByteOrder::Little),
                old(self).output()@,
                final(self).output()@,
                result,
            ),
            final(self).output().endpoint_spec() == old(self).output().endpoint_spec(),
            final(self).input() == old(self).input(),
    {
        let order = ByteOrder::Little;
        self.write_scalar::<i8>(val, order)
    }

    /// Reads an `i8` in the byte order of the stream.
    pub fn read_i8(&mut self) -> (result: Result<i8, Error>)
        ensures
            read_result(
                scalar_rest::<i8>(Seq::empty(), old(self).input()@.bytes, old(self).input()@.order),
                |item: i8| item,
                old(self).input()@,
                final(self).input()@,
                result,
            ),
            final(self).input().endpoint_spec() == old(self).input().endpoint_spec(),
            final(self).output() == old(self).output(),
    {
        let order = self.input_stream.order();
        self.read_scalar::<i8>(order)
    }

    /// Reads an `i8` in big-endian order.
    pub fn read_i8_be(&mut self) -> (result: Result<i8, Error>)
        ensures
            read_result(
                scalar_rest::<i8>(Seq::empty(), old(self).input()@.bytes, ByteOrder::Big),
                |item: i8| item,
                old(self).input()@,
                final(self).input()@,
                result,
            ),
            final(self).input().endpoint_spec() == old(self).input().endpoint_spec(),
            final(self).output() == old(self).output(),
    {
        let order = ByteOrder::Big;
        self.read_scalar::<i8>(order)
    }

    /// Reads an `i8` in little-endian order.
    pub fn read_i8_le(&mut self) -> (result: Result<i8, Error>)
        ensures
            read_result(
                scalar_rest::<i8>(Seq::empty(), old(self).input()@.bytes, ByteOrder::Little),
                |item: i8| item,
                old(self).input()@,
                final(self).input()@,
                result,
            ),
            final(self).input().endpoint_spec() == old(self).input().endpoint_spec(),
            final(self).output() == old(self).output(),
    {
        let order = ByteOrder::Little;
        self.read_scalar::<i8>(order)
    }

    /// Writes an `isize` in the byte order of the stream.
    pub fn write_isize(&mut self, val: isize) -> (result: Result<(), Error>)
        ensures
            write_result(
                image(val.number(), isize::width(), old(self).output()@.order),
                old(self).output()@,
                final(self).output()@,
                result,
            ),
            final(self).output().endpoint_spec() == old(self).output().endpoint_spec(),
            final(self).input() == old(self).input(),
    {
        let order = self.output_stream.order();
        self.write_scalar::<isize>(val, order)
    }

    /// Writes an `isize` in big-endian order.
    pub fn write_isize_be(&mut self, val: isize) -> (result: Result<(), Error>)
        ensures
            write_result(
                image(val.number(), isize::width(), ByteOrder::Big),
                old(self).output()@,
                final(self).output()@,
                result,
            ),
            final(self).output().endpoint_spec() == old(self).output().endpoint_spec(),
            final(self).input() == old(self).input(),
    {
        let order = ByteOrder::Big;
        self.write_scalar::<isize>(val, order)
    }

    /// Writes an `isize` in little-endian order.
    pub fn write_isize_le(&mut self, val: isize) -> (result: Result<(), Error>)
        ensures
            write_result(
                image(val.number(), isize::width(), ByteOrder::Little),
                old(self).output()@,
                final(self).output()@,
                result,
            ),
            final(self).output().endpoint_spec() == old(self).output().endpoint_spec(),
            final(self).input() == old(self).input(),
    {
        let order = ByteOrder::Little;
        self.write_scalar::<isize>(val, order)
    }

    /// Reads an `isize` in the byte order of the stream.
    pub fn read_isize(&mut self) -> (result: Result<isize, Error>)
        ensures
            read_result(
                scalar_rest::<isize>(Seq::empty(), old(self).input()@.bytes, old(self).input()@.order),
                |item: isize| item,
                old(self).input()@,
                final(self).input()@,
                result,
            ),
            final(self).input().endpoint_spec() == old(self).input().endpoint_spec(),
            final(self).output() == old(self).output(),
    {
        let order = self.input_stream.order();
        self.read_scalar::<isize>(order)
    }

    /// Reads an `isize` in big-endian order.
    pub fn read_isize_be(&mut self) -> (result: Result<isize, Error>)
        ensures
            read_result(
                scalar_rest::<isize>(Seq::empty(), old(self).input()@.bytes, ByteOrder::Big),
                |item: isize| item,
                old(self).input()@,
                final(self).input()@,
                result,
            ),
            final(self).input().endpoint_spec() == old(self).input().endpoint_spec(),
            final(self).output() == old(self).output(),
    {
        let order = ByteOrder::Big;
        self.read_scalar::<isize>(order)
    }

    /// Reads an `isize` in little-endian order.
    pub fn read_isize_le(&mut self) -> (result: Result<isize, Error>)
        ensures
            read_result(
                scalar_rest::<isize>(Seq::empty(), old(self).input()@.bytes, ByteOrder::Little),
                |item: isize| item,
                old(self).input()@,
                final(self).input()@,
                result,
            ),
            final(self).input().endpoint_spec() == old(self).input().endpoint_spec(),
            final(self).output() == old(self).output(),
    {
        let order = ByteOrder::Little;
        self.read_scalar::<isize>(order)
    }

    /// One raw read of at most `max` bytes, appended to `dst`: the buffered
    /// bytes first; with none buffered, zero bytes at the end of the stream.
    pub fn read(&mut self, dst: &mut Vec<u8>, max: usize) -> (result: Result<usize, Error>)
        ensures
            ({
                let before = old(self).input()@;
                let n = crate::half::read_count(before, max);
                &&& final(dst)@ == old(dst)@ + before.bytes.take(n as int)
                &&& final(self).input()@ == (ReadView { bytes: before.bytes.skip(n as int), ..before })
                &&& result == if before.bytes.len() > 0 {
                    Ok::<usize, Error>(n as usize)
                } else {
                    match before.ending {
                        Ending::Closed => Ok::<usize, Error>(0),
                        Ending::Open => Err::<usize, Error>(Error::UnexpectedEof),
                        Ending::Failed(e) => Err::<usize, Error>(Error::Transport(e)),
                    }
                }
            }),
            final(self).input().endpoint_spec() == old(self).input().endpoint_spec(),
            final(self).output() == old(self).output(),
    {
        match self.input_stream.poll_read(dst, max) {
            Poll::Ready(Ok(n)) => Ok(n),
            Poll::Ready(Err(e)) => Err(Error::Transport(e)),
            Poll::Pending => Err(Error::UnexpectedEof),
        }
    }

    /// One raw write of `buf`, of which a prefix is taken; how long a prefix
    /// is the result.
    pub fn write(&mut self, buf: &[u8]) -> (result: Result<usize, Error>)
        ensures
            ({
                let before = old(self).output()@;
                let n = write_count(before, buf@.len());
                &&& final(self).output()@ == (WriteView {
                    pending: before.pending + buf@.take(n as int),
                    ..before
                })
                &&& result == match before.ending {
                    Ending::Failed(e) => Err::<usize, Error>(Error::Transport(e)),
                    Ending::Closed => Ok::<usize, Error>(0),
                    Ending::Open => if buf@.len() > 0 && n == 0 {
                        Err::<usize, Error>(Error::WriteZero)
                    } else {
                        Ok::<usize, Error>(n as usize)
                    },
                }
            }),
            final(self).output().endpoint_spec() == old(self).output().endpoint_spec(),
            final(self).input() == old(self).input(),
    {
        match self.output_stream.poll_write(buf) {
            Poll::Ready(Ok(n)) => Ok(n),
            Poll::Ready(Err(e)) => Err(Error::Transport(e)),
            Poll::Pending => Err(Error::WriteZero),
        }
    }

    /// Whether everything written has left the write half: an error if the
    /// endpoint failed, and `WriteZero` while bytes are pending.
    pub fn flush(&self) -> (result: Result<(), Error>)
        ensures
            result == match self.output()@.ending {
                Ending::Failed(e) => Err::<(), Error>(Error::Transport(e)),
                _ => if self.output()@.pending.len() == 0 {
                    Ok::<(), Error>(())
                } else {
                    Err::<(), Error>(Error::WriteZero)
                },
            },
    {
        match self.output_stream.poll_flush() {
            Poll::Ready(Ok(())) => Ok(()),
            Poll::Ready(Err(e)) => Err(Error::Transport(e)),
            Poll::Pending => Err(Error::WriteZero),
        }
    }

    /// The bytes that the read half has buffered, to look at.
    pub fn fill_buf(&self) -> (bytes: &[u8])
        ensures
            bytes@ == self.input()@.bytes,
    {
        self.input_stream.fill_buf()
    }

    /// Marks the `amt` oldest buffered bytes of the read half as read; all of
    /// them if there are fewer.
    pub fn consume(&mut self, amt: usize)
        ensures
            final(self).input()@ == (ReadView {
                bytes: if amt <= old(self).input()@.bytes.len() {
                    old(self).input()@.bytes.skip(amt as int)
                } else {
                    Seq::empty()
                },
                ..old(self).input()@
            }),
            final(self).input().endpoint_spec() == old(self).input().endpoint_spec(),
            final(self).output() == old(self).output(),
    {
        self.input_stream.consume(amt)
    }
}

} // verus!
