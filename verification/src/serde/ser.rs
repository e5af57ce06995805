//! The encode stages.

use vstd::prelude::*;
use vstd::slice::slice_subrange;
use vstd::string::*;
use vstd::utf8::*;
use core::marker::PhantomData;
use crate::error::Error;
use crate::half::{append_range, write_count, WriteHalf, WriteView};
use crate::order::ByteOrder;
use crate::serde::{
    lemma_write_split, stalled, unwritten, write_polled, AsyncSer, EncodeState, Poll, Primitive,
    Scalar, Stage, StageFuture, StagePoller, WriteStage,
};
use crate::wire::{image, lemma_image_byte};

verus! {

/// What is left of `data` when the first `written` bytes are out.
pub open spec fn remaining(data: Seq<u8>, written: nat) -> Seq<u8> {
    if written <= data.len() {
        data.skip(written as int)
    } else {
        Seq::empty()
    }
}

/// Writes what is left of `data` to the half, in as many writes as it takes,
/// until all of it is out or the half takes no more. `written` counts the
/// bytes that are out.
pub fn poll_drain<W>(data: &[u8], written: &mut usize, shared: &mut WriteHalf<W>) -> (out: Poll<
    Result<(), Error>,
>)
    ensures
        ({
            let todo = remaining(data@, *old(written) as nat);
            let n = write_count(old(shared)@, todo.len());
            &&& final(shared)@ == (WriteView {
                pending: old(shared)@.pending + todo.take(n as int),
                ..old(shared)@
            })
            &&& remaining(data@, *final(written) as nat) == todo.skip(n as int)
            &&& *final(written) == *old(written) + n
            &&& out == if n == todo.len() {
                Poll::Ready(Ok::<(), Error>(()))
            } else {
                stalled(old(shared)@.ending)
            }
        }),
        final(shared).endpoint_spec() == old(shared).endpoint_spec(),
{
    let len: usize = data.len();
    let ghost todo = remaining(data@, *written as nat);
    let ghost before = shared@;
    let ghost start = *written;
    proof {
        assert(shared@.pending =~= before.pending + todo.take(0));
        assert(todo.skip(0) =~= todo);
    }
    while *written < len
        invariant
            len == data@.len(),
            start == *old(written),
            before == old(shared)@,
            start <= *written,
            *written <= len || *written == start,
            *written - start <= write_count(before, todo.len()),
            shared@ == (WriteView {
                pending: before.pending + todo.take(*written - start),
                ..before
            }),
            start < *written ==> before.ending is Open,
            todo == remaining(data@, start as nat),
            remaining(data@, *written as nat) == todo.skip(*written - start),
            shared.endpoint_spec() == old(shared).endpoint_spec(),
        decreases len - *written,
    {
        let ghost done = *written - start;
        let ghost held = shared@;
        let polled = shared.poll_write(slice_subrange(data, *written, len));
        let ended: Option<Poll<Result<(), Error>>> = match polled {
            Poll::Ready(Ok(k)) => {
                if k == 0 {
                    Some(Poll::Ready(Err(Error::WriteZero)))
                } else {
                    proof {
                        let chunk = data@.subrange(*written as int, len as int);
                        assert(chunk =~= todo.skip(done));
                        assert(held.pending + chunk.take(k as int) =~= before.pending + todo.take(
                            done + k,
                        ));
                        assert(todo.skip(done).skip(k as int) =~= todo.skip(done + k));
                        assert(remaining(data@, (*written + k) as nat) =~= todo.skip(done + k));
                    }
                    *written = *written + k;
                    None
                }
            },
            Poll::Ready(Err(e)) => Some(Poll::Ready(Err(Error::Transport(e)))),
            Poll::Pending => Some(Poll::Pending),
        };
        if let Some(out) = ended {
            proof {
                let chunk = data@.subrange(*written as int, len as int);
                assert(chunk.len() > 0);
                assert(todo.len() == len - start);
                assert(todo.take(done).len() == done);
                assert(held.pending.len() == before.pending.len() + done);
                assert(write_count(held, chunk.len()) == 0);
                assert(shared@.pending =~= held.pending + chunk.take(0));
                assert(shared@.pending =~= held.pending);
                assert(write_count(before, todo.len()) == done);
            }
            return out;
        }
    }
    Poll::Ready(Ok(()))
}

/// Encodes one scalar: writes the bytes of its width, in the byte order of
/// the half, over as many polls as it takes.
pub struct SerializeScalarStage<T: Scalar, W> {
    value: T,
    written: usize,
    shared: PhantomData<W>,
}

impl<T: Scalar, W> SerializeScalarStage<T, W> {
    /// The value that the stage encodes.
    pub closed spec fn value(&self) -> T {
        self.value
    }

    /// How many of its bytes are out.
    pub closed spec fn written(&self) -> nat {
        self.written as nat
    }

    /// A stage that has written nothing of `value`.
    pub fn new(value: T) -> (stage: Self)
        ensures
            stage.value() == value,
            stage.written() == 0,
            unwritten(&stage),
    {
        let stage = SerializeScalarStage { value, written: 0, shared: PhantomData };
        proof {
            assert forall|order: ByteOrder| #[trigger] stage.todo(order) == stage.whole(order) by {
                assert(stage.whole(order).skip(0) =~= stage.whole(order));
            }
        }
        stage
    }
}

impl<T: Scalar, W> EncodeState for SerializeScalarStage<T, W> {
    open spec fn whole(&self, order: ByteOrder) -> Seq<u8> {
        image(self.value().number(), T::width(), order)
    }

    open spec fn todo(&self, order: ByteOrder) -> Seq<u8> {
        remaining(self.whole(order), self.written())
    }
}

impl<T: Scalar, W> StagePoller for SerializeScalarStage<T, W> {
    type Shared = WriteHalf<W>;

    type Output = Result<(), Error>;

    open spec fn polled(
        &self,
        shared: &WriteHalf<W>,
        after: &Self,
        shared_after: &WriteHalf<W>,
        out: &Poll<Result<(), Error>>,
    ) -> bool {
        &&& write_polled::<Self>(self, shared@, after, shared_after@, out)
        &&& after.value() == self.value()
        &&& shared_after.endpoint_spec() == shared.endpoint_spec()
    }

    fn poll_stage(&mut self, shared: &mut WriteHalf<W>) -> (out: Poll<Result<(), Error>>) {
        let bytes = self.value.to_wire(shared.order());
        let out = poll_drain(bytes.as_slice(), &mut self.written, shared);
        match out {
            Poll::Ready(Ok(())) => {
                self.written = 0;
                proof {
                    assert forall|order: ByteOrder| #[trigger]
                        self.todo(order) == self.whole(order) by {
                        assert(self.whole(order).skip(0) =~= self.whole(order));
                    }
                }
            },
            _ => {},
        }
        out
    }
}

impl<T: Scalar, W> WriteStage<W> for SerializeScalarStage<T, W> {
    proof fn lemma_polled(
        &self,
        shared: &WriteHalf<W>,
        after: &Self,
        shared_after: &WriteHalf<W>,
        out: &Poll<Result<(), Error>>,
    ) {
    }
}

// The encode stage of every scalar type, and the operation bound to a half.

pub type SerializeU8Stage<W> = SerializeScalarStage<u8, W>;

pub type SerializeI8Stage<W> = SerializeScalarStage<i8, W>;

pub type SerializeU16Stage<W> = SerializeScalarStage<u16, W>;

pub type SerializeI16Stage<W> = SerializeScalarStage<i16, W>;

pub type SerializeU32Stage<W> = SerializeScalarStage<u32, W>;

pub type SerializeI32Stage<W> = SerializeScalarStage<i32, W>;

pub type SerializeU64Stage<W> = SerializeScalarStage<u64, W>;

pub type SerializeI64Stage<W> = SerializeScalarStage<i64, W>;

pub type SerializeU128Stage<W> = SerializeScalarStage<u128, W>;

pub type SerializeI128Stage<W> = SerializeScalarStage<i128, W>;

pub type SerializeUsizeStage<W> = SerializeScalarStage<usize, W>;

pub type SerializeIsizeStage<W> = SerializeScalarStage<isize, W>;

pub type SerializeU8<'a, W> = StageFuture<'a, SerializeU8Stage<W>>;

pub type SerializeI8<'a, W> = StageFuture<'a, SerializeI8Stage<W>>;

pub type SerializeU16<'a, W> = StageFuture<'a, SerializeU16Stage<W>>;

pub type SerializeI16<'a, W> = StageFuture<'a, SerializeI16Stage<W>>;

pub type SerializeU32<'a, W> = StageFuture<'a, SerializeU32Stage<W>>;

pub type SerializeI32<'a, W> = StageFuture<'a, SerializeI32Stage<W>>;

pub type SerializeU64<'a, W> = StageFuture<'a, SerializeU64Stage<W>>;

pub type SerializeI64<'a, W> = StageFuture<'a, SerializeI64Stage<W>>;

pub type SerializeU128<'a, W> = StageFuture<'a, SerializeU128Stage<W>>;

pub type SerializeI128<'a, W> = StageFuture<'a, SerializeI128Stage<W>>;

pub type SerializeUsize<'a, W> = StageFuture<'a, SerializeUsizeStage<W>>;

pub type SerializeIsize<'a, W> = StageFuture<'a, SerializeIsizeStage<W>>;

impl<'a, T: Scalar, W> AsyncSer<'a, W> for T {
    type SerializeStage = SerializeScalarStage<T, W>;

    open spec fn wire(&self, order: ByteOrder) -> Seq<u8> {
        image(self.number(), T::width(), order)
    }

    fn write_to_stage(&'a self) -> (stage: SerializeScalarStage<T, W>) {
        SerializeScalarStage::new(*self)
    }
}

/// The frame of a byte buffer: the count of its bytes, in the width of a
/// machine word, then the bytes.
pub open spec fn bytes_wire(payload: Seq<u8>, order: ByteOrder) -> Seq<u8> {
    image(payload.len(), usize::width(), order) + payload
}

/// The bytes of a count stage that may be done.
pub open spec fn count_todo<W>(
    length: Stage<SerializeUsizeStage<W>, WriteHalf<W>, (), Error>,
    order: ByteOrder,
) -> Seq<u8> {
    match length {
        Stage::Pending(count) => count.todo(order),
        Stage::Completed(_) => Seq::empty(),
    }
}

/// One poll of a frame: the count first, through its memoizing stage, then
/// what is left of the payload.
fn poll_framed<W>(
    length: &mut Stage<SerializeUsizeStage<W>, WriteHalf<W>, (), Error>,
    count: usize,
    payload: &[u8],
    written: &mut usize,
    shared: &mut WriteHalf<W>,
) -> (out: Poll<Result<(), Error>>)
    ensures
        ({
            let order = old(shared)@.order;
            let todo = count_todo(*old(length), order) + remaining(
                payload@,
                *old(written) as nat,
            );
            let n = write_count(old(shared)@, todo.len());
            &&& final(shared)@ == (WriteView {
                pending: old(shared)@.pending + todo.take(n as int),
                ..old(shared)@
            })
            &&& if n == todo.len() {
                &&& out == Poll::Ready(Ok::<(), Error>(()))
                &&& *final(written) == 0
                &&& *final(length) matches Stage::Pending(stage) && stage.value() == count
                    && stage.written() == 0
            } else {
                &&& out == stalled(old(shared)@.ending)
                &&& count_todo(*final(length), order) + remaining(
                    payload@,
                    *final(written) as nat,
                ) == todo.skip(n as int)
            }
        }),
        final(shared).endpoint_spec() == old(shared).endpoint_spec(),
{
    let ghost order = shared@.order;
    let ghost before = shared@;
    let ghost first = count_todo(*length, order);
    let ghost second = remaining(payload@, *written as nat);
    proof {
        lemma_write_split(before, first, second);
        assert(first.take(0) =~= Seq::<u8>::empty());
        assert(before.pending + Seq::<u8>::empty() =~= before.pending);
        assert(Seq::<u8>::empty() + second =~= second);
    }
    match length.resolve(shared) {
        Poll::Ready(Ok(())) => {},
        Poll::Ready(Err(e)) => {
            return Poll::Ready(Err(e));
        },
        Poll::Pending => {
            return Poll::Pending;
        },
    }
    let out = poll_drain(payload, written, shared);
    match out {
        Poll::Ready(Ok(())) => {
            *written = 0;
            *length = Stage::Pending(SerializeScalarStage::new(count));
        },
        _ => {
            proof {
                assert(Seq::<u8>::empty() + remaining(payload@, *written as nat) =~= remaining(
                    payload@,
                    *written as nat,
                ));
            }
        },
    }
    out
}

/// Encodes a byte buffer: the count of its bytes, then the bytes.
#[verifier::reject_recursive_types(W)]
pub struct SerializeBytes<'a, W> {
    len_fut: Stage<SerializeUsizeStage<W>, WriteHalf<W>, (), Error>,
    buf: &'a [u8],
    written: usize,
}

impl<'a, W> SerializeBytes<'a, W> {
    /// The count: still being written, or out.
    pub closed spec fn length(&self) -> Stage<SerializeUsizeStage<W>, WriteHalf<W>, (), Error> {
        self.len_fut
    }

    /// The bytes of the buffer.
    pub closed spec fn payload(&self) -> Seq<u8> {
        self.buf@
    }

    /// How many bytes of the buffer are out.
    pub closed spec fn written(&self) -> nat {
        self.written as nat
    }

    /// A stage that has written nothing of `buf`.
    pub fn new(buf: &'a [u8]) -> (stage: Self)
        ensures
            stage.payload() == buf@,
            unwritten(&stage),
    {
        let stage = SerializeBytes {
            len_fut: Stage::Pending(SerializeScalarStage::new(buf.len())),
            buf,
            written: 0,
        };
        proof {
            assert(remaining(buf@, 0) =~= buf@);
        }
        stage
    }
}

impl<'a, W> EncodeState for SerializeBytes<'a, W> {
    open spec fn whole(&self, order: ByteOrder) -> Seq<u8> {
        bytes_wire(self.payload(), order)
    }

    open spec fn todo(&self, order: ByteOrder) -> Seq<u8> {
        count_todo(self.length(), order) + remaining(self.payload(), self.written())
    }
}

impl<'a, W> StagePoller for SerializeBytes<'a, W> {
    type Shared = WriteHalf<W>;

    type Output = Result<(), Error>;

    open spec fn polled(
        &self,
        shared: &WriteHalf<W>,
        after: &Self,
        shared_after: &WriteHalf<W>,
        out: &Poll<Result<(), Error>>,
    ) -> bool {
        &&& write_polled::<Self>(self, shared@, after, shared_after@, out)
        &&& shared_after.endpoint_spec() == shared.endpoint_spec()
    }

    fn poll_stage(&mut self, shared: &mut WriteHalf<W>) -> (out: Poll<Result<(), Error>>) {
        let out = poll_framed(
            &mut self.len_fut,
            self.buf.len(),
            self.buf,
            &mut self.written,
            shared,
        );
        proof {
            assert(remaining(self.buf@, 0) =~= self.buf@);
            if out == Poll::Ready(Ok::<(), Error>(())) {
                assert forall|order: ByteOrder| #[trigger]
                    self.todo(order) == self.whole(order) by {
                    let count = self.len_fut->Pending_0;
                    assert(count.whole(order).skip(0) =~= count.whole(order));
                }
            }
        }
        out
    }
}

impl<'a, W> WriteStage<W> for SerializeBytes<'a, W> {
    proof fn lemma_polled(
        &self,
        shared: &WriteHalf<W>,
        after: &Self,
        shared_after: &WriteHalf<W>,
        out: &Poll<Result<(), Error>>,
    ) {
    }
}

impl<'a, W> AsyncSer<'a, W> for [u8] {
    type SerializeStage = SerializeBytes<'a, W>;

    open spec fn wire(&self, order: ByteOrder) -> Seq<u8> {
        bytes_wire(self@, order)
    }

    fn write_to_stage(&'a self) -> (stage: SerializeBytes<'a, W>) {
        SerializeBytes::new(self)
    }
}

impl<'a, W> AsyncSer<'a, W> for Vec<u8> {
    type SerializeStage = SerializeBytes<'a, W>;

    open spec fn wire(&self, order: ByteOrder) -> Seq<u8> {
        bytes_wire(self@, order)
    }

    fn write_to_stage(&'a self) -> (stage: SerializeBytes<'a, W>) {
        SerializeBytes::new(self.as_slice())
    }
}

/// The frame of a string: the frame of its UTF-8 bytes.
pub open spec fn text_wire(chars: Seq<char>, order: ByteOrder) -> Seq<u8> {
    bytes_wire(encode_utf8(chars), order)
}

impl<'a, W> AsyncSer<'a, W> for str {
    type SerializeStage = SerializeBytes<'a, W>;

    open spec fn wire(&self, order: ByteOrder) -> Seq<u8> {
        text_wire(self@, order)
    }

    fn write_to_stage(&'a self) -> (stage: SerializeBytes<'a, W>) {
        SerializeBytes::new(self.as_bytes())
    }
}

impl<'a, W> AsyncSer<'a, W> for String {
    type SerializeStage = SerializeBytes<'a, W>;

    open spec fn wire(&self, order: ByteOrder) -> Seq<u8> {
        text_wire(self@, order)
    }

    fn write_to_stage(&'a self) -> (stage: SerializeBytes<'a, W>) {
        SerializeBytes::new(self.as_str().as_bytes())
    }
}

/// The images of the scalars, one after the other.
pub open spec fn packed<T: Scalar>(items: Seq<T>, order: ByteOrder) -> Seq<u8>
    decreases items.len(),
{
    if items.len() == 0 {
        Seq::empty()
    } else {
        packed::<T>(items.drop_last(), order) + image(items.last().number(), T::width(), order)
    }
}

/// The bytes of the scalars, one after the other.
pub fn pack<T: Scalar>(items: &[T], order: ByteOrder) -> (bytes: Vec<u8>)
    ensures
        bytes@ == packed::<T>(items@, order),
{
    let mut bytes: Vec<u8> = Vec::new();
    let n: usize = items.len();
    let mut i: usize = 0;
    proof {
        assert(items@.take(0).len() == 0);
    }
    while i < n
        invariant
            i <= n,
            n == items@.len(),
            bytes@ == packed::<T>(items@.take(i as int), order),
        decreases n - i,
    {
        let one = items[i].to_wire(order);
        append_range(&mut bytes, one.as_slice(), 0, one.len());
        proof {
            let next = items@.take(i + 1);
            assert(next.drop_last() =~= items@.take(i as int));
            assert(next.last() == items@[i as int]);
            assert(one@.subrange(0, one@.len() as int) =~= one@);
        }
        i = i + 1;
    }
    proof {
        assert(items@.take(n as int) =~= items@);
    }
    bytes
}

/// The frame of an array of scalars: the count of its elements, in the width
/// of a machine word, then the elements.
pub open spec fn array_wire<T: Scalar>(items: Seq<T>, order: ByteOrder) -> Seq<u8> {
    image(items.len(), usize::width(), order) + packed::<T>(items, order)
}

/// Encodes an array of one primitive type: the count of its elements, then
/// the elements, each in the byte order of the half.
#[verifier::reject_recursive_types(W)]
pub struct SerializePrimitiveSlice<'a, T: Primitive, W> {
    len_fut: Stage<SerializeUsizeStage<W>, WriteHalf<W>, (), Error>,
    items: &'a [T],
    flat: Option<Vec<u8>>,
    written: usize,
}

impl<'a, T: Primitive, W> SerializePrimitiveSlice<'a, T, W> {
    /// The count: still being written, or out.
    pub closed spec fn length(&self) -> Stage<SerializeUsizeStage<W>, WriteHalf<W>, (), Error> {
        self.len_fut
    }

    /// The elements of the array.
    pub closed spec fn items(&self) -> Seq<T> {
        self.items@
    }

    /// The bytes of the elements, once the byte order is known.
    pub closed spec fn flat(&self) -> Option<Seq<u8>> {
        match self.flat {
            Some(bytes) => Some(bytes@),
            None => None,
        }
    }

    /// How many bytes of the elements are out.
    pub closed spec fn written(&self) -> nat {
        self.written as nat
    }

    /// A stage that has written nothing of `buf`.
    pub fn new(buf: &'a [T]) -> (stage: Self)
        ensures
            stage.items() == buf@,
            unwritten(&stage),
    {
        SerializePrimitiveSlice {
            len_fut: Stage::Pending(SerializeScalarStage::new(buf.len())),
            items: buf,
            flat: None,
            written: 0,
        }
    }
}

impl<'a, T: Primitive, W> EncodeState for SerializePrimitiveSlice<'a, T, W> {
    open spec fn whole(&self, order: ByteOrder) -> Seq<u8> {
        array_wire::<T>(self.items(), order)
    }

    open spec fn todo(&self, order: ByteOrder) -> Seq<u8> {
        count_todo(self.length(), order) + (match self.flat() {
            Some(bytes) => remaining(bytes, self.written()),
            None => packed::<T>(self.items(), order),
        })
    }
}

impl<'a, T: Primitive, W> StagePoller for SerializePrimitiveSlice<'a, T, W> {
    type Shared = WriteHalf<W>;

    type Output = Result<(), Error>;

    open spec fn polled(
        &self,
        shared: &WriteHalf<W>,
        after: &Self,
        shared_after: &WriteHalf<W>,
        out: &Poll<Result<(), Error>>,
    ) -> bool {
        &&& write_polled::<Self>(self, shared@, after, shared_after@, out)
        &&& shared_after.endpoint_spec() == shared.endpoint_spec()
    }

    fn poll_stage(&mut self, shared: &mut WriteHalf<W>) -> (out: Poll<Result<(), Error>>) {
        let bytes: Vec<u8> = match self.flat.take() {
            Some(bytes) => bytes,
            None => {
                self.written = 0;
                pack::<T>(self.items, shared.order())
            },
        };
        proof {
            assert(remaining(bytes@, 0) =~= bytes@);
        }
        let out = poll_framed(
            &mut self.len_fut,
            self.items.len(),
            bytes.as_slice(),
            &mut self.written,
            shared,
        );
        match out {
            Poll::Ready(Ok(())) => {
                proof {
                    assert forall|order: ByteOrder| #[trigger]
                        self.todo(order) == self.whole(order) by {
                        let count = self.len_fut->Pending_0;
                        assert(count.whole(order).skip(0) =~= count.whole(order));
                    }
                }
            },
            _ => {
                self.flat = Some(bytes);
            },
        }
        out
    }
}

impl<'a, T: Primitive, W> WriteStage<W> for SerializePrimitiveSlice<'a, T, W> {
    proof fn lemma_polled(
        &self,
        shared: &WriteHalf<W>,
        after: &Self,
        shared_after: &WriteHalf<W>,
        out: &Poll<Result<(), Error>>,
    ) {
    }
}

// The encode stage of an array, by element type.

pub type SerializeU16Slice<'a, W> = SerializePrimitiveSlice<'a, u16, W>;

pub type SerializeI16Slice<'a, W> = SerializePrimitiveSlice<'a, i16, W>;

pub type SerializeU32Slice<'a, W> = SerializePrimitiveSlice<'a, u32, W>;

pub type SerializeI32Slice<'a, W> = SerializePrimitiveSlice<'a, i32, W>;

pub type SerializeU64Slice<'a, W> = SerializePrimitiveSlice<'a, u64, W>;

pub type SerializeI64Slice<'a, W> = SerializePrimitiveSlice<'a, i64, W>;

pub type SerializeU128Slice<'a, W> = SerializePrimitiveSlice<'a, u128, W>;

pub type SerializeI128Slice<'a, W> = SerializePrimitiveSlice<'a, i128, W>;

pub type SerializeUsizeSlice<'a, W> = SerializePrimitiveSlice<'a, usize, W>;

pub type SerializeIsizeSlice<'a, W> = SerializePrimitiveSlice<'a, isize, W>;

impl<'a, T: Primitive + 'a, W> AsyncSer<'a, W> for [T] {
    type SerializeStage = SerializePrimitiveSlice<'a, T, W>;

    open spec fn wire(&self, order: ByteOrder) -> Seq<u8> {
        array_wire::<T>(self@, order)
    }

    fn write_to_stage(&'a self) -> (stage: SerializePrimitiveSlice<'a, T, W>) {
        SerializePrimitiveSlice::new(self)
    }
}

impl<'a, T: Primitive + 'a, W> AsyncSer<'a, W> for Vec<T> {
    type SerializeStage = SerializePrimitiveSlice<'a, T, W>;

    open spec fn wire(&self, order: ByteOrder) -> Seq<u8> {
        array_wire::<T>(self@, order)
    }

    fn write_to_stage(&'a self) -> (stage: SerializePrimitiveSlice<'a, T, W>) {
        SerializePrimitiveSlice::new(self.as_slice())
    }
}

/// The bytes of an encode that may not be there.
pub open spec fn optional_whole<S: EncodeState>(stage: Option<S>, order: ByteOrder) -> Seq<u8> {
    match stage {
        Some(inner) => inner.whole(order),
        None => Seq::empty(),
    }
}

/// The bytes that an encode that may not be there has still to write.
pub open spec fn optional_todo<S: EncodeState>(stage: Option<S>, order: ByteOrder) -> Seq<u8> {
    match stage {
        Some(inner) => inner.todo(order),
        None => Seq::empty(),
    }
}

/// The discriminator, unless it is out.
pub open spec fn tag_todo(sent: bool, tag: u8) -> Seq<u8> {
    if sent {
        Seq::empty()
    } else {
        seq![tag]
    }
}

/// One attempt to write the discriminator byte `tag`.
fn poll_tag<W>(tag: u8, shared: &mut WriteHalf<W>) -> (out: Poll<Result<(), Error>>)
    ensures
        ({
            let n = write_count(old(shared)@, 1);
            &&& final(shared)@ == (WriteView {
                pending: old(shared)@.pending + seq![tag].take(n as int),
                ..old(shared)@
            })
            &&& out == if n == 1 {
                Poll::Ready(Ok::<(), Error>(()))
            } else {
                stalled(old(shared)@.ending)
            }
        }),
        final(shared).endpoint_spec() == old(shared).endpoint_spec(),
{
    let mut stage: SerializeScalarStage<u8, W> = SerializeScalarStage::new(tag);
    proof {
        lemma_image_byte(tag, shared@.order);
        assert(seq![tag].skip(0) =~= seq![tag]);
    }
    stage.poll_stage(shared)
}

/// Encodes an optional value: a discriminator byte, 1 or 0, then the inner
/// value if there is one.
pub struct SerializeOption<'a, T: AsyncSer<'a, W>, W> {
    completed_state_stage: bool,
    data: Option<T::SerializeStage>,
}

impl<'a, T: AsyncSer<'a, W>, W> SerializeOption<'a, T, W> {
    /// Whether the discriminator is out.
    pub closed spec fn tag_sent(&self) -> bool {
        self.completed_state_stage
    }

    /// The encode of the inner value, if there is one.
    pub closed spec fn payload(&self) -> Option<T::SerializeStage> {
        self.data
    }

    /// The discriminator: 1 with a value, 0 without.
    pub open spec fn tag(&self) -> u8 {
        if self.payload() is Some {
            1
        } else {
            0
        }
    }

    /// A stage that has written nothing of the optional value.
    pub fn new(data: Option<&'a T>) -> (stage: Self)
        ensures
            unwritten(&stage),
            forall|order: ByteOrder| #[trigger]
                stage.whole(order) == (match data {
                    Some(v) => seq![1u8] + v.wire(order),
                    None => seq![0u8],
                }),
    {
        let stage = SerializeOption {
            completed_state_stage: false,
            data: match data {
                Some(v) => Some(v.write_to_stage()),
                None => None,
            },
        };
        proof {
            assert forall|order: ByteOrder| #[trigger]
                stage.whole(order) == (match data {
                    Some(v) => seq![1u8] + v.wire(order),
                    None => seq![0u8],
                }) by {
                assert(seq![0u8] + Seq::<u8>::empty() =~= seq![0u8]);
            }
        }
        stage
    }
}

impl<'a, T: AsyncSer<'a, W>, W> EncodeState for SerializeOption<'a, T, W> {
    open spec fn whole(&self, order: ByteOrder) -> Seq<u8> {
        seq![self.tag()] + optional_whole(self.payload(), order)
    }

    open spec fn todo(&self, order: ByteOrder) -> Seq<u8> {
        tag_todo(self.tag_sent(), self.tag()) + optional_todo(self.payload(), order)
    }
}

impl<'a, T: AsyncSer<'a, W>, W> StagePoller for SerializeOption<'a, T, W> {
    type Shared = WriteHalf<W>;

    type Output = Result<(), Error>;

    open spec fn polled(
        &self,
        shared: &WriteHalf<W>,
        after: &Self,
        shared_after: &WriteHalf<W>,
        out: &Poll<Result<(), Error>>,
    ) -> bool {
        &&& write_polled::<Self>(self, shared@, after, shared_after@, out)
        &&& shared_after.endpoint_spec() == shared.endpoint_spec()
    }

    fn poll_stage(&mut self, shared: &mut WriteHalf<W>) -> (out: Poll<Result<(), Error>>) {
        let ghost order = shared@.order;
        let ghost before = shared@;
        let ghost first = tag_todo(self.completed_state_stage, self.tag());
        let ghost second = optional_todo(self.data, order);
        proof {
            lemma_write_split(before, first, second);
            assert(before.pending + Seq::<u8>::empty().take(0) =~= before.pending);
        }
        if !self.completed_state_stage {
            let tag: u8 = if self.data.is_some() {
                1
            } else {
                0
            };
            match poll_tag(tag, shared) {
                Poll::Ready(Ok(())) => {
                    self.completed_state_stage = true;
                },
                Poll::Ready(Err(e)) => {
                    proof {
                        assert((first + second).skip(0) =~= first + second);
                        assert(seq![tag].take(0) =~= (first + second).take(0));
                    }
                    return Poll::Ready(Err(e));
                },
                Poll::Pending => {
                    proof {
                        assert((first + second).skip(0) =~= first + second);
                        assert(seq![tag].take(0) =~= (first + second).take(0));
                    }
                    return Poll::Pending;
                },
            }
        }
        let ghost mid = *shared;
        let out = match &mut self.data {
            None => {
                proof {
                    assert(mid@.pending + Seq::<u8>::empty().take(0) =~= mid@.pending);
                }
                Poll::Ready(Ok(()))
            },
            Some(inner) => {
                let ghost inner0 = *inner;
                let polled = inner.poll_stage(shared);
                proof {
                    inner0.lemma_polled(&mid, &*inner, &*shared, &polled);
                }
                polled
            },
        };
        match out {
            Poll::Ready(Ok(())) => {
                self.completed_state_stage = false;
            },
            _ => {
                proof {
                    assert(Seq::<u8>::empty() + optional_todo(self.data, order)
                        =~= optional_todo(self.data, order));
                }
            },
        }
        out
    }
}

impl<'a, T: AsyncSer<'a, W>, W> WriteStage<W> for SerializeOption<'a, T, W> {
    proof fn lemma_polled(
        &self,
        shared: &WriteHalf<W>,
        after: &Self,
        shared_after: &WriteHalf<W>,
        out: &Poll<Result<(), Error>>,
    ) {
    }
}

impl<'a, T: AsyncSer<'a, W> + 'a, W> AsyncSer<'a, W> for Option<T> {
    type SerializeStage = SerializeOption<'a, T, W>;

    open spec fn wire(&self, order: ByteOrder) -> Seq<u8> {
        match *self {
            Some(v) => seq![1u8] + v.wire(order),
            None => seq![0u8],
        }
    }

    fn write_to_stage(&'a self) -> (stage: SerializeOption<'a, T, W>) {
        SerializeOption::new(
            match self {
                Some(v) => Some(v),
                None => None,
            },
        )
    }
}

/// The bytes of the encode of whichever value an outcome holds.
pub open spec fn either_whole<S: EncodeState, F: EncodeState>(
    stage: Result<S, F>,
    order: ByteOrder,
) -> Seq<u8> {
    match stage {
        Ok(inner) => inner.whole(order),
        Err(inner) => inner.whole(order),
    }
}

/// The bytes that the encode of whichever value an outcome holds has still to
/// write.
pub open spec fn either_todo<S: EncodeState, F: EncodeState>(
    stage: Result<S, F>,
    order: ByteOrder,
) -> Seq<u8> {
    match stage {
        Ok(inner) => inner.todo(order),
        Err(inner) => inner.todo(order),
    }
}

/// Encodes a two-variant outcome: a discriminator byte, 1 for success and 0
/// for failure, then the value of that variant.
pub struct SerializeResult<'a, T: AsyncSer<'a, W>, E: AsyncSer<'a, W>, W> {
    completed_state_stage: bool,
    data: Result<T::SerializeStage, E::SerializeStage>,
}

impl<'a, T: AsyncSer<'a, W>, E: AsyncSer<'a, W>, W> SerializeResult<'a, T, E, W> {
    /// Whether the discriminator is out.
    pub closed spec fn tag_sent(&self) -> bool {
        self.completed_state_stage
    }

    /// The encode of the value.
    pub closed spec fn payload(&self) -> Result<T::SerializeStage, E::SerializeStage> {
        self.data
    }

    /// The discriminator: 1 for success, 0 for failure.
    pub open spec fn tag(&self) -> u8 {
        if self.payload() is Ok {
            1
        } else {
            0
        }
    }

    /// A stage that has written nothing of the outcome.
    pub fn new(data: Result<&'a T, &'a E>) -> (stage: Self)
        ensures
            unwritten(&stage),
            forall|order: ByteOrder| #[trigger]
                stage.whole(order) == (match data {
                    Ok(v) => seq![1u8] + v.wire(order),
                    Err(e) => seq![0u8] + e.wire(order),
                }),
    {
        SerializeResult {
            completed_state_stage: false,
            data: match data {
                Ok(v) => Ok(v.write_to_stage()),
                Err(e) => Err(e.write_to_stage()),
            },
        }
    }
}

impl<'a, T: AsyncSer<'a, W>, E: AsyncSer<'a, W>, W> EncodeState for SerializeResult<'a, T, E, W> {
    open spec fn whole(&self, order: ByteOrder) -> Seq<u8> {
        seq![self.tag()] + either_whole(self.payload(), order)
    }

    open spec fn todo(&self, order: ByteOrder) -> Seq<u8> {
        tag_todo(self.tag_sent(), self.tag()) + either_todo(self.payload(), order)
    }
}

impl<'a, T: AsyncSer<'a, W>, E: AsyncSer<'a, W>, W> StagePoller for SerializeResult<'a, T, E, W> {
    type Shared = WriteHalf<W>;

    type Output = Result<(), Error>;

    open spec fn polled(
        &self,
        shared: &WriteHalf<W>,
        after: &Self,
        shared_after: &WriteHalf<W>,
        out: &Poll<Result<(), Error>>,
    ) -> bool {
        &&& write_polled::<Self>(self, shared@, after, shared_after@, out)
        &&& shared_after.endpoint_spec() == shared.endpoint_spec()
    }

    fn poll_stage(&mut self, shared: &mut WriteHalf<W>) -> (out: Poll<Result<(), Error>>) {
        let ghost order = shared@.order;
        let ghost before = shared@;
        let ghost first = tag_todo(self.completed_state_stage, self.tag());
        let ghost second = either_todo(self.data, order);
        proof {
            lemma_write_split(before, first, second);
        }
        if !self.completed_state_stage {
            let tag: u8 = if self.data.is_ok() {
                1
            } else {
                0
            };
            match poll_tag(tag, shared) {
                Poll::Ready(Ok(())) => {
                    self.completed_state_stage = true;
                },
                Poll::Ready(Err(e)) => {
                    proof {
                        assert((first + second).skip(0) =~= first + second);
                        assert(seq![tag].take(0) =~= (first + second).take(0));
                    }
                    return Poll::Ready(Err(e));
                },
                Poll::Pending => {
                    proof {
                        assert((first + second).skip(0) =~= first + second);
                        assert(seq![tag].take(0) =~= (first + second).take(0));
                    }
                    return Poll::Pending;
                },
            }
        }
        let ghost mid = *shared;
        let out = match &mut self.data {
            Ok(inner) => {
                let ghost inner0 = *inner;
                let polled = inner.poll_stage(shared);
                proof {
                    inner0.lemma_polled(&mid, &*inner, &*shared, &polled);
                }
                polled
            },
            Err(inner) => {
                let ghost inner0 = *inner;
                let polled = inner.poll_stage(shared);
                proof {
                    inner0.lemma_polled(&mid, &*inner, &*shared, &polled);
                }
                polled
            },
        };
        match out {
            Poll::Ready(Ok(())) => {
                self.completed_state_stage = false;
            },
            _ => {
                proof {
                    assert(Seq::<u8>::empty() + either_todo(self.data, order) =~= either_todo(
                        self.data,
                        order,
                    ));
                }
            },
        }
        out
    }
}

impl<'a, T: AsyncSer<'a, W>, E: AsyncSer<'a, W>, W> WriteStage<W> for SerializeResult<
    'a,
    T,
    E,
    W,
> {
    proof fn lemma_polled(
        &self,
        shared: &WriteHalf<W>,
        after: &Self,
        shared_after: &WriteHalf<W>,
        out: &Poll<Result<(), Error>>,
    ) {
    }
}

impl<'a, T: AsyncSer<'a, W> + 'a, E: AsyncSer<'a, W> + 'a, W> AsyncSer<'a, W> for Result<T, E> {
    type SerializeStage = SerializeResult<'a, T, E, W>;

    open spec fn wire(&self, order: ByteOrder) -> Seq<u8> {
        match *self {
            Ok(v) => seq![1u8] + v.wire(order),
            Err(e) => seq![0u8] + e.wire(order),
        }
    }

    fn write_to_stage(&'a self) -> (stage: SerializeResult<'a, T, E, W>) {
        SerializeResult::new(
            match self {
                Ok(v) => Ok(v),
                Err(e) => Err(e),
            },
        )
    }
}

} // verus!
