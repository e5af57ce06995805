//! The resumable operation contract and the values that travel on the wire.

pub mod blocking;
pub mod de;
pub mod scalar;
pub mod ser;

use vstd::prelude::*;
use crate::error::Error;
use crate::half::{write_count, Ending, ReadHalf, ReadView, WriteHalf, WriteView};
use crate::order::ByteOrder;
use crate::wire::{image, pow256, value};
use crate::IpcStream;

verus! {

/// The answer of one attempt to make progress.
#[derive(Debug, PartialEq, Eq)]
pub enum Poll<T> {
    /// The operation is done, with this result.
    Ready(T),
    /// The operation could not finish; try again once the transport has moved.
    Pending,
}

/// A resumable operation: one encode or decode that is driven by polling.
///
/// Each poll works against a shared resource, a half of the stream, and either
/// finishes or reports that it is not done yet. Between two polls the stage
/// keeps what it needs to go on byte for byte where it stopped.
pub trait StagePoller {
    /// The resource that every poll works against.
    type Shared;

    /// What the operation yields when it is done.
    type Output;

    /// What one poll may do: the stage and the resource before and after it,
    /// and its answer. Every implementing type says here exactly what its poll
    /// does.
    spec fn polled(
        &self,
        shared: &Self::Shared,
        after: &Self,
        shared_after: &Self::Shared,
        out: &Poll<Self::Output>,
    ) -> bool;

    /// One attempt to make progress.
    fn poll_stage(&mut self, shared: &mut Self::Shared) -> (out: Poll<Self::Output>)
        ensures
            old(self).polled(old(shared), final(self), final(shared), &out),
    ;
}

/// What a run of bytes amounts to when read as one value.
pub enum Parsed<V> {
    /// The bytes are the beginning of a value; more are needed.
    Incomplete,
    /// The bytes begin with a whole value; `rest` are the bytes after it.
    Done { value: V, rest: Seq<u8> },
    /// The bytes begin with a whole frame that is no value; `rest` are the
    /// bytes after it.
    Invalid { rest: Seq<u8> },
}

/// `rest` is what is left of `input` when bytes are taken from its front.
pub open spec fn is_tail(rest: Seq<u8>, input: Seq<u8>) -> bool {
    &&& rest.len() <= input.len()
    &&& rest == input.skip(input.len() - rest.len())
}

/// The tail of a tail is a tail.
pub proof fn lemma_tail_of_tail(inner: Seq<u8>, middle: Seq<u8>, outer: Seq<u8>)
    requires
        is_tail(inner, middle),
        is_tail(middle, outer),
    ensures
        is_tail(inner, outer),
{
    assert(inner =~= outer.skip(outer.len() - inner.len()));
}

impl<V> Parsed<V> {
    /// The bytes after a whole reading of `input` are a tail of `input`.
    pub open spec fn leaves_tail_of(self, input: Seq<u8>) -> bool {
        match self {
            Parsed::Incomplete => true,
            Parsed::Done { value, rest } => is_tail(rest, input),
            Parsed::Invalid { rest } => is_tail(rest, input),
        }
    }

    /// The same reading with `more` bytes after it. A reading that is not
    /// complete has no bytes after it.
    pub open spec fn followed_by(self, more: Seq<u8>) -> Parsed<V> {
        match self {
            Parsed::Incomplete => Parsed::Incomplete,
            Parsed::Done { value, rest } => Parsed::Done { value, rest: rest + more },
            Parsed::Invalid { rest } => Parsed::Invalid { rest: rest + more },
        }
    }
}

/// What a decode reports when its half has run out of bytes.
pub open spec fn starved<T>(ending: Ending) -> Poll<Result<T, Error>> {
    match ending {
        Ending::Open => Poll::Pending,
        Ending::Closed => Poll::Ready(Err(Error::UnexpectedEof)),
        Ending::Failed(e) => Poll::Ready(Err(Error::Transport(e))),
    }
}

/// The state of a decode, as mathematics: what the decode makes of input.
///
/// A decode is described by what it would make of any further input: `rest`.
/// One that has read nothing makes of its input what the format says: `parse`.
pub trait DecodeState<Item>: Sized {
    /// The mathematical value that a decoded item stands for.
    type Model;

    spec fn model(item: &Item) -> Self::Model;

    /// The wire format: what `input` amounts to, read from the start.
    spec fn parse(input: Seq<u8>, order: ByteOrder) -> Parsed<Self::Model>;

    /// What `input` amounts to when it follows the bytes that the decode has
    /// already read.
    spec fn rest(&self, input: Seq<u8>, order: ByteOrder) -> Parsed<Self::Model>;

    /// The format takes bytes from the front of the input, and leaves the
    /// others as they are.
    proof fn lemma_parse_tail(input: Seq<u8>, order: ByteOrder)
        ensures
            Self::parse(input, order).leaves_tail_of(input),
    ;

    /// A decode in progress takes bytes from the front of the input, and
    /// leaves the others as they are.
    proof fn lemma_rest_tail(&self, input: Seq<u8>, order: ByteOrder)
        ensures
            self.rest(input, order).leaves_tail_of(input),
    ;

    /// A reading that is whole stays the same reading when more bytes follow
    /// the input: they are left, after the others.
    proof fn lemma_parse_extends(input: Seq<u8>, more: Seq<u8>, order: ByteOrder)
        requires
            !(Self::parse(input, order) is Incomplete),
        ensures
            Self::parse(input + more, order) == Self::parse(input, order).followed_by(more),
    ;

    /// For a decode in progress too, a reading that is whole stays the same
    /// reading when more bytes follow the input.
    proof fn lemma_rest_extends(&self, input: Seq<u8>, more: Seq<u8>, order: ByteOrder)
        requires
            !(self.rest(input, order) is Incomplete),
        ensures
            self.rest(input + more, order) == self.rest(input, order).followed_by(more),
    ;
}

/// The decode makes of any input what one that has read nothing makes of it.
pub open spec fn fresh<Item, S: DecodeState<Item>>(stage: &S) -> bool {
    forall|input: Seq<u8>, order: ByteOrder| #[trigger]
        stage.rest(input, order) == S::parse(input, order)
}

/// One poll of a decode stage against a half.
///
/// The poll reads the buffered bytes as far as the value goes. If they hold
/// the whole value, it is done with that value and the bytes after it stay in
/// the half. If they hold a whole frame that is no value, it fails with
/// `InvalidData`, and again the bytes after the frame stay. Either way the
/// stage is as new afterwards. Otherwise the poll takes every buffered byte,
/// the ending of the half decides the answer, and the stage will make of any
/// further bytes what it would have made of them after the ones it took.
pub open spec fn read_polled<Item, S: DecodeState<Item>>(
    pre: &S,
    shared: ReadView,
    post: &S,
    shared_after: ReadView,
    out: &Poll<Result<Item, Error>>,
) -> bool {
    &&& shared_after.ending == shared.ending
    &&& shared_after.order == shared.order
    &&& match pre.rest(shared.bytes, shared.order) {
        Parsed::Done { value, rest } => {
            &&& *out matches Poll::Ready(Ok(item)) && S::model(&item) == value
            &&& shared_after.bytes == rest
            &&& fresh::<Item, S>(post)
        },
        Parsed::Invalid { rest } => {
            &&& *out == Poll::<Result<Item, Error>>::Ready(Err(Error::InvalidData))
            &&& shared_after.bytes == rest
            &&& fresh::<Item, S>(post)
        },
        Parsed::Incomplete => {
            &&& *out == starved::<Item>(shared.ending)
            &&& shared_after.bytes == Seq::<u8>::empty()
            &&& forall|more: Seq<u8>| #[trigger]
                post.rest(more, shared.order) == pre.rest(shared.bytes + more, shared.order)
        },
    }
}

/// A decode stage: a resumable operation that reads one value from a read
/// half, and whose poll does what `read_polled` says.
pub trait ReadStage<R, Item>: StagePoller<
    Shared = ReadHalf<R>,
    Output = Result<Item, Error>,
> + DecodeState<Item> {
    /// The poll of a decode stage does what `read_polled` says, and leaves the
    /// endpoint alone.
    proof fn lemma_polled(
        &self,
        shared: &ReadHalf<R>,
        after: &Self,
        shared_after: &ReadHalf<R>,
        out: &Poll<Result<Item, Error>>,
    )
        requires
            self.polled(shared, after, shared_after, out),
        ensures
            read_polled::<Item, Self>(self, shared@, after, shared_after@, out),
            shared_after.endpoint_spec() == shared.endpoint_spec(),
    ;
}

/// What an encode reports when its half takes no more bytes.
pub open spec fn stalled(ending: Ending) -> Poll<Result<(), Error>> {
    match ending {
        Ending::Open => Poll::Pending,
        Ending::Closed => Poll::Ready(Err(Error::WriteZero)),
        Ending::Failed(e) => Poll::Ready(Err(Error::Transport(e))),
    }
}

/// The state of an encode, as mathematics: the bytes it stands for.
pub trait EncodeState: Sized {
    /// All the bytes of the value, in the given order.
    spec fn whole(&self, order: ByteOrder) -> Seq<u8>;

    /// The bytes that are still to be written.
    spec fn todo(&self, order: ByteOrder) -> Seq<u8>;
}

/// The encode has written nothing of its value.
pub open spec fn unwritten<S: EncodeState>(stage: &S) -> bool {
    forall|order: ByteOrder| #[trigger] stage.todo(order) == stage.whole(order)
}

/// One poll of an encode stage against a half.
///
/// The poll writes as many of the remaining bytes as the half takes, in
/// order. If that is all of them, it is done and the stage is as new.
/// Otherwise the stage keeps the bytes that were not taken, and the ending of
/// the half decides the answer. The value that the stage stands for never
/// changes.
pub open spec fn write_polled<S: EncodeState>(
    pre: &S,
    shared: WriteView,
    post: &S,
    shared_after: WriteView,
    out: &Poll<Result<(), Error>>,
) -> bool {
    let todo = pre.todo(shared.order);
    let n = write_count(shared, todo.len());
    &&& shared_after == (WriteView { pending: shared.pending + todo.take(n as int), ..shared })
    &&& forall|order: ByteOrder| #[trigger] post.whole(order) == pre.whole(order)
    &&& if n == todo.len() {
        &&& *out == Poll::Ready(Ok::<(), Error>(()))
        &&& unwritten(post)
    } else {
        &&& *out == stalled(shared.ending)
        &&& post.todo(shared.order) == todo.skip(n as int)
    }
}

/// An encode stage: a resumable operation that writes one value to a write
/// half, and whose poll does what `write_polled` says.
pub trait WriteStage<W>: StagePoller<
    Shared = WriteHalf<W>,
    Output = Result<(), Error>,
> + EncodeState {
    /// The poll of an encode stage does what `write_polled` says, and leaves
    /// the endpoint alone.
    proof fn lemma_polled(
        &self,
        shared: &WriteHalf<W>,
        after: &Self,
        shared_after: &WriteHalf<W>,
        out: &Poll<Result<(), Error>>,
    )
        requires
            self.polled(shared, after, shared_after, out),
        ensures
            write_polled::<Self>(self, shared@, after, shared_after@, out),
            shared_after.endpoint_spec() == shared.endpoint_spec(),
    ;
}

/// Writing `first` and then, if all of it was taken, `second` comes to the
/// same as writing the two as one run of bytes.
pub proof fn lemma_write_split(shared: WriteView, first: Seq<u8>, second: Seq<u8>)
    ensures
        ({
            let n1 = write_count(shared, first.len());
            let mid = WriteView { pending: shared.pending + first.take(n1 as int), ..shared };
            let n2 = write_count(mid, second.len());
            let n = write_count(shared, (first + second).len());
            if n1 == first.len() {
                &&& n == n1 + n2
                &&& mid.pending + second.take(n2 as int) == shared.pending + (first + second).take(
                    n as int,
                )
                &&& second.skip(n2 as int) == (first + second).skip(n as int)
            } else {
                &&& n == n1
                &&& first.take(n1 as int) == (first + second).take(n as int)
                &&& first.skip(n1 as int) + second == (first + second).skip(n as int)
            }
        }),
{
    let n1 = write_count(shared, first.len());
    let mid = WriteView { pending: shared.pending + first.take(n1 as int), ..shared };
    let n2 = write_count(mid, second.len());
    let n = write_count(shared, (first + second).len());
    if n1 == first.len() {
        assert(first.take(n1 as int) =~= first);
        assert(mid.pending.len() == shared.pending.len() + first.len());
        assert(n == n1 + n2);
        assert(mid.pending + second.take(n2 as int) =~= shared.pending + (first + second).take(
            n as int,
        ));
        assert(second.skip(n2 as int) =~= (first + second).skip(n as int));
    } else {
        assert(n == n1);
        assert(first.take(n1 as int) =~= (first + second).take(n as int));
        assert(first.skip(n1 as int) + second =~= (first + second).skip(n as int));
    }
}

/// A stage with a memory: it holds a sub-operation until that is done, and
/// its result from then on.
///
/// The step from pending to completed is taken once and never back. A
/// completed stage is not polled again: resolving it costs nothing and
/// touches nothing.
#[verifier::reject_recursive_types(Shared)]
#[verifier::reject_recursive_types(T)]
#[verifier::reject_recursive_types(E)]
pub enum Stage<F: StagePoller<Shared = Shared, Output = Result<T, E>>, Shared, T, E> {
    Pending(F),
    Completed(T),
}

impl<F: StagePoller<Shared = Shared, Output = Result<T, E>>, Shared, T, E> Stage<F, Shared, T, E> {
    /// The stage after a poll of its sub-operation that left it as `f` and
    /// answered `o`.
    pub open spec fn advanced(f: F, o: Poll<Result<T, E>>) -> Self {
        match o {
            Poll::Ready(Ok(v)) => Stage::Completed(v),
            _ => Stage::Pending(f),
        }
    }

    /// What resolving reports after a poll that answered `o`.
    pub open spec fn signal(o: Poll<Result<T, E>>) -> Poll<Result<(), E>> {
        match o {
            Poll::Ready(Ok(_)) => Poll::Ready(Ok(())),
            Poll::Ready(Err(e)) => Poll::Ready(Err(e)),
            Poll::Pending => Poll::Pending,
        }
    }

    /// What resolving does: nothing to a completed stage; a pending one has
    /// its sub-operation polled once, and completes if that is done.
    pub open spec fn resolved(
        &self,
        shared: &Shared,
        after: &Self,
        shared_after: &Shared,
        out: &Poll<Result<(), E>>,
    ) -> bool {
        match *self {
            Stage::Completed(_) => {
                &&& *after == *self
                &&& *shared_after == *shared
                &&& *out == Poll::Ready(Ok::<(), E>(()))
            },
            Stage::Pending(f) => exists|f2: F, o: Poll<Result<T, E>>|
                {
                    &&& #[trigger] f.polled(shared, &f2, shared_after, &o)
                    &&& *after == Self::advanced(f2, o)
                    &&& *out == Self::signal(o)
                },
        }
    }

    /// Makes sure of the result: polls the sub-operation unless it is done
    /// already. Ready with `Ok` means that the stage is completed.
    pub fn resolve(&mut self, shared: &mut Shared) -> (out: Poll<Result<(), E>>)
        ensures
            old(self).resolved(old(shared), final(self), final(shared), &out),
            out == Poll::Ready(Ok::<(), E>(())) <==> (*final(self) is Completed),
    {
        match self {
            Stage::Completed(_) => Poll::Ready(Ok(())),
            Stage::Pending(f) => {
                let ghost f0 = *f;
                let polled = f.poll_stage(shared);
                let ghost f2 = *f;
                match polled {
                    Poll::Ready(Ok(v)) => {
                        proof {
                            assert(f0.polled(old(shared), &f2, &*shared, &Poll::Ready(Ok(v))));
                        }
                        *self = Stage::Completed(v);
                        Poll::Ready(Ok(()))
                    },
                    Poll::Ready(Err(e)) => {
                        proof {
                            assert(f0.polled(old(shared), &f2, &*shared, &Poll::Ready(Err(e))));
                        }
                        Poll::Ready(Err(e))
                    },
                    Poll::Pending => {
                        proof {
                            assert(f0.polled(old(shared), &f2, &*shared, &Poll::Pending));
                        }
                        Poll::Pending
                    },
                }
            },
        }
    }

    /// The result, once the stage is completed.
    pub fn completed(&self) -> (value: Option<&T>)
        ensures
            value == (match *self {
                Stage::Completed(v) => Some(&v),
                Stage::Pending(_) => None,
            }),
    {
        match self {
            Stage::Completed(v) => Some(v),
            Stage::Pending(_) => None,
        }
    }
}

/// An operation bound to its half of the stream: the stage and the exclusive
/// borrow of the half, for as long as the operation lives.
pub struct StageFuture<'a, S: StagePoller> {
    pub shared: &'a mut S::Shared,
    pub inner: S,
}

impl<'a, S: StagePoller> StageFuture<'a, S> {
    /// Binds the stage to the half.
    pub fn new(shared: &'a mut S::Shared, inner: S) -> (future: Self)
        ensures
            future.inner == inner,
            *future.shared == *old(shared),
            *final(future.shared) == *final(shared),
    {
        StageFuture { shared, inner }
    }

    /// Polls the stage against the half that the operation is bound to.
    pub fn poll(&mut self) -> (out: Poll<S::Output>)
        ensures
            old(self).inner.polled(
                &*old(self).shared,
                &final(self).inner,
                &*final(self).shared,
                &out,
            ),
            *final(final(self).shared) == *final(old(self).shared),
    {
        self.inner.poll_stage(&mut *self.shared)
    }
}

/// A type whose values can be decoded from a read half.
pub trait AsyncDe<R> {
    /// What a decode yields.
    type Owned;

    /// The stage that decodes one value.
    type DeserializeStage: ReadStage<R, Self::Owned>;

    /// A stage that has read nothing.
    fn read_from_stage() -> (stage: Self::DeserializeStage)
        ensures
            fresh::<Self::Owned, Self::DeserializeStage>(&stage),
    ;

    /// A decode of one value from `stream`.
    fn read_from<'a>(stream: &'a mut ReadHalf<R>) -> (future: StageFuture<
        'a,
        Self::DeserializeStage,
    >)
        ensures
            fresh::<Self::Owned, Self::DeserializeStage>(&future.inner),
            *future.shared == *old(stream),
            *final(future.shared) == *final(stream),
    {
        StageFuture::new(stream, Self::read_from_stage())
    }
}

/// A type whose values can be encoded to a write half.
pub trait AsyncSer<'a, W> {
    /// The stage that encodes one value.
    type SerializeStage: WriteStage<W>;

    /// The bytes of the value on the wire, in the given order.
    spec fn wire(&self, order: ByteOrder) -> Seq<u8>;

    /// A stage that has written nothing of the value.
    fn write_to_stage(&'a self) -> (stage: Self::SerializeStage)
        ensures
            unwritten(&stage),
            forall|order: ByteOrder| #[trigger] stage.whole(order) == self.wire(order),
    ;

    /// An encode of the value to `stream`.
    fn write_to(&'a self, stream: &'a mut WriteHalf<W>) -> (future: StageFuture<
        'a,
        Self::SerializeStage,
    >)
        ensures
            unwritten(&future.inner),
            forall|order: ByteOrder| #[trigger] future.inner.whole(order) == self.wire(order),
            *future.shared == *old(stream),
            *final(future.shared) == *final(stream),
    {
        StageFuture::new(stream, self.write_to_stage())
    }
}

/// A type whose values a duplex stream both writes and reads: every type
/// with an encode stage and a decode stage.
pub trait AsyncSerDe<'a, R, W>: AsyncSer<'a, W> + AsyncDe<R> {
    /// An encode of the value to the write half of `stream`.
    fn write_to(&'a self, stream: &'a mut IpcStream<R, W>) -> (future: StageFuture<
        'a,
        <Self as AsyncSer<'a, W>>::SerializeStage,
    >)
        ensures
            unwritten(&future.inner),
            forall|order: ByteOrder| #[trigger] future.inner.whole(order) == self.wire(order),
            *future.shared == old(stream).writer(),
            final(stream).writer() == *final(future.shared),
            final(stream).reader() == old(stream).reader(),
    ;

    /// A decode of one value from the read half of `stream`.
    fn from_reader(stream: &'a mut IpcStream<R, W>) -> (future: StageFuture<
        'a,
        <Self as AsyncDe<R>>::DeserializeStage,
    >)
        ensures
            fresh::<<Self as AsyncDe<R>>::Owned, <Self as AsyncDe<R>>::DeserializeStage>(
                &future.inner,
            ),
            *future.shared == old(stream).reader(),
            final(stream).reader() == *final(future.shared),
            final(stream).writer() == old(stream).writer(),
    ;
}

impl<'a, R, W, T: AsyncSer<'a, W> + AsyncDe<R> + ?Sized> AsyncSerDe<'a, R, W> for T {
    fn write_to(&'a self, stream: &'a mut IpcStream<R, W>) -> (future: StageFuture<
        'a,
        <T as AsyncSer<'a, W>>::SerializeStage,
    >) {
        <T as AsyncSer<'a, W>>::write_to(self, stream.write_half_mut())
    }

    fn from_reader(stream: &'a mut IpcStream<R, W>) -> (future: StageFuture<
        'a,
        <T as AsyncDe<R>>::DeserializeStage,
    >) {
        <T as AsyncDe<R>>::read_from(stream.read_half_mut())
    }
}

/// The operation that encodes a `T` to a write half over `W`.
pub type SerializeFuture<'a, T, W> = StageFuture<'a, <T as AsyncSer<'a, W>>::SerializeStage>;

/// The operation that decodes a `T` from a read half over `R`.
pub type DeserializeFuture<'a, T, R> = StageFuture<'a, <T as AsyncDe<R>>::DeserializeStage>;

/// A fixed-width integer that travels as its raw bit pattern.
///
/// `number` reads the bit pattern as an unsigned number, so a negative value
/// of a signed type has the number of its two's complement.
pub trait Scalar: Copy + Sized {
    /// How many bytes the type takes on the wire.
    spec fn width() -> nat;

    /// The value's bit pattern as an unsigned number.
    spec fn number(self) -> nat;

    /// The value whose bit pattern is `n`.
    spec fn of_number(n: nat) -> Self;

    proof fn lemma_width()
        ensures
            1 <= Self::width() <= 16,
    ;

    /// A value's number fits the width, and names the value.
    proof fn lemma_number(v: Self)
        ensures
            v.number() < pow256(Self::width()),
            Self::of_number(v.number()) == v,
    ;

    /// Every number that fits the width is the number of a value.
    proof fn lemma_of_number(n: nat)
        requires
            n < pow256(Self::width()),
        ensures
            Self::of_number(n).number() == n,
    ;

    fn size() -> (w: usize)
        ensures
            w == Self::width(),
    ;

    /// The bytes of the value in the given order.
    fn to_wire(self, order: ByteOrder) -> (bytes: Vec<u8>)
        ensures
            bytes@ == image(self.number(), Self::width(), order),
    ;

    /// The value that `bytes` carry in the given order.
    fn from_wire(bytes: &[u8], order: ByteOrder) -> (v: Self)
        requires
            bytes@.len() == Self::width(),
        ensures
            v == Self::of_number(value(bytes@, order)),
    ;
}

/// A scalar of one byte.
pub trait Byte: Scalar {
    proof fn lemma_single()
        ensures
            Self::width() == 1,
    ;
}

/// A scalar of more than one byte: the element type of a primitive array.
pub trait Primitive: Scalar {
    proof fn lemma_several()
        ensures
            Self::width() >= 2,
    ;
}

} // verus!
