//! The decode stages.

use vstd::prelude::*;
use vstd::pervasive::unreached;
use vstd::slice::slice_subrange;
use vstd::string::*;
use vstd::utf8::*;
use core::marker::PhantomData;
use crate::error::Error;
use crate::half::ReadHalf;
use crate::order::ByteOrder;
use crate::serde::{
    fresh, lemma_tail_of_tail, read_polled, starved, AsyncDe, DecodeState, Parsed, Poll,
    Primitive, ReadStage, Scalar, Stage, StageFuture, StagePoller,
};
use crate::wire::value;

verus! {

/// How many bytes are missing when `have` of `want` are there.
pub open spec fn missing(have: nat, want: nat) -> nat {
    if have <= want {
        (want - have) as nat
    } else {
        0
    }
}

/// Collecting `want` bytes, of which `have` are there already: what `input`
/// amounts to. The value is the run of `want` bytes.
pub open spec fn gather(have: Seq<u8>, want: nat, input: Seq<u8>) -> Parsed<Seq<u8>> {
    let need = missing(have.len(), want);
    if input.len() >= need {
        Parsed::Done {
            value: (have + input.take(need as int)).take(want as int),
            rest: input.skip(need as int),
        }
    } else {
        Parsed::Incomplete
    }
}

/// Bytes that were not enough can be counted as collected: what follows them
/// is read as it would have been after them.
pub proof fn lemma_gather_resume(have: Seq<u8>, want: nat, taken: Seq<u8>, more: Seq<u8>)
    requires
        gather(have, want, taken) is Incomplete,
    ensures
        gather(have + taken, want, more) == gather(have, want, taken + more),
{
    let need0 = missing(have.len(), want);
    let need1 = missing((have + taken).len(), want);
    assert(need1 + taken.len() == need0);
    if more.len() >= need1 {
        assert((have + taken) + more.take(need1 as int) =~= have + (taken + more).take(
            need0 as int,
        ));
        assert(more.skip(need1 as int) =~= (taken + more).skip(need0 as int));
    }
}

/// A whole value stays the same value when more bytes follow it.
pub proof fn lemma_gather_extend(have: Seq<u8>, want: nat, input: Seq<u8>, more: Seq<u8>)
    requires
        gather(have, want, input) is Done,
    ensures
        gather(have, want, input + more) == gather(have, want, input).followed_by(more),
{
    let need = missing(have.len(), want);
    assert((input + more).take(need as int) =~= input.take(need as int));
    assert((input + more).skip(need as int) =~= input.skip(need as int) + more);
}

/// Reads from the half into `got` until it holds `want` bytes, or the half has
/// no more to give.
pub fn poll_fill<R>(got: &mut Vec<u8>, want: usize, shared: &mut ReadHalf<R>) -> (out: Poll<
    Result<(), Error>,
>)
    ensures
        final(shared)@.ending == old(shared)@.ending,
        final(shared)@.order == old(shared)@.order,
        final(shared).endpoint_spec() == old(shared).endpoint_spec(),
        match gather(old(got)@, want as nat, old(shared)@.bytes) {
            Parsed::Done { value, rest } => {
                &&& out == Poll::Ready(Ok::<(), Error>(()))
                &&& final(got)@.len() >= want
                &&& final(got)@.take(want as int) == value
                &&& final(shared)@.bytes == rest
            },
            _ => {
                &&& out == starved::<()>(old(shared)@.ending)
                &&& final(got)@ == old(got)@ + old(shared)@.bytes
                &&& final(shared)@.bytes == Seq::<u8>::empty()
            },
        },
{
    while got.len() < want
        invariant
            got@ + shared@.bytes == old(got)@ + old(shared)@.bytes,
            old(got)@.len() <= got@.len(),
            old(got)@.len() < want ==> got@.len() <= want,
            old(got)@.len() >= want ==> got@ == old(got)@ && shared@.bytes == old(shared)@.bytes,
            shared@.ending == old(shared)@.ending,
            shared@.order == old(shared)@.order,
            shared.endpoint_spec() == old(shared).endpoint_spec(),
        decreases want - got@.len(),
    {
        let need: usize = want - got.len();
        let ghost before = got@;
        let ghost avail = shared@.bytes;
        let polled = shared.poll_read(got, need);
        proof {
            assert(got@ + shared@.bytes =~= before + avail);
        }
        let ended: Option<Poll<Result<(), Error>>> = match polled {
            Poll::Ready(Ok(n)) => if n == 0 {
                Some(Poll::Ready(Err(Error::UnexpectedEof)))
            } else {
                None
            },
            Poll::Ready(Err(e)) => Some(Poll::Ready(Err(Error::Transport(e)))),
            Poll::Pending => Some(Poll::Pending),
        };
        if let Some(out) = ended {
            proof {
                assert(shared@.bytes =~= Seq::<u8>::empty());
                assert(got@ =~= old(got)@ + old(shared)@.bytes);
            }
            return out;
        }
    }
    proof {
        let have = old(got)@;
        let all = old(shared)@.bytes;
        let need = missing(have.len(), want as nat);
        assert(got@.len() == have.len() + need);
        assert((got@ + shared@.bytes).len() == (have + all).len());
        assert forall|i: int| 0 <= i < shared@.bytes.len() implies shared@.bytes[i] == all[need
            + i] by {
            assert((got@ + shared@.bytes)[got@.len() + i] == shared@.bytes[i]);
            assert((have + all)[have.len() + need + i] == all[need + i]);
        }
        assert(shared@.bytes =~= all.skip(need as int));
        assert forall|i: int| 0 <= i < got@.len() implies got@[i] == (have + all.take(
            need as int,
        ))[i] by {
            assert((got@ + shared@.bytes)[i] == got@[i]);
        }
        assert(got@ =~= have + all.take(need as int));
    }
    Poll::Ready(Ok(()))
}

/// What `input` amounts to as the rest of a scalar of which the bytes `got`
/// have been read.
pub open spec fn scalar_rest<T: Scalar>(got: Seq<u8>, input: Seq<u8>, order: ByteOrder) -> Parsed<
    T,
> {
    match gather(got, T::width(), input) {
        Parsed::Done { value: bytes, rest } => Parsed::Done {
            value: T::of_number(value(bytes, order)),
            rest,
        },
        Parsed::Invalid { rest } => Parsed::Invalid { rest },
        Parsed::Incomplete => Parsed::Incomplete,
    }
}

/// Decodes one scalar: collects the bytes of its width, over as many polls as
/// it takes, and reads them in the byte order of the half.
pub struct DeserializeScalarStage<T: Scalar, R> {
    got: Vec<u8>,
    item: PhantomData<T>,
    shared: PhantomData<R>,
}

impl<T: Scalar, R> DeserializeScalarStage<T, R> {
    /// The bytes of the value that have been read so far.
    pub closed spec fn got(&self) -> Seq<u8> {
        self.got@
    }

    /// A stage that has read nothing.
    pub fn new() -> (stage: Self)
        ensures
            stage.got() == Seq::<u8>::empty(),
            fresh::<T, Self>(&stage),
    {
        DeserializeScalarStage { got: Vec::new(), item: PhantomData, shared: PhantomData }
    }
}

impl<T: Scalar, R> Default for DeserializeScalarStage<T, R> {
    fn default() -> (stage: Self)
        ensures
            stage.got() == Seq::<u8>::empty(),
            fresh::<T, Self>(&stage),
    {
        Self::new()
    }
}

impl<T: Scalar, R> StagePoller for DeserializeScalarStage<T, R> {
    type Shared = ReadHalf<R>;

    type Output = Result<T, Error>;

    open spec fn polled(
        &self,
        shared: &ReadHalf<R>,
        after: &Self,
        shared_after: &ReadHalf<R>,
        out: &Poll<Result<T, Error>>,
    ) -> bool {
        &&& read_polled::<T, Self>(self, shared@, after, shared_after@, out)
        &&& shared_after.endpoint_spec() == shared.endpoint_spec()
    }

    fn poll_stage(&mut self, shared: &mut ReadHalf<R>) -> (out: Poll<Result<T, Error>>) {
        let width: usize = T::size();
        let ghost order = shared@.order;
        match poll_fill(&mut self.got, width, shared) {
            Poll::Ready(Ok(())) => {
                let v = T::from_wire(
                    vstd::slice::slice_subrange(self.got.as_slice(), 0, width),
                    shared.order(),
                );
                self.got.clear();
                proof {
                    assert(self.got() =~= Seq::<u8>::empty());
                }
                Poll::Ready(Ok(v))
            },
            Poll::Ready(Err(e)) => {
                proof {
                    assert forall|more: Seq<u8>| #[trigger]
                        self.rest(more, order) == old(self).rest(old(shared)@.bytes + more, order) by {
                        lemma_gather_resume(old(self).got(), T::width(), old(shared)@.bytes, more);
                    }
                }
                Poll::Ready(Err(e))
            },
            Poll::Pending => {
                proof {
                    assert forall|more: Seq<u8>| #[trigger]
                        self.rest(more, order) == old(self).rest(old(shared)@.bytes + more, order) by {
                        lemma_gather_resume(old(self).got(), T::width(), old(shared)@.bytes, more);
                    }
                }
                Poll::Pending
            },
        }
    }
}

impl<T: Scalar, R> DecodeState<T> for DeserializeScalarStage<T, R> {
    type Model = T;

    open spec fn model(item: &T) -> T {
        *item
    }

    open spec fn parse(input: Seq<u8>, order: ByteOrder) -> Parsed<T> {
        scalar_rest::<T>(Seq::empty(), input, order)
    }

    open spec fn rest(&self, input: Seq<u8>, order: ByteOrder) -> Parsed<T> {
        scalar_rest::<T>(self.got(), input, order)
    }

    proof fn lemma_parse_tail(input: Seq<u8>, order: ByteOrder) {
    }

    proof fn lemma_rest_tail(&self, input: Seq<u8>, order: ByteOrder) {
    }

    proof fn lemma_parse_extends(input: Seq<u8>, more: Seq<u8>, order: ByteOrder) {
        lemma_gather_extend(Seq::empty(), T::width(), input, more);
    }

    proof fn lemma_rest_extends(&self, input: Seq<u8>, more: Seq<u8>, order: ByteOrder) {
        lemma_gather_extend(self.got(), T::width(), input, more);
    }
}

impl<T: Scalar, R> ReadStage<R, T> for DeserializeScalarStage<T, R> {
    proof fn lemma_polled(
        &self,
        shared: &ReadHalf<R>,
        after: &Self,
        shared_after: &ReadHalf<R>,
        out: &Poll<Result<T, Error>>,
    ) {
    }
}


// The decode stage of every scalar type, and the operation bound to a half.

pub type DeserializeU8Stage<R> = DeserializeScalarStage<u8, R>;

pub type DeserializeI8Stage<R> = DeserializeScalarStage<i8, R>;

pub type DeserializeU16Stage<R> = DeserializeScalarStage<u16, R>;

pub type DeserializeI16Stage<R> = DeserializeScalarStage<i16, R>;

pub type DeserializeU32Stage<R> = DeserializeScalarStage<u32, R>;

pub type DeserializeI32Stage<R> = DeserializeScalarStage<i32, R>;

pub type DeserializeU64Stage<R> = DeserializeScalarStage<u64, R>;

pub type DeserializeI64Stage<R> = DeserializeScalarStage<i64, R>;

pub type DeserializeU128Stage<R> = DeserializeScalarStage<u128, R>;

pub type DeserializeI128Stage<R> = DeserializeScalarStage<i128, R>;

pub type DeserializeUsizeStage<R> = DeserializeScalarStage<usize, R>;

pub type DeserializeIsizeStage<R> = DeserializeScalarStage<isize, R>;

pub type DeserializeU8<'a, R> = StageFuture<'a, DeserializeU8Stage<R>>;

pub type DeserializeI8<'a, R> = StageFuture<'a, DeserializeI8Stage<R>>;

pub type DeserializeU16<'a, R> = StageFuture<'a, DeserializeU16Stage<R>>;

pub type DeserializeI16<'a, R> = StageFuture<'a, DeserializeI16Stage<R>>;

pub type DeserializeU32<'a, R> = StageFuture<'a, DeserializeU32Stage<R>>;

pub type DeserializeI32<'a, R> = StageFuture<'a, DeserializeI32Stage<R>>;

pub type DeserializeU64<'a, R> = StageFuture<'a, DeserializeU64Stage<R>>;

pub type DeserializeI64<'a, R> = StageFuture<'a, DeserializeI64Stage<R>>;

pub type DeserializeU128<'a, R> = StageFuture<'a, DeserializeU128Stage<R>>;

pub type DeserializeI128<'a, R> = StageFuture<'a, DeserializeI128Stage<R>>;

pub type DeserializeUsize<'a, R> = StageFuture<'a, DeserializeUsizeStage<R>>;

pub type DeserializeIsize<'a, R> = StageFuture<'a, DeserializeIsizeStage<R>>;

impl<T: Scalar, R> AsyncDe<R> for T {
    type Owned = T;

    type DeserializeStage = DeserializeScalarStage<T, R>;

    fn read_from_stage() -> (stage: DeserializeScalarStage<T, R>) {
        DeserializeScalarStage::new()
    }
}

/// A scalar that is whole stays the same scalar when more bytes follow it.
pub proof fn lemma_scalar_extend<T: Scalar>(
    got: Seq<u8>,
    input: Seq<u8>,
    more: Seq<u8>,
    order: ByteOrder,
)
    requires
        !(scalar_rest::<T>(got, input, order) is Incomplete),
    ensures
        scalar_rest::<T>(got, input + more, order) == scalar_rest::<T>(
            got,
            input,
            order,
        ).followed_by(more),
{
    lemma_gather_extend(got, T::width(), input, more);
}

/// The payload of a frame whose count is known: `count` units of `unit`
/// bytes each, of which `have` are there. A payload that no buffer of this
/// machine could hold is no value.
pub open spec fn frame_body(count: nat, unit: nat, have: Seq<u8>, input: Seq<u8>) -> Parsed<
    Seq<u8>,
> {
    if count * unit > usize::MAX {
        Parsed::Invalid { rest: input }
    } else {
        gather(have, count * unit, input)
    }
}

/// What follows the count of a frame.
pub open spec fn frame_after(count: Parsed<usize>, unit: nat, have: Seq<u8>) -> Parsed<Seq<u8>> {
    match count {
        Parsed::Incomplete => Parsed::Incomplete,
        Parsed::Invalid { rest } => Parsed::Invalid { rest },
        Parsed::Done { value, rest } => frame_body(value as nat, unit, have, rest),
    }
}

/// The frame of a variable-length payload: a count of the width of a machine
/// word, then count times `unit` bytes. The value is the payload.
pub open spec fn frame_parse(unit: nat, input: Seq<u8>, order: ByteOrder) -> Parsed<Seq<u8>> {
    frame_after(scalar_rest::<usize>(Seq::empty(), input, order), unit, Seq::empty())
}

/// What `input` amounts to for a frame in progress.
pub open spec fn frame_rest<R>(
    length: Stage<DeserializeUsizeStage<R>, ReadHalf<R>, usize, Error>,
    have: Seq<u8>,
    unit: nat,
    input: Seq<u8>,
    order: ByteOrder,
) -> Parsed<Seq<u8>> {
    match length {
        Stage::Pending(count) => frame_after(count.rest(input, order), unit, have),
        Stage::Completed(count) => frame_body(count as nat, unit, have, input),
    }
}

/// A frame takes bytes from the front of the input.
pub proof fn lemma_frame_after_tail(
    count: Parsed<usize>,
    unit: nat,
    have: Seq<u8>,
    input: Seq<u8>,
)
    requires
        count.leaves_tail_of(input),
    ensures
        frame_after(count, unit, have).leaves_tail_of(input),
{
    match count {
        Parsed::Done { value, rest } => {
            match frame_body(value as nat, unit, have, rest) {
                Parsed::Done { value: payload, rest: left } => {
                    lemma_tail_of_tail(left, rest, input);
                },
                _ => {},
            }
        },
        _ => {},
    }
}

/// A frame in progress takes bytes from the front of the input.
pub proof fn lemma_frame_rest_tail<R>(
    length: Stage<DeserializeUsizeStage<R>, ReadHalf<R>, usize, Error>,
    have: Seq<u8>,
    unit: nat,
    input: Seq<u8>,
    order: ByteOrder,
)
    ensures
        frame_rest(length, have, unit, input, order).leaves_tail_of(input),
{
    match length {
        Stage::Pending(count) => {
            lemma_frame_after_tail(count.rest(input, order), unit, have, input);
        },
        Stage::Completed(_) => {
            assert(input.skip(0) =~= input);
        },
    }
}

/// A frame that is whole stays the same frame when more bytes follow it.
pub proof fn lemma_frame_after_extends(
    count: Parsed<usize>,
    longer: Parsed<usize>,
    unit: nat,
    have: Seq<u8>,
    more: Seq<u8>,
)
    requires
        !(frame_after(count, unit, have) is Incomplete),
        longer == count.followed_by(more),
    ensures
        frame_after(longer, unit, have) == frame_after(count, unit, have).followed_by(more),
{
    match count {
        Parsed::Done { value, rest } => {
            if value * unit <= usize::MAX {
                lemma_gather_extend(have, value as nat * unit, rest, more);
            }
        },
        _ => {},
    }
}

/// A frame in progress that is whole stays the same frame when more bytes
/// follow it.
pub proof fn lemma_frame_rest_extends<R>(
    length: Stage<DeserializeUsizeStage<R>, ReadHalf<R>, usize, Error>,
    have: Seq<u8>,
    unit: nat,
    input: Seq<u8>,
    more: Seq<u8>,
    order: ByteOrder,
)
    requires
        !(frame_rest(length, have, unit, input, order) is Incomplete),
    ensures
        frame_rest(length, have, unit, input + more, order) == frame_rest(
            length,
            have,
            unit,
            input,
            order,
        ).followed_by(more),
{
    match length {
        Stage::Pending(count) => {
            lemma_scalar_extend::<usize>(count.got(), input, more, order);
            lemma_frame_after_extends(
                count.rest(input, order),
                count.rest(input + more, order),
                unit,
                have,
                more,
            );
        },
        Stage::Completed(n) => {
            if n * unit <= usize::MAX {
                lemma_gather_extend(have, n as nat * unit, input, more);
            }
        },
    }
}

/// One poll of a frame: the count first, through its memoizing stage, then
/// the payload into `data`.
fn poll_frame<R>(
    length: &mut Stage<DeserializeUsizeStage<R>, ReadHalf<R>, usize, Error>,
    data: &mut Vec<u8>,
    unit: usize,
    shared: &mut ReadHalf<R>,
) -> (out: Poll<Result<Vec<u8>, Error>>)
    ensures
        final(shared)@.ending == old(shared)@.ending,
        final(shared)@.order == old(shared)@.order,
        final(shared).endpoint_spec() == old(shared).endpoint_spec(),
        match frame_rest(
            *old(length),
            old(data)@,
            unit as nat,
            old(shared)@.bytes,
            old(shared)@.order,
        ) {
            Parsed::Done { value, rest } => {
                &&& out matches Poll::Ready(Ok(payload)) && payload@ == value
                &&& final(shared)@.bytes == rest
                &&& *final(length) matches Stage::Pending(count) && count.got() == Seq::<u8>::empty()
                &&& final(data)@ == Seq::<u8>::empty()
            },
            Parsed::Invalid { rest } => {
                &&& out == Poll::<Result<Vec<u8>, Error>>::Ready(Err(Error::InvalidData))
                &&& final(shared)@.bytes == rest
                &&& *final(length) matches Stage::Pending(count) && count.got() == Seq::<u8>::empty()
                &&& final(data)@ == Seq::<u8>::empty()
            },
            Parsed::Incomplete => {
                &&& out == starved::<Vec<u8>>(old(shared)@.ending)
                &&& final(shared)@.bytes == Seq::<u8>::empty()
                &&& forall|more: Seq<u8>| #[trigger]
                    frame_rest(*final(length), final(data)@, unit as nat, more, old(shared)@.order)
                        == frame_rest(
                        *old(length),
                        old(data)@,
                        unit as nat,
                        old(shared)@.bytes + more,
                        old(shared)@.order,
                    )
            },
        },
{
    let ghost order = shared@.order;
    let ghost avail = shared@.bytes;
    let ghost have = data@;
    let resolved = length.resolve(shared);
    let ghost mid = shared@.bytes;
    proof {
        match *old(length) {
            Stage::Pending(count) => {
                assert forall|more: Seq<u8>|
                    !(count.rest(avail, order) is Incomplete) implies #[trigger] count.rest(
                    avail + more,
                    order,
                ) == count.rest(avail, order).followed_by(more) by {
                    lemma_scalar_extend::<usize>(count.got(), avail, more, order);
                }
            },
            Stage::Completed(_) => {},
        }
    }
    match resolved {
        Poll::Ready(Ok(())) => {},
        Poll::Ready(Err(e)) => {
            return Poll::Ready(Err(e));
        },
        Poll::Pending => {
            return Poll::Pending;
        },
    }
    let count: usize = match length.completed() {
        Some(n) => *n,
        None => unreached(),
    };
    match count.checked_mul(unit) {
        None => {
            *length = Stage::Pending(DeserializeScalarStage::new());
            data.clear();
            Poll::Ready(Err(Error::InvalidData))
        },
        Some(want) => {
            let filled = poll_fill(data, want, shared);
            match filled {
                Poll::Ready(Ok(())) => {
                    let mut payload: Vec<u8> = Vec::new();
                    core::mem::swap(&mut payload, data);
                    payload.truncate(want);
                    *length = Stage::Pending(DeserializeScalarStage::new());
                    proof {
                        assert(payload@ =~= gather(have, want as nat, mid)->value);
                    }
                    Poll::Ready(Ok(payload))
                },
                Poll::Ready(Err(e)) => {
                    proof {
                        assert forall|more: Seq<u8>| #[trigger]
                            frame_rest(*length, data@, unit as nat, more, order) == frame_rest(
                                *old(length),
                                have,
                                unit as nat,
                                avail + more,
                                order,
                            ) by {
                            lemma_gather_resume(have, want as nat, mid, more);
                        }
                    }
                    Poll::Ready(Err(e))
                },
                Poll::Pending => {
                    proof {
                        assert forall|more: Seq<u8>| #[trigger]
                            frame_rest(*length, data@, unit as nat, more, order) == frame_rest(
                                *old(length),
                                have,
                                unit as nat,
                                avail + more,
                                order,
                            ) by {
                            lemma_gather_resume(have, want as nat, mid, more);
                        }
                    }
                    Poll::Pending
                },
            }
        },
    }
}

/// Decodes a byte buffer: a count, then that many bytes. The bytes are
/// collected as they arrive, so that no byte of the buffer is ever exposed
/// before it was read.
#[verifier::reject_recursive_types(R)]
pub struct DeserializeBytesStage<R> {
    len_fut: Stage<DeserializeUsizeStage<R>, ReadHalf<R>, usize, Error>,
    data: Vec<u8>,
}

impl<R> DeserializeBytesStage<R> {
    /// The count: still being read, or known.
    pub closed spec fn length(&self) -> Stage<DeserializeUsizeStage<R>, ReadHalf<R>, usize, Error> {
        self.len_fut
    }

    /// The payload bytes that have been read so far.
    pub closed spec fn data(&self) -> Seq<u8> {
        self.data@
    }

    /// A stage that has read nothing.
    pub fn new() -> (stage: Self)
        ensures
            fresh::<Vec<u8>, Self>(&stage),
    {
        DeserializeBytesStage {
            len_fut: Stage::Pending(DeserializeScalarStage::new()),
            data: Vec::new(),
        }
    }
}

impl<R> Default for DeserializeBytesStage<R> {
    fn default() -> (stage: Self)
        ensures
            fresh::<Vec<u8>, Self>(&stage),
    {
        Self::new()
    }
}

impl<R> DecodeState<Vec<u8>> for DeserializeBytesStage<R> {
    type Model = Seq<u8>;

    open spec fn model(item: &Vec<u8>) -> Seq<u8> {
        item@
    }

    open spec fn parse(input: Seq<u8>, order: ByteOrder) -> Parsed<Seq<u8>> {
        frame_parse(1, input, order)
    }

    open spec fn rest(&self, input: Seq<u8>, order: ByteOrder) -> Parsed<Seq<u8>> {
        frame_rest(self.length(), self.data(), 1, input, order)
    }

    proof fn lemma_parse_tail(input: Seq<u8>, order: ByteOrder) {
        lemma_frame_after_tail(
            scalar_rest::<usize>(Seq::empty(), input, order),
            1,
            Seq::empty(),
            input,
        );
    }

    proof fn lemma_rest_tail(&self, input: Seq<u8>, order: ByteOrder) {
        lemma_frame_rest_tail(self.length(), self.data(), 1, input, order);
    }

    proof fn lemma_parse_extends(input: Seq<u8>, more: Seq<u8>, order: ByteOrder) {
        lemma_scalar_extend::<usize>(Seq::empty(), input, more, order);
        lemma_frame_after_extends(
            scalar_rest::<usize>(Seq::empty(), input, order),
            scalar_rest::<usize>(Seq::empty(), input + more, order),
            1,
            Seq::empty(),
            more,
        );
    }

    proof fn lemma_rest_extends(&self, input: Seq<u8>, more: Seq<u8>, order: ByteOrder) {
        lemma_frame_rest_extends(self.length(), self.data(), 1, input, more, order);
    }
}

impl<R> StagePoller for DeserializeBytesStage<R> {
    type Shared = ReadHalf<R>;

    type Output = Result<Vec<u8>, Error>;

    open spec fn polled(
        &self,
        shared: &ReadHalf<R>,
        after: &Self,
        shared_after: &ReadHalf<R>,
        out: &Poll<Result<Vec<u8>, Error>>,
    ) -> bool {
        &&& read_polled::<Vec<u8>, Self>(self, shared@, after, shared_after@, out)
        &&& shared_after.endpoint_spec() == shared.endpoint_spec()
    }

    fn poll_stage(&mut self, shared: &mut ReadHalf<R>) -> (out: Poll<Result<Vec<u8>, Error>>) {
        poll_frame(&mut self.len_fut, &mut self.data, 1, shared)
    }
}

impl<R> ReadStage<R, Vec<u8>> for DeserializeBytesStage<R> {
    proof fn lemma_polled(
        &self,
        shared: &ReadHalf<R>,
        after: &Self,
        shared_after: &ReadHalf<R>,
        out: &Poll<Result<Vec<u8>, Error>>,
    ) {
    }
}

impl<R> AsyncDe<R> for [u8] {
    type Owned = Vec<u8>;

    type DeserializeStage = DeserializeBytesStage<R>;

    fn read_from_stage() -> (stage: DeserializeBytesStage<R>) {
        DeserializeBytesStage::new()
    }
}

impl<R> AsyncDe<R> for Vec<u8> {
    type Owned = Vec<u8>;

    type DeserializeStage = DeserializeBytesStage<R>;

    fn read_from_stage() -> (stage: DeserializeBytesStage<R>) {
        DeserializeBytesStage::new()
    }
}

/// The scalars that a run of bytes holds, one after the other. The run is cut
/// from its end, so its length should be a multiple of the width.
pub open spec fn elements<T: Scalar>(bytes: Seq<u8>, order: ByteOrder) -> Seq<T>
    decreases bytes.len(),
{
    let w = T::width() as int;
    if w <= 0 || bytes.len() < w {
        Seq::empty()
    } else {
        elements::<T>(bytes.take(bytes.len() - w), order).push(
            T::of_number(value(bytes.skip(bytes.len() - w), order)),
        )
    }
}

/// The bytes of `raw` that make up whole scalars of the given width: all of
/// them but the last few, if those are too few for one.
pub open spec fn whole_scalars(raw: Seq<u8>, width: nat) -> Seq<u8> {
    if width == 0 {
        raw
    } else {
        raw.take(raw.len() - raw.len() % width)
    }
}

/// The scalars that `raw` holds. Bytes at the end that are too few for a
/// scalar are left out.
pub fn unpack<T: Scalar>(raw: &[u8], order: ByteOrder) -> (items: Vec<T>)
    ensures
        items@ == elements::<T>(whole_scalars(raw@, T::width()), order),
{
    proof {
        T::lemma_width();
    }
    let w: usize = T::size();
    let n: usize = raw.len() / w;
    let mut items: Vec<T> = Vec::new();
    let mut i: usize = 0;
    let ghost whole = whole_scalars(raw@, T::width());
    proof {
        vstd::arithmetic::div_mod::lemma_fundamental_div_mod(raw@.len() as int, w as int);
        assert(w * n == n * w) by (nonlinear_arith);
        assert(whole.len() == n * w);
        assert(whole.take(0).len() == 0);
    }
    while i < n
        invariant
            i <= n,
            1 <= w <= 16,
            w == T::width(),
            whole == raw@.take(n * w),
            n * w <= raw@.len() <= usize::MAX,
            items@ == elements::<T>(whole.take(i * w), order),
        decreases n - i,
    {
        proof {
            assert(i * w + w <= n * w && 0 <= i * w) by (nonlinear_arith)
                requires
                    0 <= i < n,
                    w > 0,
            ;
        }
        let from: usize = i * w;
        let chunk = slice_subrange(raw, from, from + w);
        let item = T::from_wire(chunk, order);
        items.push(item);
        proof {
            let next = whole.take((i + 1) * w);
            assert((i + 1) * w == i * w + w) by (nonlinear_arith);
            assert(next.len() == i * w + w);
            assert(next.take(next.len() - w) =~= whole.take(i * w));
            assert(next.skip(next.len() - w) =~= chunk@);
        }
        i = i + 1;
    }
    proof {
        assert(whole.take(n * w) =~= whole);
    }
    items
}

/// What a frame of scalars amounts to: its payload, split into the scalars.
pub open spec fn scalars<T: Scalar>(frame: Parsed<Seq<u8>>, order: ByteOrder) -> Parsed<Seq<T>> {
    match frame {
        Parsed::Incomplete => Parsed::Incomplete,
        Parsed::Invalid { rest } => Parsed::Invalid { rest },
        Parsed::Done { value, rest } => Parsed::Done { value: elements::<T>(value, order), rest },
    }
}

/// Decodes an array of one primitive type: a count of elements, then the
/// elements one after the other.
#[verifier::reject_recursive_types(R)]
pub struct DeserializePrimitiveSliceStage<T: Primitive, R> {
    len_fut: Stage<DeserializeUsizeStage<R>, ReadHalf<R>, usize, Error>,
    data: Vec<u8>,
    item: PhantomData<T>,
}

impl<T: Primitive, R> DeserializePrimitiveSliceStage<T, R> {
    /// The count: still being read, or known.
    pub closed spec fn length(&self) -> Stage<DeserializeUsizeStage<R>, ReadHalf<R>, usize, Error> {
        self.len_fut
    }

    /// The payload bytes that have been read so far.
    pub closed spec fn data(&self) -> Seq<u8> {
        self.data@
    }

    /// A stage that has read nothing.
    pub fn new() -> (stage: Self)
        ensures
            fresh::<Vec<T>, Self>(&stage),
    {
        DeserializePrimitiveSliceStage {
            len_fut: Stage::Pending(DeserializeScalarStage::new()),
            data: Vec::new(),
            item: PhantomData,
        }
    }
}

impl<T: Primitive, R> Default for DeserializePrimitiveSliceStage<T, R> {
    fn default() -> (stage: Self)
        ensures
            fresh::<Vec<T>, Self>(&stage),
    {
        Self::new()
    }
}

impl<T: Primitive, R> DecodeState<Vec<T>> for DeserializePrimitiveSliceStage<T, R> {
    type Model = Seq<T>;

    open spec fn model(item: &Vec<T>) -> Seq<T> {
        item@
    }

    open spec fn parse(input: Seq<u8>, order: ByteOrder) -> Parsed<Seq<T>> {
        scalars::<T>(frame_parse(T::width(), input, order), order)
    }

    open spec fn rest(&self, input: Seq<u8>, order: ByteOrder) -> Parsed<Seq<T>> {
        scalars::<T>(frame_rest(self.length(), self.data(), T::width(), input, order), order)
    }

    proof fn lemma_parse_tail(input: Seq<u8>, order: ByteOrder) {
        lemma_frame_after_tail(
            scalar_rest::<usize>(Seq::empty(), input, order),
            T::width(),
            Seq::empty(),
            input,
        );
    }

    proof fn lemma_rest_tail(&self, input: Seq<u8>, order: ByteOrder) {
        lemma_frame_rest_tail(self.length(), self.data(), T::width(), input, order);
    }

    proof fn lemma_parse_extends(input: Seq<u8>, more: Seq<u8>, order: ByteOrder) {
        lemma_scalar_extend::<usize>(Seq::empty(), input, more, order);
        lemma_frame_after_extends(
            scalar_rest::<usize>(Seq::empty(), input, order),
            scalar_rest::<usize>(Seq::empty(), input + more, order),
            T::width(),
            Seq::empty(),
            more,
        );
    }

    proof fn lemma_rest_extends(&self, input: Seq<u8>, more: Seq<u8>, order: ByteOrder) {
        lemma_frame_rest_extends(self.length(), self.data(), T::width(), input, more, order);
    }
}

impl<T: Primitive, R> StagePoller for DeserializePrimitiveSliceStage<T, R> {
    type Shared = ReadHalf<R>;

    type Output = Result<Vec<T>, Error>;

    open spec fn polled(
        &self,
        shared: &ReadHalf<R>,
        after: &Self,
        shared_after: &ReadHalf<R>,
        out: &Poll<Result<Vec<T>, Error>>,
    ) -> bool {
        &&& read_polled::<Vec<T>, Self>(self, shared@, after, shared_after@, out)
        &&& shared_after.endpoint_spec() == shared.endpoint_spec()
    }

    fn poll_stage(&mut self, shared: &mut ReadHalf<R>) -> (out: Poll<Result<Vec<T>, Error>>) {
        proof {
            T::lemma_width();
        }
        let ghost length = self.len_fut;
        let ghost have = self.data@;
        let ghost avail = shared@.bytes;
        let ghost order = shared@.order;
        match poll_frame(&mut self.len_fut, &mut self.data, T::size(), shared) {
            Poll::Ready(Ok(raw)) => {
                proof {
                    lemma_frame_length(length, have, T::width(), avail, order);
                    assert(whole_scalars(raw@, T::width()) =~= raw@);
                }
                Poll::Ready(Ok(unpack::<T>(raw.as_slice(), shared.order())))
            },
            Poll::Ready(Err(e)) => Poll::Ready(Err(e)),
            Poll::Pending => Poll::Pending,
        }
    }
}

/// The payload of a frame that is whole has as many bytes as the count says.
pub proof fn lemma_frame_length<R>(
    length: Stage<DeserializeUsizeStage<R>, ReadHalf<R>, usize, Error>,
    have: Seq<u8>,
    unit: nat,
    input: Seq<u8>,
    order: ByteOrder,
)
    requires
        unit > 0,
        frame_rest(length, have, unit, input, order) is Done,
    ensures
        frame_rest(length, have, unit, input, order)->value.len() % unit == 0,
{
    let count: nat = match length {
        Stage::Pending(stage) => stage.rest(input, order)->value as nat,
        Stage::Completed(n) => n as nat,
    };
    let payload = frame_rest(length, have, unit, input, order)->value;
    assert(payload.len() == count * unit);
    assert((count * unit) % unit == 0) by (nonlinear_arith)
        requires
            unit > 0,
    ;
}

impl<T: Primitive, R> ReadStage<R, Vec<T>> for DeserializePrimitiveSliceStage<T, R> {
    proof fn lemma_polled(
        &self,
        shared: &ReadHalf<R>,
        after: &Self,
        shared_after: &ReadHalf<R>,
        out: &Poll<Result<Vec<T>, Error>>,
    ) {
    }
}

// The decode stage of an array, by element type.

pub type DeserializeU16SliceStage<R> = DeserializePrimitiveSliceStage<u16, R>;

pub type DeserializeI16SliceStage<R> = DeserializePrimitiveSliceStage<i16, R>;

pub type DeserializeU32SliceStage<R> = DeserializePrimitiveSliceStage<u32, R>;

pub type DeserializeI32SliceStage<R> = DeserializePrimitiveSliceStage<i32, R>;

pub type DeserializeU64SliceStage<R> = DeserializePrimitiveSliceStage<u64, R>;

pub type DeserializeI64SliceStage<R> = DeserializePrimitiveSliceStage<i64, R>;

pub type DeserializeU128SliceStage<R> = DeserializePrimitiveSliceStage<u128, R>;

pub type DeserializeI128SliceStage<R> = DeserializePrimitiveSliceStage<i128, R>;

pub type DeserializeUsizeSliceStage<R> = DeserializePrimitiveSliceStage<usize, R>;

pub type DeserializeIsizeSliceStage<R> = DeserializePrimitiveSliceStage<isize, R>;

impl<T: Primitive, R> AsyncDe<R> for [T] {
    type Owned = Vec<T>;

    type DeserializeStage = DeserializePrimitiveSliceStage<T, R>;

    fn read_from_stage() -> (stage: DeserializePrimitiveSliceStage<T, R>) {
        DeserializePrimitiveSliceStage::new()
    }
}

impl<T: Primitive, R> AsyncDe<R> for Vec<T> {
    type Owned = Vec<T>;

    type DeserializeStage = DeserializePrimitiveSliceStage<T, R>;

    fn read_from_stage() -> (stage: DeserializePrimitiveSliceStage<T, R>) {
        DeserializePrimitiveSliceStage::new()
    }
}

/// The error of `simdutf8::basic::from_utf8`. It carries nothing, and nothing
/// is claimed of it.
#[verifier::external_type_specification]
#[verifier::external_body]
pub struct ExUtf8Error(simdutf8::basic::Utf8Error);

/// `simdutf8::basic::from_utf8` accepts exactly the byte runs that are
/// well-formed UTF-8, and hands an accepted run back as the text that it
/// encodes.
pub assume_specification[ simdutf8::basic::from_utf8 ](input: &[u8]) -> (checked: Result<
    &str,
    simdutf8::basic::Utf8Error,
>)
    ensures
        checked is Ok <==> valid_utf8(input@),
        checked matches Ok(s) ==> s.spec_bytes() == input@,
;

/// The text that a byte buffer holds, if it is UTF-8; its error is the
/// validator's.
pub fn text_of(bytes: &[u8]) -> (checked: Result<String, simdutf8::basic::Utf8Error>)
    ensures
        checked is Ok <==> valid_utf8(bytes@),
        checked matches Ok(s) ==> s@ == decode_utf8(bytes@),
{
    match simdutf8::basic::from_utf8(bytes) {
        Ok(s) => {
            proof {
                encode_utf8_decode_utf8(s@);
            }
            Ok(s.to_owned())
        },
        Err(e) => Err(e),
    }
}

/// What a frame of bytes amounts to as text: its payload decoded, if it is
/// UTF-8, and no value otherwise.
pub open spec fn text(frame: Parsed<Seq<u8>>) -> Parsed<Seq<char>> {
    match frame {
        Parsed::Incomplete => Parsed::Incomplete,
        Parsed::Invalid { rest } => Parsed::Invalid { rest },
        Parsed::Done { value, rest } => if valid_utf8(value) {
            Parsed::Done { value: decode_utf8(value), rest }
        } else {
            Parsed::Invalid { rest }
        },
    }
}

/// Decodes a string: a byte buffer, which must be UTF-8. The check comes
/// when the whole buffer is there.
#[verifier::reject_recursive_types(R)]
pub struct DeserializeStringStage<R> {
    inner: DeserializeBytesStage<R>,
}

impl<R> DeserializeStringStage<R> {
    /// The decode of the bytes.
    pub closed spec fn bytes(&self) -> DeserializeBytesStage<R> {
        self.inner
    }

    /// A stage that has read nothing.
    pub fn new() -> (stage: Self)
        ensures
            fresh::<String, Self>(&stage),
    {
        DeserializeStringStage { inner: DeserializeBytesStage::new() }
    }
}

impl<R> Default for DeserializeStringStage<R> {
    fn default() -> (stage: Self)
        ensures
            fresh::<String, Self>(&stage),
    {
        Self::new()
    }
}

impl<R> DecodeState<String> for DeserializeStringStage<R> {
    type Model = Seq<char>;

    open spec fn model(item: &String) -> Seq<char> {
        item@
    }

    open spec fn parse(input: Seq<u8>, order: ByteOrder) -> Parsed<Seq<char>> {
        text(frame_parse(1, input, order))
    }

    open spec fn rest(&self, input: Seq<u8>, order: ByteOrder) -> Parsed<Seq<char>> {
        text(self.bytes().rest(input, order))
    }

    proof fn lemma_parse_tail(input: Seq<u8>, order: ByteOrder) {
        DeserializeBytesStage::<R>::lemma_parse_tail(input, order);
    }

    proof fn lemma_rest_tail(&self, input: Seq<u8>, order: ByteOrder) {
        self.bytes().lemma_rest_tail(input, order);
    }

    proof fn lemma_parse_extends(input: Seq<u8>, more: Seq<u8>, order: ByteOrder) {
        DeserializeBytesStage::<R>::lemma_parse_extends(input, more, order);
    }

    proof fn lemma_rest_extends(&self, input: Seq<u8>, more: Seq<u8>, order: ByteOrder) {
        self.bytes().lemma_rest_extends(input, more, order);
    }
}

impl<R> StagePoller for DeserializeStringStage<R> {
    type Shared = ReadHalf<R>;

    type Output = Result<String, Error>;

    open spec fn polled(
        &self,
        shared: &ReadHalf<R>,
        after: &Self,
        shared_after: &ReadHalf<R>,
        out: &Poll<Result<String, Error>>,
    ) -> bool {
        &&& read_polled::<String, Self>(self, shared@, after, shared_after@, out)
        &&& shared_after.endpoint_spec() == shared.endpoint_spec()
    }

    fn poll_stage(&mut self, shared: &mut ReadHalf<R>) -> (out: Poll<Result<String, Error>>) {
        match self.inner.poll_stage(shared) {
            Poll::Ready(Ok(bytes)) => match text_of(bytes.as_slice()) {
                Ok(string) => Poll::Ready(Ok(string)),
                Err(_) => Poll::Ready(Err(Error::InvalidData)),
            },
            Poll::Ready(Err(e)) => Poll::Ready(Err(e)),
            Poll::Pending => Poll::Pending,
        }
    }
}

impl<R> ReadStage<R, String> for DeserializeStringStage<R> {
    proof fn lemma_polled(
        &self,
        shared: &ReadHalf<R>,
        after: &Self,
        shared_after: &ReadHalf<R>,
        out: &Poll<Result<String, Error>>,
    ) {
    }
}

impl<R> AsyncDe<R> for str {
    type Owned = String;

    type DeserializeStage = DeserializeStringStage<R>;

    fn read_from_stage() -> (stage: DeserializeStringStage<R>) {
        DeserializeStringStage::new()
    }
}

impl<R> AsyncDe<R> for String {
    type Owned = String;

    type DeserializeStage = DeserializeStringStage<R>;

    fn read_from_stage() -> (stage: DeserializeStringStage<R>) {
        DeserializeStringStage::new()
    }
}

/// The step from the discriminator to the payload keeps the place: when the
/// poll that read the discriminator left the payload unfinished, the payload
/// stage makes of further bytes what a new one would make of them after the
/// bytes that followed the discriminator.
pub proof fn lemma_payload_resumes<R, Item, S: DecodeState<Item>>(
    discriminator: DeserializeU8Stage<R>,
    input: Seq<u8>,
    new: S,
    paused: S,
    order: ByteOrder,
)
    requires
        discriminator.rest(input, order) is Done,
        fresh::<Item, S>(&new),
        forall|more: Seq<u8>| #[trigger]
            paused.rest(more, order) == new.rest(
                discriminator.rest(input, order)->Done_rest + more,
                order,
            ),
    ensures
        forall|more: Seq<u8>| #[trigger]
            discriminator.rest(input + more, order) == discriminator.rest(
                input,
                order,
            ).followed_by(more),
        forall|more: Seq<u8>| #[trigger]
            paused.rest(more, order) == S::parse(
                discriminator.rest(input, order)->Done_rest + more,
                order,
            ),
{
    assert forall|more: Seq<u8>| #[trigger]
        discriminator.rest(input + more, order) == discriminator.rest(
            input,
            order,
        ).followed_by(more) by {
        lemma_scalar_extend::<u8>(discriminator.got(), input, more, order);
    }
}

/// A reading of the inner value as a reading of the optional value that is
/// present.
pub open spec fn present<M>(inner: Parsed<M>) -> Parsed<Option<M>> {
    match inner {
        Parsed::Incomplete => Parsed::Incomplete,
        Parsed::Done { value, rest } => Parsed::Done { value: Some(value), rest },
        Parsed::Invalid { rest } => Parsed::Invalid { rest },
    }
}

/// What follows the discriminator of an optional value: nothing if it is 0,
/// the inner value if it is 1, and no value at all otherwise.
pub open spec fn option_after<M>(
    discriminator: Parsed<u8>,
    inner: spec_fn(Seq<u8>) -> Parsed<M>,
) -> Parsed<Option<M>> {
    match discriminator {
        Parsed::Incomplete => Parsed::Incomplete,
        Parsed::Invalid { rest } => Parsed::Invalid { rest },
        Parsed::Done { value, rest } => if value == 0 {
            Parsed::Done { value: None, rest }
        } else if value == 1 {
            present(inner(rest))
        } else {
            Parsed::Invalid { rest }
        },
    }
}

/// Decodes an optional value: a discriminator byte, then, if it is 1, the
/// inner value.
///
/// The step from the discriminator to the payload is taken once, when the
/// byte is there; a discriminator other than 0 and 1 ends the decode before
/// any byte of a payload is read.
pub enum DeserializeOption<T: AsyncDe<R>, R> {
    DiscriminatorPending(DeserializeU8Stage<R>),
    Pending(T::DeserializeStage),
}

impl<T: AsyncDe<R>, R> DeserializeOption<T, R> {
    /// A stage that has read nothing.
    pub fn new() -> (stage: Self)
        ensures
            fresh::<Option<T::Owned>, Self>(&stage),
    {
        DeserializeOption::DiscriminatorPending(DeserializeScalarStage::new())
    }
}

impl<T: AsyncDe<R>, R> Default for DeserializeOption<T, R> {
    fn default() -> (stage: Self)
        ensures
            fresh::<Option<T::Owned>, Self>(&stage),
    {
        Self::new()
    }
}

impl<T: AsyncDe<R>, R> DecodeState<Option<T::Owned>> for DeserializeOption<T, R> {
    type Model = Option<<T::DeserializeStage as DecodeState<T::Owned>>::Model>;

    open spec fn model(item: &Option<T::Owned>) -> Self::Model {
        match *item {
            Some(v) => Some(T::DeserializeStage::model(&v)),
            None => None,
        }
    }

    open spec fn parse(input: Seq<u8>, order: ByteOrder) -> Parsed<Self::Model> {
        option_after(
            scalar_rest::<u8>(Seq::empty(), input, order),
            |rest: Seq<u8>| T::DeserializeStage::parse(rest, order),
        )
    }

    open spec fn rest(&self, input: Seq<u8>, order: ByteOrder) -> Parsed<Self::Model> {
        match *self {
            DeserializeOption::DiscriminatorPending(d) => option_after(
                d.rest(input, order),
                |rest: Seq<u8>| T::DeserializeStage::parse(rest, order),
            ),
            DeserializeOption::Pending(inner) => present(inner.rest(input, order)),
        }
    }

    proof fn lemma_parse_tail(input: Seq<u8>, order: ByteOrder) {
        match scalar_rest::<u8>(Seq::empty(), input, order) {
            Parsed::Done { value, rest } => {
                T::DeserializeStage::lemma_parse_tail(rest, order);
                match T::DeserializeStage::parse(rest, order) {
                    Parsed::Done { value: inner, rest: left } => {
                        lemma_tail_of_tail(left, rest, input);
                    },
                    Parsed::Invalid { rest: left } => {
                        lemma_tail_of_tail(left, rest, input);
                    },
                    Parsed::Incomplete => {},
                }
            },
            _ => {},
        }
    }

    proof fn lemma_rest_tail(&self, input: Seq<u8>, order: ByteOrder) {
        match *self {
            DeserializeOption::DiscriminatorPending(d) => {
                match d.rest(input, order) {
                    Parsed::Done { value, rest } => {
                        T::DeserializeStage::lemma_parse_tail(rest, order);
                        match T::DeserializeStage::parse(rest, order) {
                            Parsed::Done { value: inner, rest: left } => {
                                lemma_tail_of_tail(left, rest, input);
                            },
                            Parsed::Invalid { rest: left } => {
                                lemma_tail_of_tail(left, rest, input);
                            },
                            Parsed::Incomplete => {},
                        }
                    },
                    _ => {},
                }
            },
            DeserializeOption::Pending(inner) => {
                inner.lemma_rest_tail(input, order);
            },
        }
    }

    proof fn lemma_parse_extends(input: Seq<u8>, more: Seq<u8>, order: ByteOrder) {
        lemma_scalar_extend::<u8>(Seq::empty(), input, more, order);
        match scalar_rest::<u8>(Seq::empty(), input, order) {
            Parsed::Done { value, rest } => {
                if value == 1 {
                    T::DeserializeStage::lemma_parse_extends(rest, more, order);
                }
            },
            _ => {},
        }
    }

    proof fn lemma_rest_extends(&self, input: Seq<u8>, more: Seq<u8>, order: ByteOrder) {
        match *self {
            DeserializeOption::DiscriminatorPending(d) => {
                lemma_scalar_extend::<u8>(d.got(), input, more, order);
                match d.rest(input, order) {
                    Parsed::Done { value, rest } => {
                        if value == 1 {
                            T::DeserializeStage::lemma_parse_extends(rest, more, order);
                        }
                    },
                    _ => {},
                }
            },
            DeserializeOption::Pending(inner) => {
                inner.lemma_rest_extends(input, more, order);
            },
        }
    }
}

impl<T: AsyncDe<R>, R> StagePoller for DeserializeOption<T, R> {
    type Shared = ReadHalf<R>;

    type Output = Result<Option<T::Owned>, Error>;

    open spec fn polled(
        &self,
        shared: &ReadHalf<R>,
        after: &Self,
        shared_after: &ReadHalf<R>,
        out: &Poll<Result<Option<T::Owned>, Error>>,
    ) -> bool {
        &&& read_polled::<Option<T::Owned>, Self>(self, shared@, after, shared_after@, out)
        &&& shared_after.endpoint_spec() == shared.endpoint_spec()
    }

    fn poll_stage(&mut self, shared: &mut ReadHalf<R>) -> (out: Poll<
        Result<Option<T::Owned>, Error>,
    >) {
        let ghost order = shared@.order;
        let ghost avail = shared@.bytes;
        match self {
            DeserializeOption::DiscriminatorPending(d) => {
                let ghost d0 = *d;
                match d.poll_stage(shared) {
                    Poll::Ready(Ok(discriminator)) => {
                        if discriminator == 1 {
                            let mut inner = T::read_from_stage();
                            let ghost mid = *shared;
                            let ghost inner0 = inner;
                            let polled = inner.poll_stage(shared);
                            proof {
                                inner0.lemma_polled(&mid, &inner, &*shared, &polled);
                            }
                            match polled {
                                Poll::Ready(Ok(v)) => {
                                    *self = DeserializeOption::new();
                                    Poll::Ready(Ok(Some(v)))
                                },
                                Poll::Ready(Err(e)) => {
                                    // A payload that is no value ends the
                                    // decode; any other error leaves it where
                                    // it stopped.
                                    match e {
                                        Error::InvalidData => {
                                            *self = DeserializeOption::new();
                                        },
                                        _ => {
                                            *self = DeserializeOption::Pending(inner);
                                        },
                                    }
                                    proof {
                                        if inner0.rest(mid@.bytes, order) is Incomplete {
                                            lemma_payload_resumes(d0, avail, inner0, inner, order);
                                        }
                                    }
                                    Poll::Ready(Err(e))
                                },
                                Poll::Pending => {
                                    *self = DeserializeOption::Pending(inner);
                                    proof {
                                        lemma_payload_resumes(d0, avail, inner0, inner, order);
                                    }
                                    Poll::Pending
                                },
                            }
                        } else if discriminator == 0 {
                            *self = DeserializeOption::new();
                            Poll::Ready(Ok(None))
                        } else {
                            *self = DeserializeOption::new();
                            Poll::Ready(Err(Error::InvalidData))
                        }
                    },
                    Poll::Ready(Err(e)) => Poll::Ready(Err(e)),
                    Poll::Pending => Poll::Pending,
                }
            },
            DeserializeOption::Pending(inner) => {
                let ghost inner0 = *inner;
                let ghost before = *shared;
                let polled = inner.poll_stage(shared);
                proof {
                    inner0.lemma_polled(&before, &*inner, &*shared, &polled);
                }
                match polled {
                    Poll::Ready(Ok(v)) => {
                        *self = DeserializeOption::new();
                        Poll::Ready(Ok(Some(v)))
                    },
                    Poll::Ready(Err(e)) => {
                        // A payload that is no value ends the decode; any
                        // other error leaves it where it stopped.
                        match e {
                            Error::InvalidData => {
                                *self = DeserializeOption::new();
                            },
                            _ => {},
                        }
                        Poll::Ready(Err(e))
                    },
                    Poll::Pending => Poll::Pending,
                }
            },
        }
    }
}

impl<T: AsyncDe<R>, R> ReadStage<R, Option<T::Owned>> for DeserializeOption<T, R> {
    proof fn lemma_polled(
        &self,
        shared: &ReadHalf<R>,
        after: &Self,
        shared_after: &ReadHalf<R>,
        out: &Poll<Result<Option<T::Owned>, Error>>,
    ) {
    }
}

impl<T: AsyncDe<R>, R> AsyncDe<R> for Option<T> {
    type Owned = Option<T::Owned>;

    type DeserializeStage = DeserializeOption<T, R>;

    fn read_from_stage() -> (stage: DeserializeOption<T, R>) {
        DeserializeOption::new()
    }
}

/// A reading of the success value as a reading of the outcome.
pub open spec fn succeeded<M, N>(inner: Parsed<M>) -> Parsed<Result<M, N>> {
    match inner {
        Parsed::Incomplete => Parsed::Incomplete,
        Parsed::Done { value, rest } => Parsed::Done { value: Ok(value), rest },
        Parsed::Invalid { rest } => Parsed::Invalid { rest },
    }
}

/// A reading of the failure value as a reading of the outcome.
pub open spec fn failed<M, N>(inner: Parsed<N>) -> Parsed<Result<M, N>> {
    match inner {
        Parsed::Incomplete => Parsed::Incomplete,
        Parsed::Done { value, rest } => Parsed::Done { value: Err(value), rest },
        Parsed::Invalid { rest } => Parsed::Invalid { rest },
    }
}

/// What follows the discriminator of an outcome: the success value if it is
/// 1, the failure value if it is 0, and no value at all otherwise.
pub open spec fn result_after<M, N>(
    discriminator: Parsed<u8>,
    success: spec_fn(Seq<u8>) -> Parsed<M>,
    failure: spec_fn(Seq<u8>) -> Parsed<N>,
) -> Parsed<Result<M, N>> {
    match discriminator {
        Parsed::Incomplete => Parsed::Incomplete,
        Parsed::Invalid { rest } => Parsed::Invalid { rest },
        Parsed::Done { value, rest } => if value == 1 {
            succeeded(success(rest))
        } else if value == 0 {
            failed(failure(rest))
        } else {
            Parsed::Invalid { rest }
        },
    }
}

/// Decodes a two-variant outcome: a discriminator byte, then the success
/// value if it is 1, the failure value if it is 0.
pub enum DeserializeResult<T: AsyncDe<R>, E: AsyncDe<R>, R> {
    DiscriminatorPending(DeserializeU8Stage<R>),
    PendingT(T::DeserializeStage),
    PendingE(E::DeserializeStage),
}

impl<T: AsyncDe<R>, E: AsyncDe<R>, R> DeserializeResult<T, E, R> {
    /// A stage that has read nothing.
    pub fn new() -> (stage: Self)
        ensures
            fresh::<Result<T::Owned, E::Owned>, Self>(&stage),
    {
        DeserializeResult::DiscriminatorPending(DeserializeScalarStage::new())
    }
}

impl<T: AsyncDe<R>, E: AsyncDe<R>, R> Default for DeserializeResult<T, E, R> {
    fn default() -> (stage: Self)
        ensures
            fresh::<Result<T::Owned, E::Owned>, Self>(&stage),
    {
        Self::new()
    }
}

impl<T: AsyncDe<R>, E: AsyncDe<R>, R> DecodeState<
    Result<T::Owned, E::Owned>,
> for DeserializeResult<T, E, R> {
    type Model = Result<
        <T::DeserializeStage as DecodeState<T::Owned>>::Model,
        <E::DeserializeStage as DecodeState<E::Owned>>::Model,
    >;

    open spec fn model(item: &Result<T::Owned, E::Owned>) -> Self::Model {
        match *item {
            Ok(v) => Ok(T::DeserializeStage::model(&v)),
            Err(e) => Err(E::DeserializeStage::model(&e)),
        }
    }

    open spec fn parse(input: Seq<u8>, order: ByteOrder) -> Parsed<Self::Model> {
        result_after(
            scalar_rest::<u8>(Seq::empty(), input, order),
            |rest: Seq<u8>| T::DeserializeStage::parse(rest, order),
            |rest: Seq<u8>| E::DeserializeStage::parse(rest, order),
        )
    }

    open spec fn rest(&self, input: Seq<u8>, order: ByteOrder) -> Parsed<Self::Model> {
        match *self {
            DeserializeResult::DiscriminatorPending(d) => result_after(
                d.rest(input, order),
                |rest: Seq<u8>| T::DeserializeStage::parse(rest, order),
                |rest: Seq<u8>| E::DeserializeStage::parse(rest, order),
            ),
            DeserializeResult::PendingT(inner) => succeeded(inner.rest(input, order)),
            DeserializeResult::PendingE(inner) => failed(inner.rest(input, order)),
        }
    }

    proof fn lemma_parse_tail(input: Seq<u8>, order: ByteOrder) {
        lemma_result_after_tail::<T, E, R>(
            scalar_rest::<u8>(Seq::empty(), input, order),
            input,
            order,
        );
    }

    proof fn lemma_rest_tail(&self, input: Seq<u8>, order: ByteOrder) {
        match *self {
            DeserializeResult::DiscriminatorPending(d) => {
                lemma_result_after_tail::<T, E, R>(d.rest(input, order), input, order);
            },
            DeserializeResult::PendingT(inner) => {
                inner.lemma_rest_tail(input, order);
            },
            DeserializeResult::PendingE(inner) => {
                inner.lemma_rest_tail(input, order);
            },
        }
    }

    proof fn lemma_parse_extends(input: Seq<u8>, more: Seq<u8>, order: ByteOrder) {
        lemma_scalar_extend::<u8>(Seq::empty(), input, more, order);
        match scalar_rest::<u8>(Seq::empty(), input, order) {
            Parsed::Done { value, rest } => {
                if value == 1 {
                    T::DeserializeStage::lemma_parse_extends(rest, more, order);
                } else if value == 0 {
                    E::DeserializeStage::lemma_parse_extends(rest, more, order);
                }
            },
            _ => {},
        }
    }

    proof fn lemma_rest_extends(&self, input: Seq<u8>, more: Seq<u8>, order: ByteOrder) {
        match *self {
            DeserializeResult::DiscriminatorPending(d) => {
                lemma_scalar_extend::<u8>(d.got(), input, more, order);
                match d.rest(input, order) {
                    Parsed::Done { value, rest } => {
                        if value == 1 {
                            T::DeserializeStage::lemma_parse_extends(rest, more, order);
                        } else if value == 0 {
                            E::DeserializeStage::lemma_parse_extends(rest, more, order);
                        }
                    },
                    _ => {},
                }
            },
            DeserializeResult::PendingT(inner) => {
                inner.lemma_rest_extends(input, more, order);
            },
            DeserializeResult::PendingE(inner) => {
                inner.lemma_rest_extends(input, more, order);
            },
        }
    }
}

/// What follows the discriminator of an outcome is taken from the front of
/// the input.
pub proof fn lemma_result_after_tail<T: AsyncDe<R>, E: AsyncDe<R>, R>(
    discriminator: Parsed<u8>,
    input: Seq<u8>,
    order: ByteOrder,
)
    requires
        discriminator.leaves_tail_of(input),
    ensures
        result_after(
            discriminator,
            |rest: Seq<u8>| T::DeserializeStage::parse(rest, order),
            |rest: Seq<u8>| E::DeserializeStage::parse(rest, order),
        ).leaves_tail_of(input),
{
    match discriminator {
        Parsed::Done { value, rest } => {
            T::DeserializeStage::lemma_parse_tail(rest, order);
            E::DeserializeStage::lemma_parse_tail(rest, order);
            match T::DeserializeStage::parse(rest, order) {
                Parsed::Done { value: inner, rest: left } => {
                    lemma_tail_of_tail(left, rest, input);
                },
                Parsed::Invalid { rest: left } => {
                    lemma_tail_of_tail(left, rest, input);
                },
                Parsed::Incomplete => {},
            }
            match E::DeserializeStage::parse(rest, order) {
                Parsed::Done { value: inner, rest: left } => {
                    lemma_tail_of_tail(left, rest, input);
                },
                Parsed::Invalid { rest: left } => {
                    lemma_tail_of_tail(left, rest, input);
                },
                Parsed::Incomplete => {},
            }
        },
        _ => {},
    }
}

impl<T: AsyncDe<R>, E: AsyncDe<R>, R> StagePoller for DeserializeResult<T, E, R> {
    type Shared = ReadHalf<R>;

    type Output = Result<Result<T::Owned, E::Owned>, Error>;

    open spec fn polled(
        &self,
        shared: &ReadHalf<R>,
        after: &Self,
        shared_after: &ReadHalf<R>,
        out: &Poll<Result<Result<T::Owned, E::Owned>, Error>>,
    ) -> bool {
        &&& read_polled::<Result<T::Owned, E::Owned>, Self>(
            self,
            shared@,
            after,
            shared_after@,
            out,
        )
        &&& shared_after.endpoint_spec() == shared.endpoint_spec()
    }

    fn poll_stage(&mut self, shared: &mut ReadHalf<R>) -> (out: Poll<
        Result<Result<T::Owned, E::Owned>, Error>,
    >) {
        let ghost order = shared@.order;
        let ghost avail = shared@.bytes;
        match self {
            DeserializeResult::DiscriminatorPending(d) => {
                let ghost d0 = *d;
                match d.poll_stage(shared) {
                    Poll::Ready(Ok(discriminator)) => {
                        if discriminator == 1 {
                            let mut inner = T::read_from_stage();
                            let ghost mid = *shared;
                            let ghost inner0 = inner;
                            let polled = inner.poll_stage(shared);
                            proof {
                                inner0.lemma_polled(&mid, &inner, &*shared, &polled);
                            }
                            match polled {
                                Poll::Ready(Ok(v)) => {
                                    *self = DeserializeResult::new();
                                    Poll::Ready(Ok(Ok(v)))
                                },
                                Poll::Ready(Err(e)) => {
                                    // A payload that is no value ends the
                                    // decode; any other error leaves it where
                                    // it stopped.
                                    match e {
                                        Error::InvalidData => {
                                            *self = DeserializeResult::new();
                                        },
                                        _ => {
                                            *self = DeserializeResult::PendingT(inner);
                                        },
                                    }
                                    proof {
                                        if inner0.rest(mid@.bytes, order) is Incomplete {
                                            lemma_payload_resumes(d0, avail, inner0, inner, order);
                                        }
                                    }
                                    Poll::Ready(Err(e))
                                },
                                Poll::Pending => {
                                    *self = DeserializeResult::PendingT(inner);
                                    proof {
                                        lemma_payload_resumes(d0, avail, inner0, inner, order);
                                    }
                                    Poll::Pending
                                },
                            }
                        } else if discriminator == 0 {
                            let mut inner = E::read_from_stage();
                            let ghost mid = *shared;
                            let ghost inner0 = inner;
                            let polled = inner.poll_stage(shared);
                            proof {
                                inner0.lemma_polled(&mid, &inner, &*shared, &polled);
                            }
                            match polled {
                                Poll::Ready(Ok(v)) => {
                                    *self = DeserializeResult::new();
                                    Poll::Ready(Ok(Err(v)))
                                },
                                Poll::Ready(Err(e)) => {
                                    // A payload that is no value ends the
                                    // decode; any other error leaves it where
                                    // it stopped.
                                    match e {
                                        Error::InvalidData => {
                                            *self = DeserializeResult::new();
                                        },
                                        _ => {
                                            *self = DeserializeResult::PendingE(inner);
                                        },
                                    }
                                    proof {
                                        if inner0.rest(mid@.bytes, order) is Incomplete {
                                            lemma_payload_resumes(d0, avail, inner0, inner, order);
                                        }
                                    }
                                    Poll::Ready(Err(e))
                                },
                                Poll::Pending => {
                                    *self = DeserializeResult::PendingE(inner);
                                    proof {
                                        lemma_payload_resumes(d0, avail, inner0, inner, order);
                                    }
                                    Poll::Pending
                                },
                            }
                        } else {
                            *self = DeserializeResult::new();
                            Poll::Ready(Err(Error::InvalidData))
                        }
                    },
                    Poll::Ready(Err(e)) => Poll::Ready(Err(e)),
                    Poll::Pending => Poll::Pending,
                }
            },
            DeserializeResult::PendingT(inner) => {
                let ghost inner0 = *inner;
                let ghost before = *shared;
                let polled = inner.poll_stage(shared);
                proof {
                    inner0.lemma_polled(&before, &*inner, &*shared, &polled);
                }
                match polled {
                    Poll::Ready(Ok(v)) => {
                        *self = DeserializeResult::new();
                        Poll::Ready(Ok(Ok(v)))
                    },
                    Poll::Ready(Err(e)) => {
                        // A payload that is no value ends the decode; any
                        // other error leaves it where it stopped.
                        match e {
                            Error::InvalidData => {
                                *self = DeserializeResult::new();
                            },
                            _ => {},
                        }
                        Poll::Ready(Err(e))
                    },
                    Poll::Pending => Poll::Pending,
                }
            },
            DeserializeResult::PendingE(inner) => {
                let ghost inner0 = *inner;
                let ghost before = *shared;
                let polled = inner.poll_stage(shared);
                proof {
                    inner0.lemma_polled(&before, &*inner, &*shared, &polled);
                }
                match polled {
                    Poll::Ready(Ok(v)) => {
                        *self = DeserializeResult::new();
                        Poll::Ready(Ok(Err(v)))
                    },
                    Poll::Ready(Err(e)) => {
                        // A payload that is no value ends the decode; any
                        // other error leaves it where it stopped.
                        match e {
                            Error::InvalidData => {
                                *self = DeserializeResult::new();
                            },
                            _ => {},
                        }
                        Poll::Ready(Err(e))
                    },
                    Poll::Pending => Poll::Pending,
                }
            },
        }
    }
}

impl<T: AsyncDe<R>, E: AsyncDe<R>, R> ReadStage<
    R,
    Result<T::Owned, E::Owned>,
> for DeserializeResult<T, E, R> {
    proof fn lemma_polled(
        &self,
        shared: &ReadHalf<R>,
        after: &Self,
        shared_after: &ReadHalf<R>,
        out: &Poll<Result<Result<T::Owned, E::Owned>, Error>>,
    ) {
    }
}

impl<T: AsyncDe<R>, E: AsyncDe<R>, R> AsyncDe<R> for Result<T, E> {
    type Owned = Result<T::Owned, E::Owned>;

    type DeserializeStage = DeserializeResult<T, E, R>;

    fn read_from_stage() -> (stage: DeserializeResult<T, E, R>) {
        DeserializeResult::new()
    }
}

} // verus!
