//! What holds of the formats and of the operations as a whole.

use vstd::prelude::*;
use vstd::utf8::*;
use crate::error::Error;
use crate::half::{write_count, Ending, ReadHalf, ReadView, WriteHalf, WriteView};
use crate::order::ByteOrder;
use crate::serde::de::{
    elements, frame_parse, option_after, result_after, scalar_rest, scalars, text,
    DeserializeOption, DeserializeResult, DeserializeStringStage,
};
use crate::serde::de::DeserializeScalarStage;
use crate::serde::ser::{array_wire, bytes_wire, packed, text_wire, SerializeScalarStage};
use crate::serde::{
    fresh, is_tail, read_polled, unwritten, write_polled, AsyncDe, DecodeState, EncodeState,
    Parsed, Poll, Scalar, StagePoller,
};
use crate::wire::{image, lemma_image_byte, lemma_value_of_image, value};

verus! {

/// Round trip of a scalar, as numbers: the bytes of a value, read in the
/// order in which they were written, give the value back, bit for bit.
pub proof fn lemma_scalar_round_trip<T: Scalar>(v: T, order: ByteOrder)
    ensures
        image(v.number(), T::width(), order).len() == T::width(),
        T::of_number(value(image(v.number(), T::width(), order), order)) == v,
{
    T::lemma_number(v);
    lemma_value_of_image(v.number(), T::width(), order);
}

/// Round trip of a scalar on the wire: a decode that finds the bytes of a
/// value yields that value and leaves what follows them.
pub proof fn lemma_scalar_wire_round_trip<T: Scalar>(v: T, order: ByteOrder, tail: Seq<u8>)
    ensures
        scalar_rest::<T>(Seq::empty(), image(v.number(), T::width(), order) + tail, order) == (
        Parsed::Done { value: v, rest: tail }),
{
    lemma_scalar_round_trip::<T>(v, order);
    let bytes = image(v.number(), T::width(), order);
    let w = T::width() as int;
    assert((Seq::<u8>::empty() + (bytes + tail).take(w)).take(w) =~= bytes);
    assert((bytes + tail).skip(w) =~= tail);
}

/// Length framing, encode side: the frame of a buffer of `L` bytes has the
/// width of a machine word plus `L` bytes.
pub proof fn lemma_bytes_wire_len(payload: Seq<u8>, order: ByteOrder)
    ensures
        bytes_wire(payload, order).len() == usize::width() + payload.len(),
        usize::width() == 4 || usize::width() == 8,
{
}

/// Length framing, decode side: a decode that is done has read the width of
/// a machine word and exactly as many payload bytes as the count declares,
/// and left every byte after them.
pub proof fn lemma_frame_consumes(input: Seq<u8>, order: ByteOrder)
    requires
        frame_parse(1, input, order) is Done,
    ensures
        ({
            let w = usize::width() as int;
            let declared = usize::of_number(value(input.take(w), order)) as int;
            &&& input.len() >= w + declared
            &&& frame_parse(1, input, order) == (Parsed::Done {
                value: input.subrange(w, w + declared),
                rest: input.skip(w + declared),
            })
        }),
{
    let w = usize::width() as int;
    assert((Seq::<u8>::empty() + input.take(w)).take(w) =~= input.take(w));
    let declared = usize::of_number(value(input.take(w), order)) as int;
    let after = input.skip(w);
    assert((Seq::<u8>::empty() + after.take(declared)).take(declared) =~= input.subrange(
        w,
        w + declared,
    ));
    assert(after.skip(declared) =~= input.skip(w + declared));
}

/// Round trip of a byte buffer on the wire.
pub proof fn lemma_bytes_round_trip(payload: Seq<u8>, order: ByteOrder, tail: Seq<u8>)
    requires
        payload.len() <= usize::MAX,
    ensures
        frame_parse(1, bytes_wire(payload, order) + tail, order) == (Parsed::Done {
            value: payload,
            rest: tail,
        }),
{
    let count = payload.len() as usize;
    let head = image(count.number(), usize::width(), order);
    lemma_scalar_wire_round_trip::<usize>(count, order, payload + tail);
    assert(bytes_wire(payload, order) + tail =~= head + (payload + tail));
    let n = payload.len() as int;
    assert((Seq::<u8>::empty() + (payload + tail).take(n)).take(n) =~= payload);
    assert((payload + tail).skip(n) =~= tail);
}

/// Round trip of a string on the wire.
pub proof fn lemma_text_round_trip(chars: Seq<char>, order: ByteOrder, tail: Seq<u8>)
    requires
        encode_utf8(chars).len() <= usize::MAX,
    ensures
        text(frame_parse(1, text_wire(chars, order) + tail, order)) == (Parsed::Done {
            value: chars,
            rest: tail,
        }),
{
    lemma_bytes_round_trip(encode_utf8(chars), order, tail);
    encode_utf8_valid_utf8(chars);
    encode_utf8_decode_utf8(chars);
}

/// The images of `n` scalars take `n` times the width.
pub proof fn lemma_packed_len<T: Scalar>(items: Seq<T>, order: ByteOrder)
    ensures
        packed::<T>(items, order).len() == items.len() * T::width(),
    decreases items.len(),
{
    if items.len() > 0 {
        lemma_packed_len::<T>(items.drop_last(), order);
        assert(items.drop_last().len() == items.len() - 1);
        assert((items.len() - 1) * T::width() + T::width() == items.len() * T::width())
            by (nonlinear_arith);
    } else {
        assert(items.len() * T::width() == 0) by (nonlinear_arith)
            requires
                items.len() == 0,
        ;
    }
}

/// Round trip of a run of scalars: their images, cut into scalars again, are
/// the scalars.
pub proof fn lemma_elements_of_packed<T: Scalar>(items: Seq<T>, order: ByteOrder)
    ensures
        elements::<T>(packed::<T>(items, order), order) == items,
    decreases items.len(),
{
    T::lemma_width();
    let w = T::width() as int;
    let bytes = packed::<T>(items, order);
    lemma_packed_len::<T>(items, order);
    if items.len() > 0 {
        let front = items.drop_last();
        let last = image(items.last().number(), T::width(), order);
        lemma_elements_of_packed::<T>(front, order);
        lemma_packed_len::<T>(front, order);
        lemma_scalar_round_trip::<T>(items.last(), order);
        assert(bytes.len() == packed::<T>(front, order).len() + w);
        assert(bytes.take(bytes.len() - w) =~= packed::<T>(front, order));
        assert(bytes.skip(bytes.len() - w) =~= last);
        assert(front.push(items.last()) =~= items);
    } else {
        assert(bytes.len() == 0);
        assert(elements::<T>(bytes, order) =~= items);
    }
}

/// Round trip of an array of scalars on the wire.
pub proof fn lemma_array_round_trip<T: Scalar>(items: Seq<T>, order: ByteOrder, tail: Seq<u8>)
    requires
        items.len() * T::width() <= usize::MAX,
    ensures
        scalars::<T>(frame_parse(T::width(), array_wire::<T>(items, order) + tail, order), order)
            == (Parsed::Done { value: items, rest: tail }),
{
    T::lemma_width();
    assert(items.len() <= items.len() * T::width()) by (nonlinear_arith)
        requires
            T::width() >= 1,
    ;
    let count = items.len() as usize;
    let head = image(count.number(), usize::width(), order);
    let body = packed::<T>(items, order);
    lemma_packed_len::<T>(items, order);
    lemma_elements_of_packed::<T>(items, order);
    lemma_scalar_wire_round_trip::<usize>(count, order, body + tail);
    assert(array_wire::<T>(items, order) + tail =~= head + (body + tail));
    let n = body.len() as int;
    assert((Seq::<u8>::empty() + (body + tail).take(n)).take(n) =~= body);
    assert((body + tail).skip(n) =~= tail);
}

/// Round trip of an optional value on the wire, given the round trip of the
/// inner value.
pub proof fn lemma_option_round_trip<M>(
    inner: spec_fn(Seq<u8>) -> Parsed<M>,
    wire: Seq<u8>,
    m: M,
    order: ByteOrder,
    tail: Seq<u8>,
)
    requires
        inner(wire + tail) == (Parsed::Done { value: m, rest: tail }),
    ensures
        option_after(scalar_rest::<u8>(Seq::empty(), seq![1u8] + wire + tail, order), inner) == (
        Parsed::Done { value: Some(m), rest: tail }),
        option_after(scalar_rest::<u8>(Seq::empty(), seq![0u8] + tail, order), inner) == (
        Parsed::Done { value: None::<M>, rest: tail }),
{
    lemma_scalar_wire_round_trip::<u8>(1u8, order, wire + tail);
    lemma_scalar_wire_round_trip::<u8>(0u8, order, tail);
    lemma_image_byte(1u8, order);
    lemma_image_byte(0u8, order);
    assert(seq![1u8] + wire + tail =~= seq![1u8] + (wire + tail));
}

/// Round trip of a two-variant outcome on the wire, given the round trips of
/// the two values.
pub proof fn lemma_result_round_trip<M, N>(
    success: spec_fn(Seq<u8>) -> Parsed<M>,
    failure: spec_fn(Seq<u8>) -> Parsed<N>,
    good: Seq<u8>,
    m: M,
    bad: Seq<u8>,
    n: N,
    order: ByteOrder,
    tail: Seq<u8>,
)
    requires
        success(good + tail) == (Parsed::Done { value: m, rest: tail }),
        failure(bad + tail) == (Parsed::Done { value: n, rest: tail }),
    ensures
        result_after(
            scalar_rest::<u8>(Seq::empty(), seq![1u8] + good + tail, order),
            success,
            failure,
        ) == (Parsed::Done { value: Ok::<M, N>(m), rest: tail }),
        result_after(
            scalar_rest::<u8>(Seq::empty(), seq![0u8] + bad + tail, order),
            success,
            failure,
        ) == (Parsed::Done { value: Err::<M, N>(n), rest: tail }),
{
    lemma_scalar_wire_round_trip::<u8>(1u8, order, good + tail);
    lemma_scalar_wire_round_trip::<u8>(0u8, order, bad + tail);
    lemma_image_byte(1u8, order);
    lemma_image_byte(0u8, order);
    assert(seq![1u8] + good + tail =~= seq![1u8] + (good + tail));
    assert(seq![0u8] + bad + tail =~= seq![0u8] + (bad + tail));
}

/// A poll takes bytes from the front of the half and does nothing else to
/// it: what the half holds afterwards is a tail of what it held.
pub proof fn lemma_poll_takes_the_front<Item, S: DecodeState<Item>>(
    stage: S,
    shared: ReadView,
    after: S,
    shared_after: ReadView,
    out: Poll<Result<Item, Error>>,
)
    requires
        read_polled::<Item, S>(&stage, shared, &after, shared_after, &out),
    ensures
        is_tail(shared_after.bytes, shared.bytes),
        shared_after.ending == shared.ending,
        shared_after.order == shared.order,
{
    stage.lemma_rest_tail(shared.bytes, shared.order);
    assert(Seq::<u8>::empty() =~= shared.bytes.skip(shared.bytes.len() as int));
}

/// Bytes after the value do not matter: a poll that found a whole frame ends
/// the same way when more bytes follow the frame, and leaves them too.
pub proof fn lemma_later_bytes_are_left<Item, S: DecodeState<Item>>(
    stage: S,
    shared: ReadView,
    after: S,
    shared_after: ReadView,
    out: Poll<Result<Item, Error>>,
    more: Seq<u8>,
)
    requires
        read_polled::<Item, S>(&stage, shared, &after, shared_after, &out),
        !(stage.rest(shared.bytes, shared.order) is Incomplete),
    ensures
        read_polled::<Item, S>(
            &stage,
            ReadView { bytes: shared.bytes + more, ..shared },
            &after,
            ReadView { bytes: shared_after.bytes + more, ..shared_after },
            &out,
        ),
{
    stage.lemma_rest_extends(shared.bytes, more, shared.order);
}

/// Resumability: a poll that had too few bytes, followed by a poll that finds
/// the bytes that came after, ends as one poll that finds all the bytes at
/// once. The first poll took every byte it found, so none is read twice.
pub proof fn lemma_resume<Item, S: DecodeState<Item>>(
    start: S,
    first: ReadView,
    paused: S,
    drained: ReadView,
    second: ReadView,
    end: S,
    left: ReadView,
    out: Poll<Result<Item, Error>>,
)
    requires
        read_polled::<Item, S>(&start, first, &paused, drained, &Poll::Pending),
        second.order == first.order,
        read_polled::<Item, S>(&paused, second, &end, left, &out),
    ensures
        drained.bytes.len() == 0,
        read_polled::<Item, S>(
            &start,
            ReadView { bytes: first.bytes + second.bytes, ..second },
            &end,
            left,
            &out,
        ),
{
    let order = first.order;
    assert(start.rest(first.bytes, order) is Incomplete);
    assert(paused.rest(second.bytes, order) == start.rest(first.bytes + second.bytes, order));
    if paused.rest(second.bytes, order) is Incomplete {
        assert forall|more: Seq<u8>| #[trigger]
            end.rest(more, order) == start.rest((first.bytes + second.bytes) + more, order) by {
            assert(end.rest(more, order) == paused.rest(second.bytes + more, order));
            assert(paused.rest(second.bytes + more, order) == start.rest(
                first.bytes + (second.bytes + more),
                order,
            ));
            assert((first.bytes + second.bytes) + more =~= first.bytes + (second.bytes + more));
        }
    }
}

/// Resumability over any number of polls: the bytes arrive in `chunks`, one
/// chunk before each poll, and every poll but the last found the half open
/// and had too few. The last poll, whatever the ending of the half is by
/// then, ends as one poll that finds all the chunks at once.
pub proof fn lemma_resume_many<Item, S: DecodeState<Item>>(
    stages: Seq<S>,
    chunks: Seq<Seq<u8>>,
    last: ReadView,
    left: ReadView,
    out: Poll<Result<Item, Error>>,
)
    requires
        chunks.len() >= 1,
        stages.len() == chunks.len() + 1,
        last.bytes == chunks.last(),
        forall|i: int|
            0 <= i < chunks.len() - 1 ==> read_polled::<Item, S>(
                &#[trigger] stages[i],
                ReadView { bytes: chunks[i], ending: Ending::Open, order: last.order },
                &stages[i + 1],
                ReadView { bytes: Seq::empty(), ending: Ending::Open, order: last.order },
                &Poll::Pending,
            ),
        read_polled::<Item, S>(
            &stages[chunks.len() - 1],
            last,
            &stages[chunks.len() as int],
            left,
            &out,
        ),
    ensures
        read_polled::<Item, S>(
            &stages[0],
            ReadView { bytes: chunks.flatten(), ..last },
            &stages.last(),
            left,
            &out,
        ),
    decreases chunks.len(),
{
    if chunks.len() == 1 {
        assert(chunks =~= seq![chunks[0]]);
        chunks.lemma_flatten_one_element();
    } else {
        let n = chunks.len() as int;
        // The last two polls become one.
        let merged = chunks[n - 2] + chunks[n - 1];
        lemma_resume::<Item, S>(
            stages[n - 2],
            ReadView { bytes: chunks[n - 2], ending: Ending::Open, order: last.order },
            stages[n - 1],
            ReadView { bytes: Seq::empty(), ending: Ending::Open, order: last.order },
            last,
            stages[n],
            left,
            out,
        );
        let fewer_chunks = chunks.take(n - 2).push(merged);
        let fewer_stages = stages.take(n - 1).push(stages[n]);
        let joined = ReadView { bytes: merged, ..last };
        assert forall|i: int| 0 <= i < fewer_chunks.len() - 1 implies read_polled::<Item, S>(
            &#[trigger] fewer_stages[i],
            ReadView { bytes: fewer_chunks[i], ending: Ending::Open, order: joined.order },
            &fewer_stages[i + 1],
            ReadView { bytes: Seq::empty(), ending: Ending::Open, order: joined.order },
            &Poll::Pending,
        ) by {
            assert(fewer_stages[i] == stages[i]);
            assert(fewer_stages[i + 1] == stages[i + 1]);
            assert(fewer_chunks[i] == chunks[i]);
        }
        lemma_resume_many::<Item, S>(fewer_stages, fewer_chunks, joined, left, out);
        assert(fewer_chunks.flatten() == chunks.flatten()) by {
            let front = chunks.take(n - 2);
            assert(chunks.drop_last().drop_last() =~= front);
            assert(chunks.drop_last().last() == chunks[n - 2]);
            assert(fewer_chunks.drop_last() =~= front);
            chunks.lemma_flatten_and_flatten_alt_are_equivalent();
            chunks.drop_last().lemma_flatten_and_flatten_alt_are_equivalent();
            front.lemma_flatten_and_flatten_alt_are_equivalent();
            fewer_chunks.lemma_flatten_and_flatten_alt_are_equivalent();
            assert(chunks.flatten_alt() == chunks.drop_last().flatten_alt() + chunks[n - 1]);
            assert(chunks.drop_last().flatten_alt() == front.flatten_alt() + chunks[n - 2]);
            assert(fewer_chunks.flatten_alt() == front.flatten_alt() + merged);
            assert(front.flatten_alt() + merged =~= (front.flatten_alt() + chunks[n - 2])
                + chunks[n - 1]);
        }
    }
}

/// Discriminator validation, optional value: a discriminator other than 0
/// and 1 ends the decode with `InvalidData`, and only that one byte was read.
pub proof fn lemma_option_bad_discriminator<T: AsyncDe<R>, R>(
    stage: DeserializeOption<T, R>,
    shared: ReadHalf<R>,
    after: DeserializeOption<T, R>,
    shared_after: ReadHalf<R>,
    out: Poll<Result<Option<T::Owned>, Error>>,
)
    requires
        fresh::<Option<T::Owned>, DeserializeOption<T, R>>(&stage),
        shared@.bytes.len() > 0,
        shared@.bytes[0] != 0,
        shared@.bytes[0] != 1,
        stage.polled(&shared, &after, &shared_after, &out),
    ensures
        out == Poll::<Result<Option<T::Owned>, Error>>::Ready(Err(Error::InvalidData)),
        shared_after@.bytes == shared@.bytes.skip(1),
{
    let input = shared@.bytes;
    let order = shared@.order;
    lemma_first_byte(input, order);
    assert(stage.rest(input, order) == DeserializeOption::<T, R>::parse(input, order));
}

/// Discriminator validation, outcome: a discriminator other than 0 and 1
/// ends the decode with `InvalidData`, and only that one byte was read.
pub proof fn lemma_result_bad_discriminator<T: AsyncDe<R>, E: AsyncDe<R>, R>(
    stage: DeserializeResult<T, E, R>,
    shared: ReadHalf<R>,
    after: DeserializeResult<T, E, R>,
    shared_after: ReadHalf<R>,
    out: Poll<Result<Result<T::Owned, E::Owned>, Error>>,
)
    requires
        fresh::<Result<T::Owned, E::Owned>, DeserializeResult<T, E, R>>(&stage),
        shared@.bytes.len() > 0,
        shared@.bytes[0] != 0,
        shared@.bytes[0] != 1,
        stage.polled(&shared, &after, &shared_after, &out),
    ensures
        out == Poll::<Result<Result<T::Owned, E::Owned>, Error>>::Ready(
            Err(Error::InvalidData),
        ),
        shared_after@.bytes == shared@.bytes.skip(1),
{
    let input = shared@.bytes;
    let order = shared@.order;
    lemma_first_byte(input, order);
    assert(stage.rest(input, order) == DeserializeResult::<T, E, R>::parse(input, order));
}

/// A decode of one byte yields the first byte and leaves the others.
pub proof fn lemma_first_byte(input: Seq<u8>, order: ByteOrder)
    requires
        input.len() > 0,
    ensures
        scalar_rest::<u8>(Seq::empty(), input, order) == (Parsed::Done {
            value: input[0],
            rest: input.skip(1),
        }),
{
    lemma_image_byte(input[0], order);
    assert((Seq::<u8>::empty() + input.take(1)).take(1) =~= seq![input[0]]);
}

/// UTF-8 validation: a string whose framed payload is not UTF-8 ends the
/// decode with `InvalidData`, and exactly the frame was read.
pub proof fn lemma_string_not_utf8<R>(
    stage: DeserializeStringStage<R>,
    shared: ReadHalf<R>,
    after: DeserializeStringStage<R>,
    shared_after: ReadHalf<R>,
    out: Poll<Result<String, Error>>,
    payload: Seq<u8>,
    tail: Seq<u8>,
)
    requires
        fresh::<String, DeserializeStringStage<R>>(&stage),
        payload.len() <= usize::MAX,
        !valid_utf8(payload),
        shared@.bytes == bytes_wire(payload, shared@.order) + tail,
        stage.polled(&shared, &after, &shared_after, &out),
    ensures
        out == Poll::<Result<String, Error>>::Ready(Err(Error::InvalidData)),
        shared_after@.bytes == tail,
{
    let order = shared@.order;
    lemma_bytes_round_trip(payload, order, tail);
    assert(stage.rest(shared@.bytes, order) == DeserializeStringStage::<R>::parse(
        shared@.bytes,
        order,
    ));
}

/// Round trip of a scalar through the two halves: what an encode that was
/// done in one poll left in a write half, a decode reads back as the value,
/// and nothing is left over.
pub proof fn lemma_scalar_stage_round_trip<T: Scalar, R, W>(
    encode: SerializeScalarStage<T, W>,
    writer: WriteHalf<W>,
    encoded: SerializeScalarStage<T, W>,
    written: WriteHalf<W>,
    decode: DeserializeScalarStage<T, R>,
    reader: ReadHalf<R>,
    decoded: DeserializeScalarStage<T, R>,
    read: ReadHalf<R>,
    out: Poll<Result<T, Error>>,
)
    requires
        unwritten(&encode),
        writer@.pending.len() == 0,
        encode.polled(&writer, &encoded, &written, &Poll::Ready(Ok(()))),
        fresh::<T, DeserializeScalarStage<T, R>>(&decode),
        reader@.bytes == written@.pending,
        reader@.order == writer@.order,
        decode.polled(&reader, &decoded, &read, &out),
    ensures
        out == Poll::Ready(Ok::<T, Error>(encode.value())),
        read@.bytes.len() == 0,
{
    let order = writer@.order;
    let bytes = image(encode.value().number(), T::width(), order);
    T::lemma_width();
    lemma_scalar_round_trip::<T>(encode.value(), order);
    assert(encode.todo(order) == bytes);
    assert(write_count(writer@, bytes.len()) == bytes.len());
    assert(written@.pending =~= bytes);
    lemma_scalar_wire_round_trip::<T>(encode.value(), order, Seq::empty());
    assert(bytes + Seq::<u8>::empty() =~= bytes);
    assert(decode.rest(bytes, order) == DeserializeScalarStage::<T, R>::parse(bytes, order));
}

/// Resumability of an encode: a poll that found too little room, followed by
/// a poll that found enough, put into the half, between the two of them, the
/// remaining bytes of the value, each once and in order.
pub proof fn lemma_write_resume<S: EncodeState>(
    start: S,
    first: WriteView,
    paused: S,
    filled: WriteView,
    second: WriteView,
    end: S,
    done: WriteView,
)
    requires
        write_polled::<S>(&start, first, &paused, filled, &Poll::Pending),
        second.order == first.order,
        write_polled::<S>(&paused, second, &end, done, &Poll::Ready(Ok(()))),
    ensures
        filled.pending.len() >= first.pending.len(),
        done.pending.len() >= second.pending.len(),
        filled.pending.skip(first.pending.len() as int) + done.pending.skip(
            second.pending.len() as int,
        ) == start.todo(first.order),
        unwritten(&end),
        end.whole(first.order) == start.whole(first.order),
{
    let order = first.order;
    let todo = start.todo(order);
    let n = write_count(first, todo.len());
    let rest = paused.todo(order);
    let m = write_count(second, rest.len());
    assert(rest == todo.skip(n as int));
    assert(m == rest.len());
    assert(filled.pending.skip(first.pending.len() as int) =~= todo.take(n as int));
    assert(rest.take(m as int) =~= rest);
    assert(done.pending.skip(second.pending.len() as int) =~= rest);
    assert(todo.take(n as int) + todo.skip(n as int) =~= todo);
}

} // verus!
