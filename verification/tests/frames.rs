use ilgda_ipc::error::{Error, TransportError};
use ilgda_ipc::half::{ReadHalf, WriteHalf};
use ilgda_ipc::order::ByteOrder;
use ilgda_ipc::serde::de::{
    text_of, unpack, DeserializeBytesStage, DeserializePrimitiveSliceStage,
    DeserializeStringStage,
};
use ilgda_ipc::serde::ser::{pack, SerializeBytes, SerializePrimitiveSlice};
use ilgda_ipc::serde::{AsyncDe, AsyncSer, Poll, Scalar, Stage, StagePoller};

const WORD: usize = std::mem::size_of::<usize>();

fn reader(order: ByteOrder, bytes: &[u8]) -> ReadHalf<()> {
    let mut half = ReadHalf::new((), order);
    half.supply(bytes);
    half
}

fn frame(order: ByteOrder, count: usize, payload: &[u8]) -> Vec<u8> {
    let mut wire = count.to_wire(order);
    wire.extend_from_slice(payload);
    wire
}

#[test]
fn a_buffer_of_length_l_takes_word_plus_l_bytes() {
    for order in [ByteOrder::Little, ByteOrder::Big] {
        for len in [0usize, 1, 2, 7, 255, 256, 1000] {
            let payload: Vec<u8> = (0..len).map(|i| (i % 251) as u8).collect();
            let mut out: WriteHalf<()> = WriteHalf::new((), order);
            let mut stage = SerializeBytes::new(&payload);
            assert_eq!(stage.poll_stage(&mut out), Poll::Ready(Ok(())));
            let wire = out.take_pending();
            assert_eq!(wire.len(), WORD + len);
            assert_eq!(wire, frame(order, len, &payload));
        }
    }
}

#[test]
fn a_decode_takes_exactly_the_declared_bytes() {
    let wire = frame(ByteOrder::Big, 3, &[10, 20, 30, 40, 50]);
    let mut input = reader(ByteOrder::Big, &wire);
    let mut stage: DeserializeBytesStage<()> = DeserializeBytesStage::new();
    assert_eq!(stage.poll_stage(&mut input), Poll::Ready(Ok(vec![10, 20, 30])));
    assert_eq!(input.fill_buf(), &[40, 50]);
}

#[test]
fn an_empty_buffer_is_done_with_its_count() {
    let wire = frame(ByteOrder::Little, 0, &[]);
    let mut input = reader(ByteOrder::Little, &wire);
    let mut stage: DeserializeBytesStage<()> = DeserializeBytesStage::new();
    assert_eq!(stage.poll_stage(&mut input), Poll::Ready(Ok(Vec::new())));
    assert_eq!(input.buffered(), 0);
}

#[test]
fn a_buffer_resumes_at_every_split() {
    let payload: Vec<u8> = (1..=9).collect();
    let wire = frame(ByteOrder::Little, payload.len(), &payload);
    let mut whole = reader(ByteOrder::Little, &wire);
    let mut at_once: DeserializeBytesStage<()> = DeserializeBytesStage::new();
    let expected = at_once.poll_stage(&mut whole);
    assert_eq!(expected, Poll::Ready(Ok(payload.clone())));
    for first in 0..wire.len() {
        for second in first..wire.len() {
            let mut input: ReadHalf<()> = ReadHalf::new((), ByteOrder::Little);
            let mut stage: DeserializeBytesStage<()> = DeserializeBytesStage::new();
            input.supply(&wire[..first]);
            assert_eq!(stage.poll_stage(&mut input), Poll::Pending);
            assert_eq!(input.buffered(), 0);
            input.supply(&wire[first..second]);
            assert_eq!(stage.poll_stage(&mut input), Poll::Pending);
            assert_eq!(input.buffered(), 0);
            input.supply(&wire[second..]);
            assert_eq!(stage.poll_stage(&mut input), expected);
            assert_eq!(input.buffered(), 0);
        }
    }
}

#[test]
fn a_buffer_fed_byte_by_byte() {
    let payload = b"resumable".to_vec();
    let wire = frame(ByteOrder::Big, payload.len(), &payload);
    let mut input: ReadHalf<()> = ReadHalf::new((), ByteOrder::Big);
    let mut stage: DeserializeBytesStage<()> = DeserializeBytesStage::new();
    let mut polls: usize = 0;
    let mut result = Poll::Pending;
    for byte in &wire {
        assert_eq!(result, Poll::Pending);
        input.supply(&[*byte]);
        result = stage.poll_stage(&mut input);
        polls += 1;
        assert_eq!(input.buffered(), 0);
    }
    assert_eq!(polls, wire.len());
    assert_eq!(result, Poll::Ready(Ok(payload)));
}

#[test]
fn a_buffer_cut_short_is_end_of_stream() {
    let wire = frame(ByteOrder::Big, 4, &[1, 2]);
    let mut input = reader(ByteOrder::Big, &wire);
    let mut stage: DeserializeBytesStage<()> = DeserializeBytesStage::new();
    assert_eq!(stage.poll_stage(&mut input), Poll::Pending);
    input.close();
    assert_eq!(stage.poll_stage(&mut input), Poll::Ready(Err(Error::UnexpectedEof)));

    let mut in_the_count = reader(ByteOrder::Big, &[0, 0]);
    in_the_count.close();
    let mut other: DeserializeBytesStage<()> = DeserializeBytesStage::new();
    assert_eq!(other.poll_stage(&mut in_the_count), Poll::Ready(Err(Error::UnexpectedEof)));
}

#[test]
fn a_transport_error_comes_through_unchanged() {
    let broken = TransportError { code: 32 };
    let wire = frame(ByteOrder::Big, 4, &[1, 2]);
    let mut input = reader(ByteOrder::Big, &wire);
    input.fail(broken);
    let mut stage: DeserializeBytesStage<()> = DeserializeBytesStage::new();
    assert_eq!(stage.poll_stage(&mut input), Poll::Ready(Err(Error::Transport(broken))));

    let mut out: WriteHalf<()> = WriteHalf::new((), ByteOrder::Big);
    out.fail(broken);
    let payload = [1u8, 2, 3];
    let mut write = SerializeBytes::new(&payload);
    assert_eq!(write.poll_stage(&mut out), Poll::Ready(Err(Error::Transport(broken))));
    assert_eq!(out.pending(), &[] as &[u8]);
}

#[test]
fn buffered_bytes_come_before_the_failure() {
    let broken = TransportError { code: -5 };
    let wire = frame(ByteOrder::Little, 2, &[8, 9]);
    let mut input = reader(ByteOrder::Little, &wire);
    input.fail(broken);
    let mut stage: DeserializeBytesStage<()> = DeserializeBytesStage::new();
    assert_eq!(stage.poll_stage(&mut input), Poll::Ready(Ok(vec![8, 9])));
    assert_eq!(stage.poll_stage(&mut input), Poll::Ready(Err(Error::Transport(broken))));
}

#[test]
fn a_buffer_is_written_as_room_allows() {
    let payload: Vec<u8> = (0..20).collect();
    let wire = frame(ByteOrder::Big, payload.len(), &payload);
    for capacity in 1..=wire.len() {
        let mut out: WriteHalf<()> = WriteHalf::with_capacity((), capacity, ByteOrder::Big);
        let mut stage = SerializeBytes::new(&payload);
        let mut sent: Vec<u8> = Vec::new();
        let mut polls: usize = 0;
        loop {
            polls += 1;
            match stage.poll_stage(&mut out) {
                Poll::Ready(result) => {
                    assert_eq!(result, Ok(()));
                    sent.extend(out.take_pending());
                    break;
                }
                Poll::Pending => {
                    assert_eq!(out.room(), 0);
                    sent.extend(out.take_pending());
                }
            }
        }
        assert_eq!(sent, wire);
        assert_eq!(polls, (wire.len() + capacity - 1) / capacity);
    }
}

#[test]
fn a_writer_that_closes_midway_is_write_zero() {
    let payload = [1u8, 2, 3, 4, 5, 6];
    let mut out: WriteHalf<()> = WriteHalf::with_capacity((), WORD + 2, ByteOrder::Big);
    let mut stage = SerializeBytes::new(&payload);
    assert_eq!(stage.poll_stage(&mut out), Poll::Pending);
    out.take_pending();
    out.close();
    assert_eq!(stage.poll_stage(&mut out), Poll::Ready(Err(Error::WriteZero)));
}

#[test]
fn a_string_comes_back() {
    for text in ["", "hello", "grüße", "日本語", "a\u{10ffff}b"] {
        let mut out: WriteHalf<()> = WriteHalf::new((), ByteOrder::Little);
        let mut write = <str as AsyncSer<()>>::write_to_stage(text);
        assert_eq!(write.poll_stage(&mut out), Poll::Ready(Ok(())));
        let wire = out.take_pending();
        assert_eq!(wire, frame(ByteOrder::Little, text.len(), text.as_bytes()));
        let mut input = reader(ByteOrder::Little, &wire);
        let mut read = <str as AsyncDe<()>>::read_from_stage();
        assert_eq!(read.poll_stage(&mut input), Poll::Ready(Ok(text.to_string())));
    }
    let owned = String::from("owned");
    let mut out: WriteHalf<()> = WriteHalf::new((), ByteOrder::Big);
    let mut write = <String as AsyncSer<()>>::write_to(&owned, &mut out);
    assert_eq!(write.poll(), Poll::Ready(Ok(())));
    assert_eq!(out.take_pending(), frame(ByteOrder::Big, 5, b"owned"));
}

#[test]
fn a_string_that_is_not_utf8_is_invalid_after_its_frame() {
    for bad in [&[0xff, 0xfe, 0xfd][..], &[0xc0, 0x80], &[0xed, 0xa0, 0x80], &[b'a', 0x80], &[0xf4, 0x90, 0x80, 0x80]] {
        let mut wire = frame(ByteOrder::Little, bad.len(), bad);
        wire.extend_from_slice(&[7, 7]);
        let mut input = reader(ByteOrder::Little, &wire);
        let mut stage: DeserializeStringStage<()> = DeserializeStringStage::new();
        assert_eq!(stage.poll_stage(&mut input), Poll::Ready(Err(Error::InvalidData)));
        assert_eq!(input.fill_buf(), &[7, 7]);
    }
}

#[test]
fn a_string_is_checked_only_when_it_is_whole() {
    let wire = frame(ByteOrder::Little, 3, &[0xff, 0xff]);
    let mut input = reader(ByteOrder::Little, &wire);
    let mut stage: DeserializeStringStage<()> = DeserializeStringStage::new();
    assert_eq!(stage.poll_stage(&mut input), Poll::Pending);
    input.supply(&[b'x']);
    assert_eq!(stage.poll_stage(&mut input), Poll::Ready(Err(Error::InvalidData)));
}

#[test]
fn text_is_accepted_exactly_when_it_is_utf8() {
    assert_eq!(text_of(b"plain").ok(), Some(String::from("plain")));
    assert_eq!(text_of("žluťoučký".as_bytes()).ok(), Some(String::from("žluťoučký")));
    assert_eq!(text_of(&[]).ok(), Some(String::new()));
    assert!(text_of(&[0x80]).is_err());
    assert!(text_of(&[0xe2, 0x82]).is_err());
    assert!(text_of(&[0xf8, 0x88, 0x80, 0x80, 0x80]).is_err());
}

#[test]
fn an_array_comes_back() {
    for order in [ByteOrder::Little, ByteOrder::Big] {
        let items: Vec<u16> = vec![1, 0x0203, 0xffff];
        let mut out: WriteHalf<()> = WriteHalf::new((), order);
        let mut write = SerializePrimitiveSlice::new(&items);
        assert_eq!(write.poll_stage(&mut out), Poll::Ready(Ok(())));
        let wire = out.take_pending();
        assert_eq!(wire.len(), WORD + 6);
        let mut expected = 3usize.to_wire(order);
        for item in &items {
            expected.extend(item.to_wire(order));
        }
        assert_eq!(wire, expected);

        let mut input = reader(order, &wire);
        let mut read: DeserializePrimitiveSliceStage<u16, ()> = DeserializePrimitiveSliceStage::new();
        assert_eq!(read.poll_stage(&mut input), Poll::Ready(Ok(items)));
    }
    let signed: Vec<i64> = vec![-1, i64::MIN, 42];
    let mut out: WriteHalf<()> = WriteHalf::new((), ByteOrder::Big);
    let mut write = <Vec<i64> as AsyncSer<()>>::write_to_stage(&signed);
    assert_eq!(write.poll_stage(&mut out), Poll::Ready(Ok(())));
    let mut input = reader(ByteOrder::Big, &out.take_pending());
    let mut read = <Vec<i64> as AsyncDe<()>>::read_from_stage();
    assert_eq!(read.poll_stage(&mut input), Poll::Ready(Ok(signed)));
}

#[test]
fn the_count_of_an_array_counts_elements() {
    let wire = frame(ByteOrder::Big, 2, &[0, 0, 0, 1, 0, 0, 0, 2, 9]);
    let mut input = reader(ByteOrder::Big, &wire);
    let mut read: DeserializePrimitiveSliceStage<u32, ()> = DeserializePrimitiveSliceStage::new();
    assert_eq!(read.poll_stage(&mut input), Poll::Ready(Ok(vec![1, 2])));
    assert_eq!(input.fill_buf(), &[9]);
}

#[test]
fn an_array_resumes_in_the_middle_of_an_element() {
    let items: Vec<u32> = vec![0x0102_0304, 0x0506_0708];
    let mut wire = 2usize.to_wire(ByteOrder::Big);
    wire.extend(pack(&items, ByteOrder::Big));
    for cut in 0..wire.len() {
        let mut input: ReadHalf<()> = ReadHalf::new((), ByteOrder::Big);
        let mut stage: DeserializePrimitiveSliceStage<u32, ()> = DeserializePrimitiveSliceStage::new();
        input.supply(&wire[..cut]);
        assert_eq!(stage.poll_stage(&mut input), Poll::Pending);
        input.supply(&wire[cut..]);
        assert_eq!(stage.poll_stage(&mut input), Poll::Ready(Ok(items.clone())));
    }
}

#[test]
fn an_array_is_written_as_room_allows() {
    let items: Vec<u16> = vec![0x0102, 0x0304, 0x0506];
    let mut out: WriteHalf<()> = WriteHalf::with_capacity((), WORD + 3, ByteOrder::Big);
    let mut stage = SerializePrimitiveSlice::new(&items);
    assert_eq!(stage.poll_stage(&mut out), Poll::Pending);
    let mut sent = out.take_pending();
    assert_eq!(sent.len(), WORD + 3);
    assert_eq!(stage.poll_stage(&mut out), Poll::Ready(Ok(())));
    sent.extend(out.take_pending());
    assert_eq!(sent, frame(ByteOrder::Big, 3, &[1, 2, 3, 4, 5, 6]));
}

#[test]
fn an_array_too_large_for_memory_is_invalid() {
    let wire = frame(ByteOrder::Little, usize::MAX, &[1, 2, 3]);
    let mut input = reader(ByteOrder::Little, &wire);
    let mut read: DeserializePrimitiveSliceStage<u64, ()> = DeserializePrimitiveSliceStage::new();
    assert_eq!(read.poll_stage(&mut input), Poll::Ready(Err(Error::InvalidData)));
    assert_eq!(input.fill_buf(), &[1, 2, 3]);
}

#[test]
fn pack_and_unpack_are_inverse() {
    let items: Vec<i32> = vec![-1, 0, 1, i32::MIN, i32::MAX];
    for order in [ByteOrder::Little, ByteOrder::Big] {
        let bytes = pack(&items, order);
        assert_eq!(bytes.len(), 20);
        assert_eq!(unpack::<i32>(&bytes, order), items);
    }
    assert_eq!(pack(&[0x0102u16, 0x0304], ByteOrder::Big), vec![1, 2, 3, 4]);
    assert_eq!(pack(&[0x0102u16, 0x0304], ByteOrder::Little), vec![2, 1, 4, 3]);
    assert_eq!(unpack::<u16>(&[1, 2, 3, 4], ByteOrder::Little), vec![0x0201, 0x0403]);
    assert_eq!(unpack::<u16>(&[], ByteOrder::Little), Vec::<u16>::new());
    assert_eq!(unpack::<u16>(&[1, 2, 3], ByteOrder::Big), vec![0x0102]);
    assert_eq!(unpack::<u32>(&[1, 2, 3], ByteOrder::Big), Vec::<u32>::new());
    assert_eq!(unpack::<u32>(&[0, 0, 0, 1, 0, 0, 0, 2, 9, 9, 9], ByteOrder::Big), vec![1, 2]);
}

#[test]
fn a_memoizing_stage_is_polled_until_done_and_never_after() {
    let mut input: ReadHalf<()> = ReadHalf::new((), ByteOrder::Big);
    let mut stage: Stage<ilgda_ipc::serde::de::DeserializeU16Stage<()>, ReadHalf<()>, u16, Error> =
        Stage::Pending(ilgda_ipc::serde::de::DeserializeU16Stage::new());
    assert_eq!(stage.completed(), None);
    input.supply(&[1]);
    assert_eq!(stage.resolve(&mut input), Poll::Pending);
    assert_eq!(stage.completed(), None);
    input.supply(&[2, 3, 4]);
    assert_eq!(stage.resolve(&mut input), Poll::Ready(Ok(())));
    assert_eq!(stage.completed(), Some(&0x0102));
    assert_eq!(input.buffered(), 2);
    assert_eq!(stage.resolve(&mut input), Poll::Ready(Ok(())));
    assert_eq!(stage.completed(), Some(&0x0102));
    assert_eq!(input.buffered(), 2);
}

#[test]
fn a_memoizing_stage_hands_the_error_on() {
    let mut input: ReadHalf<()> = ReadHalf::new((), ByteOrder::Big);
    input.supply(&[1]);
    input.close();
    let mut stage: Stage<ilgda_ipc::serde::de::DeserializeU16Stage<()>, ReadHalf<()>, u16, Error> =
        Stage::Pending(ilgda_ipc::serde::de::DeserializeU16Stage::new());
    assert_eq!(stage.resolve(&mut input), Poll::Ready(Err(Error::UnexpectedEof)));
    assert_eq!(stage.completed(), None);
}
