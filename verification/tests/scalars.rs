use ilgda_ipc::error::Error;
use ilgda_ipc::half::{ReadHalf, WriteHalf};
use ilgda_ipc::order::ByteOrder;
use ilgda_ipc::serde::de::DeserializeScalarStage;
use ilgda_ipc::serde::ser::SerializeScalarStage;
use ilgda_ipc::serde::{Poll, Scalar, StagePoller};
use ilgda_ipc::wire::{decode, encode};

fn orders() -> [ByteOrder; 2] {
    [ByteOrder::Little, ByteOrder::Big]
}

fn through_the_wire<T: Scalar + PartialEq + std::fmt::Debug>(value: T, order: ByteOrder) -> Vec<u8> {
    let mut out: WriteHalf<()> = WriteHalf::new((), order);
    let mut write = SerializeScalarStage::new(value);
    assert_eq!(write.poll_stage(&mut out), Poll::Ready(Ok(())));
    let wire = out.take_pending();
    assert_eq!(wire.len(), T::size());
    assert_eq!(wire, value.to_wire(order));

    let mut input: ReadHalf<()> = ReadHalf::new((), order);
    assert!(input.supply(&wire));
    let mut read: DeserializeScalarStage<T, ()> = DeserializeScalarStage::new();
    assert_eq!(read.poll_stage(&mut input), Poll::Ready(Ok(value)));
    assert_eq!(input.buffered(), 0);
    assert_eq!(T::from_wire(&wire, order), value);
    wire
}

#[test]
fn every_unsigned_scalar_comes_back() {
    for order in orders() {
        for v in [0u8, 1, 0x7f, 0x80, u8::MAX] {
            through_the_wire(v, order);
        }
        for v in [0u16, 1, 0x1234, u16::MAX] {
            through_the_wire(v, order);
        }
        for v in [0u32, 1, 0x1122_3344, u32::MAX] {
            through_the_wire(v, order);
        }
        for v in [0u64, 1, 0x0102_0304_0506_0708, u64::MAX] {
            through_the_wire(v, order);
        }
        for v in [0u128, 1, 0x0102_0304_0506_0708_090a_0b0c_0d0e_0f10, u128::MAX] {
            through_the_wire(v, order);
        }
        for v in [0usize, 1, 4096, usize::MAX] {
            through_the_wire(v, order);
        }
    }
}

#[test]
fn every_signed_scalar_comes_back() {
    for order in orders() {
        for v in [0i8, 1, -1, i8::MIN, i8::MAX] {
            through_the_wire(v, order);
        }
        for v in [0i16, 1, -1, -2, i16::MIN, i16::MAX] {
            through_the_wire(v, order);
        }
        for v in [0i32, 1, -1, i32::MIN, i32::MAX] {
            through_the_wire(v, order);
        }
        for v in [0i64, 1, -1, i64::MIN, i64::MAX] {
            through_the_wire(v, order);
        }
        for v in [0i128, 1, -1, i128::MIN, i128::MAX] {
            through_the_wire(v, order);
        }
        for v in [0isize, 1, -1, isize::MIN, isize::MAX] {
            through_the_wire(v, order);
        }
    }
}

#[test]
fn images_are_the_raw_bit_patterns() {
    assert_eq!(0x1122_3344u32.to_wire(ByteOrder::Little), vec![0x44, 0x33, 0x22, 0x11]);
    assert_eq!(0x1122_3344u32.to_wire(ByteOrder::Big), vec![0x11, 0x22, 0x33, 0x44]);
    assert_eq!((-2i16).to_wire(ByteOrder::Little), vec![0xfe, 0xff]);
    assert_eq!((-2i16).to_wire(ByteOrder::Big), vec![0xff, 0xfe]);
    assert_eq!((-1i8).to_wire(ByteOrder::Big), vec![0xff]);
    assert_eq!(i64::MIN.to_wire(ByteOrder::Big), vec![0x80, 0, 0, 0, 0, 0, 0, 0]);
    assert_eq!(i128::MIN.to_wire(ByteOrder::Little), i128::MIN.to_le_bytes().to_vec());
    assert_eq!(u128::MAX.to_wire(ByteOrder::Big), vec![0xff; 16]);
    assert_eq!((-7isize).to_wire(ByteOrder::Little), (-7isize).to_le_bytes().to_vec());
    assert_eq!(usize::MAX.to_wire(ByteOrder::Big), usize::MAX.to_be_bytes().to_vec());
}

#[test]
fn images_agree_with_the_language() {
    for v in [0i32, 5, -5, i32::MIN, i32::MAX, 0x0102_0304] {
        assert_eq!(v.to_wire(ByteOrder::Little), v.to_le_bytes().to_vec());
        assert_eq!(v.to_wire(ByteOrder::Big), v.to_be_bytes().to_vec());
        assert_eq!(i32::from_wire(&v.to_be_bytes(), ByteOrder::Big), v);
        assert_eq!(i32::from_wire(&v.to_le_bytes(), ByteOrder::Little), v);
    }
    for v in [0u64, 77, u64::MAX, 0x0102_0304_0506_0708] {
        assert_eq!(v.to_wire(ByteOrder::Little), v.to_le_bytes().to_vec());
        assert_eq!(v.to_wire(ByteOrder::Big), v.to_be_bytes().to_vec());
    }
}

#[test]
fn widths_are_the_sizes_in_memory() {
    assert_eq!(u8::size(), 1);
    assert_eq!(i8::size(), 1);
    assert_eq!(u16::size(), 2);
    assert_eq!(i16::size(), 2);
    assert_eq!(u32::size(), 4);
    assert_eq!(i32::size(), 4);
    assert_eq!(u64::size(), 8);
    assert_eq!(i64::size(), 8);
    assert_eq!(u128::size(), 16);
    assert_eq!(i128::size(), 16);
    assert_eq!(usize::size(), std::mem::size_of::<usize>());
    assert_eq!(isize::size(), std::mem::size_of::<isize>());
}

#[test]
fn encode_keeps_the_low_digits() {
    assert_eq!(encode(0x0102_0304, 4, ByteOrder::Big), vec![1, 2, 3, 4]);
    assert_eq!(encode(0x0102_0304, 4, ByteOrder::Little), vec![4, 3, 2, 1]);
    assert_eq!(encode(0x0102_0304, 2, ByteOrder::Big), vec![3, 4]);
    assert_eq!(encode(0x0102_0304, 0, ByteOrder::Big), Vec::<u8>::new());
    assert_eq!(encode(7, 3, ByteOrder::Big), vec![0, 0, 7]);
    assert_eq!(encode(u128::MAX, 16, ByteOrder::Little), vec![0xff; 16]);
}

#[test]
fn decode_reads_both_orders() {
    assert_eq!(decode(&[1, 2, 3, 4], ByteOrder::Big), 0x0102_0304);
    assert_eq!(decode(&[1, 2, 3, 4], ByteOrder::Little), 0x0403_0201);
    assert_eq!(decode(&[], ByteOrder::Little), 0);
    assert_eq!(decode(&[0xff; 16], ByteOrder::Big), u128::MAX);
    assert_eq!(decode(&[0, 0, 9], ByteOrder::Big), 9);
}

#[test]
fn native_order_is_the_order_of_memory() {
    let native = ByteOrder::native();
    assert_eq!(0x0102_0304u32.to_wire(native), 0x0102_0304u32.to_ne_bytes().to_vec());
    if 0x0102u16.to_ne_bytes() == 0x0102u16.to_le_bytes() {
        assert_eq!(native, ByteOrder::Little);
    } else {
        assert_eq!(native, ByteOrder::Big);
    }
    assert_eq!(ByteOrder::of_stored_one(1u16.to_ne_bytes()), native);
    assert_eq!(ByteOrder::of_stored_one([1, 0]), ByteOrder::Little);
    assert_eq!(ByteOrder::of_stored_one([0, 1]), ByteOrder::Big);
    assert_eq!(ByteOrder::of_stored_one(1u16.to_le_bytes()), ByteOrder::Little);
    assert_eq!(ByteOrder::of_stored_one(1u16.to_be_bytes()), ByteOrder::Big);
    assert_eq!(native.swapped().swapped(), native);
    assert_ne!(native.swapped(), native);
}

#[test]
fn floats_travel_as_their_bits() {
    for order in orders() {
        for v in [0.0f32, -0.0, 1.5, f32::INFINITY, f32::MIN_POSITIVE, f32::from_bits(0x7fc0_1234)] {
            let wire = through_the_wire(v.to_bits(), order);
            let back = f32::from_bits(u32::from_wire(&wire, order));
            assert_eq!(back.to_bits(), v.to_bits());
        }
        for v in [0.0f64, -0.0, 2.25, f64::NEG_INFINITY, f64::from_bits(0x7ff8_0000_dead_beef)] {
            let wire = through_the_wire(v.to_bits(), order);
            let back = f64::from_bits(u64::from_wire(&wire, order));
            assert_eq!(back.to_bits(), v.to_bits());
        }
    }
    let nan = f64::from_bits(0x7ff8_0000_dead_beef);
    assert!(nan.is_nan());
    let minus_zero = f32::from_bits(u32::from_wire(&(-0.0f32).to_bits().to_wire(ByteOrder::Big), ByteOrder::Big));
    assert!(minus_zero.is_sign_negative());
}

#[test]
fn a_scalar_resumes_at_every_split() {
    let value: u64 = 0x1020_3040_5060_7080;
    let wire = value.to_wire(ByteOrder::Big);
    for cut in 0..wire.len() {
        let mut input: ReadHalf<()> = ReadHalf::new((), ByteOrder::Big);
        let mut stage: DeserializeScalarStage<u64, ()> = DeserializeScalarStage::new();
        input.supply(&wire[..cut]);
        assert_eq!(stage.poll_stage(&mut input), Poll::Pending);
        assert_eq!(input.buffered(), 0);
        assert_eq!(stage.poll_stage(&mut input), Poll::Pending);
        input.supply(&wire[cut..]);
        input.supply(&[0xaa]);
        assert_eq!(stage.poll_stage(&mut input), Poll::Ready(Ok(value)));
        assert_eq!(input.fill_buf(), &[0xaa]);
    }
}

#[test]
fn a_scalar_cut_short_is_end_of_stream() {
    let mut input: ReadHalf<()> = ReadHalf::new((), ByteOrder::Little);
    input.supply(&[1, 2, 3]);
    input.close();
    let mut stage: DeserializeScalarStage<u32, ()> = DeserializeScalarStage::new();
    assert_eq!(stage.poll_stage(&mut input), Poll::Ready(Err(Error::UnexpectedEof)));
    assert_eq!(input.buffered(), 0);

    let mut empty: ReadHalf<()> = ReadHalf::new((), ByteOrder::Little);
    empty.close();
    let mut byte: DeserializeScalarStage<u8, ()> = DeserializeScalarStage::new();
    assert_eq!(byte.poll_stage(&mut empty), Poll::Ready(Err(Error::UnexpectedEof)));
}

#[test]
fn a_completed_stage_starts_over() {
    let mut input: ReadHalf<()> = ReadHalf::new((), ByteOrder::Big);
    input.supply(&[0, 1, 0, 2, 0]);
    let mut stage: DeserializeScalarStage<u16, ()> = DeserializeScalarStage::new();
    assert_eq!(stage.poll_stage(&mut input), Poll::Ready(Ok(1)));
    assert_eq!(stage.poll_stage(&mut input), Poll::Ready(Ok(2)));
    assert_eq!(stage.poll_stage(&mut input), Poll::Pending);
    input.supply(&[3]);
    assert_eq!(stage.poll_stage(&mut input), Poll::Ready(Ok(3)));
}

#[test]
fn a_scalar_is_written_as_room_allows() {
    let mut out: WriteHalf<()> = WriteHalf::with_capacity((), 3, ByteOrder::Big);
    let mut stage = SerializeScalarStage::new(0x0102_0304_0506_0708u64);
    assert_eq!(stage.poll_stage(&mut out), Poll::Pending);
    assert_eq!(out.pending(), &[1, 2, 3]);
    assert_eq!(stage.poll_stage(&mut out), Poll::Pending);
    assert_eq!(out.pending(), &[1, 2, 3]);
    out.consume(2);
    assert_eq!(stage.poll_stage(&mut out), Poll::Pending);
    assert_eq!(out.pending(), &[3, 4, 5]);
    assert_eq!(out.take_pending(), vec![3, 4, 5]);
    assert_eq!(stage.poll_stage(&mut out), Poll::Ready(Ok(())));
    assert_eq!(out.take_pending(), vec![6, 7, 8]);
}

#[test]
fn a_closed_writer_is_write_zero() {
    let mut out: WriteHalf<()> = WriteHalf::new((), ByteOrder::Big);
    out.close();
    let mut stage = SerializeScalarStage::new(5u8);
    assert_eq!(stage.poll_stage(&mut out), Poll::Ready(Err(Error::WriteZero)));
    assert_eq!(out.pending(), &[] as &[u8]);
}
