use ilgda_ipc::blocking::IpcStream;
use ilgda_ipc::error::{Error, TransportError};
use ilgda_ipc::half::{Ending, ReadHalf, WriteHalf};
use ilgda_ipc::order::ByteOrder;
use ilgda_ipc::serde::blocking::BlockingSerde;

fn stream(order: ByteOrder) -> IpcStream<(), ()> {
    IpcStream::with_order((), (), order)
}

fn loop_back(stream: &mut IpcStream<(), ()>) -> Vec<u8> {
    let wire = stream.write_half_mut().take_pending();
    stream.read_half_mut().supply(&wire);
    wire
}

#[test]
fn blocking_buffer_and_string_come_back() {
    let mut s = stream(ByteOrder::Little);
    assert_eq!(s.write_buf(&[1, 2, 3]), Ok(()));
    assert_eq!(s.write_str("hello"), Ok(()));
    let wire = loop_back(&mut s);
    let mut expected = 3usize.to_le_bytes().to_vec();
    expected.extend([1, 2, 3]);
    expected.extend(5usize.to_le_bytes());
    expected.extend(b"hello");
    assert_eq!(wire, expected);
    assert_eq!(s.read_buff(), Ok(vec![1, 2, 3]));
    assert_eq!(s.read_string(), Ok(String::from("hello")));
    assert_eq!(s.read_buff(), Err(Error::UnexpectedEof));
}

#[test]
fn blocking_read_that_runs_out_is_end_of_stream() {
    let mut s = stream(ByteOrder::Big);
    let mut wire = 4usize.to_be_bytes().to_vec();
    wire.extend([1, 2]);
    s.read_half_mut().supply(&wire);
    assert_eq!(s.read_buff(), Err(Error::UnexpectedEof));
    assert_eq!(s.read_half().buffered(), 0);
    s.read_half_mut().supply(&[1, 2, 3]);
    assert_eq!(s.read_u32(), Err(Error::UnexpectedEof));
    s.read_half_mut().fail(TransportError { code: 104 });
    assert_eq!(s.read_u8(), Err(Error::Transport(TransportError { code: 104 })));
}

#[test]
fn blocking_string_that_is_not_utf8_is_invalid() {
    let mut s = stream(ByteOrder::Big);
    let mut wire = 2usize.to_be_bytes().to_vec();
    wire.extend([0xff, 0xff, 0x41]);
    s.read_half_mut().supply(&wire);
    assert_eq!(s.read_string(), Err(Error::InvalidData));
    assert_eq!(s.fill_buf(), &[0x41]);
}

#[test]
fn blocking_scalars_in_the_order_of_the_stream() {
    for order in [ByteOrder::Little, ByteOrder::Big] {
        let mut s = stream(order);
        assert_eq!(s.write_u64(0x0102_0304_0506_0708), Ok(()));
        assert_eq!(s.write_u32(0x1122_3344), Ok(()));
        assert_eq!(s.write_u16(0xabcd), Ok(()));
        assert_eq!(s.write_u8(0xef), Ok(()));
        assert_eq!(s.write_usize(usize::MAX - 1), Ok(()));
        assert_eq!(s.write_i64(i64::MIN), Ok(()));
        assert_eq!(s.write_i32(-2), Ok(()));
        assert_eq!(s.write_i16(-3), Ok(()));
        assert_eq!(s.write_i8(-4), Ok(()));
        assert_eq!(s.write_isize(isize::MIN), Ok(()));
        let wire = loop_back(&mut s);
        let first: Vec<u8> = match order {
            ByteOrder::Little => vec![8, 7, 6, 5, 4, 3, 2, 1],
            ByteOrder::Big => vec![1, 2, 3, 4, 5, 6, 7, 8],
        };
        assert_eq!(&wire[..8], &first[..]);
        assert_eq!(s.read_u64(), Ok(0x0102_0304_0506_0708));
        assert_eq!(s.read_u32(), Ok(0x1122_3344));
        assert_eq!(s.read_u16(), Ok(0xabcd));
        assert_eq!(s.read_u8(), Ok(0xef));
        assert_eq!(s.read_usize(), Ok(usize::MAX - 1));
        assert_eq!(s.read_i64(), Ok(i64::MIN));
        assert_eq!(s.read_i32(), Ok(-2));
        assert_eq!(s.read_i16(), Ok(-3));
        assert_eq!(s.read_i8(), Ok(-4));
        assert_eq!(s.read_isize(), Ok(isize::MIN));
        assert_eq!(s.read_half().buffered(), 0);
    }
}

#[test]
fn blocking_scalars_in_a_named_order() {
    let mut s = stream(ByteOrder::Little);
    assert_eq!(s.write_u32_be(0x0102_0304), Ok(()));
    assert_eq!(s.write_u32_le(0x0102_0304), Ok(()));
    assert_eq!(s.write_i16_be(-2), Ok(()));
    assert_eq!(s.write_i16_le(-2), Ok(()));
    assert_eq!(s.write_u64_be(1), Ok(()));
    assert_eq!(s.write_u64_le(1), Ok(()));
    assert_eq!(s.write_u16_be(0x0a0b), Ok(()));
    assert_eq!(s.write_u16_le(0x0a0b), Ok(()));
    assert_eq!(s.write_u8_be(9), Ok(()));
    assert_eq!(s.write_u8_le(9), Ok(()));
    assert_eq!(s.write_i8_be(-9), Ok(()));
    assert_eq!(s.write_i8_le(-9), Ok(()));
    assert_eq!(s.write_i32_be(-7), Ok(()));
    assert_eq!(s.write_i32_le(-7), Ok(()));
    assert_eq!(s.write_i64_be(-8), Ok(()));
    assert_eq!(s.write_i64_le(-8), Ok(()));
    assert_eq!(s.write_usize_be(3), Ok(()));
    assert_eq!(s.write_usize_le(3), Ok(()));
    assert_eq!(s.write_isize_be(-3), Ok(()));
    assert_eq!(s.write_isize_le(-3), Ok(()));
    let wire = loop_back(&mut s);
    assert_eq!(&wire[..12], &[1, 2, 3, 4, 4, 3, 2, 1, 0xff, 0xfe, 0xfe, 0xff]);
    assert_eq!(s.read_u32_be(), Ok(0x0102_0304));
    assert_eq!(s.read_u32_le(), Ok(0x0102_0304));
    assert_eq!(s.read_i16_be(), Ok(-2));
    assert_eq!(s.read_i16_le(), Ok(-2));
    assert_eq!(s.read_u64_be(), Ok(1));
    assert_eq!(s.read_u64_le(), Ok(1));
    assert_eq!(s.read_u16_be(), Ok(0x0a0b));
    assert_eq!(s.read_u16_le(), Ok(0x0a0b));
    assert_eq!(s.read_u8_be(), Ok(9));
    assert_eq!(s.read_u8_le(), Ok(9));
    assert_eq!(s.read_i8_be(), Ok(-9));
    assert_eq!(s.read_i8_le(), Ok(-9));
    assert_eq!(s.read_i32_be(), Ok(-7));
    assert_eq!(s.read_i32_le(), Ok(-7));
    assert_eq!(s.read_i64_be(), Ok(-8));
    assert_eq!(s.read_i64_le(), Ok(-8));
    assert_eq!(s.read_usize_be(), Ok(3));
    assert_eq!(s.read_usize_le(), Ok(3));
    assert_eq!(s.read_isize_be(), Ok(-3));
    assert_eq!(s.read_isize_le(), Ok(-3));
    assert_eq!(s.read_half().buffered(), 0);
}

#[test]
fn blocking_orders_differ_on_the_wire() {
    let mut s = stream(ByteOrder::Big);
    s.write_u16_le(0x0102).unwrap();
    s.write_u16(0x0102).unwrap();
    loop_back(&mut s);
    assert_eq!(s.read_u16(), Ok(0x0201));
    assert_eq!(s.read_u16_le(), Ok(0x0201));
}

#[test]
fn blocking_generic_scalars() {
    let mut s = stream(ByteOrder::Big);
    assert_eq!(s.write_scalar::<u128>(7, ByteOrder::Little), Ok(()));
    assert_eq!(s.write_scalar::<i128>(-7, ByteOrder::Big), Ok(()));
    loop_back(&mut s);
    assert_eq!(s.read_scalar::<u128>(ByteOrder::Little), Ok(7));
    assert_eq!(s.read_scalar::<i128>(ByteOrder::Big), Ok(-7));
}

#[test]
fn blocking_write_without_room_is_write_zero() {
    let input: ReadHalf<()> = ReadHalf::new((), ByteOrder::Big);
    let output: WriteHalf<()> = WriteHalf::with_capacity((), 3, ByteOrder::Big);
    let mut s = IpcStream::from_halves(input, output);
    assert_eq!(s.write_u32(0x0102_0304), Err(Error::WriteZero));
    assert_eq!(s.write_half().pending(), &[1, 2, 3]);
    assert_eq!(s.flush(), Err(Error::WriteZero));
    assert_eq!(s.write(&[9]), Err(Error::WriteZero));
    s.write_half_mut().take_pending();
    assert_eq!(s.flush(), Ok(()));
    assert_eq!(s.write(&[9, 8, 7, 6]), Ok(3));
    s.write_half_mut().take_pending();
    s.write_half_mut().close();
    assert_eq!(s.write_u8(1), Err(Error::WriteZero));
    assert_eq!(s.write(&[1]), Ok(0));
    assert_eq!(s.write_buf(&[1]), Err(Error::WriteZero));
}

#[test]
fn blocking_write_to_a_failed_half_is_its_error() {
    let broken = TransportError { code: 32 };
    let mut s = stream(ByteOrder::Big);
    s.write_half_mut().fail(broken);
    assert_eq!(s.write_u16(1), Err(Error::Transport(broken)));
    assert_eq!(s.write_str("x"), Err(Error::Transport(broken)));
    assert_eq!(s.write(&[1]), Err(Error::Transport(broken)));
    assert_eq!(s.flush(), Err(Error::Transport(broken)));
}

#[test]
fn blocking_raw_reads() {
    let mut s = stream(ByteOrder::Big);
    let mut dst: Vec<u8> = Vec::new();
    assert_eq!(s.read(&mut dst, 4), Err(Error::UnexpectedEof));
    s.read_half_mut().supply(&[1, 2, 3]);
    assert_eq!(s.read(&mut dst, 2), Ok(2));
    assert_eq!(dst, vec![1, 2]);
    s.consume(1);
    s.read_half_mut().close();
    assert_eq!(s.read(&mut dst, 2), Ok(0));
    assert_eq!(s.fill_buf(), &[] as &[u8]);
}

#[test]
fn blocking_stream_needs_both_handles_of_the_child() {
    assert!(IpcStream::<u8, u8>::connect_to_child(None, Some(2)).is_none());
    assert!(IpcStream::<u8, u8>::connect_to_child(Some(1), None).is_none());
    assert!(IpcStream::<u8, u8>::connect_to_child(None, None).is_none());
    let s = IpcStream::<u8, u8>::connect_to_child(Some(1), Some(2)).unwrap();
    assert_eq!(s.read_half().ending(), Ending::Open);
    assert_eq!(s.write_half().capacity(), usize::MAX);
    assert_eq!(s.read_half().order(), ByteOrder::native());
    let (input, output) = s.into_halves();
    assert_eq!(input.into_endpoint(), 1);
    assert_eq!(output.into_endpoint(), 2);
    let fresh: IpcStream<(), ()> = IpcStream::new((), ());
    assert_eq!(fresh.write_half().order(), ByteOrder::native());
}

#[test]
fn blocking_values_by_their_type() {
    let mut s = stream(ByteOrder::Big);
    assert_eq!(<u32 as BlockingSerde<(), ()>>::write_to(&7, &mut s), Ok(()));
    assert_eq!(<str as BlockingSerde<(), ()>>::write_to("abc", &mut s), Ok(()));
    assert_eq!(<[u8] as BlockingSerde<(), ()>>::write_to(&[1, 2], &mut s), Ok(()));
    let items: Vec<u16> = vec![3, 4];
    assert_eq!(s.write_value(&items), Ok(()));
    let maybe: Option<u8> = Some(5);
    assert_eq!(s.write_value(&maybe), Ok(()));
    loop_back(&mut s);
    assert_eq!(<u32 as BlockingSerde<(), ()>>::from_reader(&mut s), Ok(7));
    assert_eq!(<str as BlockingSerde<(), ()>>::from_reader(&mut s), Ok(String::from("abc")));
    assert_eq!(<[u8] as BlockingSerde<(), ()>>::from_reader(&mut s), Ok(vec![1, 2]));
    assert_eq!(s.read_value::<Vec<u16>>(), Ok(vec![3, 4]));
    assert_eq!(s.read_value::<Option<u8>>(), Ok(Some(5)));
    assert_eq!(s.read_value::<Option<u8>>(), Err(Error::UnexpectedEof));
}

#[test]
fn blocking_nested_values_come_back() {
    let mut s = stream(ByteOrder::Little);
    let nested: Option<Result<Vec<u8>, String>> = Some(Err(String::from("no")));
    let other: Result<Option<u16>, u8> = Ok(None);
    let third: Option<Option<u32>> = Some(Some(9));
    assert_eq!(s.write_value(&nested), Ok(()));
    assert_eq!(s.write_value(&other), Ok(()));
    assert_eq!(s.write_value(&third), Ok(()));
    let wire = loop_back(&mut s);
    let mut expected = vec![1u8, 0];
    expected.extend(2usize.to_le_bytes());
    expected.extend(b"no");
    expected.extend([1, 0]);
    expected.extend([1, 1, 9, 0, 0, 0]);
    assert_eq!(wire, expected);
    assert_eq!(s.read_value::<Option<Result<Vec<u8>, String>>>(), Ok(nested));
    assert_eq!(s.read_value::<Result<Option<u16>, u8>>(), Ok(other));
    assert_eq!(s.read_value::<Option<Option<u32>>>(), Ok(third));
    assert_eq!(s.read_half().buffered(), 0);
}
