use ilgda_ipc::error::Error;
use ilgda_ipc::half::{ReadHalf, WriteHalf};
use ilgda_ipc::order::ByteOrder;
use ilgda_ipc::serde::de::{DeserializeOption, DeserializeResult};
use ilgda_ipc::serde::ser::{SerializeOption, SerializeResult};
use ilgda_ipc::serde::{AsyncSer, Poll, StagePoller};

fn reader(bytes: &[u8]) -> ReadHalf<()> {
    let mut half = ReadHalf::new((), ByteOrder::Big);
    half.supply(bytes);
    half
}

fn written<'a, S: StagePoller<Shared = WriteHalf<()>, Output = Result<(), Error>>>(mut stage: S) -> Vec<u8> {
    let mut out: WriteHalf<()> = WriteHalf::new((), ByteOrder::Big);
    assert_eq!(stage.poll_stage(&mut out), Poll::Ready(Ok(())));
    out.take_pending()
}

#[test]
fn a_present_optional_value_follows_a_one() {
    let value: Option<u16> = Some(0x0a0b);
    let wire = written(SerializeOption::new(value.as_ref()));
    assert_eq!(wire, vec![1, 0x0a, 0x0b]);
    let mut input = reader(&wire);
    let mut stage: DeserializeOption<u16, ()> = DeserializeOption::new();
    assert_eq!(stage.poll_stage(&mut input), Poll::Ready(Ok(Some(0x0a0b))));
    assert_eq!(input.buffered(), 0);
}

#[test]
fn an_absent_optional_value_is_a_zero() {
    let value: Option<u16> = None;
    assert_eq!(written(SerializeOption::new(value.as_ref())), vec![0]);
    assert_eq!(written(<Option<u16> as AsyncSer<()>>::write_to_stage(&value)), vec![0]);
    let mut input = reader(&[0, 0x0a, 0x0b]);
    let mut stage: DeserializeOption<u16, ()> = DeserializeOption::new();
    assert_eq!(stage.poll_stage(&mut input), Poll::Ready(Ok(None)));
    assert_eq!(input.fill_buf(), &[0x0a, 0x0b]);
}

#[test]
fn a_bad_discriminator_is_invalid_before_any_payload() {
    for bad in [2u8, 3, 0x7f, 0x80, 0xff] {
        let mut input = reader(&[bad, 1, 2, 3]);
        let mut option: DeserializeOption<u16, ()> = DeserializeOption::new();
        assert_eq!(option.poll_stage(&mut input), Poll::Ready(Err(Error::InvalidData)));
        assert_eq!(input.fill_buf(), &[1, 2, 3]);

        let mut input = reader(&[bad, 1, 2, 3]);
        let mut result: DeserializeResult<u16, u8, ()> = DeserializeResult::new();
        assert_eq!(result.poll_stage(&mut input), Poll::Ready(Err(Error::InvalidData)));
        assert_eq!(input.fill_buf(), &[1, 2, 3]);
    }
}

#[test]
fn an_optional_value_resumes_after_its_discriminator() {
    let mut input = reader(&[1]);
    let mut stage: DeserializeOption<u32, ()> = DeserializeOption::new();
    assert_eq!(stage.poll_stage(&mut input), Poll::Pending);
    input.supply(&[0, 0]);
    assert_eq!(stage.poll_stage(&mut input), Poll::Pending);
    input.supply(&[1, 2, 1]);
    assert_eq!(stage.poll_stage(&mut input), Poll::Ready(Ok(Some(0x0000_0102))));
    assert_eq!(input.fill_buf(), &[1]);
}

#[test]
fn an_optional_value_waits_for_its_discriminator() {
    let mut input = reader(&[]);
    let mut stage: DeserializeOption<u8, ()> = DeserializeOption::new();
    assert_eq!(stage.poll_stage(&mut input), Poll::Pending);
    input.close();
    assert_eq!(stage.poll_stage(&mut input), Poll::Ready(Err(Error::UnexpectedEof)));
}

#[test]
fn an_optional_buffer_comes_back() {
    let value: Option<Vec<u8>> = Some(vec![5, 6, 7]);
    let wire = written(SerializeOption::new(value.as_ref()));
    let mut expected = vec![1u8];
    expected.extend(3usize.to_be_bytes());
    expected.extend([5, 6, 7]);
    assert_eq!(wire, expected);
    for cut in 0..wire.len() {
        let mut input = reader(&wire[..cut]);
        let mut stage: DeserializeOption<Vec<u8>, ()> = DeserializeOption::new();
        assert_eq!(stage.poll_stage(&mut input), Poll::Pending);
        input.supply(&wire[cut..]);
        assert_eq!(stage.poll_stage(&mut input), Poll::Ready(Ok(Some(vec![5, 6, 7]))));
    }
}

#[test]
fn an_optional_string_that_is_not_utf8_is_invalid() {
    let mut wire = vec![1u8];
    wire.extend(2usize.to_be_bytes());
    wire.extend([0xc3, 0x28, 0x55]);
    let mut input = reader(&wire);
    let mut stage: DeserializeOption<String, ()> = DeserializeOption::new();
    assert_eq!(stage.poll_stage(&mut input), Poll::Ready(Err(Error::InvalidData)));
    assert_eq!(input.fill_buf(), &[0x55]);
    input.supply(&[0]);
    input.consume(1);
    assert_eq!(stage.poll_stage(&mut input), Poll::Ready(Ok(None)));
}

#[test]
fn a_success_follows_a_one_and_a_failure_a_zero() {
    let good: Result<u16, u8> = Ok(0x0102);
    let bad: Result<u16, u8> = Err(7);
    assert_eq!(written(SerializeResult::new(good.as_ref())), vec![1, 1, 2]);
    assert_eq!(written(SerializeResult::new(bad.as_ref())), vec![0, 7]);
    assert_eq!(written(<Result<u16, u8> as AsyncSer<()>>::write_to_stage(&good)), vec![1, 1, 2]);

    let mut input = reader(&[1, 1, 2, 0, 7, 9]);
    let mut stage: DeserializeResult<u16, u8, ()> = DeserializeResult::new();
    assert_eq!(stage.poll_stage(&mut input), Poll::Ready(Ok(Ok(0x0102))));
    assert_eq!(stage.poll_stage(&mut input), Poll::Ready(Ok(Err(7))));
    assert_eq!(input.fill_buf(), &[9]);
}

#[test]
fn an_outcome_resumes_in_either_variant() {
    let mut input = reader(&[1, 5]);
    let mut stage: DeserializeResult<u16, u32, ()> = DeserializeResult::new();
    assert_eq!(stage.poll_stage(&mut input), Poll::Pending);
    input.supply(&[6]);
    assert_eq!(stage.poll_stage(&mut input), Poll::Ready(Ok(Ok(0x0506))));

    let mut input = reader(&[0]);
    assert_eq!(stage.poll_stage(&mut input), Poll::Pending);
    input.supply(&[0, 0, 0]);
    assert_eq!(stage.poll_stage(&mut input), Poll::Pending);
    input.supply(&[9]);
    assert_eq!(stage.poll_stage(&mut input), Poll::Ready(Ok(Err(9))));
}

#[test]
fn an_outcome_cut_short_is_end_of_stream() {
    let mut input = reader(&[0]);
    input.close();
    let mut stage: DeserializeResult<u16, u8, ()> = DeserializeResult::new();
    assert_eq!(stage.poll_stage(&mut input), Poll::Ready(Err(Error::UnexpectedEof)));
}

#[test]
fn an_optional_value_is_written_as_room_allows() {
    let value: Option<u32> = Some(0x0102_0304);
    let mut stage = SerializeOption::new(value.as_ref());
    let mut out: WriteHalf<()> = WriteHalf::with_capacity((), 0, ByteOrder::Big);
    assert_eq!(stage.poll_stage(&mut out), Poll::Pending);
    assert_eq!(out.pending(), &[] as &[u8]);

    let mut out: WriteHalf<()> = WriteHalf::with_capacity((), 1, ByteOrder::Big);
    assert_eq!(stage.poll_stage(&mut out), Poll::Pending);
    assert_eq!(out.take_pending(), vec![1]);
    assert_eq!(stage.poll_stage(&mut out), Poll::Pending);
    assert_eq!(out.take_pending(), vec![1]);
    let mut wide: WriteHalf<()> = WriteHalf::new((), ByteOrder::Big);
    assert_eq!(stage.poll_stage(&mut wide), Poll::Ready(Ok(())));
    assert_eq!(wide.take_pending(), vec![2, 3, 4]);
}

#[test]
fn an_outcome_is_written_as_room_allows() {
    let value: Result<u8, u16> = Err(0x0a0b);
    let mut stage = SerializeResult::new(value.as_ref());
    let mut out: WriteHalf<()> = WriteHalf::with_capacity((), 2, ByteOrder::Big);
    assert_eq!(stage.poll_stage(&mut out), Poll::Pending);
    assert_eq!(out.take_pending(), vec![0, 0x0a]);
    assert_eq!(stage.poll_stage(&mut out), Poll::Ready(Ok(())));
    assert_eq!(out.take_pending(), vec![0x0b]);
}

#[test]
fn a_discriminator_is_not_written_to_a_closed_half() {
    let value: Option<u8> = None;
    let mut stage = SerializeOption::new(value.as_ref());
    let mut out: WriteHalf<()> = WriteHalf::new((), ByteOrder::Big);
    out.close();
    assert_eq!(stage.poll_stage(&mut out), Poll::Ready(Err(Error::WriteZero)));
}
