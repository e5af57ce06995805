use ilgda_ipc::error::Error;
use ilgda_ipc::order::ByteOrder;
use ilgda_ipc::serde::de::{DeserializeOption, DeserializeResult};
use ilgda_ipc::serde::ser::{SerializeOption, SerializeResult};
use ilgda_ipc::serde::{Poll, StageFuture, StagePoller};
use ilgda_ipc::IpcStream;

fn stream() -> IpcStream<(), ()> {
    IpcStream::with_order((), (), ByteOrder::Little)
}

#[test]
fn scalar_u32_travels_to_the_peer() {
    let mut here = stream();
    let mut write = here.write_u32(0x1122_3344);
    assert_eq!(write.poll(), Poll::Ready(Ok(())));
    let wire = here.write_half_mut().take_pending();
    assert_eq!(wire, vec![0x44, 0x33, 0x22, 0x11]);

    let mut peer = stream();
    assert!(peer.read_half_mut().supply(&wire));
    let mut read = peer.read_u32();
    assert_eq!(read.poll(), Poll::Ready(Ok(0x1122_3344)));
    assert_eq!(peer.read_half().buffered(), 0);
}

#[test]
fn string_hello_has_its_wire_bytes() {
    let mut here = stream();
    let mut write = here.write_str("hello");
    assert_eq!(write.poll(), Poll::Ready(Ok(())));
    let wire = here.write_half_mut().take_pending();
    let mut expected = 5usize.to_le_bytes().to_vec();
    expected.extend_from_slice(&[0x68, 0x65, 0x6c, 0x6c, 0x6f]);
    assert_eq!(wire, expected);
    if std::mem::size_of::<usize>() == 8 {
        assert_eq!(wire, vec![5, 0, 0, 0, 0, 0, 0, 0, 0x68, 0x65, 0x6c, 0x6c, 0x6f]);
    }

    let mut peer = stream();
    peer.read_half_mut().supply(&wire);
    let mut read = peer.read_str();
    assert_eq!(read.poll(), Poll::Ready(Ok(String::from("hello"))));
}

#[test]
fn absent_optional_byte_is_one_zero_byte() {
    let mut here = stream();
    let absent: Option<u8> = None;
    let mut write = StageFuture::new(here.write_half_mut(), SerializeOption::new(absent.as_ref()));
    assert_eq!(write.poll(), Poll::Ready(Ok(())));
    let mut wire = here.write_half_mut().take_pending();
    assert_eq!(wire, vec![0]);

    wire.extend_from_slice(&[9, 9]);
    let mut peer = stream();
    peer.read_half_mut().supply(&wire);
    let mut stage: DeserializeOption<u8, ()> = DeserializeOption::new();
    assert_eq!(stage.poll_stage(peer.read_half_mut()), Poll::Ready(Ok(None)));
    assert_eq!(peer.read_half().buffered(), 2);
}

#[test]
fn failure_outcome_with_byte_seven() {
    let mut here = stream();
    let outcome: Result<u16, u8> = Err(7);
    let mut write = StageFuture::new(here.write_half_mut(), SerializeResult::new(outcome.as_ref()));
    assert_eq!(write.poll(), Poll::Ready(Ok(())));
    let wire = here.write_half_mut().take_pending();
    assert_eq!(wire, vec![0, 7]);

    let mut peer = stream();
    peer.read_half_mut().supply(&wire);
    let mut stage: DeserializeResult<u16, u8, ()> = DeserializeResult::new();
    assert_eq!(stage.poll_stage(peer.read_half_mut()), Poll::Ready(Ok(Err(7))));
}

#[test]
fn eight_byte_integer_one_byte_per_poll() {
    let value: u64 = 0x0102_0304_0506_0708;
    let wire = value.to_le_bytes();
    let mut peer = stream();
    let (mut half, _) = peer.into_halves();
    let mut stage = ilgda_ipc::serde::de::DeserializeU64Stage::<()>::new();
    for (i, byte) in wire.iter().enumerate() {
        half.supply(&[*byte]);
        let out = stage.poll_stage(&mut half);
        assert_eq!(half.buffered(), 0);
        if i < 7 {
            assert_eq!(out, Poll::Pending);
        } else {
            assert_eq!(out, Poll::Ready(Ok(value)));
        }
    }
}

#[test]
fn string_cut_short_is_end_of_stream() {
    let mut wire = 3usize.to_le_bytes().to_vec();
    wire.extend_from_slice(b"ab");
    let mut peer = stream();
    peer.read_half_mut().supply(&wire);
    peer.read_half_mut().close();
    let mut read = peer.read_str();
    assert_eq!(read.poll(), Poll::Ready(Err(Error::UnexpectedEof)));
}
