use ilgda_ipc::error::{Error, TransportError};
use ilgda_ipc::half::{append_range, ByteQueue, Ending, ReadHalf, WriteHalf, DEFAULT_CAPACITY};
use ilgda_ipc::order::ByteOrder;
use ilgda_ipc::serde::{AsyncSerDe, Poll};
use ilgda_ipc::IpcStream;

#[test]
fn a_queue_gives_back_in_order() {
    let mut queue = ByteQueue::new();
    assert_eq!(queue.len(), 0);
    queue.push_range(&[1, 2, 3, 4, 5], 1, 4);
    assert_eq!(queue.peek(), &[2, 3, 4]);
    let mut dst = vec![9u8];
    queue.pop_into(&mut dst, 2);
    assert_eq!(dst, vec![9, 2, 3]);
    assert_eq!(queue.peek(), &[4]);
    queue.push_range(&[6, 7], 0, 2);
    assert_eq!(queue.peek(), &[4, 6, 7]);
    queue.discard(1);
    assert_eq!(queue.peek(), &[6, 7]);
    queue.discard(10);
    assert_eq!(queue.len(), 0);
    queue.push_range(&[8], 0, 1);
    assert_eq!(queue.peek(), &[8]);
}

#[test]
fn a_queue_stays_in_order_while_it_is_used() {
    let mut queue = ByteQueue::new();
    let mut next_in: u8 = 0;
    let mut next_out: u8 = 0;
    for round in 0..200usize {
        let chunk: Vec<u8> = (0..(round % 7 + 1)).map(|i| next_in.wrapping_add(i as u8)).collect();
        next_in = next_in.wrapping_add(chunk.len() as u8);
        queue.push_range(&chunk, 0, chunk.len());
        let take = queue.len() - queue.len() / 3;
        let mut out: Vec<u8> = Vec::new();
        queue.pop_into(&mut out, take);
        for byte in out {
            assert_eq!(byte, next_out);
            next_out = next_out.wrapping_add(1);
        }
    }
    let left = queue.peek().to_vec();
    for byte in left {
        assert_eq!(byte, next_out);
        next_out = next_out.wrapping_add(1);
    }
    assert_eq!(next_out, next_in);
}

#[test]
fn append_range_copies_the_range() {
    let mut dst = vec![1u8];
    append_range(&mut dst, &[10, 11, 12, 13], 1, 3);
    assert_eq!(dst, vec![1, 11, 12]);
    append_range(&mut dst, &[10, 11], 2, 2);
    assert_eq!(dst, vec![1, 11, 12]);
}

#[test]
fn a_read_half_reads_buffered_bytes_first() {
    let mut half: ReadHalf<u8> = ReadHalf::new(7, ByteOrder::Big);
    assert_eq!(half.order(), ByteOrder::Big);
    assert_eq!(half.ending(), Ending::Open);
    assert_eq!(*half.endpoint(), 7);
    let mut dst: Vec<u8> = Vec::new();
    assert_eq!(half.poll_read(&mut dst, 4), Poll::Pending);
    assert!(half.supply(&[1, 2, 3]));
    assert_eq!(half.buffered(), 3);
    assert_eq!(half.poll_read(&mut dst, 2), Poll::Ready(Ok(2)));
    assert_eq!(dst, vec![1, 2]);
    assert_eq!(half.poll_read(&mut dst, 0), Poll::Ready(Ok(0)));
    assert_eq!(half.poll_read(&mut dst, 5), Poll::Ready(Ok(1)));
    assert_eq!(dst, vec![1, 2, 3]);
    assert_eq!(half.poll_read(&mut dst, 5), Poll::Pending);
    half.close();
    assert_eq!(half.ending(), Ending::Closed);
    assert_eq!(half.poll_read(&mut dst, 5), Poll::Ready(Ok(0)));
    assert!(!half.supply(&[4]));
    assert_eq!(half.buffered(), 0);
    *half.endpoint_mut() = 8;
    assert_eq!(half.into_endpoint(), 8);
}

#[test]
fn a_read_half_keeps_its_first_ending() {
    let first = TransportError { code: 1 };
    let second = TransportError { code: 2 };
    let mut half: ReadHalf<()> = ReadHalf::new((), ByteOrder::Little);
    half.supply(&[1]);
    half.fail(first);
    half.fail(second);
    half.close();
    assert_eq!(half.ending(), Ending::Failed(first));
    let mut dst: Vec<u8> = Vec::new();
    assert_eq!(half.poll_read(&mut dst, 8), Poll::Ready(Ok(1)));
    assert_eq!(half.poll_read(&mut dst, 8), Poll::Ready(Err(first)));

    let mut closed: ReadHalf<()> = ReadHalf::new((), ByteOrder::Little);
    closed.close();
    closed.fail(first);
    assert_eq!(closed.ending(), Ending::Closed);
}

#[test]
fn a_read_half_lets_bytes_be_looked_at() {
    let mut half: ReadHalf<()> = ReadHalf::new((), ByteOrder::Little);
    half.supply(&[1, 2, 3, 4]);
    assert_eq!(half.fill_buf(), &[1, 2, 3, 4]);
    half.consume(1);
    assert_eq!(half.fill_buf(), &[2, 3, 4]);
    half.consume(0);
    assert_eq!(half.fill_buf(), &[2, 3, 4]);
    half.consume(99);
    assert_eq!(half.fill_buf(), &[] as &[u8]);
}

#[test]
fn a_write_half_takes_what_it_has_room_for() {
    let mut half: WriteHalf<u8> = WriteHalf::with_capacity(3, 4, ByteOrder::Big);
    assert_eq!(half.capacity(), 4);
    assert_eq!(half.room(), 4);
    assert_eq!(half.order(), ByteOrder::Big);
    assert_eq!(*half.endpoint(), 3);
    assert_eq!(half.poll_write(&[]), Poll::Ready(Ok(0)));
    assert_eq!(half.poll_write(&[1, 2, 3]), Poll::Ready(Ok(3)));
    assert_eq!(half.room(), 1);
    assert_eq!(half.poll_write(&[4, 5, 6]), Poll::Ready(Ok(1)));
    assert_eq!(half.poll_write(&[5, 6]), Poll::Pending);
    assert_eq!(half.poll_write(&[]), Poll::Ready(Ok(0)));
    assert_eq!(half.pending(), &[1, 2, 3, 4]);
    assert_eq!(half.poll_flush(), Poll::Pending);
    half.consume(3);
    assert_eq!(half.pending(), &[4]);
    assert_eq!(half.room(), 3);
    half.consume(5);
    assert_eq!(half.poll_flush(), Poll::Ready(Ok(())));
    *half.endpoint_mut() = 4;
    assert_eq!(half.into_endpoint(), 4);
    let default: WriteHalf<()> = WriteHalf::new((), ByteOrder::Big);
    assert_eq!(default.capacity(), DEFAULT_CAPACITY);
    assert_eq!(DEFAULT_CAPACITY, 8192);
}

#[test]
fn a_write_half_that_is_done_takes_nothing() {
    let broken = TransportError { code: 32 };
    let mut closed: WriteHalf<()> = WriteHalf::new((), ByteOrder::Big);
    closed.poll_write(&[1]);
    closed.close();
    assert_eq!(closed.ending(), Ending::Closed);
    assert_eq!(closed.poll_write(&[2]), Poll::Ready(Ok(0)));
    assert_eq!(closed.pending(), &[1]);
    closed.fail(broken);
    assert_eq!(closed.ending(), Ending::Closed);

    let mut failed: WriteHalf<()> = WriteHalf::new((), ByteOrder::Big);
    failed.poll_write(&[1]);
    failed.fail(broken);
    assert_eq!(failed.poll_write(&[2]), Poll::Ready(Err(broken)));
    assert_eq!(failed.poll_flush(), Poll::Ready(Err(broken)));
    assert_eq!(failed.poll_shutdown(), Poll::Ready(Err(broken)));
    assert_eq!(failed.ending(), Ending::Failed(broken));
}

#[test]
fn a_shutdown_closes_once_everything_is_out() {
    let mut half: WriteHalf<()> = WriteHalf::new((), ByteOrder::Big);
    half.poll_write(&[1, 2]);
    assert_eq!(half.poll_shutdown(), Poll::Pending);
    assert_eq!(half.ending(), Ending::Open);
    assert_eq!(half.take_pending(), vec![1, 2]);
    assert_eq!(half.poll_shutdown(), Poll::Ready(Ok(())));
    assert_eq!(half.ending(), Ending::Closed);
    assert_eq!(half.poll_shutdown(), Poll::Ready(Ok(())));
}

#[test]
fn a_stream_needs_both_handles_of_the_child() {
    assert!(IpcStream::<u8, u8>::connect_to_child(None, None).is_none());
    assert!(IpcStream::<u8, u8>::connect_to_child(Some(1), None).is_none());
    assert!(IpcStream::<u8, u8>::connect_to_child(None, Some(2)).is_none());
    let stream = IpcStream::<u8, u8>::connect_to_child(Some(1), Some(2));
    assert!(stream.is_some());
    let stream = stream.unwrap();
    assert_eq!(*stream.read_half().endpoint(), 1);
    assert_eq!(*stream.write_half().endpoint(), 2);
    assert_eq!(stream.read_half().buffered(), 0);
    assert_eq!(stream.read_half().ending(), Ending::Open);
    assert_eq!(stream.write_half().ending(), Ending::Open);
    assert_eq!(stream.write_half().capacity(), DEFAULT_CAPACITY);
    assert_eq!(stream.read_half().order(), ByteOrder::native());
    assert_eq!(stream.write_half().order(), ByteOrder::native());
}

#[test]
fn a_new_stream_has_the_native_order() {
    let stream: IpcStream<(), ()> = IpcStream::new((), ());
    assert_eq!(stream.read_half().order(), ByteOrder::native());
    assert_eq!(stream.write_half().order(), ByteOrder::native());
    let (read, write) = stream.into_halves();
    let again = IpcStream::from_halves(read, write);
    assert_eq!(again.write_half().room(), DEFAULT_CAPACITY);
}

#[test]
fn a_stream_passes_raw_bytes_through() {
    let mut stream: IpcStream<(), ()> = IpcStream::with_order((), (), ByteOrder::Big);
    assert_eq!(stream.poll_write(&[1, 2]), Poll::Ready(Ok(2)));
    let first: &[u8] = &[];
    let second: &[u8] = &[3, 4];
    let third: &[u8] = &[5];
    assert_eq!(stream.poll_write_vectored(&[first, second, third]), Poll::Ready(Ok(2)));
    assert_eq!(stream.poll_write_vectored(&[first]), Poll::Ready(Ok(0)));
    assert_eq!(stream.poll_write_vectored(&[]), Poll::Ready(Ok(0)));
    assert!(!stream.is_write_vectored());
    assert_eq!(stream.poll_flush(), Poll::Pending);
    assert_eq!(stream.write_half_mut().take_pending(), vec![1, 2, 3, 4]);
    assert_eq!(stream.poll_flush(), Poll::Ready(Ok(())));
    assert_eq!(stream.poll_shutdown(), Poll::Ready(Ok(())));
    assert_eq!(stream.poll_write(&[9]), Poll::Ready(Ok(0)));

    assert_eq!(stream.poll_fill_buf(), Poll::Pending);
    stream.read_half_mut().supply(&[7, 8, 9]);
    assert_eq!(stream.poll_fill_buf(), Poll::Ready(Ok(&[7u8, 8, 9][..])));
    stream.consume(1);
    let mut dst: Vec<u8> = Vec::new();
    assert_eq!(stream.poll_read(&mut dst, 1), Poll::Ready(Ok(1)));
    assert_eq!(dst, vec![8]);
    stream.consume(4);
    stream.read_half_mut().fail(TransportError { code: 9 });
    assert_eq!(stream.poll_fill_buf(), Poll::Ready(Err(TransportError { code: 9 })));
    let mut ended: IpcStream<(), ()> = IpcStream::with_order((), (), ByteOrder::Big);
    ended.read_half_mut().close();
    assert_eq!(ended.poll_fill_buf(), Poll::Ready(Ok(&[][..])));
}

#[test]
fn a_stream_reads_and_writes_every_scalar() {
    let mut stream: IpcStream<(), ()> = IpcStream::with_order((), (), ByteOrder::Big);
    assert_eq!(stream.write_u8(1).poll(), Poll::Ready(Ok(())));
    assert_eq!(stream.write_i8(-1).poll(), Poll::Ready(Ok(())));
    assert_eq!(stream.write_u16(2).poll(), Poll::Ready(Ok(())));
    assert_eq!(stream.write_i16(-2).poll(), Poll::Ready(Ok(())));
    assert_eq!(stream.write_u32(3).poll(), Poll::Ready(Ok(())));
    assert_eq!(stream.write_i32(-3).poll(), Poll::Ready(Ok(())));
    assert_eq!(stream.write_u64(4).poll(), Poll::Ready(Ok(())));
    assert_eq!(stream.write_i64(-4).poll(), Poll::Ready(Ok(())));
    assert_eq!(stream.write_u128(5).poll(), Poll::Ready(Ok(())));
    assert_eq!(stream.write_i128(-5).poll(), Poll::Ready(Ok(())));
    assert_eq!(stream.write_usize(6).poll(), Poll::Ready(Ok(())));
    assert_eq!(stream.write_isize(-6).poll(), Poll::Ready(Ok(())));
    assert_eq!(stream.write_buf(&[7, 7]).poll(), Poll::Ready(Ok(())));
    assert_eq!(stream.write_str("eight").poll(), Poll::Ready(Ok(())));
    let wire = stream.write_half_mut().take_pending();
    let word = std::mem::size_of::<usize>();
    assert_eq!(wire.len(), 2 + 4 + 8 + 16 + 32 + 2 * word + (word + 2) + (word + 5));
    assert_eq!(&wire[..6], &[1, 0xff, 0, 2, 0xff, 0xfe]);

    stream.read_half_mut().supply(&wire);
    assert_eq!(stream.read_u8().poll(), Poll::Ready(Ok(1)));
    assert_eq!(stream.read_i8().poll(), Poll::Ready(Ok(-1)));
    assert_eq!(stream.read_u16().poll(), Poll::Ready(Ok(2)));
    assert_eq!(stream.read_i16().poll(), Poll::Ready(Ok(-2)));
    assert_eq!(stream.read_u32().poll(), Poll::Ready(Ok(3)));
    assert_eq!(stream.read_i32().poll(), Poll::Ready(Ok(-3)));
    assert_eq!(stream.read_u64().poll(), Poll::Ready(Ok(4)));
    assert_eq!(stream.read_i64().poll(), Poll::Ready(Ok(-4)));
    assert_eq!(stream.read_u128().poll(), Poll::Ready(Ok(5)));
    assert_eq!(stream.read_i128().poll(), Poll::Ready(Ok(-5)));
    assert_eq!(stream.read_usize().poll(), Poll::Ready(Ok(6)));
    assert_eq!(stream.read_isize().poll(), Poll::Ready(Ok(-6)));
    assert_eq!(stream.read_buf().poll(), Poll::Ready(Ok(vec![7, 7])));
    assert_eq!(stream.read_str().poll(), Poll::Ready(Ok(String::from("eight"))));
    assert_eq!(stream.read_u8().poll(), Poll::Pending);
}

#[test]
fn an_operation_keeps_its_progress_while_it_lives() {
    let mut stream: IpcStream<(), ()> = IpcStream::with_order((), (), ByteOrder::Big);
    stream.read_half_mut().supply(&[0, 0]);
    let mut read = stream.read_u32();
    assert_eq!(read.poll(), Poll::Pending);
    read.shared.supply(&[1]);
    assert_eq!(read.poll(), Poll::Pending);
    read.shared.supply(&[2, 3]);
    assert_eq!(read.poll(), Poll::Ready(Ok(0x0000_0102)));
    assert_eq!(stream.read_half().fill_buf(), &[3]);
}

#[test]
fn the_two_halves_do_not_touch_each_other() {
    let mut stream: IpcStream<(), ()> = IpcStream::with_order((), (), ByteOrder::Big);
    stream.read_half_mut().supply(&[1, 2]);
    assert_eq!(stream.write_u16(0x0304).poll(), Poll::Ready(Ok(())));
    assert_eq!(stream.read_half().fill_buf(), &[1, 2]);
    assert_eq!(stream.read_u16().poll(), Poll::Ready(Ok(0x0102)));
    assert_eq!(stream.write_half().pending(), &[3, 4]);
}

#[test]
fn a_value_goes_through_the_stream_by_its_type() {
    let mut stream: IpcStream<(), ()> = IpcStream::with_order((), (), ByteOrder::Little);
    let value: u32 = 0x0a0b_0c0d;
    assert_eq!(<u32 as AsyncSerDe<(), ()>>::write_to(&value, &mut stream).poll(), Poll::Ready(Ok(())));
    let wire = stream.write_half_mut().take_pending();
    assert_eq!(wire, vec![0x0d, 0x0c, 0x0b, 0x0a]);
    stream.read_half_mut().supply(&wire);
    assert_eq!(<u32 as AsyncSerDe<(), ()>>::from_reader(&mut stream).poll(), Poll::Ready(Ok(value)));
    let text = String::from("typed");
    assert_eq!(<String as AsyncSerDe<(), ()>>::write_to(&text, &mut stream).poll(), Poll::Ready(Ok(())));
    let wire = stream.write_half_mut().take_pending();
    stream.read_half_mut().supply(&wire);
    assert_eq!(<String as AsyncSerDe<(), ()>>::from_reader(&mut stream).poll(), Poll::Ready(Ok(text)));
}

#[test]
fn every_error_has_its_message() {
    assert_eq!(Error::Transport(TransportError { code: 1 }).message(), "transport error");
    assert_eq!(Error::UnexpectedEof.message(), "unexpected end of stream");
    assert_eq!(Error::InvalidData.message(), "invalid data");
    assert_eq!(Error::WriteZero.message(), "write zero");
}
