//! The two buffered halves of a duplex stream.
//!
//! A half owns its byte endpoint but never calls it. Whoever drives the
//! endpoint moves bytes between it and the half: arriving bytes are supplied
//! to the read half, bytes pending in the write half are taken out and sent.
//! An operation that finds its half without bytes, or without room, reports
//! that it is not done yet.

use vstd::prelude::*;
use crate::error::TransportError;
use crate::order::ByteOrder;
use crate::serde::Poll;

verus! {

/// What lies beyond the bytes that a half has buffered.
#[derive(Clone, Copy, Debug, PartialEq, Eq, Structural)]
pub enum Ending {
    /// The endpoint is live: more bytes may come, or be taken.
    Open,
    /// The endpoint is done: a reader is at the end of its stream, a writer
    /// accepts nothing more.
    Closed,
    /// The endpoint failed with this error.
    Failed(TransportError),
}

/// Appends `src[from..to]` to `dst`.
pub fn append_range(dst: &mut Vec<u8>, src: &[u8], from: usize, to: usize)
    requires
        from <= to <= src@.len(),
    ensures
        final(dst)@ == old(dst)@ + src@.subrange(from as int, to as int),
{
    let mut i: usize = from;
    proof {
        assert(dst@ =~= old(dst)@ + src@.subrange(from as int, i as int));
    }
    while i < to
        invariant
            from <= i <= to <= src@.len(),
            dst@ == old(dst)@ + src@.subrange(from as int, i as int),
        decreases to - i,
    {
        dst.push(src[i]);
        i = i + 1;
        proof {
            assert(dst@ =~= old(dst)@ + src@.subrange(from as int, i as int));
        }
    }
}

/// A first-in, first-out queue of bytes.
pub struct ByteQueue {
    buf: Vec<u8>,
    pos: usize,
}

impl View for ByteQueue {
    type V = Seq<u8>;

    /// The queued bytes, oldest first.
    closed spec fn view(&self) -> Seq<u8> {
        if self.pos <= self.buf@.len() {
            self.buf@.subrange(self.pos as int, self.buf@.len() as int)
        } else {
            Seq::empty()
        }
    }
}

impl ByteQueue {
    /// An empty queue.
    pub fn new() -> (q: ByteQueue)
        ensures
            q@ == Seq::<u8>::empty(),
    {
        ByteQueue { buf: Vec::new(), pos: 0 }
    }

    /// How many bytes are queued.
    pub fn len(&self) -> (n: usize)
        ensures
            n == self@.len(),
    {
        if self.pos <= self.buf.len() {
            self.buf.len() - self.pos
        } else {
            0
        }
    }

    /// The queued bytes, without taking them.
    pub fn peek(&self) -> (bytes: &[u8])
        ensures
            bytes@ == self@,
    {
        let n: usize = self.buf.len();
        if self.pos <= n {
            vstd::slice::slice_subrange(self.buf.as_slice(), self.pos, n)
        } else {
            vstd::slice::slice_subrange(self.buf.as_slice(), n, n)
        }
    }

    /// Puts `src[from..to]` at the back of the queue.
    pub fn push_range(&mut self, src: &[u8], from: usize, to: usize)
        requires
            from <= to <= src@.len(),
        ensures
            final(self)@ == old(self)@ + src@.subrange(from as int, to as int),
    {
        let held: usize = self.buf.len();
        if self.pos >= held {
            self.buf.clear();
            self.pos = 0;
        } else if self.pos >= held - self.pos {
            // More was taken than is left: drop what was taken.
            let mut kept: Vec<u8> = Vec::new();
            append_range(&mut kept, self.buf.as_slice(), self.pos, held);
            self.buf = kept;
            self.pos = 0;
        }
        proof {
            assert(self@ =~= old(self)@);
        }
        append_range(&mut self.buf, src, from, to);
        proof {
            assert(self@ =~= old(self)@ + src@.subrange(from as int, to as int));
        }
    }

    /// Moves the `n` oldest bytes to the end of `dst`.
    pub fn pop_into(&mut self, dst: &mut Vec<u8>, n: usize)
        requires
            n <= old(self)@.len(),
        ensures
            final(dst)@ == old(dst)@ + old(self)@.take(n as int),
            final(self)@ == old(self)@.skip(n as int),
    {
        if n > 0 {
            let from: usize = self.pos;
            let total: usize = self.buf.len();
            assert(from + n <= total);
            append_range(dst, self.buf.as_slice(), from, from + n);
            self.pos = from + n;
            proof {
                assert(old(self)@.take(n as int) =~= self.buf@.subrange(from as int, from + n));
                assert(self@ =~= old(self)@.skip(n as int));
            }
        } else {
            proof {
                assert(dst@ =~= old(dst)@ + old(self)@.take(0));
                assert(self@ =~= old(self)@.skip(0));
            }
        }
    }

    /// Drops the `n` oldest bytes, or all of them if there are fewer.
    pub fn discard(&mut self, n: usize)
        ensures
            final(self)@ == (if n <= old(self)@.len() {
                old(self)@.skip(n as int)
            } else {
                Seq::empty()
            }),
    {
        let have: usize = self.len();
        if n < have {
            let total: usize = self.buf.len();
            assert(self.pos + n < total);
            self.pos = self.pos + n;
            proof {
                assert(self@ =~= old(self)@.skip(n as int));
            }
        } else {
            self.buf.clear();
            self.pos = 0;
            proof {
                assert(self@ =~= Seq::<u8>::empty());
                if n == have {
                    assert(old(self)@.skip(n as int) =~= Seq::<u8>::empty());
                }
            }
        }
    }
}

/// What a read half looks like to an operation.
pub struct ReadView {
    /// The bytes that have arrived and have not been read, oldest first.
    pub bytes: Seq<u8>,
    /// What follows them.
    pub ending: Ending,
    /// The byte order of multi-byte values on this stream.
    pub order: ByteOrder,
}

/// The buffered read half of a stream.
pub struct ReadHalf<R> {
    endpoint: R,
    queue: ByteQueue,
    ending: Ending,
    order: ByteOrder,
}

impl<R> View for ReadHalf<R> {
    type V = ReadView;

    closed spec fn view(&self) -> ReadView {
        ReadView { bytes: self.queue@, ending: self.ending, order: self.order }
    }
}

impl<R> ReadHalf<R> {
    /// The endpoint that the half wraps.
    pub closed spec fn endpoint_spec(&self) -> R {
        self.endpoint
    }

    /// An open, empty half around `endpoint`.
    pub fn new(endpoint: R, order: ByteOrder) -> (half: Self)
        ensures
            half@ == (ReadView { bytes: Seq::empty(), ending: Ending::Open, order }),
            half.endpoint_spec() == endpoint,
    {
        ReadHalf { endpoint, queue: ByteQueue::new(), ending: Ending::Open, order }
    }

    /// The byte order of multi-byte values on this half.
    pub fn order(&self) -> (order: ByteOrder)
        ensures
            order == self@.order,
    {
        self.order
    }

    /// What lies beyond the buffered bytes.
    pub fn ending(&self) -> (ending: Ending)
        ensures
            ending == self@.ending,
    {
        self.ending
    }

    /// How many bytes are buffered.
    pub fn buffered(&self) -> (n: usize)
        ensures
            n == self@.bytes.len(),
    {
        self.queue.len()
    }

    /// The endpoint, to look at.
    pub fn endpoint(&self) -> (endpoint: &R)
        ensures
            *endpoint == self.endpoint_spec(),
    {
        &self.endpoint
    }

    /// The endpoint, to be driven by the caller. The buffer is not touched.
    pub fn endpoint_mut(&mut self) -> (endpoint: &mut R)
        ensures
            *endpoint == old(self).endpoint_spec(),
            final(self).endpoint_spec() == *final(endpoint),
            final(self)@ == old(self)@,
    {
        &mut self.endpoint
    }

    /// Gives up the half for its endpoint; buffered bytes are lost.
    pub fn into_endpoint(self) -> (endpoint: R)
        ensures
            endpoint == self.endpoint_spec(),
    {
        self.endpoint
    }

    /// Hands bytes that arrived from the endpoint to the half. A half that is
    /// no longer open takes nothing and says so.
    pub fn supply(&mut self, bytes: &[u8]) -> (taken: bool)
        ensures
            taken == (old(self)@.ending is Open),
            final(self)@ == (ReadView {
                bytes: if taken {
                    old(self)@.bytes + bytes@
                } else {
                    old(self)@.bytes
                },
                ..old(self)@
            }),
            final(self).endpoint_spec() == old(self).endpoint_spec(),
    {
        match self.ending {
            Ending::Open => {
                self.queue.push_range(bytes, 0, bytes.len());
                proof {
                    assert(bytes@.subrange(0, bytes@.len() as int) =~= bytes@);
                }
                true
            },
            _ => false,
        }
    }

    /// Records that the endpoint reached the end of its stream. Only an open
    /// half changes.
    pub fn close(&mut self)
        ensures
            final(self)@ == (ReadView {
                ending: if old(self)@.ending is Open {
                    Ending::Closed
                } else {
                    old(self)@.ending
                },
                ..old(self)@
            }),
            final(self).endpoint_spec() == old(self).endpoint_spec(),
    {
        match self.ending {
            Ending::Open => {
                self.ending = Ending::Closed;
            },
            _ => {},
        }
    }

    /// Records that the endpoint failed. Only an open half changes.
    pub fn fail(&mut self, error: TransportError)
        ensures
            final(self)@ == (ReadView {
                ending: if old(self)@.ending is Open {
                    Ending::Failed(error)
                } else {
                    old(self)@.ending
                },
                ..old(self)@
            }),
            final(self).endpoint_spec() == old(self).endpoint_spec(),
    {
        match self.ending {
            Ending::Open => {
                self.ending = Ending::Failed(error);
            },
            _ => {},
        }
    }

    /// One attempt to read at most `max` bytes, which are appended to `dst`.
    ///
    /// Buffered bytes come first, as many as `max` allows. With none buffered
    /// the ending decides: an open half is not ready, a closed one reads zero
    /// bytes, a failed one reports its error.
    pub fn poll_read(&mut self, dst: &mut Vec<u8>, max: usize) -> (out: Poll<
        Result<usize, TransportError>,
    >)
        ensures
            out == read_outcome(old(self)@, max),
            final(dst)@ == old(dst)@ + old(self)@.bytes.take(read_count(old(self)@, max) as int),
            final(self)@ == (ReadView {
                bytes: old(self)@.bytes.skip(read_count(old(self)@, max) as int),
                ..old(self)@
            }),
            final(self).endpoint_spec() == old(self).endpoint_spec(),
    {
        let have: usize = self.queue.len();
        if have > 0 {
            let n: usize = if max < have {
                max
            } else {
                have
            };
            self.queue.pop_into(dst, n);
            Poll::Ready(Ok(n))
        } else {
            proof {
                assert(dst@ =~= old(dst)@ + old(self)@.bytes.take(0));
                assert(self@.bytes =~= old(self)@.bytes.skip(0));
            }
            match self.ending {
                Ending::Open => Poll::Pending,
                Ending::Closed => Poll::Ready(Ok(0)),
                Ending::Failed(e) => Poll::Ready(Err(e)),
            }
        }
    }

    /// The buffered bytes, without reading them.
    pub fn fill_buf(&self) -> (bytes: &[u8])
        ensures
            bytes@ == self@.bytes,
    {
        self.queue.peek()
    }

    /// Marks the `amt` oldest buffered bytes as read; all of them if there are
    /// fewer.
    pub fn consume(&mut self, amt: usize)
        ensures
            final(self)@ == (ReadView {
                bytes: if amt <= old(self)@.bytes.len() {
                    old(self)@.bytes.skip(amt as int)
                } else {
                    Seq::empty()
                },
                ..old(self)@
            }),
            final(self).endpoint_spec() == old(self).endpoint_spec(),
    {
        self.queue.discard(amt);
    }
}

/// How many bytes one read of at most `max` bytes takes from a half.
pub open spec fn read_count(half: ReadView, max: usize) -> nat {
    if max <= half.bytes.len() {
        max as nat
    } else {
        half.bytes.len()
    }
}

/// What one read of at most `max` bytes reports.
pub open spec fn read_outcome(half: ReadView, max: usize) -> Poll<Result<usize, TransportError>> {
    if half.bytes.len() > 0 {
        Poll::Ready(Ok(read_count(half, max) as usize))
    } else {
        match half.ending {
            Ending::Open => Poll::Pending,
            Ending::Closed => Poll::Ready(Ok(0usize)),
            Ending::Failed(e) => Poll::Ready(Err(e)),
        }
    }
}

/// What a write half looks like to an operation.
pub struct WriteView {
    /// The bytes that were written and have not been sent, oldest first.
    pub pending: Seq<u8>,
    /// How many bytes the half holds at most.
    pub capacity: nat,
    /// The state of the endpoint.
    pub ending: Ending,
    /// The byte order of multi-byte values on this stream.
    pub order: ByteOrder,
}

impl WriteView {
    /// How many more bytes the half can take.
    pub open spec fn room(self) -> nat {
        if self.pending.len() <= self.capacity {
            (self.capacity - self.pending.len()) as nat
        } else {
            0
        }
    }
}

/// The buffered write half of a stream.
pub struct WriteHalf<W> {
    endpoint: W,
    queue: ByteQueue,
    capacity: usize,
    ending: Ending,
    order: ByteOrder,
}

impl<W> View for WriteHalf<W> {
    type V = WriteView;

    closed spec fn view(&self) -> WriteView {
        WriteView {
            pending: self.queue@,
            capacity: self.capacity as nat,
            ending: self.ending,
            order: self.order,
        }
    }
}

/// How many bytes one write of `len` bytes puts into a half.
pub open spec fn write_count(half: WriteView, len: nat) -> nat {
    if !(half.ending is Open) {
        0
    } else if len <= half.room() {
        len
    } else {
        half.room()
    }
}

/// What one write of `len` bytes reports.
pub open spec fn write_outcome(half: WriteView, len: nat) -> Poll<Result<usize, TransportError>> {
    match half.ending {
        Ending::Failed(e) => Poll::Ready(Err(e)),
        Ending::Closed => Poll::Ready(Ok(0usize)),
        Ending::Open => if len > 0 && half.room() == 0 {
            Poll::Pending
        } else {
            Poll::Ready(Ok(write_count(half, len) as usize))
        },
    }
}

/// The capacity of a write half that was made without one.
pub const DEFAULT_CAPACITY: usize = 8192;

impl<W> WriteHalf<W> {
    /// The endpoint that the half wraps.
    pub closed spec fn endpoint_spec(&self) -> W {
        self.endpoint
    }

    /// An open, empty half around `endpoint` that holds up to `capacity` bytes.
    pub fn with_capacity(endpoint: W, capacity: usize, order: ByteOrder) -> (half: Self)
        ensures
            half@ == (WriteView {
                pending: Seq::empty(),
                capacity: capacity as nat,
                ending: Ending::Open,
                order,
            }),
            half.endpoint_spec() == endpoint,
    {
        WriteHalf { endpoint, queue: ByteQueue::new(), capacity, ending: Ending::Open, order }
    }

    /// An open, empty half around `endpoint` with the default capacity.
    pub fn new(endpoint: W, order: ByteOrder) -> (half: Self)
        ensures
            half@ == (WriteView {
                pending: Seq::empty(),
                capacity: DEFAULT_CAPACITY as nat,
                ending: Ending::Open,
                order,
            }),
            half.endpoint_spec() == endpoint,
    {
        Self::with_capacity(endpoint, DEFAULT_CAPACITY, order)
    }

    /// The byte order of multi-byte values on this half.
    pub fn order(&self) -> (order: ByteOrder)
        ensures
            order == self@.order,
    {
        self.order
    }

    /// What lies beyond the buffered bytes.
    pub fn ending(&self) -> (ending: Ending)
        ensures
            ending == self@.ending,
    {
        self.ending
    }

    /// How many bytes the half holds at most.
    pub fn capacity(&self) -> (n: usize)
        ensures
            n == self@.capacity,
    {
        self.capacity
    }

    /// How many more bytes the half can take.
    pub fn room(&self) -> (n: usize)
        ensures
            n == self@.room(),
    {
        let held: usize = self.queue.len();
        if held <= self.capacity {
            self.capacity - held
        } else {
            0
        }
    }

    /// The endpoint, to look at.
    pub fn endpoint(&self) -> (endpoint: &W)
        ensures
            *endpoint == self.endpoint_spec(),
    {
        &self.endpoint
    }

    /// The endpoint, to be driven by the caller. The buffer is not touched.
    pub fn endpoint_mut(&mut self) -> (endpoint: &mut W)
        ensures
            *endpoint == old(self).endpoint_spec(),
            final(self).endpoint_spec() == *final(endpoint),
            final(self)@ == old(self)@,
    {
        &mut self.endpoint
    }

    /// Gives up the half for its endpoint; pending bytes are lost.
    pub fn into_endpoint(self) -> (endpoint: W)
        ensures
            endpoint == self.endpoint_spec(),
    {
        self.endpoint
    }

    /// Records that the endpoint accepts nothing more. Only an open half
    /// changes.
    pub fn close(&mut self)
        ensures
            final(self)@ == (WriteView {
                ending: if old(self)@.ending is Open {
                    Ending::Closed
                } else {
                    old(self)@.ending
                },
                ..old(self)@
            }),
            final(self).endpoint_spec() == old(self).endpoint_spec(),
    {
        match self.ending {
            Ending::Open => {
                self.ending = Ending::Closed;
            },
            _ => {},
        }
    }

    /// Records that the endpoint failed. Only an open half changes.
    pub fn fail(&mut self, error: TransportError)
        ensures
            final(self)@ == (WriteView {
                ending: if old(self)@.ending is Open {
                    Ending::Failed(error)
                } else {
                    old(self)@.ending
                },
                ..old(self)@
            }),
            final(self).endpoint_spec() == old(self).endpoint_spec(),
    {
        match self.ending {
            Ending::Open => {
                self.ending = Ending::Failed(error);
            },
            _ => {},
        }
    }

    /// One attempt to write `data`, of which a prefix is taken.
    ///
    /// A failed half reports its error and a closed one takes zero bytes. An
    /// open half takes as much as it has room for; with no room at all for a
    /// non-empty write it is not ready.
    pub fn poll_write(&mut self, data: &[u8]) -> (out: Poll<Result<usize, TransportError>>)
        ensures
            out == write_outcome(old(self)@, data@.len()),
            final(self)@ == (WriteView {
                pending: old(self)@.pending + data@.take(
                    write_count(old(self)@, data@.len()) as int,
                ),
                ..old(self)@
            }),
            final(self).endpoint_spec() == old(self).endpoint_spec(),
    {
        match self.ending {
            Ending::Failed(e) => {
                proof {
                    assert(self@.pending =~= old(self)@.pending + data@.take(0));
                }
                Poll::Ready(Err(e))
            },
            Ending::Closed => {
                proof {
                    assert(self@.pending =~= old(self)@.pending + data@.take(0));
                }
                Poll::Ready(Ok(0))
            },
            Ending::Open => {
                let room: usize = self.room();
                let len: usize = data.len();
                if len > 0 && room == 0 {
                    proof {
                        assert(self@.pending =~= old(self)@.pending + data@.take(0));
                    }
                    Poll::Pending
                } else {
                    let n: usize = if len <= room {
                        len
                    } else {
                        room
                    };
                    self.queue.push_range(data, 0, n);
                    proof {
                        assert(data@.subrange(0, n as int) =~= data@.take(n as int));
                    }
                    Poll::Ready(Ok(n))
                }
            },
        }
    }

    /// Whether everything written has been sent: ready once nothing is
    /// pending, unless the endpoint failed.
    pub fn poll_flush(&self) -> (out: Poll<Result<(), TransportError>>)
        ensures
            out == flush_outcome(self@),
    {
        match self.ending {
            Ending::Failed(e) => Poll::Ready(Err(e)),
            _ => if self.queue.len() == 0 {
                Poll::Ready(Ok(()))
            } else {
                Poll::Pending
            },
        }
    }

    /// Flushes and then closes the half: once nothing is pending, an open half
    /// becomes closed and the shutdown is done.
    pub fn poll_shutdown(&mut self) -> (out: Poll<Result<(), TransportError>>)
        ensures
            out == flush_outcome(old(self)@),
            final(self)@ == (WriteView {
                ending: if old(self)@.ending is Open && old(self)@.pending.len() == 0 {
                    Ending::Closed
                } else {
                    old(self)@.ending
                },
                ..old(self)@
            }),
            final(self).endpoint_spec() == old(self).endpoint_spec(),
    {
        let out = self.poll_flush();
        match out {
            Poll::Ready(Ok(())) => {
                self.close();
            },
            _ => {},
        }
        out
    }

    /// The bytes waiting to be sent, without taking them.
    pub fn pending(&self) -> (bytes: &[u8])
        ensures
            bytes@ == self@.pending,
    {
        self.queue.peek()
    }

    /// Records that the endpoint took the `amt` oldest pending bytes; all of
    /// them if there are fewer.
    pub fn consume(&mut self, amt: usize)
        ensures
            final(self)@ == (WriteView {
                pending: if amt <= old(self)@.pending.len() {
                    old(self)@.pending.skip(amt as int)
                } else {
                    Seq::empty()
                },
                ..old(self)@
            }),
            final(self).endpoint_spec() == old(self).endpoint_spec(),
    {
        self.queue.discard(amt);
    }

    /// Takes all pending bytes out of the half, to be sent.
    pub fn take_pending(&mut self) -> (bytes: Vec<u8>)
        ensures
            bytes@ == old(self)@.pending,
            final(self)@ == (WriteView { pending: Seq::empty(), ..old(self)@ }),
            final(self).endpoint_spec() == old(self).endpoint_spec(),
    {
        let mut bytes: Vec<u8> = Vec::new();
        let n: usize = self.queue.len();
        self.queue.pop_into(&mut bytes, n);
        proof {
            assert(bytes@ =~= old(self)@.pending);
            assert(self@.pending =~= Seq::<u8>::empty());
        }
        bytes
    }
}

/// What a flush reports.
pub open spec fn flush_outcome(half: WriteView) -> Poll<Result<(), TransportError>> {
    match half.ending {
        Ending::Failed(e) => Poll::Ready(Err(e)),
        _ => if half.pending.len() == 0 {
            Poll::Ready(Ok(()))
        } else {
            Poll::Pending
        },
    }
}

} // verus!
