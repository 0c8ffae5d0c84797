//! The reading protocol as a state machine over plain values: the states of
//! a reader, what a byte source may reply, and which state and which step
//! follow from each.

use vstd::prelude::*;
use crate::buffer::{grown, MAX_CAPACITY};

verus! {

/// What one call of the byte source gave.
#[derive(Debug, PartialEq, Eq)]
pub enum Reply<E> {
    /// The source wrote these bytes at the front of the region it was given.
    /// No bytes at all means that the stream has ended.
    Bytes(Vec<u8>),
    /// The call was interrupted before anything was written; it is to be
    /// made again.
    Interrupted,
    /// The source failed for good, with this cause.
    Failed(E),
}

/// What the reader asks of its caller next.
#[derive(Debug, PartialEq, Eq)]
pub enum Step<E> {
    /// Call the source once, on a region of `want` bytes, and supply its reply.
    Read { want: usize },
    /// The operation has ended: with the number of bytes it made available,
    /// or with the cause for which the source failed.
    Done(Result<usize, E>),
}

/// The request for which a reader awaits a reply.
#[derive(Clone, Copy, Debug, PartialEq, Eq)]
pub enum Pending {
    /// No request is open.
    Idle,
    /// A bulk read of `wanted` bytes, of which `done` have arrived.
    Reading { wanted: usize, done: usize },
    /// A single read that refills the exhausted buffer.
    Filling,
}

/// A reader as a mathematical value.
pub struct ReaderState {
    /// The bytes that hold data, consumed or not.
    pub data: Seq<u8>,
    /// The cursor: how many bytes of `data` have been consumed.
    pub pos: nat,
    /// The storage allocated.
    pub capacity: nat,
    /// The size of the region by which an exhausted buffer is refilled.
    pub inc: usize,
    /// The request that is open.
    pub pending: Pending,
}

impl ReaderState {
    /// The reader's invariant: the cursor is within the data, the data within
    /// the storage, and the storage has room for what an open request may
    /// still bring.
    pub open spec fn wf(self) -> bool {
        &&& self.pos <= self.data.len() <= self.capacity <= MAX_CAPACITY
        &&& match self.pending {
            Pending::Idle => true,
            Pending::Reading { wanted, done } => {
                &&& done < wanted
                &&& self.data.len() + (wanted - done) <= self.capacity
            },
            Pending::Filling => {
                &&& self.pos == self.data.len()
                &&& self.data.len() + self.inc <= self.capacity
            },
        }
    }

    /// A fresh reader: no data, no storage, nothing consumed, no open request.
    pub open spec fn initial(inc: usize) -> Self {
        ReaderState { data: Seq::empty(), pos: 0, capacity: 0, inc, pending: Pending::Idle }
    }

    /// The bytes that are buffered and not yet consumed.
    pub open spec fn available(self) -> Seq<u8> {
        self.data.subrange(self.pos as int, self.data.len() as int)
    }

    /// The size of the region that the open request asks the source to fill.
    pub open spec fn want(self) -> int {
        match self.pending {
            Pending::Idle => 0,
            Pending::Reading { wanted, done } => wanted - done,
            Pending::Filling => self.inc as int,
        }
    }

    /// Whether `reply` can answer the open request: there is one, and the
    /// source wrote no more bytes than the region it was given holds.
    pub open spec fn admits<E>(self, reply: Reply<E>) -> bool {
        &&& self.pending !is Idle
        &&& reply matches Reply::Bytes(bytes) ==> bytes@.len() <= self.want()
    }

    /// The state with room reserved for `additional` more bytes.
    pub open spec fn reserved(self, additional: int) -> Self {
        ReaderState {
            capacity: grown(self.capacity as int, self.data.len() + additional) as nat,
            ..self
        }
    }

    /// The state in which a bulk read of `n` more bytes has begun.
    pub open spec fn begin_read(self, n: usize) -> Self {
        ReaderState {
            pending: if n == 0 {
                Pending::Idle
            } else {
                Pending::Reading { wanted: n, done: 0 }
            },
            ..self.reserved(n as int)
        }
    }

    /// The step with which a bulk read of `n` more bytes begins: nothing is
    /// asked of the source where nothing is wanted.
    pub open spec fn begin_read_step<E>(self, n: usize) -> Step<E> {
        if n == 0 {
            Step::Done(Ok(0))
        } else {
            Step::Read { want: n }
        }
    }

    /// The state in which a refill has begun. With bytes available nothing
    /// changes but that an open request is dropped.
    pub open spec fn begin_fill(self) -> Self {
        if self.pos < self.data.len() {
            ReaderState { pending: Pending::Idle, ..self }
        } else {
            ReaderState { pending: Pending::Filling, ..self.reserved(self.inc as int) }
        }
    }

    /// The step with which a refill begins: the source is asked only where
    /// no byte is available.
    pub open spec fn begin_fill_step<E>(self) -> Step<E> {
        if self.pos < self.data.len() {
            Step::Done(Ok((self.data.len() - self.pos) as usize))
        } else {
            Step::Read { want: self.inc }
        }
    }

    /// The state after the source replied to the open request.
    pub open spec fn supplied<E>(self, reply: Reply<E>) -> Self {
        match reply {
            Reply::Interrupted => self,
            Reply::Failed(_) => ReaderState { pending: Pending::Idle, ..self },
            Reply::Bytes(bytes) => ReaderState {
                data: self.data + bytes@,
                pending: match self.pending {
                    Pending::Reading { wanted, done } => if bytes@.len() == 0 || done
                        + bytes@.len() >= wanted {
                        Pending::Idle
                    } else {
                        Pending::Reading { wanted, done: (done + bytes@.len()) as usize }
                    },
                    _ => Pending::Idle,
                },
                ..self
            },
        }
    }

    /// The step that follows the source's reply to the open request.
    pub open spec fn supplied_step<E>(self, reply: Reply<E>) -> Step<E> {
        match reply {
            Reply::Interrupted => Step::Read { want: self.want() as usize },
            Reply::Failed(cause) => Step::Done(Err(cause)),
            Reply::Bytes(bytes) => match self.pending {
                Pending::Reading { wanted, done } => if bytes@.len() == 0 || done
                    + bytes@.len() >= wanted {
                    Step::Done(Ok((done + bytes@.len()) as usize))
                } else {
                    Step::Read { want: (wanted - done - bytes@.len()) as usize }
                },
                _ => Step::Done(Ok(bytes@.len() as usize)),
            },
        }
    }

    /// The state after the consumed bytes were dropped: what is available
    /// stands at the front, and the storage is as large as before.
    pub open spec fn compacted(self) -> Self {
        ReaderState { data: self.available(), pos: 0, ..self }
    }

    /// The state after `amt` bytes were consumed: the cursor stops at the end
    /// of the data.
    pub open spec fn consumed(self, amt: usize) -> Self {
        ReaderState {
            pos: if self.pos + amt <= self.data.len() {
                (self.pos + amt) as nat
            } else {
                self.data.len()
            },
            ..self
        }
    }
}

/// The bytes that the replies bring, in order.
pub open spec fn delivered<E>(replies: Seq<Reply<E>>) -> Seq<u8>
    decreases replies.len(),
{
    if replies.len() == 0 {
        Seq::empty()
    } else {
        match replies[0] {
            Reply::Bytes(bytes) => bytes@ + delivered(replies.drop_first()),
            _ => delivered(replies.drop_first()),
        }
    }
}

/// No reply ends the stream or fails: each is an interruption or brings at
/// least one byte.
pub open spec fn progressing<E>(replies: Seq<Reply<E>>) -> bool {
    forall|i: int|
        0 <= i < replies.len() ==> match #[trigger] replies[i] {
            Reply::Bytes(bytes) => bytes@.len() > 0,
            Reply::Interrupted => true,
            Reply::Failed(_) => false,
        }
}

/// The state in which `replies`, supplied in order, leave the reader `s`.
/// Replies that come after the one that ends the operation are not asked
/// for, and change nothing.
pub open spec fn run<E>(s: ReaderState, replies: Seq<Reply<E>>) -> ReaderState
    decreases replies.len(),
{
    if replies.len() == 0 || s.pending is Idle {
        s
    } else {
        run(s.supplied(replies[0]), replies.drop_first())
    }
}

/// The step that the reader `s` returned last, when it had returned `step`
/// and `replies` were then supplied in order.
pub open spec fn run_step<E>(s: ReaderState, step: Step<E>, replies: Seq<Reply<E>>) -> Step<E>
    decreases replies.len(),
{
    if replies.len() == 0 || s.pending is Idle {
        step
    } else {
        run_step(s.supplied(replies[0]), s.supplied_step(replies[0]), replies.drop_first())
    }
}

} // verus!
