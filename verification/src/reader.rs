//! The accumulating reader: a buffer, a cursor, and the request that is open.

use vstd::prelude::*;
use crate::buffer::{Buffer, MAX_CAPACITY};
use crate::protocol::{Pending, ReaderState, Reply, Step};

verus! {

/// A reader that accumulates the bytes of a source in a buffer and hands
/// them out behind a cursor. It performs no input itself: an operation that
/// needs the source returns `Step::Read`, and goes on when `supply` is given
/// what the source replied.
pub struct AccReader {
    buf: Buffer,
    pos: usize,
    inc: usize,
    pending: Pending,
}

impl View for AccReader {
    type V = ReaderState;

    closed spec fn view(&self) -> ReaderState {
        ReaderState {
            data: self.buf@,
            pos: self.pos as nat,
            capacity: self.buf.spec_capacity(),
            inc: self.inc,
            pending: self.pending,
        }
    }
}

impl AccReader {
    /// Every reader this module hands out is well formed, and then so is
    /// its state.
    pub closed spec fn wf(&self) -> bool {
        &&& self.buf.wf()
        &&& self@.wf()
    }

    /// The state of a well-formed reader meets the reader's invariant.
    pub proof fn lemma_wf_state(&self)
        requires
            self.wf(),
        ensures
            self@.wf(),
    {
    }

    /// A reader without data, which refills its buffer by reads of `inc` bytes.
    pub fn new(inc: usize) -> (reader: Self)
        ensures
            reader.wf(),
            reader@ == ReaderState::initial(inc),
    {
        AccReader { buf: Buffer::new(), pos: 0, inc, pending: Pending::Idle }
    }

    /// Begins a bulk read of `n` more bytes: reserves room for them, without
    /// counting any of it as data, and asks for the first read. A request that
    /// was open is dropped; the bytes it brought stay.
    pub fn read_up_to<E>(&mut self, n: usize) -> (step: Step<E>)
        requires
            old(self).wf(),
            old(self)@.data.len() + n <= MAX_CAPACITY,
        ensures
            final(self).wf(),
            final(self)@ == old(self)@.begin_read(n),
            step == old(self)@.begin_read_step::<E>(n),
    {
        self.buf.reserve(n);
        if n == 0 {
            self.pending = Pending::Idle;
            Step::Done(Ok(0))
        } else {
            self.pending = Pending::Reading { wanted: n, done: 0 };
            Step::Read { want: n }
        }
    }

    /// Takes the source's reply to the open request. Bytes become data, and
    /// only they: the length grows by what the source wrote, never by what
    /// was asked for. An interrupted call is asked for again, unchanged. A
    /// failure ends the operation and leaves the data as it is.
    pub fn supply<E>(&mut self, reply: Reply<E>) -> (step: Step<E>)
        requires
            old(self).wf(),
            old(self)@.admits(reply),
        ensures
            final(self).wf(),
            final(self)@ == old(self)@.supplied(reply),
            step == old(self)@.supplied_step(reply),
    {
        match reply {
            Reply::Interrupted => {
                match self.pending {
                    Pending::Reading { wanted, done } => Step::Read { want: wanted - done },
                    _ => Step::Read { want: self.inc },
                }
            },
            Reply::Failed(cause) => {
                self.pending = Pending::Idle;
                Step::Done(Err(cause))
            },
            Reply::Bytes(bytes) => {
                let count: usize = bytes.len();
                self.buf.append(bytes.as_slice());
                match self.pending {
                    Pending::Reading { wanted, done } => {
                        let total: usize = done + count;
                        if count == 0 || total >= wanted {
                            self.pending = Pending::Idle;
                            Step::Done(Ok(total))
                        } else {
                            self.pending = Pending::Reading { wanted, done: total };
                            Step::Read { want: wanted - total }
                        }
                    },
                    _ => {
                        self.pending = Pending::Idle;
                        Step::Done(Ok(count))
                    },
                }
            },
        }
    }

    /// Makes sure that bytes are available, if the source has any. With
    /// unconsumed bytes in the buffer the source is not asked, and nothing is
    /// allocated. With none, room for one read of `inc` bytes is reserved and
    /// that read asked for. The cursor stays where it is. A request that was
    /// open is dropped; the bytes it brought stay.
    ///
    /// When the step is `Done`, `buffer` gives the available bytes; none
    /// means that the stream has ended.
    pub fn fill_buf<E>(&mut self) -> (step: Step<E>)
        requires
            old(self).wf(),
            old(self)@.pos == old(self)@.data.len() ==> old(self)@.data.len() + old(self)@.inc
                <= MAX_CAPACITY,
        ensures
            final(self).wf(),
            final(self)@ == old(self)@.begin_fill(),
            step == old(self)@.begin_fill_step::<E>(),
    {
        let len: usize = self.buf.len();
        if self.pos < len {
            self.pending = Pending::Idle;
            Step::Done(Ok(len - self.pos))
        } else {
            self.buf.reserve(self.inc);
            self.pending = Pending::Filling;
            Step::Read { want: self.inc }
        }
    }

    /// Moves the cursor `amt` bytes on, and no further than the end of the
    /// data: who consumes more than is available consumes what is available.
    pub fn consume(&mut self, amt: usize)
        requires
            old(self).wf(),
        ensures
            final(self).wf(),
            final(self)@ == old(self)@.consumed(amt),
    {
        let len: usize = self.buf.len();
        if amt <= len - self.pos {
            self.pos = self.pos + amt;
        } else {
            self.pos = len;
        }
    }

    /// Drops the consumed bytes and moves the available ones to the front
    /// of the buffer, so that a reader in long use does not grow without
    /// bound. Nothing is allocated, and what is available stays available.
    pub fn compact(&mut self)
        requires
            old(self).wf(),
        ensures
            final(self).wf(),
            final(self)@ == old(self)@.compacted(),
    {
        self.buf.discard_front(self.pos);
        self.pos = 0;
    }

    /// The bytes that are buffered and not yet consumed.
    pub fn buffer(&self) -> (bytes: &[u8])
        requires
            self.wf(),
        ensures
            bytes@ == self@.available(),
    {
        self.buf.tail(self.pos)
    }

    /// All the data, consumed or not.
    pub fn data(&self) -> (bytes: &[u8])
        requires
            self.wf(),
        ensures
            bytes@ == self@.data,
    {
        self.buf.as_slice()
    }

    /// The number of bytes of data, consumed or not.
    pub fn len(&self) -> (n: usize)
        requires
            self.wf(),
        ensures
            n == self@.data.len(),
    {
        self.buf.len()
    }

    /// The cursor: the number of bytes consumed.
    pub fn pos(&self) -> (n: usize)
        requires
            self.wf(),
        ensures
            n == self@.pos,
    {
        self.pos
    }

    /// The storage allocated, in bytes.
    pub fn capacity(&self) -> (n: usize)
        requires
            self.wf(),
        ensures
            n == self@.capacity,
    {
        self.buf.capacity()
    }

    /// The size of the region by which the exhausted buffer is refilled.
    pub fn inc(&self) -> (n: usize)
        ensures
            n == self@.inc,
    {
        self.inc
    }

    /// The request that is open.
    pub fn pending(&self) -> (p: Pending)
        ensures
            p == self@.pending,
    {
        self.pending
    }
}

} // verus!
