//! Histories: the sequences of operations that a reader goes through, and
//! the state in which each leaves it.

use vstd::prelude::*;
use crate::buffer::MAX_CAPACITY;
use crate::protocol::{ReaderState, Reply};

verus! {

/// One operation on a reader.
pub enum Op<E> {
    /// A bulk read of so many more bytes begins.
    ReadUpTo(usize),
    /// A refill begins.
    FillBuf,
    /// The source's reply to the open request is supplied.
    Supply(Reply<E>),
    /// So many bytes are consumed.
    Consume(usize),
    /// The consumed bytes are dropped.
    Compact,
}

impl ReaderState {
    /// Whether `op` may be carried out in this state: what the operation
    /// demands of its caller.
    pub open spec fn allows<E>(self, op: Op<E>) -> bool {
        match op {
            Op::ReadUpTo(n) => self.data.len() + n <= MAX_CAPACITY,
            Op::FillBuf => self.pos == self.data.len() ==> self.data.len() + self.inc
                <= MAX_CAPACITY,
            Op::Supply(reply) => self.admits(reply),
            Op::Consume(_) => true,
            Op::Compact => true,
        }
    }

    /// The state in which `op` leaves this one.
    pub open spec fn apply<E>(self, op: Op<E>) -> Self {
        match op {
            Op::ReadUpTo(n) => self.begin_read(n),
            Op::FillBuf => self.begin_fill(),
            Op::Supply(reply) => self.supplied(reply),
            Op::Consume(amt) => self.consumed(amt),
            Op::Compact => self.compacted(),
        }
    }
}

/// The state after the operations `ops`, carried out in order from `s`.
pub open spec fn after<E>(s: ReaderState, ops: Seq<Op<E>>) -> ReaderState
    decreases ops.len(),
{
    if ops.len() == 0 {
        s
    } else {
        after(s, ops.drop_last()).apply(ops.last())
    }
}

/// Each operation of `ops` may be carried out in the state that those
/// before it have led to.
pub open spec fn permitted<E>(s: ReaderState, ops: Seq<Op<E>>) -> bool
    decreases ops.len(),
{
    ops.len() == 0 || (permitted(s, ops.drop_last()) && after(s, ops.drop_last()).allows(
        ops.last(),
    ))
}

/// The bytes that the source wrote in the course of `ops`, in order.
pub open spec fn brought<E>(ops: Seq<Op<E>>) -> Seq<u8>
    decreases ops.len(),
{
    if ops.len() == 0 {
        Seq::empty()
    } else {
        match ops.last() {
            Op::Supply(Reply::Bytes(bytes)) => brought(ops.drop_last()) + bytes@,
            _ => brought(ops.drop_last()),
        }
    }
}

/// The number of bytes that compaction dropped in the course of `ops`,
/// carried out from `s`.
pub open spec fn dropped<E>(s: ReaderState, ops: Seq<Op<E>>) -> nat
    decreases ops.len(),
{
    if ops.len() == 0 {
        0
    } else {
        match ops.last() {
            Op::Compact => dropped(s, ops.drop_last()) + after(s, ops.drop_last()).pos,
            _ => dropped(s, ops.drop_last()),
        }
    }
}

} // verus!
