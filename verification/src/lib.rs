//! An accumulating byte reader: a growable buffer with a consumption cursor,
//! fed by the replies of a pull-based byte source.
//!
//! The reader never calls a source itself. It says which read it needs next,
//! and is handed what the source replied; the caller makes the call. Bytes
//! count as data only once the source has written them: reserved storage is
//! never handed out.
//!
//! - `buffer`: the storage, with its length and its capacity.
//! - `protocol`: the states of a reader and the replies of a source, and
//!   what follows from each.
//! - `reader`: the reader itself.
//! - `history`: sequences of operations.
//! - `laws`: what holds of the reader whatever the source does.
//! - `abox`, `scoped`: a box that hands out copies, and scoped calls.

pub mod buffer;
pub mod protocol;
pub mod history;
pub mod reader;
pub mod laws;
pub mod abox;
pub mod scoped;
