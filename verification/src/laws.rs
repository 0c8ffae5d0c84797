//! What holds of the reader whatever the source does.

use vstd::prelude::*;
use crate::buffer::MAX_CAPACITY;
use crate::history::{after, brought, dropped, permitted, Op};
use crate::protocol::{delivered, progressing, run, run_step, Pending, ReaderState, Reply, Step};

verus! {

/// The invariant holds of a fresh reader and is kept by every operation
/// that the state allows: the cursor never passes the length, nor the length
/// the capacity.
pub proof fn lemma_invariant_is_kept<E>(s: ReaderState, op: Op<E>, inc: usize)
    requires
        s.wf(),
        s.allows(op),
    ensures
        ReaderState::initial(inc).wf(),
        s.apply(op).wf(),
        s.apply(op).pos <= s.apply(op).data.len() <= s.apply(op).capacity,
{
}

/// Compacting drops consumed bytes only: the same bytes are available after
/// it as before, and the length shrinks by the number of bytes consumed.
pub proof fn lemma_compaction_keeps_available(s: ReaderState)
    requires
        s.wf(),
    ensures
        s.compacted().available() == s.available(),
        s.compacted().data.len() == s.data.len() - s.pos,
        s.compacted().capacity == s.capacity,
{
    assert(s.compacted().available() =~= s.available());
}

/// Data is what the source wrote and nothing else: reserving room adds
/// nothing, a reply adds its bytes and no others, and compacting only drops
/// bytes from the front.
pub proof fn lemma_data_is_source_output<E>(s: ReaderState, n: usize, amt: usize, reply: Reply<E>)
    requires
        s.wf(),
    ensures
        s.begin_read(n).data == s.data,
        s.begin_fill().data == s.data,
        s.consumed(amt).data == s.data,
        s.compacted().data == s.data.subrange(s.pos as int, s.data.len() as int),
        s.supplied(reply).data == match reply {
            Reply::Bytes(bytes) => s.data + bytes@,
            _ => s.data,
        },
{
}

/// What is permitted as a whole is permitted up to any point.
pub proof fn lemma_permitted_prefix<E>(s: ReaderState, ops: Seq<Op<E>>, k: int)
    requires
        permitted(s, ops),
        0 <= k <= ops.len(),
    ensures
        permitted(s, ops.take(k)),
    decreases ops.len(),
{
    if k == ops.len() {
        assert(ops.take(k) =~= ops);
    } else {
        assert(ops.drop_last().take(k) =~= ops.take(k));
        lemma_permitted_prefix(s, ops.drop_last(), k);
    }
}

/// The invariant holds at every point of every history: whatever operations
/// a well-formed reader goes through, and whatever the source replies, after
/// each of them the cursor is within the data and the data within the
/// storage.
pub proof fn lemma_invariant_at_every_point<E>(s: ReaderState, ops: Seq<Op<E>>, k: int)
    requires
        s.wf(),
        permitted(s, ops),
        0 <= k <= ops.len(),
    ensures
        after(s, ops.take(k)).wf(),
        after(s, ops.take(k)).pos <= after(s, ops.take(k)).data.len() <= after(
            s,
            ops.take(k),
        ).capacity,
    decreases k,
{
    if k > 0 {
        let upto = ops.take(k);
        assert(upto.drop_last() =~= ops.take(k - 1));
        lemma_invariant_at_every_point(s, ops, k - 1);
        lemma_permitted_prefix(s, ops, k);
    }
}

/// No byte of the data is made up, and none is lost. At every point of
/// every history the data consists of the bytes that were there at the start
/// followed by the bytes that the source wrote since, less the consumed
/// bytes that compaction dropped from the front.
pub proof fn lemma_data_is_what_came<E>(s: ReaderState, ops: Seq<Op<E>>)
    requires
        s.wf(),
        permitted(s, ops),
    ensures
        dropped(s, ops) <= (s.data + brought(ops)).len(),
        after(s, ops).data == (s.data + brought(ops)).skip(dropped(s, ops) as int),
    decreases ops.len(),
{
    if ops.len() == 0 {
        assert(s.data =~= (s.data + brought(ops)).skip(0));
    } else {
        let before = ops.drop_last();
        let prev = after(s, before);
        lemma_data_is_what_came(s, before);
        assert(before =~= ops.take(ops.len() - 1));
        lemma_invariant_at_every_point(s, ops, ops.len() - 1);
        let whole = s.data + brought(before);
        let cut = dropped(s, before) as int;
        match ops.last() {
            Op::Supply(Reply::Bytes(bytes)) => {
                assert(s.data + brought(ops) =~= whole + bytes@);
                assert((whole + bytes@).skip(cut) =~= whole.skip(cut) + bytes@);
            },
            Op::Compact => {
                assert(prev.compacted().data =~= whole.skip(cut + prev.pos));
            },
            _ => {},
        }
    }
}

/// Supplying one run of replies after another is supplying both as one.
pub proof fn lemma_run_split<E>(
    s: ReaderState,
    step: Step<E>,
    first: Seq<Reply<E>>,
    second: Seq<Reply<E>>,
)
    ensures
        run(s, first + second) == run(run(s, first), second),
        run_step(s, step, first + second) == run_step(
            run(s, first),
            run_step(s, step, first),
            second,
        ),
    decreases first.len(),
{
    if first.len() == 0 {
        assert(first + second =~= second);
    } else if s.pending is Idle {
        assert(run(s, second) == s) by {
            reveal_with_fuel(run, 1);
        }
        assert(run_step(s, step, second) == step) by {
            reveal_with_fuel(run_step, 1);
        }
    } else {
        assert((first + second).drop_first() =~= first.drop_first() + second);
        lemma_run_split(
            s.supplied(first[0]),
            s.supplied_step(first[0]),
            first.drop_first(),
            second,
        );
    }
}

/// A bulk read accumulates exactly what arrives. While the replies bring no
/// more than is still wanted, the data is the old data followed by their
/// bytes, whatever the sizes of the chunks and however often the source was
/// interrupted; the read ends when the last wanted byte has come, and until
/// then asks for what is missing.
pub proof fn lemma_read_accumulates<E>(s: ReaderState, step: Step<E>, replies: Seq<Reply<E>>)
    requires
        s.wf(),
        s.pending is Reading,
        step == (Step::<E>::Read { want: s.want() as usize }),
        progressing(replies),
        delivered(replies).len() <= s.want(),
    ensures
        run(s, replies).wf(),
        run(s, replies).data == s.data + delivered(replies),
        run(s, replies).pos == s.pos,
        run(s, replies).capacity == s.capacity,
        run(s, replies).inc == s.inc,
        delivered(replies).len() == s.want() ==> {
            &&& run(s, replies).pending is Idle
            &&& run_step(s, step, replies) == Step::<E>::Done(
                Ok(s.pending->wanted),
            )
        },
        delivered(replies).len() < s.want() ==> {
            &&& run(s, replies).pending == (Pending::Reading {
                wanted: s.pending->wanted,
                done: (s.pending->done + delivered(replies).len()) as usize,
            })
            &&& run_step(s, step, replies) == (Step::<E>::Read {
                want: (s.want() - delivered(replies).len()) as usize,
            })
        },
    decreases replies.len(),
{
    if replies.len() == 0 {
        assert(s.data + delivered(replies) =~= s.data);
    } else {
        let rest = replies.drop_first();
        let next = s.supplied(replies[0]);
        let next_step = s.supplied_step(replies[0]);
        assert(progressing(rest)) by {
            assert forall|i: int| 0 <= i < rest.len() implies match #[trigger] rest[i] {
                Reply::Bytes(bytes) => bytes@.len() > 0,
                Reply::Interrupted => true,
                Reply::Failed(_) => false,
            } by {
                assert(rest[i] == replies[i + 1]);
            }
        }
        match replies[0] {
            Reply::Bytes(bytes) => {
                assert(delivered(replies) == bytes@ + delivered(rest));
                if bytes@.len() == s.want() {
                    assert(delivered(rest).len() == 0);
                    assert(next.pending is Idle);
                    assert(run(next, rest) == next) by {
                        reveal_with_fuel(run, 1);
                    }
                    assert(run_step(next, next_step, rest) == next_step) by {
                        reveal_with_fuel(run_step, 1);
                    }
                    assert(next.data =~= s.data + delivered(replies));
                } else {
                    lemma_read_accumulates(next, next_step, rest);
                    assert(next.data + delivered(rest) =~= s.data + delivered(replies));
                }
            },
            Reply::Interrupted => {
                assert(delivered(replies) == delivered(rest));
                lemma_read_accumulates(next, next_step, rest);
            },
            Reply::Failed(_) => {},
        }
    }
}

/// How the source cuts the stream into chunks does not matter. A bulk read
/// of `n` bytes that is answered in chunks of any sizes, with any number of
/// interruptions between them, leaves the reader exactly as one that is
/// answered by a single reply holding all `n` bytes: the same data, the old
/// data followed by the stream, and the same result, `n`.
pub proof fn lemma_chunking_is_irrelevant<E>(
    s: ReaderState,
    n: usize,
    chunked: Seq<Reply<E>>,
    whole: Vec<u8>,
)
    requires
        s.wf(),
        s.data.len() + n <= MAX_CAPACITY,
        progressing(chunked),
        delivered(chunked) == whole@,
        whole@.len() == n,
    ensures
        run(s.begin_read(n), chunked) == run(s.begin_read(n), seq![Reply::<E>::Bytes(whole)]),
        run(s.begin_read(n), chunked).data == s.data + whole@,
        run(s.begin_read(n), chunked).pending is Idle,
        run_step(s.begin_read(n), s.begin_read_step(n), chunked) == Step::<E>::Done(Ok(n)),
        run_step(s.begin_read(n), s.begin_read_step(n), seq![Reply::<E>::Bytes(whole)])
            == Step::<E>::Done(Ok(n)),
{
    let begun = s.begin_read(n);
    let step = s.begin_read_step::<E>(n);
    let single = seq![Reply::<E>::Bytes(whole)];
    if n == 0 {
        reveal_with_fuel(run, 1);
        reveal_with_fuel(run_step, 1);
        assert(s.data + whole@ =~= s.data);
    } else {
        assert(single.drop_first() =~= Seq::<Reply<E>>::empty());
        assert(delivered(single) =~= whole@) by {
            reveal_with_fuel(delivered, 2);
        }
        lemma_read_accumulates(begun, step, chunked);
        lemma_read_accumulates(begun, step, single);
    }
}

/// A short read is no failure. When the stream ends after `k` bytes of the
/// `n` that a bulk read wanted, the read ends with `k`, and the length has
/// grown by `k`, not by `n`: the data is the old data followed by the bytes
/// that came.
pub proof fn lemma_short_read<E>(s: ReaderState, n: usize, replies: Seq<Reply<E>>, end: Vec<u8>)
    requires
        s.wf(),
        s.data.len() + n <= MAX_CAPACITY,
        progressing(replies),
        delivered(replies).len() < n,
        end@.len() == 0,
    ensures
        run(s.begin_read(n), replies.push(Reply::Bytes(end))).data == s.data + delivered(replies),
        run(s.begin_read(n), replies.push(Reply::Bytes(end))).pending is Idle,
        run_step(s.begin_read(n), s.begin_read_step(n), replies.push(Reply::Bytes(end)))
            == Step::<E>::Done(Ok(delivered(replies).len() as usize)),
{
    let begun = s.begin_read(n);
    let step = s.begin_read_step::<E>(n);
    let last = seq![Reply::<E>::Bytes(end)];
    let mid = run(begun, replies);
    let mid_step = run_step(begun, step, replies);
    assert(replies.push(Reply::Bytes(end)) =~= replies + last);
    lemma_read_accumulates(begun, step, replies);
    lemma_run_split(begun, step, replies, last);
    assert(last.drop_first() =~= Seq::<Reply<E>>::empty());
    assert(run(mid, last) == mid.supplied(last[0])) by {
        reveal_with_fuel(run, 2);
    }
    assert(run_step(mid, mid_step, last) == mid.supplied_step(last[0])) by {
        reveal_with_fuel(run_step, 2);
    }
    assert(mid.data + end@ =~= mid.data);
}

/// A failure loses nothing and invents nothing. When the source fails
/// during a bulk read, the read ends with the cause, and the data is the old
/// data followed by the bytes that came before the failure.
pub proof fn lemma_failure_keeps_progress<E>(
    s: ReaderState,
    n: usize,
    replies: Seq<Reply<E>>,
    cause: E,
)
    requires
        s.wf(),
        s.data.len() + n <= MAX_CAPACITY,
        progressing(replies),
        delivered(replies).len() < n,
    ensures
        run(s.begin_read(n), replies.push(Reply::Failed(cause))).data == s.data + delivered(
            replies,
        ),
        run(s.begin_read(n), replies.push(Reply::Failed(cause))).pending is Idle,
        run_step(s.begin_read(n), s.begin_read_step(n), replies.push(Reply::Failed(cause)))
            == Step::<E>::Done(Err(cause)),
{
    let begun = s.begin_read(n);
    let step = s.begin_read_step::<E>(n);
    let last = seq![Reply::<E>::Failed(cause)];
    let mid = run(begun, replies);
    let mid_step = run_step(begun, step, replies);
    assert(replies.push(Reply::Failed(cause)) =~= replies + last);
    lemma_read_accumulates(begun, step, replies);
    lemma_run_split(begun, step, replies, last);
    assert(last.drop_first() =~= Seq::<Reply<E>>::empty());
    assert(run(mid, last) == mid.supplied(last[0])) by {
        reveal_with_fuel(run, 2);
    }
    assert(run_step(mid, mid_step, last) == mid.supplied_step(last[0])) by {
        reveal_with_fuel(run_step, 2);
    }
}

/// Consuming more than is available consumes what is available: the cursor
/// stops at the length. The refill that follows asks the source for one read
/// of `inc` bytes, and whatever the source answers to it, bytes or a
/// failure, ends the refill; only an interrupted call is asked for again.
pub proof fn lemma_overconsume_then_fill<E>(s: ReaderState, amt: usize, reply: Reply<E>)
    requires
        s.wf(),
        amt >= s.available().len(),
        s.data.len() + s.inc <= MAX_CAPACITY,
    ensures
        s.consumed(amt).pos == s.data.len(),
        s.consumed(amt).available() == Seq::<u8>::empty(),
        s.consumed(amt).begin_fill_step::<E>() == (Step::<E>::Read { want: s.inc }),
        s.consumed(amt).begin_fill().pending is Filling,
        s.consumed(amt).begin_fill().admits(reply) ==> match reply {
            Reply::Bytes(bytes) => {
                &&& s.consumed(amt).begin_fill().supplied_step(reply) == Step::<E>::Done(
                    Ok(bytes@.len() as usize),
                )
                &&& s.consumed(amt).begin_fill().supplied(reply).pending is Idle
                &&& s.consumed(amt).begin_fill().supplied(reply).available() == bytes@
            },
            Reply::Interrupted => {
                &&& s.consumed(amt).begin_fill().supplied_step(reply) == (Step::<E>::Read {
                    want: s.inc,
                })
                &&& s.consumed(amt).begin_fill().supplied(reply) == s.consumed(amt).begin_fill()
            },
            Reply::Failed(cause) => {
                &&& s.consumed(amt).begin_fill().supplied_step(reply) == Step::<E>::Done(
                    Err(cause),
                )
                &&& s.consumed(amt).begin_fill().supplied(reply).pending is Idle
            },
        },
{
    let filling = s.consumed(amt).begin_fill();
    assert(s.consumed(amt).available() =~= Seq::<u8>::empty());
    if let Reply::Bytes(bytes) = reply {
        assert(filling.supplied(reply).available() =~= bytes@);
    }
}

/// Refilling twice is refilling once. While bytes are available, a refill
/// asks nothing of the source and changes neither data nor cursor, so a
/// second one gives the same bytes as the first.
pub proof fn lemma_fill_is_idempotent<E>(s: ReaderState)
    requires
        s.wf(),
        s.available().len() > 0,
    ensures
        s.begin_fill_step::<E>() == Step::<E>::Done(Ok(s.available().len() as usize)),
        s.begin_fill().begin_fill_step::<E>() == s.begin_fill_step::<E>(),
        s.begin_fill().begin_fill() == s.begin_fill(),
        s.begin_fill().data == s.data,
        s.begin_fill().pos == s.pos,
        s.begin_fill().begin_fill().available() == s.begin_fill().available(),
        s.begin_fill().available() == s.available(),
{
}

/// The same holds of a refill that had to ask the source: when the source
/// answered with bytes, the next refill gives those bytes again and asks
/// nothing.
pub proof fn lemma_fill_after_read_is_idempotent<E>(s: ReaderState, bytes: Vec<u8>)
    requires
        s.wf(),
        s.pos == s.data.len(),
        s.data.len() + s.inc <= MAX_CAPACITY,
        0 < bytes@.len() <= s.inc,
    ensures
        s.begin_fill().supplied(Reply::<E>::Bytes(bytes)).available() == bytes@,
        s.begin_fill().supplied(Reply::<E>::Bytes(bytes)).begin_fill_step::<E>()
            == Step::<E>::Done(Ok(bytes@.len() as usize)),
        s.begin_fill().supplied(Reply::<E>::Bytes(bytes)).begin_fill() == s.begin_fill().supplied(
            Reply::<E>::Bytes(bytes),
        ),
{
    let filled = s.begin_fill().supplied(Reply::<E>::Bytes(bytes));
    assert(filled.available() =~= bytes@);
}

} // verus!
