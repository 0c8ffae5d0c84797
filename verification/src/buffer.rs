//! The byte buffer: allocated storage of which only a prefix holds data.

use vstd::prelude::*;

verus! {

/// The largest capacity a buffer can have: the most bytes one allocation may hold.
pub const MAX_CAPACITY: usize = usize::MAX / 2;

/// The capacity a buffer of capacity `cap` has once room for `needed` bytes in
/// all has been reserved: unchanged where the room is there, else doubled, or
/// `needed` itself where doubling is not enough.
pub open spec fn grown(cap: int, needed: int) -> int {
    if needed <= cap {
        cap
    } else if needed <= 2 * cap && 2 * cap <= MAX_CAPACITY {
        2 * cap
    } else {
        needed
    }
}

/// A growable sequence of bytes with two extents: its length, the number of
/// bytes that hold data, and its capacity, the storage allocated. Storage
/// beyond the length is never handed out.
pub struct Buffer {
    storage: Vec<u8>,
    len: usize,
}

impl View for Buffer {
    type V = Seq<u8>;

    /// The data: the first `len` bytes of the storage.
    closed spec fn view(&self) -> Seq<u8> {
        self.storage@.subrange(0, self.len as int)
    }
}

impl Buffer {
    /// The length is within the storage, and the storage within what one
    /// allocation may hold. Every buffer this module hands out is well formed.
    pub closed spec fn wf(&self) -> bool {
        self.len <= self.storage@.len() <= MAX_CAPACITY
    }

    /// The storage allocated, in bytes.
    pub closed spec fn spec_capacity(&self) -> nat {
        self.storage@.len()
    }

    /// An empty buffer without storage.
    pub fn new() -> (b: Self)
        ensures
            b.wf(),
            b@ == Seq::<u8>::empty(),
            b.spec_capacity() == 0,
    {
        Buffer { storage: Vec::new(), len: 0 }
    }

    /// The number of bytes of data.
    pub fn len(&self) -> (n: usize)
        requires
            self.wf(),
        ensures
            n == self@.len(),
            n <= self.spec_capacity() <= MAX_CAPACITY,
    {
        self.len
    }

    /// The storage allocated, never less than the length.
    pub fn capacity(&self) -> (c: usize)
        requires
            self.wf(),
        ensures
            c == self.spec_capacity(),
            self@.len() <= c <= MAX_CAPACITY,
    {
        self.storage.len()
    }

    /// Makes room for `additional` more bytes of data. The data stays as it
    /// is: reserved storage is not data.
    pub fn reserve(&mut self, additional: usize)
        requires
            old(self).wf(),
            old(self)@.len() + additional <= MAX_CAPACITY,
        ensures
            final(self).wf(),
            final(self)@ == old(self)@,
            final(self).spec_capacity() == grown(
                old(self).spec_capacity() as int,
                old(self)@.len() + additional,
            ),
            final(self)@.len() + additional <= final(self).spec_capacity() <= MAX_CAPACITY,
    {
        let cap: usize = self.storage.len();
        let needed: usize = self.len + additional;
        if needed > cap {
            let target: usize = if needed - cap <= cap && cap <= MAX_CAPACITY - cap {
                cap + cap
            } else {
                needed
            };
            self.storage.resize(target, 0u8);
            assert(self.storage@.subrange(0, self.len as int) =~= old(self).storage@.subrange(
                0,
                self.len as int,
            ));
        }
    }

    /// Appends `bytes` to the data, growing the storage where the room is
    /// not there.
    pub fn append(&mut self, bytes: &[u8])
        requires
            old(self).wf(),
            old(self)@.len() + bytes@.len() <= MAX_CAPACITY,
        ensures
            final(self).wf(),
            final(self)@ == old(self)@ + bytes@,
            final(self).spec_capacity() == grown(
                old(self).spec_capacity() as int,
                (old(self)@.len() + bytes@.len()) as int,
            ),
            final(self)@.len() <= final(self).spec_capacity() <= MAX_CAPACITY,
    {
        let count: usize = bytes.len();
        self.reserve(count);
        let start: usize = self.len;
        let ghost before = self@;
        let mut i: usize = 0;
        while i < count
            invariant
                i <= count,
                count == bytes@.len(),
                start == self.len,
                start + count <= self.storage@.len() <= MAX_CAPACITY,
                self.storage@.len() == grown(old(self).spec_capacity() as int, start + count),
                self.storage@.subrange(0, start as int) == before,
                forall|j: int| 0 <= j < i ==> self.storage@[start + j] == bytes@[j],
            decreases count - i,
        {
            let ghost prev = self.storage@;
            self.storage[start + i] = bytes[i];
            assert(self.storage@.subrange(0, start as int) =~= prev.subrange(0, start as int));
            i += 1;
        }
        self.len = start + count;
        assert(self@ =~= before + bytes@);
    }

    /// The data, and nothing beyond it.
    pub fn as_slice(&self) -> (s: &[u8])
        requires
            self.wf(),
        ensures
            s@ == self@,
    {
        vstd::slice::slice_subrange(self.storage.as_slice(), 0, self.len)
    }

    /// The data from index `from` on.
    pub fn tail(&self, from: usize) -> (s: &[u8])
        requires
            self.wf(),
            from <= self@.len(),
        ensures
            s@ == self@.subrange(from as int, self@.len() as int),
    {
        let s = vstd::slice::slice_subrange(self.storage.as_slice(), from, self.len);
        assert(s@ =~= self@.subrange(from as int, self@.len() as int));
        s
    }

    /// Drops the first `count` bytes of the data and moves the rest to the
    /// front. The storage stays as large as it is.
    pub fn discard_front(&mut self, count: usize)
        requires
            old(self).wf(),
            count <= old(self)@.len(),
        ensures
            final(self).wf(),
            final(self)@ == old(self)@.subrange(count as int, old(self)@.len() as int),
            final(self).spec_capacity() == old(self).spec_capacity(),
    {
        let kept: usize = self.len - count;
        let ghost before = self.storage@;
        let mut i: usize = 0;
        while i < kept
            invariant
                i <= kept,
                kept + count == self.len,
                self.len <= self.storage@.len() <= MAX_CAPACITY,
                self.storage@.len() == before.len(),
                forall|j: int| 0 <= j < i ==> self.storage@[j] == before[j + count],
                forall|j: int| i <= j < self.storage@.len() ==> self.storage@[j] == before[j],
            decreases kept - i,
        {
            let byte: u8 = self.storage[i + count];
            self.storage[i] = byte;
            i += 1;
        }
        self.len = kept;
        assert(self@ =~= old(self)@.subrange(count as int, old(self)@.len() as int));
    }
}

} // verus!
