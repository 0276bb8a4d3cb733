//! A fixed-capacity circular store for serialized log bytes

use vstd::prelude::*;

verus! {

/// Index `x` reduced into `0..cap`, for an `x` below `2 * cap`.
pub open spec fn wrap(x: int, cap: int) -> int {
    if x < cap {
        x
    } else {
        x - cap
    }
}

/// How many of `count` new bytes fit in a buffer of capacity `cap` that holds `len` bytes.
pub open spec fn accepted(len: nat, cap: nat, count: nat) -> nat {
    if len >= cap {
        0
    } else if count <= cap - len {
        count
    } else {
        (cap - len) as nat
    }
}

/// A circular byte buffer of fixed capacity
///
/// Bytes are appended at the write cursor and removed at the read cursor; both
/// wrap around the end of the storage. Appending never reallocates: bytes that
/// do not fit are dropped.
pub struct RingBuffer {
    storage: Vec<u8>,
    /// Read cursor
    start: usize,
    /// Number of unread bytes
    len: usize,
}

impl View for RingBuffer {
    type V = Seq<u8>;

    /// The unread bytes, oldest first.
    closed spec fn view(&self) -> Seq<u8> {
        Seq::new(
            self.len as nat,
            |i: int| self.storage@[wrap(self.start + i, self.storage@.len() as int)],
        )
    }
}

impl RingBuffer {
    /// The number of bytes the buffer can hold.
    pub closed spec fn spec_capacity(&self) -> nat {
        self.storage@.len()
    }

    /// The cursors lie within the storage and the unread bytes fit in it.
    pub closed spec fn wf(&self) -> bool {
        &&& self.len <= self.storage@.len()
        &&& (self.storage@.len() == 0 || self.start < self.storage@.len())
    }

    /// A well-formed buffer holds no more bytes than its capacity.
    pub proof fn lemma_len_bounded(&self)
        requires
            self.wf(),
        ensures
            self@.len() <= self.spec_capacity(),
    {
    }

    /// An empty buffer that holds at most `capacity` bytes.
    pub fn new(capacity: usize) -> (r: RingBuffer)
        ensures
            r.wf(),
            r@ == Seq::<u8>::empty(),
            r.spec_capacity() == capacity,
    {
        let r = RingBuffer { storage: vec![0u8; capacity], start: 0, len: 0 };
        assert(r@ =~= Seq::<u8>::empty());
        r
    }

    /// The number of bytes the buffer can hold.
    pub fn capacity(&self) -> (r: usize)
        requires
            self.wf(),
        ensures
            r == self.spec_capacity(),
    {
        self.storage.len()
    }

    /// The number of unread bytes.
    pub fn len(&self) -> (r: usize)
        requires
            self.wf(),
        ensures
            r == self@.len(),
            r <= self.spec_capacity(),
    {
        self.len
    }

    /// Whether no byte is unread.
    pub fn is_empty(&self) -> (r: bool)
        requires
            self.wf(),
        ensures
            r == (self@.len() == 0),
    {
        self.len == 0
    }

    /// Appends `byte` if there is room; returns whether it was appended.
    pub fn push(&mut self, byte: u8) -> (r: bool)
        requires
            old(self).wf(),
        ensures
            final(self).wf(),
            final(self).spec_capacity() == old(self).spec_capacity(),
            r == (old(self)@.len() < old(self).spec_capacity()),
            r ==> final(self)@ == old(self)@.push(byte),
            !r ==> final(self)@ == old(self)@,
    {
        let cap = self.storage.len();
        if self.len == cap {
            return false;
        }
        let ghost before = self@;
        let pos: usize = if self.start < cap - self.len {
            self.start + self.len
        } else {
            self.start - (cap - self.len)
        };
        self.storage.set(pos, byte);
        self.len = self.len + 1;
        assert(self@ =~= before.push(byte));
        true
    }

    /// Appends as many leading bytes of `bytes` as fit, in order, and drops the
    /// rest. Returns how many were appended.
    pub fn insert(&mut self, bytes: &[u8]) -> (n: usize)
        requires
            old(self).wf(),
        ensures
            final(self).wf(),
            final(self).spec_capacity() == old(self).spec_capacity(),
            n == accepted(old(self)@.len(), old(self).spec_capacity(), bytes@.len()),
            final(self)@ == old(self)@ + bytes@.take(n as int),
    {
        let cap = self.storage.len();
        let mut n: usize = 0;
        while n < bytes.len() && self.len < cap
            invariant
                self.wf(),
                self.spec_capacity() == cap,
                cap == old(self).spec_capacity(),
                n <= bytes@.len(),
                self@ == old(self)@ + bytes@.take(n as int),
            decreases bytes@.len() - n,
        {
            let ok = self.push(bytes[n]);
            assert(ok);
            assert(bytes@.take(n + 1) =~= bytes@.take(n as int).push(bytes@[n as int]));
            n = n + 1;
        }
        n
    }

    /// Removes and returns the oldest unread byte.
    pub fn pop(&mut self) -> (r: Option<u8>)
        requires
            old(self).wf(),
        ensures
            final(self).wf(),
            final(self).spec_capacity() == old(self).spec_capacity(),
            old(self)@.len() == 0 ==> r is None && final(self)@ == old(self)@,
            old(self)@.len() > 0 ==> r == Some(old(self)@[0]) && final(self)@
                == old(self)@.drop_first(),
    {
        if self.len == 0 {
            return None;
        }
        let ghost before = self@;
        let byte = self.storage[self.start];
        let cap = self.storage.len();
        self.start = if self.start + 1 < cap {
            self.start + 1
        } else {
            0
        };
        self.len = self.len - 1;
        assert(self@ =~= before.drop_first());
        Some(byte)
    }
}

} // verus!
