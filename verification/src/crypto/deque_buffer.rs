//! A growable byte buffer that can also be extended at the front.

use vstd::prelude::*;
use crate::tl::wire::{copy_range, push_all, store_slice};

verus! {

/// A byte buffer with spare room in front of its content, so that headers
/// can be put before what was written first.
#[derive(Debug)]
pub struct DequeBuffer {
    buf: Vec<u8>,
    head: usize,
    default_head: usize,
}

impl View for DequeBuffer {
    type V = Seq<u8>;

    closed spec fn view(&self) -> Seq<u8> {
        self.buf@.skip(self.head as int)
    }
}

impl DequeBuffer {
    /// The content starts inside the storage, at or before the place where
    /// it starts in an empty buffer.
    pub closed spec fn wf(self) -> bool {
        self.head <= self.default_head <= self.buf@.len()
    }

    /// The room before the content: so many bytes can be put in front before
    /// the content has to move.
    pub closed spec fn front_room(self) -> nat {
        self.head as nat
    }

    /// The room before the content of the buffer when it is empty: what it
    /// was made with.
    pub closed spec fn reserved_front(self) -> nat {
        self.default_head as nat
    }

    /// An empty buffer with `front` bytes of room before its content. `back`
    /// says how much is expected behind; the content does not depend on it.
    pub fn with_capacity(back: usize, front: usize) -> (b: Self)
        ensures
            b.wf(),
            b@ == Seq::<u8>::empty(),
            b.front_room() == front,
            b.reserved_front() == front,
    {
        let mut buf: Vec<u8> = Vec::new();
        buf.resize(front, 0u8);
        assert(buf@.skip(front as int) =~= Seq::<u8>::empty());
        Self { buf, head: front, default_head: front }
    }

    /// Empties the buffer.
    pub fn clear(&mut self)
        requires
            old(self).wf(),
        ensures
            final(self).wf(),
            final(self)@ == Seq::<u8>::empty(),
            final(self).reserved_front() == old(self).reserved_front(),
            final(self).front_room() == old(self).reserved_front(),
    {
        let n = self.default_head;
        let mut fresh: Vec<u8> = Vec::new();
        fresh.resize(n, 0u8);
        self.buf = fresh;
        self.head = n;
        assert(self.buf@.skip(n as int) =~= Seq::<u8>::empty());
    }

    /// Puts `slice` before the content.
    pub fn extend_front(&mut self, slice: &[u8])
        requires
            old(self).wf(),
        ensures
            final(self).wf(),
            final(self)@ == slice@ + old(self)@,
            final(self).reserved_front() == old(self).reserved_front(),
            final(self).front_room() == if old(self).front_room() >= slice@.len() {
                old(self).front_room() - slice@.len()
            } else {
                0
            },
    {
        if self.head >= slice.len() {
            let at = self.head - slice.len();
            store_slice(self.buf.as_mut_slice(), at, slice);
            self.head = at;
            assert(self@ =~= slice@ + old(self)@);
        } else {
            let mut fresh: Vec<u8> = Vec::new();
            push_all(&mut fresh, slice);
            let content = copy_range(self.buf.as_slice(), self.head, self.buf.len());
            push_all(&mut fresh, content.as_slice());
            assert(content@ =~= old(self)@);
            self.buf = fresh;
            self.head = 0;
            assert(self@ =~= slice@ + old(self)@);
        }
    }

    /// Puts `slice` behind the content.
    pub fn extend_from_slice(&mut self, slice: &[u8])
        requires
            old(self).wf(),
        ensures
            final(self).wf(),
            final(self)@ == old(self)@ + slice@,
            final(self).reserved_front() == old(self).reserved_front(),
            final(self).front_room() == old(self).front_room(),
    {
        push_all(&mut self.buf, slice);
        assert(self@ =~= old(self)@ + slice@);
    }

    /// Number of bytes in the buffer.
    pub fn len(&self) -> (n: usize)
        requires
            self.wf(),
        ensures
            n == self@.len(),
    {
        self.buf.len() - self.head
    }

    /// Whether the buffer holds nothing.
    pub fn is_empty(&self) -> (e: bool)
        requires
            self.wf(),
        ensures
            e == (self@.len() == 0),
    {
        self.head == self.buf.len()
    }

    /// A copy of the content.
    pub fn to_vec(&self) -> (v: Vec<u8>)
        requires
            self.wf(),
        ensures
            v@ == self@,
    {
        let v = copy_range(self.buf.as_slice(), self.head, self.buf.len());
        assert(v@ =~= self@);
        v
    }

    /// Replaces the content by `bytes`, which has the content's length.
    pub fn overwrite(&mut self, bytes: &[u8])
        requires
            old(self).wf(),
            bytes@.len() == old(self)@.len(),
        ensures
            final(self).wf(),
            final(self)@ == bytes@,
            final(self).reserved_front() == old(self).reserved_front(),
            final(self).front_room() == old(self).front_room(),
    {
        let at = self.head;
        store_slice(self.buf.as_mut_slice(), at, bytes);
        assert(self@ =~= bytes@);
    }
}

} // verus!
