//! The bounded, duplicate-free buffer of key codes claimed by an
//! in-progress decision window or an active shift layer.

use vstd::prelude::*;

verus! {

/// Greatest number of key codes the buffer will hold.
pub const MAX_BUFFER: usize = 8;

/// What `append` leaves in the buffer: the code goes to the end unless it
/// is already present or the buffer is full, in which case nothing moves.
pub open spec fn spec_append(buf: Seq<u16>, code: u16) -> Seq<u16> {
    if buf.len() < MAX_BUFFER && !buf.contains(code) {
        buf.push(code)
    } else {
        buf
    }
}

/// What `remove` leaves in the buffer: the first occurrence of the code is
/// taken out; an absent code moves nothing.
pub open spec fn spec_remove(buf: Seq<u16>, code: u16) -> Seq<u16> {
    if buf.contains(code) {
        buf.remove(buf.index_of(code))
    } else {
        buf
    }
}

/// An ordered set of distinct key codes, capacity [`MAX_BUFFER`].
pub struct KeyBuffer {
    codes: Vec<u16>,
}

impl View for KeyBuffer {
    type V = Seq<u16>;

    closed spec fn view(&self) -> Seq<u16> {
        self.codes@
    }
}

impl KeyBuffer {
    /// The buffer invariant: no code twice, never over capacity.
    pub open spec fn wf(&self) -> bool {
        self@.no_duplicates() && self@.len() <= MAX_BUFFER
    }

    pub fn new() -> (r: Self)
        ensures
            r@ == Seq::<u16>::empty(),
            r.wf(),
    {
        KeyBuffer { codes: Vec::new() }
    }

    pub fn contains(&self, code: u16) -> (r: bool)
        ensures
            r == self@.contains(code),
    {
        let n = self.codes.len();
        let mut i: usize = 0;
        while i < n
            invariant
                n == self.codes.len(),
                i <= n,
                forall|j: int| 0 <= j < i ==> self.codes@[j] != code,
            decreases n - i,
        {
            if self.codes[i] == code {
                return true;
            }
            i += 1;
        }
        false
    }

    /// Adds a code at the end; refuses a duplicate or a full buffer.
    pub fn append(&mut self, code: u16) -> (r: bool)
        requires
            old(self).wf(),
        ensures
            final(self).wf(),
            final(self)@ == spec_append(old(self)@, code),
            r == (old(self)@.len() < MAX_BUFFER && !old(self)@.contains(code)),
    {
        if self.codes.len() >= MAX_BUFFER {
            return false;
        }
        if self.contains(code) {
            return false;
        }
        self.codes.push(code);
        true
    }

    /// Takes a code out; refuses one that is absent.
    pub fn remove(&mut self, code: u16) -> (r: bool)
        requires
            old(self).wf(),
        ensures
            final(self).wf(),
            final(self)@ == spec_remove(old(self)@, code),
            r == old(self)@.contains(code),
    {
        let n = self.codes.len();
        let mut i: usize = 0;
        while i < n
            invariant
                self.codes@ == old(self).codes@,
                old(self).wf(),
                n == self.codes.len(),
                i <= n,
                forall|j: int| 0 <= j < i ==> self.codes@[j] != code,
            decreases n - i,
        {
            if self.codes[i] == code {
                proof {
                    assert(self.codes@[i as int] == code);
                    assert(self.codes@.contains(code));
                    let j = self.codes@.index_of(code);
                    assert(0 <= j < self.codes@.len() && self.codes@[j] == code);
                    assert(j == i as int);
                    lemma_remove_keeps_no_duplicates(self.codes@, i as int);
                }
                self.codes.remove(i);
                return true;
            }
            i += 1;
        }
        false
    }

    /// Empties the buffer unconditionally.
    pub fn clear(&mut self)
        ensures
            final(self)@ == Seq::<u16>::empty(),
            final(self).wf(),
    {
        self.codes.clear();
    }

    /// The buffered codes in insertion order.
    pub fn iter(&self) -> (r: &[u16])
        ensures
            r@ == self@,
    {
        self.codes.as_slice()
    }

    pub fn len(&self) -> (r: usize)
        ensures
            r == self@.len(),
    {
        self.codes.len()
    }

    pub fn is_empty(&self) -> (r: bool)
        ensures
            r == (self@.len() == 0),
    {
        self.codes.len() == 0
    }
}

impl Default for KeyBuffer {
    fn default() -> (r: Self)
        ensures
            r@ == Seq::<u16>::empty(),
            r.wf(),
    {
        KeyBuffer::new()
    }
}

proof fn lemma_remove_keeps_no_duplicates(s: Seq<u16>, i: int)
    requires
        s.no_duplicates(),
        0 <= i < s.len(),
    ensures
        s.remove(i).no_duplicates(),
{
    let t = s.remove(i);
    assert forall|p: int, q: int| 0 <= p < t.len() && 0 <= q < t.len() && p != q implies t[p]
        != t[q] by {
        let p0 = if p < i { p } else { p + 1 };
        let q0 = if q < i { q } else { q + 1 };
        assert(t[p] == s[p0]);
        assert(t[q] == s[q0]);
    }
}

} // verus!
