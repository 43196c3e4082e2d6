//! An in-memory read position over a byte buffer.
use vstd::prelude::*;

verus! {

/// A byte buffer and a read position in it: what the codec reads from.
pub struct ByteCursor {
    data: Vec<u8>,
    position: usize,
}

impl ByteCursor {
    #[verifier::type_invariant]
    spec fn position_in_bounds(self) -> bool {
        self.position <= self.data@.len()
    }

    /// All bytes of the buffer.
    pub closed spec fn contents(&self) -> Seq<u8> {
        self.data@
    }

    /// The read position: how many bytes of the buffer lie before it.
    pub closed spec fn pos(&self) -> int {
        self.position as int
    }

    /// The bytes from the read position to the end.
    pub open spec fn remaining(&self) -> Seq<u8> {
        self.contents().skip(self.pos())
    }

    /// A cursor at the start of `data`.
    pub fn new(data: Vec<u8>) -> (cursor: Self)
        ensures
            cursor.contents() == data@,
            cursor.pos() == 0,
    {
        ByteCursor { data, position: 0 }
    }

    /// The read position.
    pub fn position(&self) -> (p: usize)
        ensures
            p == self.pos(),
            p <= self.contents().len(),
    {
        proof {
            use_type_invariant(self);
        }
        self.position
    }

    /// The whole buffer.
    pub fn get_ref(&self) -> (data: &[u8])
        ensures
            data@ == self.contents(),
    {
        self.data.as_slice()
    }

    /// How many bytes lie between the read position and the end.
    pub fn remaining_len(&self) -> (n: usize)
        ensures
            n == self.remaining().len(),
            self.pos() + n == self.contents().len(),
    {
        proof {
            use_type_invariant(self);
        }
        self.data.len() - self.position
    }

    /// Moves the read position `n` bytes forward.
    pub fn advance(&mut self, n: usize)
        requires
            n <= old(self).remaining().len(),
        ensures
            final(self).contents() == old(self).contents(),
            final(self).pos() == old(self).pos() + n,
            final(self).remaining() == old(self).remaining().skip(n as int),
    {
        proof {
            use_type_invariant(&*self);
        }
        let _len = self.data.len();
        self.position = self.position + n;
        proof {
            assert(self.remaining() =~= old(self).remaining().skip(n as int));
        }
    }

    /// Moves the read position to the end of the buffer.
    pub fn seek_end(&mut self)
        ensures
            final(self).contents() == old(self).contents(),
            final(self).pos() == old(self).contents().len(),
    {
        self.position = self.data.len();
    }

    /// Takes the next `n` bytes and moves the read position past them.
    pub fn take_bytes(&mut self, n: usize) -> (out: Vec<u8>)
        requires
            n <= old(self).remaining().len(),
        ensures
            out@ == old(self).remaining().take(n as int),
            final(self).contents() == old(self).contents(),
            final(self).pos() == old(self).pos() + n,
            final(self).remaining() == old(self).remaining().skip(n as int),
    {
        proof {
            use_type_invariant(&*self);
        }
        let len = self.data.len();
        let start = self.position;
        let mut out: Vec<u8> = Vec::with_capacity(n);
        let mut i: usize = 0;
        while i < n
            invariant
                start + n <= self.data@.len(),
                self.data@.len() == len,
                start == old(self).pos(),
                self.data@ == old(self).contents(),
                0 <= i <= n,
                out@ =~= self.data@.subrange(start as int, start + i),
            decreases n - i,
        {
            out.push(self.data[start + i]);
            i = i + 1;
        }
        self.position = start + n;
        proof {
            assert(old(self).remaining().take(n as int) =~= self.data@.subrange(start as int, start + n));
            assert(self.remaining() =~= old(self).remaining().skip(n as int));
        }
        out
    }
}

} // verus!
