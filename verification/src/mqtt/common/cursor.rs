//! A read position over a byte slice.
use vstd::prelude::*;

verus! {

/// A byte slice with a read position, as fed to the packet builder.
pub struct Cursor<'a> {
    data: &'a [u8],
    pos: u64,
}

impl<'a> Cursor<'a> {
    /// The underlying bytes.
    pub closed spec fn data(&self) -> Seq<u8> {
        self.data@
    }

    /// The read position.
    pub closed spec fn pos(&self) -> nat {
        self.pos as nat
    }

    /// The bytes not read yet.
    pub open spec fn rest(&self) -> Seq<u8> {
        if self.pos() >= self.data().len() {
            Seq::empty()
        } else {
            self.data().subrange(self.pos() as int, self.data().len() as int)
        }
    }

    /// A cursor at the start of `data`.
    pub fn new(data: &'a [u8]) -> (r: Self)
        ensures
            r.data() == data@,
            r.pos() == 0,
    {
        Self { data, pos: 0 }
    }

    /// The read position.
    pub fn position(&self) -> (r: u64)
        ensures
            r == self.pos(),
    {
        self.pos
    }

    /// Moves the read position (it may lie past the end; nothing is left to read then).
    pub fn set_position(&mut self, pos: u64)
        ensures
            final(self).data() == old(self).data(),
            final(self).pos() == pos,
    {
        self.pos = pos;
    }

    /// The underlying bytes.
    pub fn get_ref(&self) -> (r: &'a [u8])
        ensures
            r@ == self.data(),
    {
        self.data
    }

    /// The number of bytes not read yet.
    pub fn remaining(&self) -> (r: usize)
        ensures
            r == self.rest().len(),
    {
        if self.pos >= self.data.len() as u64 {
            0
        } else {
            self.data.len() - self.pos as usize
        }
    }

    /// Reads one byte; `None` at the end.
    pub fn read_byte(&mut self) -> (r: Option<u8>)
        ensures
            final(self).data() == old(self).data(),
            old(self).rest().len() == 0 ==> r is None && final(self).pos() == old(self).pos(),
            old(self).rest().len() > 0 ==> r == Some(old(self).rest()[0]) && final(self).pos()
                == old(self).pos() + 1 && final(self).rest() == old(self).rest().drop_first(),
    {
        if self.pos >= self.data.len() as u64 {
            None
        } else {
            let b = self.data[self.pos as usize];
            self.pos = self.pos + 1;
            proof {
                assert(self.rest() =~= old(self).rest().drop_first());
            }
            Some(b)
        }
    }
}

} // verus!
