//! Flat, zero-initialised RAM regions.
use vstd::prelude::*;

verus! {

/// A RAM region of fixed size, read and written by index.
pub struct WriteableMem {
    mem: Vec<u8>,
}

impl View for WriteableMem {
    type V = Seq<u8>;

    closed spec fn view(&self) -> Seq<u8> {
        self.mem@
    }
}

impl WriteableMem {
    /// A region of `size` zero bytes.
    pub fn new(size: usize) -> (r: WriteableMem)
        ensures
            r@ == Seq::new(size as nat, |i: int| 0u8),
    {
        let mem = vec![0u8; size];
        proof {
            assert(mem@ =~= Seq::new(size as nat, |i: int| 0u8));
        }
        WriteableMem { mem }
    }

    pub fn len(&self) -> (r: usize)
        ensures
            r == self@.len(),
    {
        self.mem.len()
    }

    pub fn read(&self, loc: u16) -> (r: u8)
        requires
            (loc as int) < self@.len(),
        ensures
            r == self@[loc as int],
    {
        self.mem[loc as usize]
    }

    pub fn write(&mut self, loc: u16, val: u8)
        requires
            (loc as int) < old(self)@.len(),
        ensures
            final(self)@ == old(self)@.update(loc as int, val),
    {
        self.mem.set(loc as usize, val);
    }
}

} // verus!
