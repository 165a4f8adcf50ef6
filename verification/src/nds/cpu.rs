//! The register file that a BIOS call reads its arguments from and leaves its results in.

use vstd::prelude::*;

verus! {

/// Sixteen general registers.
#[derive(Clone, Copy, Debug, PartialEq, Eq)]
pub struct RegisterFile {
    pub registers: [u32; 16],
}

impl View for RegisterFile {
    type V = Seq<u32>;

    open spec fn view(&self) -> Seq<u32> {
        self.registers@
    }
}

impl RegisterFile {
    /// Every register zero.
    pub fn new() -> (r: Self)
        ensures
            r@ == Seq::new(16, |i: int| 0u32),
    {
        let r = RegisterFile { registers: crate::arrays::filled(0) };
        assert(r@ =~= Seq::new(16, |i: int| 0u32));
        r
    }

    pub fn reg(&self, index: usize) -> (r: u32)
        requires
            index < 16,
        ensures
            r == self@[index as int],
    {
        self.registers[index]
    }

    pub fn set_reg(&mut self, index: usize, value: u32)
        requires
            index < 16,
        ensures
            final(self)@ == old(self)@.update(index as int, value),
    {
        self.registers[index] = value;
    }
}

} // verus!
