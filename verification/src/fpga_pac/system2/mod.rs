//! The system block 2.
#![allow(non_camel_case_types)]
use vstd::prelude::*;
use crate::fpga_pac::common::{Reg, R};

pub mod regs;

verus! {

/// System block 2.
#[derive(Copy, Clone, PartialEq, Eq, Structural, Debug)]
pub struct system2 {
    addr: usize,
}

impl system2 {
    /// The base address of the block.
    pub closed spec fn spec_addr(&self) -> usize {
        self.addr
    }

    /// The block whose registers start at `addr`.
    pub fn from_ptr(addr: usize) -> (r: Self)
        ensures
            r.spec_addr() == addr,
    {
        system2 { addr }
    }

    /// The base address of the block.
    pub fn as_ptr(&self) -> (r: usize)
        ensures
            r == self.spec_addr(),
    {
        self.addr
    }

    /// End marker register.
    pub fn marker(self) -> (r: Reg<regs::marker, R>)
        ensures
            r.spec_addr() == vstd::wrapping::usize_specs::wrapping_add(self.spec_addr(), 0x3c),
    {
        Reg::from_ptr(self.addr.wrapping_add(0x3c))
    }
}

} // verus!
