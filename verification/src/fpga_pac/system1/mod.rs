//! The system block 1.
#![allow(non_camel_case_types)]
use vstd::prelude::*;
use crate::fpga_pac::common::{Reg, R};

pub mod regs;

verus! {

/// System block 1.
#[derive(Copy, Clone, PartialEq, Eq, Structural, Debug)]
pub struct system1 {
    addr: usize,
}

impl system1 {
    /// The base address of the block.
    pub closed spec fn spec_addr(&self) -> usize {
        self.addr
    }

    /// The block whose registers start at `addr`.
    pub fn from_ptr(addr: usize) -> (r: Self)
        ensures
            r.spec_addr() == addr,
    {
        system1 { addr }
    }

    /// The base address of the block.
    pub fn as_ptr(&self) -> (r: usize)
        ensures
            r == self.spec_addr(),
    {
        self.addr
    }

    /// Identification register.
    pub fn ident(self) -> (r: Reg<regs::ident, R>)
        ensures
            r.spec_addr() == vstd::wrapping::usize_specs::wrapping_add(self.spec_addr(), 0x0),
    {
        Reg::from_ptr(self.addr.wrapping_add(0x0))
    }

    /// Version register.
    pub fn version(self) -> (r: Reg<regs::version, R>)
        ensures
            r.spec_addr() == vstd::wrapping::usize_specs::wrapping_add(self.spec_addr(), 0x4),
    {
        Reg::from_ptr(self.addr.wrapping_add(0x4))
    }
}

} // verus!
