//! The io control block.
#![allow(non_camel_case_types)]
use vstd::prelude::*;
use crate::fpga_pac::common::{Reg, R};

pub mod regs;

verus! {

/// Io control block.
#[derive(Copy, Clone, PartialEq, Eq, Structural, Debug)]
pub struct io {
    addr: usize,
}

impl io {
    /// The base address of the block.
    pub closed spec fn spec_addr(&self) -> usize {
        self.addr
    }

    /// The block whose registers start at `addr`.
    pub fn from_ptr(addr: usize) -> (r: Self)
        ensures
            r.spec_addr() == addr,
    {
        io { addr }
    }

    /// The base address of the block.
    pub fn as_ptr(&self) -> (r: usize)
        ensures
            r == self.spec_addr(),
    {
        self.addr
    }

    /// Io control register.
    pub fn io_ctrl(self) -> (r: Reg<regs::io_ctrl, R>)
        ensures
            r.spec_addr() == vstd::wrapping::usize_specs::wrapping_add(self.spec_addr(), 0x0),
    {
        Reg::from_ptr(self.addr.wrapping_add(0x0))
    }

    /// Io input register 1.
    pub fn io_in_1(self) -> (r: Reg<regs::io_in_1, R>)
        ensures
            r.spec_addr() == vstd::wrapping::usize_specs::wrapping_add(self.spec_addr(), 0x4),
    {
        Reg::from_ptr(self.addr.wrapping_add(0x4))
    }
}

} // verus!
