//! The led control block.
#![allow(non_camel_case_types)]
use vstd::prelude::*;
use crate::fpga_pac::common::{Reg, RW};

pub mod regs;

verus! {

/// Led control block.
#[derive(Copy, Clone, PartialEq, Eq, Structural, Debug)]
pub struct led {
    addr: usize,
}

impl led {
    /// The base address of the block.
    pub closed spec fn spec_addr(&self) -> usize {
        self.addr
    }

    /// The block whose registers start at `addr`.
    pub fn from_ptr(addr: usize) -> (r: Self)
        ensures
            r.spec_addr() == addr,
    {
        led { addr }
    }

    /// The base address of the block.
    pub fn as_ptr(&self) -> (r: usize)
        ensures
            r == self.spec_addr(),
    {
        self.addr
    }

    /// Led control register.
    pub fn led_ctrl(self) -> (r: Reg<regs::led_ctrl, RW>)
        ensures
            r.spec_addr() == vstd::wrapping::usize_specs::wrapping_add(self.spec_addr(), 0x0),
    {
        Reg::from_ptr(self.addr.wrapping_add(0x0))
    }
}

} // verus!
