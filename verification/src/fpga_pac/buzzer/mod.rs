//! The buzzer control block.
#![allow(non_camel_case_types)]
use vstd::prelude::*;
use crate::fpga_pac::common::{Reg, RW};

pub mod regs;

verus! {

/// Buzzer control block.
#[derive(Copy, Clone, PartialEq, Eq, Structural, Debug)]
pub struct buzzer {
    addr: usize,
}

impl buzzer {
    /// The base address of the block.
    pub closed spec fn spec_addr(&self) -> usize {
        self.addr
    }

    /// The block whose registers start at `addr`.
    pub fn from_ptr(addr: usize) -> (r: Self)
        ensures
            r.spec_addr() == addr,
    {
        buzzer { addr }
    }

    /// The base address of the block.
    pub fn as_ptr(&self) -> (r: usize)
        ensures
            r == self.spec_addr(),
    {
        self.addr
    }

    /// Buzzer control register.
    pub fn buzzer_ctrl(self) -> (r: Reg<regs::buzzer_ctrl, RW>)
        ensures
            r.spec_addr() == vstd::wrapping::usize_specs::wrapping_add(self.spec_addr(), 0x0),
    {
        Reg::from_ptr(self.addr.wrapping_add(0x0))
    }
}

} // verus!
