//! The encoders control block.
#![allow(non_camel_case_types)]
use vstd::prelude::*;
use crate::fpga_pac::common::{Reg, R, RW, W};

pub mod regs;

verus! {

/// Encoders control block.
#[derive(Copy, Clone, PartialEq, Eq, Structural, Debug)]
pub struct encoders {
    addr: usize,
}

impl encoders {
    /// The base address of the block.
    pub closed spec fn spec_addr(&self) -> usize {
        self.addr
    }

    /// The block whose registers start at `addr`.
    pub fn from_ptr(addr: usize) -> (r: Self)
        ensures
            r.spec_addr() == addr,
    {
        encoders { addr }
    }

    /// The base address of the block.
    pub fn as_ptr(&self) -> (r: usize)
        ensures
            r == self.spec_addr(),
    {
        self.addr
    }

    /// Encoders control register.
    pub fn enc_ctrl(self) -> (r: Reg<regs::enc_ctrl, RW>)
        ensures
            r.spec_addr() == vstd::wrapping::usize_specs::wrapping_add(self.spec_addr(), 0x0),
    {
        Reg::from_ptr(self.addr.wrapping_add(0x0))
    }

    /// Set encoder a counter.
    pub fn enc_set_count_a(self) -> (r: Reg<regs::enc_set_count_a, W>)
        ensures
            r.spec_addr() == vstd::wrapping::usize_specs::wrapping_add(self.spec_addr(), 0x4),
    {
        Reg::from_ptr(self.addr.wrapping_add(0x4))
    }

    /// Set encoder b counter.
    pub fn enc_set_count_b(self) -> (r: Reg<regs::enc_set_count_b, W>)
        ensures
            r.spec_addr() == vstd::wrapping::usize_specs::wrapping_add(self.spec_addr(), 0x8),
    {
        Reg::from_ptr(self.addr.wrapping_add(0x8))
    }

    /// Set encoder c counter.
    pub fn enc_set_count_c(self) -> (r: Reg<regs::enc_set_count_c, W>)
        ensures
            r.spec_addr() == vstd::wrapping::usize_specs::wrapping_add(self.spec_addr(), 0xc),
    {
        Reg::from_ptr(self.addr.wrapping_add(0xc))
    }

    /// Set encoder x counter.
    pub fn enc_set_count_x(self) -> (r: Reg<regs::enc_set_count_x, W>)
        ensures
            r.spec_addr() == vstd::wrapping::usize_specs::wrapping_add(self.spec_addr(), 0x10),
    {
        Reg::from_ptr(self.addr.wrapping_add(0x10))
    }

    /// Set encoder y counter.
    pub fn enc_set_count_y(self) -> (r: Reg<regs::enc_set_count_y, W>)
        ensures
            r.spec_addr() == vstd::wrapping::usize_specs::wrapping_add(self.spec_addr(), 0x14),
    {
        Reg::from_ptr(self.addr.wrapping_add(0x14))
    }

    /// Set encoder z counter.
    pub fn enc_set_count_z(self) -> (r: Reg<regs::enc_set_count_z, W>)
        ensures
            r.spec_addr() == vstd::wrapping::usize_specs::wrapping_add(self.spec_addr(), 0x18),
    {
        Reg::from_ptr(self.addr.wrapping_add(0x18))
    }

    /// Encoder a counter.
    pub fn enc_count_a(self) -> (r: Reg<regs::enc_count_a, R>)
        ensures
            r.spec_addr() == vstd::wrapping::usize_specs::wrapping_add(self.spec_addr(), 0x20),
    {
        Reg::from_ptr(self.addr.wrapping_add(0x20))
    }

    /// Encoder b counter.
    pub fn enc_count_b(self) -> (r: Reg<regs::enc_count_b, R>)
        ensures
            r.spec_addr() == vstd::wrapping::usize_specs::wrapping_add(self.spec_addr(), 0x24),
    {
        Reg::from_ptr(self.addr.wrapping_add(0x24))
    }

    /// Encoder c counter.
    pub fn enc_count_c(self) -> (r: Reg<regs::enc_count_c, R>)
        ensures
            r.spec_addr() == vstd::wrapping::usize_specs::wrapping_add(self.spec_addr(), 0x28),
    {
        Reg::from_ptr(self.addr.wrapping_add(0x28))
    }

    /// Encoder x counter.
    pub fn enc_count_x(self) -> (r: Reg<regs::enc_count_x, R>)
        ensures
            r.spec_addr() == vstd::wrapping::usize_specs::wrapping_add(self.spec_addr(), 0x2c),
    {
        Reg::from_ptr(self.addr.wrapping_add(0x2c))
    }

    /// Encoder y counter.
    pub fn enc_count_y(self) -> (r: Reg<regs::enc_count_y, R>)
        ensures
            r.spec_addr() == vstd::wrapping::usize_specs::wrapping_add(self.spec_addr(), 0x30),
    {
        Reg::from_ptr(self.addr.wrapping_add(0x30))
    }

    /// Encoder z counter.
    pub fn enc_count_z(self) -> (r: Reg<regs::enc_count_z, R>)
        ensures
            r.spec_addr() == vstd::wrapping::usize_specs::wrapping_add(self.spec_addr(), 0x34),
    {
        Reg::from_ptr(self.addr.wrapping_add(0x34))
    }
}

} // verus!
