//! Register value types of the io control block.
use vstd::prelude::*;
use crate::fpga_pac::common::{bool_bit, field, lemma_field_bound, with_field, RegisterValue};

verus! {

/// Io control register.
#[derive(Copy, Clone, PartialEq, Eq, Structural, Debug)]
pub struct io_ctrl(pub u32);

impl io_ctrl {
    /// Reserved.
    pub fn reserved(&self) -> (r: u32)
        ensures
            r == field(self.0, 0, 0xffffffff),
    {
        (self.0 >> 0u32) & 0xffffffff
    }

    /// Sets: reserved.
    pub fn set_reserved(&mut self, val: u32)
        ensures
            final(self).0 == with_field(old(self).0, 0, 0xffffffff, val as u32),
    {
        self.0 = (self.0 & !(0xffffffffu32 << 0u32)) | (((val as u32) & 0xffffffff) << 0u32);
    }
}

impl Default for io_ctrl {
    fn default() -> (r: io_ctrl)
        ensures
            r.0 == 0,
    {
        io_ctrl(0)
    }
}

impl RegisterValue for io_ctrl {
    open spec fn spec_reset() -> Self {
        io_ctrl(0)
    }

    proof fn lemma_reset_is_zero() {
    }

    open spec fn spec_bits(self) -> u32 {
        self.0
    }

    fn reset() -> (r: Self) {
        io_ctrl(0)
    }

    fn bits(&self) -> (r: u32) {
        self.0
    }
}

/// Io input register 1.
#[derive(Copy, Clone, PartialEq, Eq, Structural, Debug)]
pub struct io_in_1(pub u32);

impl io_in_1 {
    /// User button 0 (1 = pressed).
    pub fn user0(&self) -> (r: bool)
        ensures
            r == (field(self.0, 0, 0x1) != 0),
    {
        let val = (self.0 >> 0u32) & 0x1;
        val != 0
    }

    /// Sets: user button 0 (1 = pressed).
    pub fn set_user0(&mut self, val: bool)
        ensures
            final(self).0 == with_field(old(self).0, 0, 0x1, bool_bit(val)),
    {
        let bit: u32 = if val {
            1
        } else {
            0
        };
        self.0 = (self.0 & !(0x1u32 << 0u32)) | ((bit & 0x1) << 0u32);
    }

    /// User button 1 (1 = pressed).
    pub fn user1(&self) -> (r: bool)
        ensures
            r == (field(self.0, 1, 0x1) != 0),
    {
        let val = (self.0 >> 1u32) & 0x1;
        val != 0
    }

    /// Sets: user button 1 (1 = pressed).
    pub fn set_user1(&mut self, val: bool)
        ensures
            final(self).0 == with_field(old(self).0, 1, 0x1, bool_bit(val)),
    {
        let bit: u32 = if val {
            1
        } else {
            0
        };
        self.0 = (self.0 & !(0x1u32 << 1u32)) | ((bit & 0x1) << 1u32);
    }

    /// Reserved.
    pub fn reserved(&self) -> (r: u32)
        ensures
            r == field(self.0, 2, 0x3fffffff),
    {
        (self.0 >> 2u32) & 0x3fffffff
    }

    /// Sets: reserved.
    pub fn set_reserved(&mut self, val: u32)
        ensures
            final(self).0 == with_field(old(self).0, 2, 0x3fffffff, val as u32),
    {
        self.0 = (self.0 & !(0x3fffffffu32 << 2u32)) | (((val as u32) & 0x3fffffff) << 2u32);
    }
}

impl Default for io_in_1 {
    fn default() -> (r: io_in_1)
        ensures
            r.0 == 0,
    {
        io_in_1(0)
    }
}

impl RegisterValue for io_in_1 {
    open spec fn spec_reset() -> Self {
        io_in_1(0)
    }

    proof fn lemma_reset_is_zero() {
    }

    open spec fn spec_bits(self) -> u32 {
        self.0
    }

    fn reset() -> (r: Self) {
        io_in_1(0)
    }

    fn bits(&self) -> (r: u32) {
        self.0
    }
}

} // verus!
