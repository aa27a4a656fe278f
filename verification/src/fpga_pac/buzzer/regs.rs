//! Register value types of the buzzer control block.
use vstd::prelude::*;
use crate::fpga_pac::common::{bool_bit, field, lemma_field_bound, with_field, RegisterValue};

verus! {

/// Buzzer control register.
#[derive(Copy, Clone, PartialEq, Eq, Structural, Debug)]
pub struct buzzer_ctrl(pub u32);

impl buzzer_ctrl {
    /// Buzzer control (0 = off).
    pub fn buzzer(&self) -> (r: bool)
        ensures
            r == (field(self.0, 0, 0x1) != 0),
    {
        let val = (self.0 >> 0u32) & 0x1;
        val != 0
    }

    /// Sets: buzzer control (0 = off).
    pub fn set_buzzer(&mut self, val: bool)
        ensures
            final(self).0 == with_field(old(self).0, 0, 0x1, bool_bit(val)),
    {
        let bit: u32 = if val {
            1
        } else {
            0
        };
        self.0 = (self.0 & !(0x1u32 << 0u32)) | ((bit & 0x1) << 0u32);
    }

    /// Reserved, keep at reset value.
    pub fn reserved(&self) -> (r: u32)
        ensures
            r == field(self.0, 1, 0x7fffffff),
    {
        (self.0 >> 1u32) & 0x7fffffff
    }

    /// Sets: reserved, keep at reset value.
    pub fn set_reserved(&mut self, val: u32)
        ensures
            final(self).0 == with_field(old(self).0, 1, 0x7fffffff, val as u32),
    {
        self.0 = (self.0 & !(0x7fffffffu32 << 1u32)) | (((val as u32) & 0x7fffffff) << 1u32);
    }
}

impl Default for buzzer_ctrl {
    fn default() -> (r: buzzer_ctrl)
        ensures
            r.0 == 0,
    {
        buzzer_ctrl(0)
    }
}

impl RegisterValue for buzzer_ctrl {
    open spec fn spec_reset() -> Self {
        buzzer_ctrl(0)
    }

    proof fn lemma_reset_is_zero() {
    }

    open spec fn spec_bits(self) -> u32 {
        self.0
    }

    fn reset() -> (r: Self) {
        buzzer_ctrl(0)
    }

    fn bits(&self) -> (r: u32) {
        self.0
    }
}

} // verus!
