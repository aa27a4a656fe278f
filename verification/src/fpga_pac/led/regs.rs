//! Register value types of the led control block.
use vstd::prelude::*;
use crate::fpga_pac::common::{
    bool_bit, field, law_register_layouts, law_write_starts_from_zero, lemma_field_bound, with_field, RegisterValue,
};

verus! {

/// Led control register.
#[derive(Copy, Clone, PartialEq, Eq, Structural, Debug)]
pub struct led_ctrl(pub u32);

impl led_ctrl {
    /// Fpga led (1 = on).
    pub fn fpga_led(&self) -> (r: bool)
        ensures
            r == (field(self.0, 0, 0x1) != 0),
    {
        let val = (self.0 >> 0u32) & 0x1;
        val != 0
    }

    /// Sets: fpga led (1 = on).
    pub fn set_fpga_led(&mut self, val: bool)
        ensures
            final(self).0 == with_field(old(self).0, 0, 0x1, bool_bit(val)),
    {
        let bit: u32 = if val {
            1
        } else {
            0
        };
        self.0 = (self.0 & !(0x1u32 << 0u32)) | ((bit & 0x1) << 0u32);
    }

    /// Mcu led (1 = on).
    pub fn mcu_led(&self) -> (r: bool)
        ensures
            r == (field(self.0, 1, 0x1) != 0),
    {
        let val = (self.0 >> 1u32) & 0x1;
        val != 0
    }

    /// Sets: mcu led (1 = on).
    pub fn set_mcu_led(&mut self, val: bool)
        ensures
            final(self).0 == with_field(old(self).0, 1, 0x1, bool_bit(val)),
    {
        let bit: u32 = if val {
            1
        } else {
            0
        };
        self.0 = (self.0 & !(0x1u32 << 1u32)) | ((bit & 0x1) << 1u32);
    }

    /// Reserved, keep at reset value.
    pub fn reserved(&self) -> (r: u32)
        ensures
            r == field(self.0, 2, 0x3fffffff),
    {
        (self.0 >> 2u32) & 0x3fffffff
    }

    /// Sets: reserved, keep at reset value.
    pub fn set_reserved(&mut self, val: u32)
        ensures
            final(self).0 == with_field(old(self).0, 2, 0x3fffffff, val as u32),
    {
        self.0 = (self.0 & !(0x3fffffffu32 << 2u32)) | (((val as u32) & 0x3fffffff) << 2u32);
    }
}

impl Default for led_ctrl {
    fn default() -> (r: led_ctrl)
        ensures
            r.0 == 0,
    {
        led_ctrl(0)
    }
}

impl RegisterValue for led_ctrl {
    open spec fn spec_reset() -> Self {
        led_ctrl(0)
    }

    proof fn lemma_reset_is_zero() {
    }

    open spec fn spec_bits(self) -> u32 {
        self.0
    }

    fn reset() -> (r: Self) {
        led_ctrl(0)
    }

    fn bits(&self) -> (r: u32) {
        self.0
    }
}

/// A write of the LED register that sets only the MCU LED to `on` stores that
/// LED's bit and nothing else: the FPGA LED stays off.
pub proof fn law_led_write_mcu_only(on: bool)
    ensures
        with_field(led_ctrl::spec_reset().spec_bits(), 1, 1, bool_bit(on)) == if on {
            2u32
        } else {
            0u32
        },
        field(with_field(led_ctrl::spec_reset().spec_bits(), 1, 1, bool_bit(on)), 0, 1) == 0,
{
    let b = bool_bit(on);
    law_register_layouts();
    law_write_starts_from_zero::<led_ctrl>(1, 1, b);
    assert(((b & 1u32) << 1u32) >> 0u32 & 1u32 == 0) by (bit_vector);
    assert(b == 1 ==> (b & 1u32) << 1u32 == 2) by (bit_vector);
    assert(b == 0 ==> (b & 1u32) << 1u32 == 0) by (bit_vector);
}

} // verus!
