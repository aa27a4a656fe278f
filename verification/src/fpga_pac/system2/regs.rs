//! Register value types of the system block 2.
use vstd::prelude::*;
use crate::fpga_pac::common::{bool_bit, field, lemma_field_bound, with_field, RegisterValue};

verus! {

/// End marker register.
#[derive(Copy, Clone, PartialEq, Eq, Structural, Debug)]
pub struct marker(pub u32);

impl marker {
    /// Marker value.
    pub fn marker(&self) -> (r: u32)
        ensures
            r == field(self.0, 0, 0xffffffff),
    {
        (self.0 >> 0u32) & 0xffffffff
    }

    /// Sets: marker value.
    pub fn set_marker(&mut self, val: u32)
        ensures
            final(self).0 == with_field(old(self).0, 0, 0xffffffff, val as u32),
    {
        self.0 = (self.0 & !(0xffffffffu32 << 0u32)) | (((val as u32) & 0xffffffff) << 0u32);
    }
}

impl Default for marker {
    fn default() -> (r: marker)
        ensures
            r.0 == 0,
    {
        marker(0)
    }
}

impl RegisterValue for marker {
    open spec fn spec_reset() -> Self {
        marker(0)
    }

    proof fn lemma_reset_is_zero() {
    }

    open spec fn spec_bits(self) -> u32 {
        self.0
    }

    fn reset() -> (r: Self) {
        marker(0)
    }

    fn bits(&self) -> (r: u32) {
        self.0
    }
}

} // verus!
