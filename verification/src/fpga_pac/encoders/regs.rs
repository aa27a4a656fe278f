//! Register value types of the encoders control block.
use vstd::prelude::*;
use crate::fpga_pac::common::{bool_bit, field, lemma_field_bound, with_field, RegisterValue};

verus! {

/// Encoders control register.
#[derive(Copy, Clone, PartialEq, Eq, Structural, Debug)]
pub struct enc_ctrl(pub u32);

impl enc_ctrl {
    /// Reserved, keep at reset value: the 31 bits above the reset bit.
    pub fn reserved(&self) -> (r: u32)
        ensures
            r == field(self.0, 1, 0x7fffffff),
    {
        (self.0 >> 1u32) & 0x7fffffff
    }

    /// Sets: reserved, keep at reset value; the reset bit is left alone.
    pub fn set_reserved(&mut self, val: u32)
        ensures
            final(self).0 == with_field(old(self).0, 1, 0x7fffffff, val as u32),
    {
        self.0 = (self.0 & !(0x7fffffffu32 << 1u32)) | (((val as u32) & 0x7fffffff) << 1u32);
    }

    /// Reset all encoder counters.
    pub fn reset(&self) -> (r: bool)
        ensures
            r == (field(self.0, 0, 0x1) != 0),
    {
        let val = (self.0 >> 0u32) & 0x1;
        val != 0
    }

    /// Sets: reset all encoder counters.
    pub fn set_reset(&mut self, val: bool)
        ensures
            final(self).0 == with_field(old(self).0, 0, 0x1, bool_bit(val)),
    {
        let bit: u32 = if val {
            1
        } else {
            0
        };
        self.0 = (self.0 & !(0x1u32 << 0u32)) | ((bit & 0x1) << 0u32);
    }
}

impl Default for enc_ctrl {
    fn default() -> (r: enc_ctrl)
        ensures
            r.0 == 0,
    {
        enc_ctrl(0)
    }
}

impl RegisterValue for enc_ctrl {
    open spec fn spec_reset() -> Self {
        enc_ctrl(0)
    }

    proof fn lemma_reset_is_zero() {
    }

    open spec fn spec_bits(self) -> u32 {
        self.0
    }

    fn reset() -> (r: Self) {
        enc_ctrl(0)
    }

    fn bits(&self) -> (r: u32) {
        self.0
    }
}

/// Set encoder a counter.
#[derive(Copy, Clone, PartialEq, Eq, Structural, Debug)]
pub struct enc_set_count_a(pub u32);

impl enc_set_count_a {
    /// Encoder counter value.
    pub fn value(&self) -> (r: u16)
        ensures
            r as u32 == field(self.0, 0, 0xffff),
    {
        let val = (self.0 >> 0u32) & 0xffff;
        proof {
            lemma_field_bound(self.0, 0, 0xffff);
        }
        val as u16
    }

    /// Sets: encoder counter value.
    pub fn set_value(&mut self, val: u16)
        ensures
            final(self).0 == with_field(old(self).0, 0, 0xffff, val as u32),
    {
        self.0 = (self.0 & !(0xffffu32 << 0u32)) | (((val as u32) & 0xffff) << 0u32);
    }

    /// Reserved, ignored.
    pub fn reserved(&self) -> (r: u16)
        ensures
            r as u32 == field(self.0, 16, 0xffff),
    {
        let val = (self.0 >> 16u32) & 0xffff;
        proof {
            lemma_field_bound(self.0, 16, 0xffff);
        }
        val as u16
    }

    /// Sets: reserved, ignored.
    pub fn set_reserved(&mut self, val: u16)
        ensures
            final(self).0 == with_field(old(self).0, 16, 0xffff, val as u32),
    {
        self.0 = (self.0 & !(0xffffu32 << 16u32)) | (((val as u32) & 0xffff) << 16u32);
    }
}

impl Default for enc_set_count_a {
    fn default() -> (r: enc_set_count_a)
        ensures
            r.0 == 0,
    {
        enc_set_count_a(0)
    }
}

impl RegisterValue for enc_set_count_a {
    open spec fn spec_reset() -> Self {
        enc_set_count_a(0)
    }

    proof fn lemma_reset_is_zero() {
    }

    open spec fn spec_bits(self) -> u32 {
        self.0
    }

    fn reset() -> (r: Self) {
        enc_set_count_a(0)
    }

    fn bits(&self) -> (r: u32) {
        self.0
    }
}

/// Set encoder b counter.
#[derive(Copy, Clone, PartialEq, Eq, Structural, Debug)]
pub struct enc_set_count_b(pub u32);

impl enc_set_count_b {
    /// Encoder counter value.
    pub fn value(&self) -> (r: u16)
        ensures
            r as u32 == field(self.0, 0, 0xffff),
    {
        let val = (self.0 >> 0u32) & 0xffff;
        proof {
            lemma_field_bound(self.0, 0, 0xffff);
        }
        val as u16
    }

    /// Sets: encoder counter value.
    pub fn set_value(&mut self, val: u16)
        ensures
            final(self).0 == with_field(old(self).0, 0, 0xffff, val as u32),
    {
        self.0 = (self.0 & !(0xffffu32 << 0u32)) | (((val as u32) & 0xffff) << 0u32);
    }

    /// Reserved, ignored.
    pub fn reserved(&self) -> (r: u16)
        ensures
            r as u32 == field(self.0, 16, 0xffff),
    {
        let val = (self.0 >> 16u32) & 0xffff;
        proof {
            lemma_field_bound(self.0, 16, 0xffff);
        }
        val as u16
    }

    /// Sets: reserved, ignored.
    pub fn set_reserved(&mut self, val: u16)
        ensures
            final(self).0 == with_field(old(self).0, 16, 0xffff, val as u32),
    {
        self.0 = (self.0 & !(0xffffu32 << 16u32)) | (((val as u32) & 0xffff) << 16u32);
    }
}

impl Default for enc_set_count_b {
    fn default() -> (r: enc_set_count_b)
        ensures
            r.0 == 0,
    {
        enc_set_count_b(0)
    }
}

impl RegisterValue for enc_set_count_b {
    open spec fn spec_reset() -> Self {
        enc_set_count_b(0)
    }

    proof fn lemma_reset_is_zero() {
    }

    open spec fn spec_bits(self) -> u32 {
        self.0
    }

    fn reset() -> (r: Self) {
        enc_set_count_b(0)
    }

    fn bits(&self) -> (r: u32) {
        self.0
    }
}

/// Set encoder c counter.
#[derive(Copy, Clone, PartialEq, Eq, Structural, Debug)]
pub struct enc_set_count_c(pub u32);

impl enc_set_count_c {
    /// Encoder counter value.
    pub fn value(&self) -> (r: u16)
        ensures
            r as u32 == field(self.0, 0, 0xffff),
    {
        let val = (self.0 >> 0u32) & 0xffff;
        proof {
            lemma_field_bound(self.0, 0, 0xffff);
        }
        val as u16
    }

    /// Sets: encoder counter value.
    pub fn set_value(&mut self, val: u16)
        ensures
            final(self).0 == with_field(old(self).0, 0, 0xffff, val as u32),
    {
        self.0 = (self.0 & !(0xffffu32 << 0u32)) | (((val as u32) & 0xffff) << 0u32);
    }

    /// Reserved, ignored.
    pub fn reserved(&self) -> (r: u16)
        ensures
            r as u32 == field(self.0, 16, 0xffff),
    {
        let val = (self.0 >> 16u32) & 0xffff;
        proof {
            lemma_field_bound(self.0, 16, 0xffff);
        }
        val as u16
    }

    /// Sets: reserved, ignored.
    pub fn set_reserved(&mut self, val: u16)
        ensures
            final(self).0 == with_field(old(self).0, 16, 0xffff, val as u32),
    {
        self.0 = (self.0 & !(0xffffu32 << 16u32)) | (((val as u32) & 0xffff) << 16u32);
    }
}

impl Default for enc_set_count_c {
    fn default() -> (r: enc_set_count_c)
        ensures
            r.0 == 0,
    {
        enc_set_count_c(0)
    }
}

impl RegisterValue for enc_set_count_c {
    open spec fn spec_reset() -> Self {
        enc_set_count_c(0)
    }

    proof fn lemma_reset_is_zero() {
    }

    open spec fn spec_bits(self) -> u32 {
        self.0
    }

    fn reset() -> (r: Self) {
        enc_set_count_c(0)
    }

    fn bits(&self) -> (r: u32) {
        self.0
    }
}

/// Set encoder x counter.
#[derive(Copy, Clone, PartialEq, Eq, Structural, Debug)]
pub struct enc_set_count_x(pub u32);

impl enc_set_count_x {
    /// Encoder counter value.
    pub fn value(&self) -> (r: u16)
        ensures
            r as u32 == field(self.0, 0, 0xffff),
    {
        let val = (self.0 >> 0u32) & 0xffff;
        proof {
            lemma_field_bound(self.0, 0, 0xffff);
        }
        val as u16
    }

    /// Sets: encoder counter value.
    pub fn set_value(&mut self, val: u16)
        ensures
            final(self).0 == with_field(old(self).0, 0, 0xffff, val as u32),
    {
        self.0 = (self.0 & !(0xffffu32 << 0u32)) | (((val as u32) & 0xffff) << 0u32);
    }

    /// Reserved, ignored.
    pub fn reserved(&self) -> (r: u16)
        ensures
            r as u32 == field(self.0, 16, 0xffff),
    {
        let val = (self.0 >> 16u32) & 0xffff;
        proof {
            lemma_field_bound(self.0, 16, 0xffff);
        }
        val as u16
    }

    /// Sets: reserved, ignored.
    pub fn set_reserved(&mut self, val: u16)
        ensures
            final(self).0 == with_field(old(self).0, 16, 0xffff, val as u32),
    {
        self.0 = (self.0 & !(0xffffu32 << 16u32)) | (((val as u32) & 0xffff) << 16u32);
    }
}

impl Default for enc_set_count_x {
    fn default() -> (r: enc_set_count_x)
        ensures
            r.0 == 0,
    {
        enc_set_count_x(0)
    }
}

impl RegisterValue for enc_set_count_x {
    open spec fn spec_reset() -> Self {
        enc_set_count_x(0)
    }

    proof fn lemma_reset_is_zero() {
    }

    open spec fn spec_bits(self) -> u32 {
        self.0
    }

    fn reset() -> (r: Self) {
        enc_set_count_x(0)
    }

    fn bits(&self) -> (r: u32) {
        self.0
    }
}

/// Set encoder y counter.
#[derive(Copy, Clone, PartialEq, Eq, Structural, Debug)]
pub struct enc_set_count_y(pub u32);

impl enc_set_count_y {
    /// Encoder counter value.
    pub fn value(&self) -> (r: u16)
        ensures
            r as u32 == field(self.0, 0, 0xffff),
    {
        let val = (self.0 >> 0u32) & 0xffff;
        proof {
            lemma_field_bound(self.0, 0, 0xffff);
        }
        val as u16
    }

    /// Sets: encoder counter value.
    pub fn set_value(&mut self, val: u16)
        ensures
            final(self).0 == with_field(old(self).0, 0, 0xffff, val as u32),
    {
        self.0 = (self.0 & !(0xffffu32 << 0u32)) | (((val as u32) & 0xffff) << 0u32);
    }

    /// Reserved, ignored.
    pub fn reserved(&self) -> (r: u16)
        ensures
            r as u32 == field(self.0, 16, 0xffff),
    {
        let val = (self.0 >> 16u32) & 0xffff;
        proof {
            lemma_field_bound(self.0, 16, 0xffff);
        }
        val as u16
    }

    /// Sets: reserved, ignored.
    pub fn set_reserved(&mut self, val: u16)
        ensures
            final(self).0 == with_field(old(self).0, 16, 0xffff, val as u32),
    {
        self.0 = (self.0 & !(0xffffu32 << 16u32)) | (((val as u32) & 0xffff) << 16u32);
    }
}

impl Default for enc_set_count_y {
    fn default() -> (r: enc_set_count_y)
        ensures
            r.0 == 0,
    {
        enc_set_count_y(0)
    }
}

impl RegisterValue for enc_set_count_y {
    open spec fn spec_reset() -> Self {
        enc_set_count_y(0)
    }

    proof fn lemma_reset_is_zero() {
    }

    open spec fn spec_bits(self) -> u32 {
        self.0
    }

    fn reset() -> (r: Self) {
        enc_set_count_y(0)
    }

    fn bits(&self) -> (r: u32) {
        self.0
    }
}

/// Set encoder z counter.
#[derive(Copy, Clone, PartialEq, Eq, Structural, Debug)]
pub struct enc_set_count_z(pub u32);

impl enc_set_count_z {
    /// Encoder counter value.
    pub fn value(&self) -> (r: u16)
        ensures
            r as u32 == field(self.0, 0, 0xffff),
    {
        let val = (self.0 >> 0u32) & 0xffff;
        proof {
            lemma_field_bound(self.0, 0, 0xffff);
        }
        val as u16
    }

    /// Sets: encoder counter value.
    pub fn set_value(&mut self, val: u16)
        ensures
            final(self).0 == with_field(old(self).0, 0, 0xffff, val as u32),
    {
        self.0 = (self.0 & !(0xffffu32 << 0u32)) | (((val as u32) & 0xffff) << 0u32);
    }

    /// Reserved, ignored.
    pub fn reserved(&self) -> (r: u16)
        ensures
            r as u32 == field(self.0, 16, 0xffff),
    {
        let val = (self.0 >> 16u32) & 0xffff;
        proof {
            lemma_field_bound(self.0, 16, 0xffff);
        }
        val as u16
    }

    /// Sets: reserved, ignored.
    pub fn set_reserved(&mut self, val: u16)
        ensures
            final(self).0 == with_field(old(self).0, 16, 0xffff, val as u32),
    {
        self.0 = (self.0 & !(0xffffu32 << 16u32)) | (((val as u32) & 0xffff) << 16u32);
    }
}

impl Default for enc_set_count_z {
    fn default() -> (r: enc_set_count_z)
        ensures
            r.0 == 0,
    {
        enc_set_count_z(0)
    }
}

impl RegisterValue for enc_set_count_z {
    open spec fn spec_reset() -> Self {
        enc_set_count_z(0)
    }

    proof fn lemma_reset_is_zero() {
    }

    open spec fn spec_bits(self) -> u32 {
        self.0
    }

    fn reset() -> (r: Self) {
        enc_set_count_z(0)
    }

    fn bits(&self) -> (r: u32) {
        self.0
    }
}

/// Encoder a counter.
#[derive(Copy, Clone, PartialEq, Eq, Structural, Debug)]
pub struct enc_count_a(pub u32);

impl enc_count_a {
    /// Encoder counter value.
    pub fn value(&self) -> (r: u16)
        ensures
            r as u32 == field(self.0, 0, 0xffff),
    {
        let val = (self.0 >> 0u32) & 0xffff;
        proof {
            lemma_field_bound(self.0, 0, 0xffff);
        }
        val as u16
    }

    /// Sets: encoder counter value.
    pub fn set_value(&mut self, val: u16)
        ensures
            final(self).0 == with_field(old(self).0, 0, 0xffff, val as u32),
    {
        self.0 = (self.0 & !(0xffffu32 << 0u32)) | (((val as u32) & 0xffff) << 0u32);
    }

    /// Reserved, ignored.
    pub fn reserved(&self) -> (r: u16)
        ensures
            r as u32 == field(self.0, 16, 0xffff),
    {
        let val = (self.0 >> 16u32) & 0xffff;
        proof {
            lemma_field_bound(self.0, 16, 0xffff);
        }
        val as u16
    }

    /// Sets: reserved, ignored.
    pub fn set_reserved(&mut self, val: u16)
        ensures
            final(self).0 == with_field(old(self).0, 16, 0xffff, val as u32),
    {
        self.0 = (self.0 & !(0xffffu32 << 16u32)) | (((val as u32) & 0xffff) << 16u32);
    }
}

impl Default for enc_count_a {
    fn default() -> (r: enc_count_a)
        ensures
            r.0 == 0,
    {
        enc_count_a(0)
    }
}

impl RegisterValue for enc_count_a {
    open spec fn spec_reset() -> Self {
        enc_count_a(0)
    }

    proof fn lemma_reset_is_zero() {
    }

    open spec fn spec_bits(self) -> u32 {
        self.0
    }

    fn reset() -> (r: Self) {
        enc_count_a(0)
    }

    fn bits(&self) -> (r: u32) {
        self.0
    }
}

/// Encoder b counter.
#[derive(Copy, Clone, PartialEq, Eq, Structural, Debug)]
pub struct enc_count_b(pub u32);

impl enc_count_b {
    /// Encoder counter value.
    pub fn value(&self) -> (r: u16)
        ensures
            r as u32 == field(self.0, 0, 0xffff),
    {
        let val = (self.0 >> 0u32) & 0xffff;
        proof {
            lemma_field_bound(self.0, 0, 0xffff);
        }
        val as u16
    }

    /// Sets: encoder counter value.
    pub fn set_value(&mut self, val: u16)
        ensures
            final(self).0 == with_field(old(self).0, 0, 0xffff, val as u32),
    {
        self.0 = (self.0 & !(0xffffu32 << 0u32)) | (((val as u32) & 0xffff) << 0u32);
    }

    /// Reserved, ignored.
    pub fn reserved(&self) -> (r: u16)
        ensures
            r as u32 == field(self.0, 16, 0xffff),
    {
        let val = (self.0 >> 16u32) & 0xffff;
        proof {
            lemma_field_bound(self.0, 16, 0xffff);
        }
        val as u16
    }

    /// Sets: reserved, ignored.
    pub fn set_reserved(&mut self, val: u16)
        ensures
            final(self).0 == with_field(old(self).0, 16, 0xffff, val as u32),
    {
        self.0 = (self.0 & !(0xffffu32 << 16u32)) | (((val as u32) & 0xffff) << 16u32);
    }
}

impl Default for enc_count_b {
    fn default() -> (r: enc_count_b)
        ensures
            r.0 == 0,
    {
        enc_count_b(0)
    }
}

impl RegisterValue for enc_count_b {
    open spec fn spec_reset() -> Self {
        enc_count_b(0)
    }

    proof fn lemma_reset_is_zero() {
    }

    open spec fn spec_bits(self) -> u32 {
        self.0
    }

    fn reset() -> (r: Self) {
        enc_count_b(0)
    }

    fn bits(&self) -> (r: u32) {
        self.0
    }
}

/// Encoder c counter.
#[derive(Copy, Clone, PartialEq, Eq, Structural, Debug)]
pub struct enc_count_c(pub u32);

impl enc_count_c {
    /// Encoder counter value.
    pub fn value(&self) -> (r: u16)
        ensures
            r as u32 == field(self.0, 0, 0xffff),
    {
        let val = (self.0 >> 0u32) & 0xffff;
        proof {
            lemma_field_bound(self.0, 0, 0xffff);
        }
        val as u16
    }

    /// Sets: encoder counter value.
    pub fn set_value(&mut self, val: u16)
        ensures
            final(self).0 == with_field(old(self).0, 0, 0xffff, val as u32),
    {
        self.0 = (self.0 & !(0xffffu32 << 0u32)) | (((val as u32) & 0xffff) << 0u32);
    }

    /// Reserved, ignored.
    pub fn reserved(&self) -> (r: u16)
        ensures
            r as u32 == field(self.0, 16, 0xffff),
    {
        let val = (self.0 >> 16u32) & 0xffff;
        proof {
            lemma_field_bound(self.0, 16, 0xffff);
        }
        val as u16
    }

    /// Sets: reserved, ignored.
    pub fn set_reserved(&mut self, val: u16)
        ensures
            final(self).0 == with_field(old(self).0, 16, 0xffff, val as u32),
    {
        self.0 = (self.0 & !(0xffffu32 << 16u32)) | (((val as u32) & 0xffff) << 16u32);
    }
}

impl Default for enc_count_c {
    fn default() -> (r: enc_count_c)
        ensures
            r.0 == 0,
    {
        enc_count_c(0)
    }
}

impl RegisterValue for enc_count_c {
    open spec fn spec_reset() -> Self {
        enc_count_c(0)
    }

    proof fn lemma_reset_is_zero() {
    }

    open spec fn spec_bits(self) -> u32 {
        self.0
    }

    fn reset() -> (r: Self) {
        enc_count_c(0)
    }

    fn bits(&self) -> (r: u32) {
        self.0
    }
}

/// Encoder x counter.
#[derive(Copy, Clone, PartialEq, Eq, Structural, Debug)]
pub struct enc_count_x(pub u32);

impl enc_count_x {
    /// Encoder counter value.
    pub fn value(&self) -> (r: u16)
        ensures
            r as u32 == field(self.0, 0, 0xffff),
    {
        let val = (self.0 >> 0u32) & 0xffff;
        proof {
            lemma_field_bound(self.0, 0, 0xffff);
        }
        val as u16
    }

    /// Sets: encoder counter value.
    pub fn set_value(&mut self, val: u16)
        ensures
            final(self).0 == with_field(old(self).0, 0, 0xffff, val as u32),
    {
        self.0 = (self.0 & !(0xffffu32 << 0u32)) | (((val as u32) & 0xffff) << 0u32);
    }

    /// Reserved, ignored.
    pub fn reserved(&self) -> (r: u16)
        ensures
            r as u32 == field(self.0, 16, 0xffff),
    {
        let val = (self.0 >> 16u32) & 0xffff;
        proof {
            lemma_field_bound(self.0, 16, 0xffff);
        }
        val as u16
    }

    /// Sets: reserved, ignored.
    pub fn set_reserved(&mut self, val: u16)
        ensures
            final(self).0 == with_field(old(self).0, 16, 0xffff, val as u32),
    {
        self.0 = (self.0 & !(0xffffu32 << 16u32)) | (((val as u32) & 0xffff) << 16u32);
    }
}

impl Default for enc_count_x {
    fn default() -> (r: enc_count_x)
        ensures
            r.0 == 0,
    {
        enc_count_x(0)
    }
}

impl RegisterValue for enc_count_x {
    open spec fn spec_reset() -> Self {
        enc_count_x(0)
    }

    proof fn lemma_reset_is_zero() {
    }

    open spec fn spec_bits(self) -> u32 {
        self.0
    }

    fn reset() -> (r: Self) {
        enc_count_x(0)
    }

    fn bits(&self) -> (r: u32) {
        self.0
    }
}

/// Encoder y counter.
#[derive(Copy, Clone, PartialEq, Eq, Structural, Debug)]
pub struct enc_count_y(pub u32);

impl enc_count_y {
    /// Encoder counter value.
    pub fn value(&self) -> (r: u16)
        ensures
            r as u32 == field(self.0, 0, 0xffff),
    {
        let val = (self.0 >> 0u32) & 0xffff;
        proof {
            lemma_field_bound(self.0, 0, 0xffff);
        }
        val as u16
    }

    /// Sets: encoder counter value.
    pub fn set_value(&mut self, val: u16)
        ensures
            final(self).0 == with_field(old(self).0, 0, 0xffff, val as u32),
    {
        self.0 = (self.0 & !(0xffffu32 << 0u32)) | (((val as u32) & 0xffff) << 0u32);
    }

    /// Reserved, ignored.
    pub fn reserved(&self) -> (r: u16)
        ensures
            r as u32 == field(self.0, 16, 0xffff),
    {
        let val = (self.0 >> 16u32) & 0xffff;
        proof {
            lemma_field_bound(self.0, 16, 0xffff);
        }
        val as u16
    }

    /// Sets: reserved, ignored.
    pub fn set_reserved(&mut self, val: u16)
        ensures
            final(self).0 == with_field(old(self).0, 16, 0xffff, val as u32),
    {
        self.0 = (self.0 & !(0xffffu32 << 16u32)) | (((val as u32) & 0xffff) << 16u32);
    }
}

impl Default for enc_count_y {
    fn default() -> (r: enc_count_y)
        ensures
            r.0 == 0,
    {
        enc_count_y(0)
    }
}

impl RegisterValue for enc_count_y {
    open spec fn spec_reset() -> Self {
        enc_count_y(0)
    }

    proof fn lemma_reset_is_zero() {
    }

    open spec fn spec_bits(self) -> u32 {
        self.0
    }

    fn reset() -> (r: Self) {
        enc_count_y(0)
    }

    fn bits(&self) -> (r: u32) {
        self.0
    }
}

/// Encoder z counter.
#[derive(Copy, Clone, PartialEq, Eq, Structural, Debug)]
pub struct enc_count_z(pub u32);

impl enc_count_z {
    /// Encoder counter value.
    pub fn value(&self) -> (r: u16)
        ensures
            r as u32 == field(self.0, 0, 0xffff),
    {
        let val = (self.0 >> 0u32) & 0xffff;
        proof {
            lemma_field_bound(self.0, 0, 0xffff);
        }
        val as u16
    }

    /// Sets: encoder counter value.
    pub fn set_value(&mut self, val: u16)
        ensures
            final(self).0 == with_field(old(self).0, 0, 0xffff, val as u32),
    {
        self.0 = (self.0 & !(0xffffu32 << 0u32)) | (((val as u32) & 0xffff) << 0u32);
    }

    /// Reserved, ignored.
    pub fn reserved(&self) -> (r: u16)
        ensures
            r as u32 == field(self.0, 16, 0xffff),
    {
        let val = (self.0 >> 16u32) & 0xffff;
        proof {
            lemma_field_bound(self.0, 16, 0xffff);
        }
        val as u16
    }

    /// Sets: reserved, ignored.
    pub fn set_reserved(&mut self, val: u16)
        ensures
            final(self).0 == with_field(old(self).0, 16, 0xffff, val as u32),
    {
        self.0 = (self.0 & !(0xffffu32 << 16u32)) | (((val as u32) & 0xffff) << 16u32);
    }
}

impl Default for enc_count_z {
    fn default() -> (r: enc_count_z)
        ensures
            r.0 == 0,
    {
        enc_count_z(0)
    }
}

impl RegisterValue for enc_count_z {
    open spec fn spec_reset() -> Self {
        enc_count_z(0)
    }

    proof fn lemma_reset_is_zero() {
    }

    open spec fn spec_bits(self) -> u32 {
        self.0
    }

    fn reset() -> (r: Self) {
        enc_count_z(0)
    }

    fn bits(&self) -> (r: u32) {
        self.0
    }
}

} // verus!
