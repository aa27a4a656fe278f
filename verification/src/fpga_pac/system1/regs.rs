//! Register value types of the system block 1.
use vstd::prelude::*;
use crate::fpga_pac::common::{bool_bit, field, lemma_field_bound, with_field, RegisterValue};

verus! {

/// Identification register.
#[derive(Copy, Clone, PartialEq, Eq, Structural, Debug)]
pub struct ident(pub u32);

impl ident {
    /// Identification value.
    pub fn ident(&self) -> (r: u32)
        ensures
            r == field(self.0, 0, 0xffffffff),
    {
        (self.0 >> 0u32) & 0xffffffff
    }

    /// Sets: identification value.
    pub fn set_ident(&mut self, val: u32)
        ensures
            final(self).0 == with_field(old(self).0, 0, 0xffffffff, val as u32),
    {
        self.0 = (self.0 & !(0xffffffffu32 << 0u32)) | (((val as u32) & 0xffffffff) << 0u32);
    }
}

impl Default for ident {
    fn default() -> (r: ident)
        ensures
            r.0 == 0,
    {
        ident(0)
    }
}

impl RegisterValue for ident {
    open spec fn spec_reset() -> Self {
        ident(0)
    }

    proof fn lemma_reset_is_zero() {
    }

    open spec fn spec_bits(self) -> u32 {
        self.0
    }

    fn reset() -> (r: Self) {
        ident(0)
    }

    fn bits(&self) -> (r: u32) {
        self.0
    }
}

/// Version register.
#[derive(Copy, Clone, PartialEq, Eq, Structural, Debug)]
pub struct version(pub u32);

impl version {
    /// Build number.
    pub fn build(&self) -> (r: u8)
        ensures
            r as u32 == field(self.0, 0, 0xff),
    {
        let val = (self.0 >> 0u32) & 0xff;
        proof {
            lemma_field_bound(self.0, 0, 0xff);
        }
        val as u8
    }

    /// Sets: build number.
    pub fn set_build(&mut self, val: u8)
        ensures
            final(self).0 == with_field(old(self).0, 0, 0xff, val as u32),
    {
        self.0 = (self.0 & !(0xffu32 << 0u32)) | (((val as u32) & 0xff) << 0u32);
    }

    /// Patch version.
    pub fn patch(&self) -> (r: u8)
        ensures
            r as u32 == field(self.0, 8, 0xff),
    {
        let val = (self.0 >> 8u32) & 0xff;
        proof {
            lemma_field_bound(self.0, 8, 0xff);
        }
        val as u8
    }

    /// Sets: patch version.
    pub fn set_patch(&mut self, val: u8)
        ensures
            final(self).0 == with_field(old(self).0, 8, 0xff, val as u32),
    {
        self.0 = (self.0 & !(0xffu32 << 8u32)) | (((val as u32) & 0xff) << 8u32);
    }

    /// Minor version.
    pub fn minor(&self) -> (r: u8)
        ensures
            r as u32 == field(self.0, 16, 0xff),
    {
        let val = (self.0 >> 16u32) & 0xff;
        proof {
            lemma_field_bound(self.0, 16, 0xff);
        }
        val as u8
    }

    /// Sets: minor version.
    pub fn set_minor(&mut self, val: u8)
        ensures
            final(self).0 == with_field(old(self).0, 16, 0xff, val as u32),
    {
        self.0 = (self.0 & !(0xffu32 << 16u32)) | (((val as u32) & 0xff) << 16u32);
    }

    /// Major version.
    pub fn major(&self) -> (r: u8)
        ensures
            r as u32 == field(self.0, 24, 0xff),
    {
        let val = (self.0 >> 24u32) & 0xff;
        proof {
            lemma_field_bound(self.0, 24, 0xff);
        }
        val as u8
    }

    /// Sets: major version.
    pub fn set_major(&mut self, val: u8)
        ensures
            final(self).0 == with_field(old(self).0, 24, 0xff, val as u32),
    {
        self.0 = (self.0 & !(0xffu32 << 24u32)) | (((val as u32) & 0xff) << 24u32);
    }
}

impl Default for version {
    fn default() -> (r: version)
        ensures
            r.0 == 0,
    {
        version(0)
    }
}

impl RegisterValue for version {
    open spec fn spec_reset() -> Self {
        version(0)
    }

    proof fn lemma_reset_is_zero() {
    }

    open spec fn spec_bits(self) -> u32 {
        self.0
    }

    fn reset() -> (r: Self) {
        version(0)
    }

    fn bits(&self) -> (r: u32) {
        self.0
    }
}

} // verus!
