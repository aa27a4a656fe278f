//! Register access primitives shared by every peripheral block of the FPGA.
//!
//! A register is described by its address and by the type of the value it
//! holds. Reads from the memory-mapped OctoSPI window go through a 32-byte
//! FIFO that the hardware cannot disable: a second read inside the block that
//! was read last would be served from stale FIFO contents. The read plan
//! computed here tells the caller when a dummy read outside the register
//! window must be issued first.
use core::marker::PhantomData;
use vstd::prelude::*;

verus! {

/// Depth in bytes of the OctoSPI read FIFO.
pub const QUAD_SPI_FIFO_DEPTH: usize = 0x20;

/// Size in bytes of the FPGA register window.
pub const FPGA_MEMORY_SIZE: usize = 0x0000_0200;

/// Address just past the register window, used to refill the FIFO.
pub const DUMMY_READ_ADDRESS: usize = 0x9000_0200;

/// Value of the bits `shift .. shift + width` of `word`, where `mask` holds
/// `width` low one bits.
pub open spec fn field(word: u32, shift: u32, mask: u32) -> u32 {
    (word >> shift) & mask
}

/// `word` with the field at `shift`/`mask` replaced by the low bits of `value`.
pub open spec fn with_field(word: u32, shift: u32, mask: u32, value: u32) -> u32 {
    (word & !(mask << shift)) | ((value & mask) << shift)
}

/// The field lies inside the 32-bit word: shifting its mask into place loses no bit.
pub open spec fn field_fits(shift: u32, mask: u32) -> bool {
    shift < 32 && (mask << shift) >> shift == mask
}

/// The two fields share no bit of the word.
pub open spec fn fields_disjoint(shift1: u32, mask1: u32, shift2: u32, mask2: u32) -> bool {
    (mask1 << shift1) & (mask2 << shift2) == 0
}

/// The bit that a `bool` field stores.
pub open spec fn bool_bit(value: bool) -> u32 {
    if value {
        1
    } else {
        0
    }
}

/// Start address of the FIFO block that holds `addr`.
pub open spec fn fifo_block(addr: usize) -> usize {
    (addr / (QUAD_SPI_FIFO_DEPTH as usize) * (QUAD_SPI_FIFO_DEPTH as usize)) as usize
}

/// Every field layout that the register map of this crate uses fits in a word,
/// and the fields that share a register do not overlap.
pub proof fn law_register_layouts()
    by (bit_vector)
    ensures
        field_fits(0, 0x01),
        field_fits(1, 0x01),
        field_fits(1, 0x7fff_ffff),
        field_fits(2, 0x3fff_ffff),
        field_fits(0, 0x7fff_ffff),
        field_fits(0, 0xffff_ffff),
        field_fits(0, 0xffff),
        field_fits(16, 0xffff),
        field_fits(0, 0xff),
        field_fits(8, 0xff),
        field_fits(16, 0xff),
        field_fits(24, 0xff),
        fields_disjoint(0, 0x01, 1, 0x7fff_ffff),
        fields_disjoint(0, 0x01, 1, 0x01),
        fields_disjoint(0, 0x01, 2, 0x3fff_ffff),
        fields_disjoint(1, 0x01, 2, 0x3fff_ffff),
        fields_disjoint(0, 0xffff, 16, 0xffff),
        fields_disjoint(0, 0xff, 8, 0xff),
        fields_disjoint(0, 0xff, 16, 0xff),
        fields_disjoint(0, 0xff, 24, 0xff),
        fields_disjoint(8, 0xff, 16, 0xff),
        fields_disjoint(8, 0xff, 24, 0xff),
        fields_disjoint(16, 0xff, 24, 0xff),
{
}

/// A field never reads back a value larger than its mask.
pub proof fn lemma_field_bound(word: u32, shift: u32, mask: u32)
    ensures
        field(word, shift, mask) <= mask,
{
    let v = word >> shift;
    assert(v & mask <= mask) by (bit_vector);
}

/// Reading a field right after writing it gives back the written value,
/// truncated to the width of the field.
pub proof fn law_read_after_write(word: u32, shift: u32, mask: u32, value: u32)
    requires
        field_fits(shift, mask),
    ensures
        field(with_field(word, shift, mask, value), shift, mask) == value & mask,
{
    assert(shift < 32 && (mask << shift) >> shift == mask ==> ((((word & !(mask << shift)) | ((
    value & mask) << shift)) >> shift) & mask) == value & mask) by (bit_vector);
}

/// Writing a field leaves every bit outside the field as it was.
pub proof fn law_write_keeps_other_bits(word: u32, shift: u32, mask: u32, value: u32)
    ensures
        with_field(word, shift, mask, value) & !(mask << shift) == word & !(mask << shift),
{
    assert((((word & !(mask << shift)) | ((value & mask) << shift)) & !(mask << shift)) == word
        & !(mask << shift)) by (bit_vector);
}

/// Writing one field does not change what another, disjoint field reads.
pub proof fn law_disjoint_fields_independent(
    word: u32,
    shift: u32,
    mask: u32,
    value: u32,
    other_shift: u32,
    other_mask: u32,
)
    requires
        field_fits(shift, mask),
        field_fits(other_shift, other_mask),
        fields_disjoint(shift, mask, other_shift, other_mask),
    ensures
        field(with_field(word, shift, mask, value), other_shift, other_mask) == field(
            word,
            other_shift,
            other_mask,
        ),
{
    assert(shift < 32 && (mask << shift) >> shift == mask && other_shift < 32 && (other_mask
        << other_shift) >> other_shift == other_mask && (mask << shift) & (other_mask
        << other_shift) == 0 ==> ((((word & !(mask << shift)) | ((value & mask) << shift))
        >> other_shift) & other_mask) == ((word >> other_shift) & other_mask)) by (bit_vector);
}

/// Of two writes to the same field, the last one wins.
pub proof fn law_last_write_wins(word: u32, shift: u32, mask: u32, first: u32, second: u32)
    ensures
        with_field(with_field(word, shift, mask, first), shift, mask, second) == with_field(
            word,
            shift,
            mask,
            second,
        ),
{
    let w1 = (word & !(mask << shift)) | ((first & mask) << shift);
    assert(((w1 & !(mask << shift)) | ((second & mask) << shift)) == ((word & !(mask << shift))
        | ((second & mask) << shift))) by (bit_vector)
        requires
            w1 == (word & !(mask << shift)) | ((first & mask) << shift),
    ;
}

/// Writing back the value that a field holds leaves the word unchanged.
pub proof fn law_write_back_is_identity(word: u32, shift: u32, mask: u32)
    requires
        field_fits(shift, mask),
    ensures
        with_field(word, shift, mask, field(word, shift, mask)) == word,
{
    assert(shift < 32 && (mask << shift) >> shift == mask ==> ((word & !(mask << shift)) | ((((
    word >> shift) & mask) & mask) << shift)) == word) by (bit_vector);
}

/// Start of the FIFO block that holds `addr`.
pub fn compute_block(addr: usize) -> (block: usize)
    ensures
        block == fifo_block(addr),
{
    let block = addr & !(QUAD_SPI_FIFO_DEPTH - 1);
    assert(QUAD_SPI_FIFO_DEPTH - 1 == 31);
    assert(addr & !31usize == addr / 32 * 32) by (bit_vector);
    block
}

/// What a read of a register through the FIFO window has to do.
#[derive(Copy, Clone, PartialEq, Eq, Debug)]
pub struct FifoRead {
    /// Read `DUMMY_READ_ADDRESS` first, so that the FIFO is refilled.
    pub dummy_read_first: bool,
    /// The block to remember as the last one read.
    pub new_last_block: usize,
}

/// The plan for reading `addr` when `last_block` was the block read last.
pub open spec fn fifo_read_plan(last_block: usize, addr: usize) -> FifoRead {
    FifoRead { dummy_read_first: last_block == fifo_block(addr), new_last_block: fifo_block(addr) }
}

/// The plan for reading `addr` when `last_block` was the FIFO block read last:
/// a dummy read is owed exactly when the register lies in that block.
pub fn plan_fifo_read(last_block: usize, addr: usize) -> (plan: FifoRead)
    ensures
        plan == fifo_read_plan(last_block, addr),
{
    let block = compute_block(addr);
    FifoRead { dummy_read_first: last_block == block, new_last_block: block }
}

/// Of two reads in a row, the second is preceded by a dummy read exactly when
/// both registers lie in the same FIFO block, whatever was read before them.
pub proof fn law_consecutive_reads(last_block: usize, first: usize, second: usize)
    ensures
        fifo_read_plan(fifo_read_plan(last_block, first).new_last_block, second).dummy_read_first
            <==> fifo_block(first) == fifo_block(second),
{
}

/// Access right to a register.
pub trait Access: Copy {}

/// Registers that can be read.
pub trait Read: Access {}

/// Registers that can be written.
pub trait Write: Access {}

/// Read-write access.
#[derive(Copy, Clone, PartialEq, Eq, Debug)]
pub struct RW;

/// Read-only access.
#[derive(Copy, Clone, PartialEq, Eq, Debug)]
pub struct R;

/// Write-only access.
#[derive(Copy, Clone, PartialEq, Eq, Debug)]
pub struct W;

impl Access for R {}

impl Access for W {}

impl Access for RW {}

impl Read for RW {}

impl Read for R {}

impl Write for RW {}

impl Write for W {}

/// A register value type: a 32-bit word with a known reset value.
pub trait RegisterValue: Copy + Sized {
    /// The reset value of the register.
    spec fn spec_reset() -> Self;

    /// The raw word.
    spec fn spec_bits(self) -> u32;

    /// The reset value is the all-zero word, the value that `Default` gives.
    proof fn lemma_reset_is_zero()
        ensures
            Self::spec_reset().spec_bits() == 0,
    ;

    fn reset() -> (r: Self)
        ensures
            r == Self::spec_reset(),
            r.spec_bits() == 0,
    ;

    fn bits(&self) -> (r: u32)
        ensures
            r == self.spec_bits(),
    ;
}

/// A register of value type `T` with access right `A`, at an address.
pub struct Reg<T: Copy, A: Access> {
    addr: usize,
    phantom: PhantomData<(T, A)>,
}

impl<T: Copy, A: Access> Clone for Reg<T, A> {
    fn clone(&self) -> (r: Self)
        ensures
            r == *self,
    {
        Reg { addr: self.addr, phantom: PhantomData }
    }
}

impl<T: Copy, A: Access> Copy for Reg<T, A> {}

impl<T: Copy, A: Access> Reg<T, A> {
    /// The address of the register.
    pub closed spec fn spec_addr(&self) -> usize {
        self.addr
    }

    /// The register at `addr`.
    pub fn from_ptr(addr: usize) -> (r: Self)
        ensures
            r.spec_addr() == addr,
    {
        Reg { addr, phantom: PhantomData }
    }

    /// The address of the register.
    pub fn as_ptr(&self) -> (r: usize)
        ensures
            r == self.spec_addr(),
    {
        self.addr
    }
}

impl<T: Copy, A: Read> Reg<T, A> {
    /// How to read this register when `last_block` was the FIFO block read last.
    pub fn read_access(&self, last_block: usize) -> (plan: FifoRead)
        ensures
            plan == fifo_read_plan(last_block, self.spec_addr()),
    {
        plan_fifo_read(last_block, self.addr)
    }
}

impl<T: RegisterValue, A: Write> Reg<T, A> {
    /// The store that writing this register performs: `f` applied to the reset
    /// value, at the register's address.
    pub fn write<F: FnOnce(T) -> T>(&self, f: F) -> (store: (usize, T))
        requires
            f.requires((T::spec_reset(),)),
        ensures
            store.0 == self.spec_addr(),
            f.ensures((T::spec_reset(),), store.1),
    {
        let val = T::reset();
        let val = f(val);
        (self.addr, val)
    }
}

/// A register write hands its closure the all-zero word, whatever the
/// register: the word stored holds the fields that the closure sets and zero
/// everywhere else. Setting a single field to `value` from there stores
/// exactly `value` in that field's bits.
pub proof fn law_write_starts_from_zero<T: RegisterValue>(shift: u32, mask: u32, value: u32)
    requires
        field_fits(shift, mask),
    ensures
        T::spec_reset().spec_bits() == 0,
        with_field(T::spec_reset().spec_bits(), shift, mask, value) == (value & mask) << shift,
{
    T::lemma_reset_is_zero();
    let z = T::spec_reset().spec_bits();
    assert(z == 0 ==> (z & !(mask << shift)) | ((value & mask) << shift) == (value & mask) << shift)
        by (bit_vector);
}

impl<T: Copy, A: Read + Write> Reg<T, A> {
    /// The store that modifying this register performs: `f` applied to the
    /// value just read, at the register's address.
    pub fn modify<F: FnOnce(T) -> T>(&self, current: T, f: F) -> (store: (usize, T))
        requires
            f.requires((current,)),
        ensures
            store.0 == self.spec_addr(),
            f.ensures((current,), store.1),
    {
        let val = f(current);
        (self.addr, val)
    }
}

} // verus!
