//! Access to the register map of the FPGA core, which the MCU sees through
//! the memory-mapped OctoSPI window at 0x9000_0000.
#![allow(non_snake_case)]
use vstd::prelude::*;

pub mod buzzer;
pub mod common;
pub mod encoders;
pub mod io;
pub mod led;
pub mod system1;
pub mod system2;

verus! {

/// The buzzer control block, at 0x900000c0.
pub fn BUZZER() -> (r: buzzer::buzzer)
    ensures
        r.spec_addr() == 0x900000c0,
{
    buzzer::buzzer::from_ptr(0x900000c0)
}

/// The encoders control block, at 0x90000100.
pub fn ENCODERS() -> (r: encoders::encoders)
    ensures
        r.spec_addr() == 0x90000100,
{
    encoders::encoders::from_ptr(0x90000100)
}

/// The io control block, at 0x90000080.
pub fn IO() -> (r: io::io)
    ensures
        r.spec_addr() == 0x90000080,
{
    io::io::from_ptr(0x90000080)
}

/// The led control block, at 0x90000040.
pub fn LED() -> (r: led::led)
    ensures
        r.spec_addr() == 0x90000040,
{
    led::led::from_ptr(0x90000040)
}

/// The system block 1, at 0x90000000.
pub fn SYSTEM1() -> (r: system1::system1)
    ensures
        r.spec_addr() == 0x90000000,
{
    system1::system1::from_ptr(0x90000000)
}

/// The system block 2, at 0x900001c0.
pub fn SYSTEM2() -> (r: system2::system2)
    ensures
        r.spec_addr() == 0x900001c0,
{
    system2::system2::from_ptr(0x900001c0)
}

} // verus!
