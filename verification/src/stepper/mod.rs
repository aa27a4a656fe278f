//! Stepper motor drivers that generate step pulses by toggling GPIO pins.
//!
//! The pins are reached through [`LevelPin`], so that the decisions made
//! here (which level enables the driver, which level selects a direction)
//! do not depend on a particular HAL.
use vstd::prelude::*;

pub mod bitbash;
pub mod ioboard_bitbash;

verus! {

/// Direction of rotation.
#[derive(Debug, Clone, Copy, PartialEq, Eq, Structural)]
pub enum StepperDirection {
    Normal,
    Reversed,
}

impl Default for StepperDirection {
    fn default() -> (r: Self)
        ensures
            r == StepperDirection::Normal,
    {
        StepperDirection::Normal
    }
}

/// Why a stepper operation failed.
#[derive(Debug, Clone, Copy, PartialEq, Eq, Structural)]
pub enum StepperError {
    IoError,
}

/// The level at which a driver's enable input is active.
#[derive(Debug, Clone, Copy, PartialEq, Eq, Structural)]
pub enum StepperEnableMode {
    /// needs a high voltage to enable
    ActiveHigh,
    /// needs a low voltage to enable
    ActiveLow,
}

/// An output level.
#[derive(Debug, Clone, Copy, PartialEq, Eq, Structural)]
pub enum PinLevel {
    Low,
    High,
}

/// The level that enables a driver in `mode`: high for an active-high input,
/// low for an active-low one.
pub open spec fn spec_enable_level(mode: StepperEnableMode) -> PinLevel {
    match mode {
        StepperEnableMode::ActiveHigh => PinLevel::High,
        StepperEnableMode::ActiveLow => PinLevel::Low,
    }
}

/// The level that disables a driver in `mode`.
pub open spec fn spec_disable_level(mode: StepperEnableMode) -> PinLevel {
    match mode {
        StepperEnableMode::ActiveHigh => PinLevel::Low,
        StepperEnableMode::ActiveLow => PinLevel::High,
    }
}

/// The level that enables a driver in `mode`.
pub fn enable_level(mode: StepperEnableMode) -> (level: PinLevel)
    ensures
        level == spec_enable_level(mode),
{
    match mode {
        StepperEnableMode::ActiveHigh => PinLevel::High,
        StepperEnableMode::ActiveLow => PinLevel::Low,
    }
}

/// The level that disables a driver in `mode`: the opposite of the enabling one.
pub fn disable_level(mode: StepperEnableMode) -> (level: PinLevel)
    ensures
        level == spec_disable_level(mode),
{
    match mode {
        StepperEnableMode::ActiveHigh => PinLevel::Low,
        StepperEnableMode::ActiveLow => PinLevel::High,
    }
}

/// The level of the direction input for `direction`: low for normal, high
/// for reversed.
pub open spec fn spec_direction_level(direction: StepperDirection) -> PinLevel {
    match direction {
        StepperDirection::Normal => PinLevel::Low,
        StepperDirection::Reversed => PinLevel::High,
    }
}

/// The level of the direction input for `direction`: low for normal, high
/// for reversed.
pub fn direction_level(direction: StepperDirection) -> (level: PinLevel)
    ensures
        level == spec_direction_level(direction),
{
    match direction {
        StepperDirection::Normal => PinLevel::Low,
        StepperDirection::Reversed => PinLevel::High,
    }
}

/// Enabling and disabling always drive the enable input to opposite levels,
/// in either mode.
pub proof fn law_enable_disable_opposite(mode: StepperEnableMode)
    ensures
        spec_enable_level(mode) != spec_disable_level(mode),
{
}

/// One attempt to drive a pin: the level asked for, and whether the pin
/// reported success.
#[derive(Debug, Clone, Copy, PartialEq, Eq, Structural)]
pub struct PinWrite {
    pub level: PinLevel,
    pub ok: bool,
}

/// `after` is `before` with one more attempt to drive the pin to `level`.
pub open spec fn wrote(before: Seq<PinWrite>, after: Seq<PinWrite>, level: PinLevel) -> bool {
    after == before.push(PinWrite { level, ok: after.last().ok })
}

/// One thing that a stepper driver did, in the order it did it: an attempt on
/// its enable, step or direction pin (with the outcome the pin reported), or
/// a wait in microseconds.
#[derive(Debug, Clone, Copy, PartialEq, Eq, Structural)]
pub enum DriverEvent {
    Enable(PinWrite),
    Step(PinWrite),
    Direction(PinWrite),
    Wait(u32),
}

/// The events of one step: the step pin is driven high, the driver waits the
/// pulse width, the step pin is driven low, and the driver waits the pulse
/// delay; a pin that fails (`high_ok` or `low_ok` false) ends the step.
pub open spec fn step_events(pulse_width: u32, pulse_delay: u32, high_ok: bool, low_ok: bool) -> Seq<
    DriverEvent,
> {
    if !high_ok {
        seq![DriverEvent::Step(PinWrite { level: PinLevel::High, ok: false })]
    } else if !low_ok {
        seq![
            DriverEvent::Step(PinWrite { level: PinLevel::High, ok: true }),
            DriverEvent::Wait(pulse_width),
            DriverEvent::Step(PinWrite { level: PinLevel::Low, ok: false }),
        ]
    } else {
        seq![
            DriverEvent::Step(PinWrite { level: PinLevel::High, ok: true }),
            DriverEvent::Wait(pulse_width),
            DriverEvent::Step(PinWrite { level: PinLevel::Low, ok: true }),
            DriverEvent::Wait(pulse_delay),
        ]
    }
}

/// The events of initialising the pins: step pin low, direction pin low, and
/// the enable pin to `disable_level`, ending at the first pin that fails.
pub open spec fn init_events(disable_level: PinLevel, step_ok: bool, direction_ok: bool, enable_ok: bool) -> Seq<
    DriverEvent,
> {
    if !step_ok {
        seq![DriverEvent::Step(PinWrite { level: PinLevel::Low, ok: false })]
    } else if !direction_ok {
        seq![
            DriverEvent::Step(PinWrite { level: PinLevel::Low, ok: true }),
            DriverEvent::Direction(PinWrite { level: PinLevel::Low, ok: false }),
        ]
    } else {
        seq![
            DriverEvent::Step(PinWrite { level: PinLevel::Low, ok: true }),
            DriverEvent::Direction(PinWrite { level: PinLevel::Low, ok: true }),
            DriverEvent::Enable(PinWrite { level: disable_level, ok: enable_ok }),
        ]
    }
}

/// A step pulse has its high time: the step pin is driven high before
/// anything else, the only wait before it is driven low again is the pulse
/// width, and the pulse delay is waited only after the pin went low; a
/// failing pin ends the step at once, with no wait after it.
pub proof fn law_step_pulse_has_high_time(pulse_width: u32, pulse_delay: u32, high_ok: bool, low_ok: bool)
    ensures
        ({
            let e = step_events(pulse_width, pulse_delay, high_ok, low_ok);
            &&& e[0] == DriverEvent::Step(PinWrite { level: PinLevel::High, ok: high_ok })
            &&& !high_ok ==> e.len() == 1
            &&& high_ok ==> e[1] == DriverEvent::Wait(pulse_width) && e[2] == DriverEvent::Step(
                PinWrite { level: PinLevel::Low, ok: low_ok },
            )
            &&& high_ok && !low_ok ==> e.len() == 3
            &&& high_ok && low_ok ==> e.len() == 4 && e[3] == DriverEvent::Wait(pulse_delay)
            &&& forall|i: int, j: int|
                0 <= i < j < e.len() && (#[trigger] e[i]) is Step && (#[trigger] e[j]) is Step ==> i
                    == 0 && j == 2 && e[1] == DriverEvent::Wait(pulse_width)
        }),
{
}

/// A digital output that can be driven to a level; driving it may fail.
/// `writes` is the record of the attempts made on the pin, each with the
/// outcome that the pin reported.
pub trait LevelPin {
    /// The attempts made on this pin so far, in order. Every implementation
    /// that Verus checks defines it, as its `set_level` contract requires;
    /// the empty default only lets implementations outside the verifier
    /// compile, and such implementations are trusted to keep the contract.
    open spec fn writes(&self) -> Seq<PinWrite> {
        Seq::empty()
    }

    /// Drives the pin to `level`; the attempt and its outcome are recorded.
    fn set_level(&mut self, level: PinLevel) -> (r: Result<(), ()>)
        ensures
            final(self).writes() == old(self).writes().push((PinWrite { level, ok: r is Ok })),
    ;
}

/// A source of busy-wait delays. `waits` is the record of the waits made.
pub trait DelayUs {
    /// The waits made so far, in microseconds, in order; the empty default
    /// is there for implementations outside the verifier, as for `writes`.
    open spec fn waits(&self) -> Seq<u32> {
        Seq::empty()
    }

    /// Waits `us` microseconds; the wait is recorded.
    fn delay_us(&mut self, us: u32)
        ensures
            final(self).waits() == old(self).waits().push(us),
    ;
}

/// A simple synchronous stepper.
pub trait Stepper {
    /// pulse width in microseconds
    fn set_pulse_width_us(&mut self, pulse_width: u32);

    /// delay in microseconds
    fn set_pulse_delay_us(&mut self, pulse_delay: u32);

    fn enable(&mut self) -> Result<(), StepperError>;

    fn disable(&mut self) -> Result<(), StepperError>;

    fn direction(&mut self, direction: StepperDirection) -> Result<(), StepperError>;

    /// Perform a single step pulse and wait for the pulse delay to expire.
    fn step_and_wait(&mut self) -> Result<(), StepperError>;
}

/// What a stepper operation reports for what its pin reported: success for
/// success, and an I/O error for a failure of the pin.
pub fn pin_result(reported: Result<(), ()>) -> (r: Result<(), StepperError>)
    ensures
        reported is Ok ==> r == Ok::<(), StepperError>(()),
        reported is Err ==> r == Err::<(), StepperError>(StepperError::IoError),
{
    match reported {
        Ok(()) => Ok(()),
        Err(()) => Err(StepperError::IoError),
    }
}

/// Drives `pin` to `level` once; whether that succeeds is up to the pin, and
/// a failure of the pin becomes an I/O error.
pub fn drive<P: LevelPin>(pin: &mut P, level: PinLevel) -> (r: Result<(), StepperError>)
    ensures
        final(pin).writes() == old(pin).writes().push((PinWrite { level, ok: r is Ok })),
        r is Ok || r == Err::<(), StepperError>(StepperError::IoError),
{
    let reported = pin.set_level(level);
    pin_result(reported)
}

} // verus!
