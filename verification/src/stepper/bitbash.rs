//! Step pulses by toggling GPIO pins, with the waits left to the caller.
use vstd::prelude::*;
use crate::stepper::{
    direction_level, disable_level, drive, enable_level, spec_direction_level, spec_disable_level,
    spec_enable_level, wrote, LevelPin, PinLevel, StepperDirection, StepperEnableMode,
    StepperError,
};

verus! {

/// A stepper driver with enable, step and direction inputs on GPIO pins.
pub struct GpioBitbashStepper<PIN1, PIN2, PIN3> {
    enable_pin: PIN1,
    step_pin: PIN2,
    direction_pin: PIN3,
    enable_mode: StepperEnableMode,
    /// pulse width (us)
    pulse_width: u32,
    /// minimum delay between pulses (us)
    pulse_delay: u32,
}

impl<PIN1, PIN2, PIN3> GpioBitbashStepper<PIN1, PIN2, PIN3> {
    pub closed spec fn spec_enable_mode(&self) -> StepperEnableMode {
        self.enable_mode
    }

    pub closed spec fn spec_pulse_width(&self) -> u32 {
        self.pulse_width
    }

    pub closed spec fn spec_pulse_delay(&self) -> u32 {
        self.pulse_delay
    }

    /// The pin of the enable input.
    pub closed spec fn spec_enable_pin(&self) -> PIN1 {
        self.enable_pin
    }

    /// The pin of the step input.
    pub closed spec fn spec_step_pin(&self) -> PIN2 {
        self.step_pin
    }

    /// The pin of the direction input.
    pub closed spec fn spec_direction_pin(&self) -> PIN3 {
        self.direction_pin
    }

    pub fn new(
        enable_pin: PIN1,
        step_pin: PIN2,
        direction_pin: PIN3,
        enable_mode: StepperEnableMode,
        pulse_width: u32,
        pulse_delay: u32,
    ) -> (r: Self)
        ensures
            r.spec_enable_mode() == enable_mode,
            r.spec_pulse_width() == pulse_width,
            r.spec_pulse_delay() == pulse_delay,
            r.spec_enable_pin() == enable_pin,
            r.spec_step_pin() == step_pin,
            r.spec_direction_pin() == direction_pin,
    {
        let instance = Self {
            enable_pin,
            step_pin,
            direction_pin,
            enable_mode,
            pulse_width,
            pulse_delay,
        };
        instance
    }

    /// pulse width in microseconds
    pub fn set_pulse_width_us(&mut self, pulse_width: u32)
        ensures
            final(self).spec_pulse_width() == pulse_width,
            final(self).spec_pulse_delay() == old(self).spec_pulse_delay(),
            final(self).spec_enable_mode() == old(self).spec_enable_mode(),
            final(self).spec_enable_pin() == old(self).spec_enable_pin(),
            final(self).spec_step_pin() == old(self).spec_step_pin(),
            final(self).spec_direction_pin() == old(self).spec_direction_pin(),
    {
        self.pulse_width = pulse_width;
    }

    /// delay in microseconds
    pub fn set_pulse_delay_us(&mut self, pulse_delay: u32)
        ensures
            final(self).spec_pulse_delay() == pulse_delay,
            final(self).spec_pulse_width() == old(self).spec_pulse_width(),
            final(self).spec_enable_mode() == old(self).spec_enable_mode(),
            final(self).spec_enable_pin() == old(self).spec_enable_pin(),
            final(self).spec_step_pin() == old(self).spec_step_pin(),
            final(self).spec_direction_pin() == old(self).spec_direction_pin(),
    {
        self.pulse_delay = pulse_delay;
    }

    /// pulse width in microseconds
    pub fn pulse_width_us(&self) -> (r: u32)
        ensures
            r == self.spec_pulse_width(),
    {
        self.pulse_width
    }

    /// delay in microseconds
    pub fn pulse_delay_us(&self) -> (r: u32)
        ensures
            r == self.spec_pulse_delay(),
    {
        self.pulse_delay
    }

    /// The step pin, for the caller that times the pulses.
    pub fn step_pin_mut(&mut self) -> (pin: &mut PIN2)
        ensures
            *pin == old(self).spec_step_pin(),
            final(self).spec_step_pin() == *final(pin),
            final(self).spec_enable_mode() == old(self).spec_enable_mode(),
            final(self).spec_pulse_width() == old(self).spec_pulse_width(),
            final(self).spec_pulse_delay() == old(self).spec_pulse_delay(),
            final(self).spec_enable_pin() == old(self).spec_enable_pin(),
            final(self).spec_direction_pin() == old(self).spec_direction_pin(),
    {
        &mut self.step_pin
    }
}

impl<PIN1: LevelPin, PIN2: LevelPin, PIN3: LevelPin> GpioBitbashStepper<PIN1, PIN2, PIN3> {
    /// Drives the step pin low, then the direction pin low, then the enable
    /// pin to the disabling level, stopping at the first pin that fails; it
    /// succeeds when all three do.
    pub fn initialize_io(&mut self) -> (r: Result<(), StepperError>)
        ensures
            ({
                let s0 = old(self).spec_step_pin().writes();
                let s1 = final(self).spec_step_pin().writes();
                let d0 = old(self).spec_direction_pin().writes();
                let d1 = final(self).spec_direction_pin().writes();
                let e0 = old(self).spec_enable_pin().writes();
                let e1 = final(self).spec_enable_pin().writes();
                &&& wrote(s0, s1, PinLevel::Low)
                &&& s1.last().ok ==> wrote(d0, d1, PinLevel::Low)
                &&& !s1.last().ok ==> final(self).spec_direction_pin() == old(self).spec_direction_pin()
                &&& s1.last().ok && d1.last().ok ==> wrote(
                    e0,
                    e1,
                    spec_disable_level(old(self).spec_enable_mode()),
                )
                &&& !(s1.last().ok && d1.last().ok) ==> final(self).spec_enable_pin() == old(
                    self,
                ).spec_enable_pin()
                &&& r is Ok <==> s1.last().ok && d1.last().ok && e1.last().ok
            }),
            r is Ok || r == Err::<(), StepperError>(StepperError::IoError),
            final(self).spec_enable_mode() == old(self).spec_enable_mode(),
            final(self).spec_pulse_width() == old(self).spec_pulse_width(),
            final(self).spec_pulse_delay() == old(self).spec_pulse_delay(),
    {
        drive(&mut self.step_pin, PinLevel::Low)?;
        drive(&mut self.direction_pin, PinLevel::Low)?;
        self.disable()
    }

    /// Drives the enable pin to the level that enables the driver.
    pub fn enable(&mut self) -> (r: Result<(), StepperError>)
        ensures
            wrote(
                old(self).spec_enable_pin().writes(),
                final(self).spec_enable_pin().writes(),
                spec_enable_level(old(self).spec_enable_mode()),
            ),
            r is Ok <==> final(self).spec_enable_pin().writes().last().ok,
            r is Ok || r == Err::<(), StepperError>(StepperError::IoError),
            final(self).spec_step_pin() == old(self).spec_step_pin(),
            final(self).spec_direction_pin() == old(self).spec_direction_pin(),
            final(self).spec_enable_mode() == old(self).spec_enable_mode(),
            final(self).spec_pulse_width() == old(self).spec_pulse_width(),
            final(self).spec_pulse_delay() == old(self).spec_pulse_delay(),
    {
        let level = enable_level(self.enable_mode);
        drive(&mut self.enable_pin, level)
    }

    /// Drives the enable pin to the level that disables the driver.
    pub fn disable(&mut self) -> (r: Result<(), StepperError>)
        ensures
            wrote(
                old(self).spec_enable_pin().writes(),
                final(self).spec_enable_pin().writes(),
                spec_disable_level(old(self).spec_enable_mode()),
            ),
            r is Ok <==> final(self).spec_enable_pin().writes().last().ok,
            r is Ok || r == Err::<(), StepperError>(StepperError::IoError),
            final(self).spec_step_pin() == old(self).spec_step_pin(),
            final(self).spec_direction_pin() == old(self).spec_direction_pin(),
            final(self).spec_enable_mode() == old(self).spec_enable_mode(),
            final(self).spec_pulse_width() == old(self).spec_pulse_width(),
            final(self).spec_pulse_delay() == old(self).spec_pulse_delay(),
    {
        let level = disable_level(self.enable_mode);
        drive(&mut self.enable_pin, level)
    }

    /// Drives the direction pin to the level of `direction`.
    pub fn direction(&mut self, direction: StepperDirection) -> (r: Result<(), StepperError>)
        ensures
            wrote(
                old(self).spec_direction_pin().writes(),
                final(self).spec_direction_pin().writes(),
                spec_direction_level(direction),
            ),
            r is Ok <==> final(self).spec_direction_pin().writes().last().ok,
            r is Ok || r == Err::<(), StepperError>(StepperError::IoError),
            final(self).spec_enable_pin() == old(self).spec_enable_pin(),
            final(self).spec_step_pin() == old(self).spec_step_pin(),
            final(self).spec_enable_mode() == old(self).spec_enable_mode(),
            final(self).spec_pulse_width() == old(self).spec_pulse_width(),
            final(self).spec_pulse_delay() == old(self).spec_pulse_delay(),
    {
        let level = direction_level(direction);
        drive(&mut self.direction_pin, level)
    }
}

/// The two deadlines of a step pulse that starts at `now_us`: the end of the
/// high phase, and the end of the low phase that follows, each `pulse_width_us`
/// long.
pub fn step_pulse_deadlines(now_us: u64, pulse_width_us: u32) -> (r: (u64, u64))
    requires
        now_us + 2 * pulse_width_us <= u64::MAX,
    ensures
        r.0 == now_us + pulse_width_us,
        r.1 == now_us + 2 * pulse_width_us,
{
    let first = now_us + pulse_width_us as u64;
    (first, first + pulse_width_us as u64)
}

} // verus!
