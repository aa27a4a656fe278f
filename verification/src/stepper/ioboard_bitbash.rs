//! Step pulses by toggling GPIO pins, timed by a busy-wait delay.
use vstd::prelude::*;
use crate::stepper::{
    direction_level, disable_level, drive, enable_level, init_events, spec_direction_level,
    spec_disable_level, spec_enable_level, step_events, wrote, DelayUs, DriverEvent, LevelPin,
    PinLevel, PinWrite, Stepper, StepperDirection, StepperEnableMode, StepperError,
};

verus! {

/// A stepper driver with enable, step and direction inputs on GPIO pins,
/// that waits with `DELAY` between the edges of a step.
pub struct GpioBitbashStepper<PIN1, PIN2, PIN3, DELAY> {
    enable_pin: PIN1,
    step_pin: PIN2,
    direction_pin: PIN3,
    enable_mode: StepperEnableMode,
    delay: DELAY,
    /// pulse width (us)
    pulse_width: u32,
    /// minimum delay between pulses (us)
    pulse_delay: u32,
    /// What the driver has done with its pins and its delay, in order.
    events: Ghost<Seq<DriverEvent>>,
}

impl<PIN1, PIN2, PIN3, DELAY> GpioBitbashStepper<PIN1, PIN2, PIN3, DELAY> {
    pub closed spec fn spec_enable_mode(&self) -> StepperEnableMode {
        self.enable_mode
    }

    pub closed spec fn spec_pulse_width(&self) -> u32 {
        self.pulse_width
    }

    pub closed spec fn spec_pulse_delay(&self) -> u32 {
        self.pulse_delay
    }

    /// The pin of the enable input.
    pub closed spec fn spec_enable_pin(&self) -> PIN1 {
        self.enable_pin
    }

    /// The pin of the step input.
    pub closed spec fn spec_step_pin(&self) -> PIN2 {
        self.step_pin
    }

    /// The pin of the direction input.
    pub closed spec fn spec_direction_pin(&self) -> PIN3 {
        self.direction_pin
    }

    /// The source of the waits.
    pub closed spec fn spec_delay(&self) -> DELAY {
        self.delay
    }

    /// What the driver has done with its pins and its delay, in order.
    pub closed spec fn spec_events(&self) -> Seq<DriverEvent> {
        self.events@
    }

    pub fn new(
        enable_pin: PIN1,
        step_pin: PIN2,
        direction_pin: PIN3,
        enable_mode: StepperEnableMode,
        delay: DELAY,
        pulse_width: u32,
        pulse_delay: u32,
    ) -> (r: Self)
        ensures
            r.spec_enable_mode() == enable_mode,
            r.spec_pulse_width() == pulse_width,
            r.spec_pulse_delay() == pulse_delay,
            r.spec_enable_pin() == enable_pin,
            r.spec_step_pin() == step_pin,
            r.spec_direction_pin() == direction_pin,
            r.spec_delay() == delay,
            r.spec_events() == Seq::<DriverEvent>::empty(),
    {
        let instance = Self {
            enable_pin,
            step_pin,
            direction_pin,
            enable_mode,
            delay,
            pulse_width,
            pulse_delay,
            events: Ghost(Seq::empty()),
        };
        instance
    }
}

impl<
    PIN1: LevelPin,
    PIN2: LevelPin,
    PIN3: LevelPin,
    DELAY: DelayUs,
> GpioBitbashStepper<PIN1, PIN2, PIN3, DELAY> {
    /// Drives the enable pin once and records it.
    fn drive_enable(&mut self, level: PinLevel) -> (r: Result<(), StepperError>)
        ensures
            final(self).spec_enable_pin().writes() == old(self).spec_enable_pin().writes().push(
                (PinWrite { level, ok: r is Ok }),
            ),
            final(self).spec_events() == old(self).spec_events().push(
                DriverEvent::Enable(PinWrite { level, ok: r is Ok }),
            ),
            r is Ok || r == Err::<(), StepperError>(StepperError::IoError),
            final(self).spec_step_pin() == old(self).spec_step_pin(),
            final(self).spec_direction_pin() == old(self).spec_direction_pin(),
            final(self).spec_delay() == old(self).spec_delay(),
            final(self).spec_enable_mode() == old(self).spec_enable_mode(),
            final(self).spec_pulse_width() == old(self).spec_pulse_width(),
            final(self).spec_pulse_delay() == old(self).spec_pulse_delay(),
    {
        let r = drive(&mut self.enable_pin, level);
        self.events = Ghost(self.events@.push(DriverEvent::Enable(PinWrite { level, ok: r is Ok })));
        r
    }

    /// Drives the step pin once and records it.
    fn drive_step(&mut self, level: PinLevel) -> (r: Result<(), StepperError>)
        ensures
            final(self).spec_step_pin().writes() == old(self).spec_step_pin().writes().push(
                (PinWrite { level, ok: r is Ok }),
            ),
            final(self).spec_events() == old(self).spec_events().push(
                DriverEvent::Step(PinWrite { level, ok: r is Ok }),
            ),
            r is Ok || r == Err::<(), StepperError>(StepperError::IoError),
            final(self).spec_enable_pin() == old(self).spec_enable_pin(),
            final(self).spec_direction_pin() == old(self).spec_direction_pin(),
            final(self).spec_delay() == old(self).spec_delay(),
            final(self).spec_enable_mode() == old(self).spec_enable_mode(),
            final(self).spec_pulse_width() == old(self).spec_pulse_width(),
            final(self).spec_pulse_delay() == old(self).spec_pulse_delay(),
    {
        let r = drive(&mut self.step_pin, level);
        self.events = Ghost(self.events@.push(DriverEvent::Step(PinWrite { level, ok: r is Ok })));
        r
    }

    /// Drives the direction pin once and records it.
    fn drive_direction(&mut self, level: PinLevel) -> (r: Result<(), StepperError>)
        ensures
            final(self).spec_direction_pin().writes() == old(self).spec_direction_pin().writes().push(
                (PinWrite { level, ok: r is Ok }),
            ),
            final(self).spec_events() == old(self).spec_events().push(
                DriverEvent::Direction(PinWrite { level, ok: r is Ok }),
            ),
            r is Ok || r == Err::<(), StepperError>(StepperError::IoError),
            final(self).spec_enable_pin() == old(self).spec_enable_pin(),
            final(self).spec_step_pin() == old(self).spec_step_pin(),
            final(self).spec_delay() == old(self).spec_delay(),
            final(self).spec_enable_mode() == old(self).spec_enable_mode(),
            final(self).spec_pulse_width() == old(self).spec_pulse_width(),
            final(self).spec_pulse_delay() == old(self).spec_pulse_delay(),
    {
        let r = drive(&mut self.direction_pin, level);
        self.events = Ghost(self.events@.push(DriverEvent::Direction(PinWrite { level, ok: r is Ok })));
        r
    }

    /// Waits `us` microseconds and records it.
    fn wait(&mut self, us: u32)
        ensures
            final(self).spec_delay().waits() == old(self).spec_delay().waits().push(us),
            final(self).spec_events() == old(self).spec_events().push(DriverEvent::Wait(us)),
            final(self).spec_enable_pin() == old(self).spec_enable_pin(),
            final(self).spec_step_pin() == old(self).spec_step_pin(),
            final(self).spec_direction_pin() == old(self).spec_direction_pin(),
            final(self).spec_enable_mode() == old(self).spec_enable_mode(),
            final(self).spec_pulse_width() == old(self).spec_pulse_width(),
            final(self).spec_pulse_delay() == old(self).spec_pulse_delay(),
    {
        self.delay.delay_us(us);
        self.events = Ghost(self.events@.push(DriverEvent::Wait(us)));
    }

    /// Drives the step pin low, then the direction pin low, then the enable
    /// pin to the disabling level, stopping at the first pin that fails; it
    /// succeeds when all three do.
    pub fn initialize_io(&mut self) -> (r: Result<(), StepperError>)
        ensures
            ({
                let s0 = old(self).spec_step_pin().writes();
                let s1 = final(self).spec_step_pin().writes();
                let d0 = old(self).spec_direction_pin().writes();
                let d1 = final(self).spec_direction_pin().writes();
                let e0 = old(self).spec_enable_pin().writes();
                let e1 = final(self).spec_enable_pin().writes();
                &&& wrote(s0, s1, PinLevel::Low)
                &&& s1.last().ok ==> wrote(d0, d1, PinLevel::Low)
                &&& !s1.last().ok ==> final(self).spec_direction_pin() == old(self).spec_direction_pin()
                &&& s1.last().ok && d1.last().ok ==> wrote(
                    e0,
                    e1,
                    spec_disable_level(old(self).spec_enable_mode()),
                )
                &&& !(s1.last().ok && d1.last().ok) ==> final(self).spec_enable_pin() == old(
                    self,
                ).spec_enable_pin()
                &&& r is Ok <==> s1.last().ok && d1.last().ok && e1.last().ok
                &&& final(self).spec_events() == old(self).spec_events() + init_events(
                    spec_disable_level(old(self).spec_enable_mode()),
                    s1.last().ok,
                    d1.last().ok,
                    e1.last().ok,
                )
            }),
            r is Ok || r == Err::<(), StepperError>(StepperError::IoError),
            final(self).spec_delay() == old(self).spec_delay(),
            final(self).spec_enable_mode() == old(self).spec_enable_mode(),
            final(self).spec_pulse_width() == old(self).spec_pulse_width(),
            final(self).spec_pulse_delay() == old(self).spec_pulse_delay(),
    {
        let ghost ev0 = self.events@;
        let ghost dl = spec_disable_level(self.enable_mode);
        let r = self.drive_step(PinLevel::Low);
        if r.is_err() {
            assert(self.events@ =~= ev0 + init_events(dl, false, false, false));
            return r;
        }
        let r = self.drive_direction(PinLevel::Low);
        if r.is_err() {
            assert(self.events@ =~= ev0 + init_events(dl, true, false, false));
            return r;
        }
        let level = disable_level(self.enable_mode);
        let r = self.drive_enable(level);
        assert(self.events@ =~= ev0 + init_events(dl, true, true, r is Ok));
        r
    }
}

impl<
    PIN1: LevelPin,
    PIN2: LevelPin,
    PIN3: LevelPin,
    DELAY: DelayUs,
> Stepper for GpioBitbashStepper<PIN1, PIN2, PIN3, DELAY> {
    fn set_pulse_width_us(&mut self, pulse_width: u32)
        ensures
            final(self).spec_enable_mode() == old(self).spec_enable_mode(),
            final(self).spec_pulse_width() == pulse_width,
            final(self).spec_pulse_delay() == old(self).spec_pulse_delay(),
            final(self).spec_enable_pin() == old(self).spec_enable_pin(),
            final(self).spec_step_pin() == old(self).spec_step_pin(),
            final(self).spec_direction_pin() == old(self).spec_direction_pin(),
            final(self).spec_delay() == old(self).spec_delay(),
            final(self).spec_events() == old(self).spec_events(),
    {
        self.pulse_width = pulse_width;
    }

    fn set_pulse_delay_us(&mut self, pulse_delay: u32)
        ensures
            final(self).spec_enable_mode() == old(self).spec_enable_mode(),
            final(self).spec_pulse_width() == old(self).spec_pulse_width(),
            final(self).spec_pulse_delay() == pulse_delay,
            final(self).spec_enable_pin() == old(self).spec_enable_pin(),
            final(self).spec_step_pin() == old(self).spec_step_pin(),
            final(self).spec_direction_pin() == old(self).spec_direction_pin(),
            final(self).spec_delay() == old(self).spec_delay(),
            final(self).spec_events() == old(self).spec_events(),
    {
        self.pulse_delay = pulse_delay;
    }

    fn enable(&mut self) -> (r: Result<(), StepperError>)
        ensures
            wrote(
                old(self).spec_enable_pin().writes(),
                final(self).spec_enable_pin().writes(),
                spec_enable_level(old(self).spec_enable_mode()),
            ),
            r is Ok <==> final(self).spec_enable_pin().writes().last().ok,
            r is Ok || r == Err::<(), StepperError>(StepperError::IoError),
            final(self).spec_events() == old(self).spec_events().push(
                DriverEvent::Enable(PinWrite { level: spec_enable_level(old(self).spec_enable_mode()), ok: r is Ok }),
            ),
            final(self).spec_step_pin() == old(self).spec_step_pin(),
            final(self).spec_direction_pin() == old(self).spec_direction_pin(),
            final(self).spec_delay() == old(self).spec_delay(),
            final(self).spec_enable_mode() == old(self).spec_enable_mode(),
            final(self).spec_pulse_width() == old(self).spec_pulse_width(),
            final(self).spec_pulse_delay() == old(self).spec_pulse_delay(),
    {
        let level = enable_level(self.enable_mode);
        self.drive_enable(level)
    }

    fn disable(&mut self) -> (r: Result<(), StepperError>)
        ensures
            wrote(
                old(self).spec_enable_pin().writes(),
                final(self).spec_enable_pin().writes(),
                spec_disable_level(old(self).spec_enable_mode()),
            ),
            r is Ok <==> final(self).spec_enable_pin().writes().last().ok,
            r is Ok || r == Err::<(), StepperError>(StepperError::IoError),
            final(self).spec_events() == old(self).spec_events().push(
                DriverEvent::Enable(PinWrite { level: spec_disable_level(old(self).spec_enable_mode()), ok: r is Ok }),
            ),
            final(self).spec_step_pin() == old(self).spec_step_pin(),
            final(self).spec_direction_pin() == old(self).spec_direction_pin(),
            final(self).spec_delay() == old(self).spec_delay(),
            final(self).spec_enable_mode() == old(self).spec_enable_mode(),
            final(self).spec_pulse_width() == old(self).spec_pulse_width(),
            final(self).spec_pulse_delay() == old(self).spec_pulse_delay(),
    {
        let level = disable_level(self.enable_mode);
        self.drive_enable(level)
    }

    fn direction(&mut self, direction: StepperDirection) -> (r: Result<(), StepperError>)
        ensures
            wrote(
                old(self).spec_direction_pin().writes(),
                final(self).spec_direction_pin().writes(),
                spec_direction_level(direction),
            ),
            r is Ok <==> final(self).spec_direction_pin().writes().last().ok,
            r is Ok || r == Err::<(), StepperError>(StepperError::IoError),
            final(self).spec_events() == old(self).spec_events().push(
                DriverEvent::Direction(PinWrite { level: spec_direction_level(direction), ok: r is Ok }),
            ),
            final(self).spec_enable_pin() == old(self).spec_enable_pin(),
            final(self).spec_step_pin() == old(self).spec_step_pin(),
            final(self).spec_delay() == old(self).spec_delay(),
            final(self).spec_enable_mode() == old(self).spec_enable_mode(),
            final(self).spec_pulse_width() == old(self).spec_pulse_width(),
            final(self).spec_pulse_delay() == old(self).spec_pulse_delay(),
    {
        let level = direction_level(direction);
        self.drive_direction(level)
    }

    /// Step pin high for the pulse width, then low for the pulse delay; a
    /// failing pin ends the step, and the step succeeds when both edges do.
    fn step_and_wait(&mut self) -> (r: Result<(), StepperError>)
        ensures
            ({
                let s0 = old(self).spec_step_pin().writes();
                let s1 = final(self).spec_step_pin().writes();
                let w0 = old(self).spec_delay().waits();
                let w1 = final(self).spec_delay().waits();
                &&& final(self).spec_events() == old(self).spec_events() + step_events(
                    old(self).spec_pulse_width(),
                    old(self).spec_pulse_delay(),
                    s1[s0.len() as int].ok,
                    r is Ok,
                )
                &&& {
                    ||| {
                        &&& s1 == s0.push((PinWrite { level: PinLevel::High, ok: false }))
                        &&& final(self).spec_delay() == old(self).spec_delay()
                        &&& r is Err
                    }
                    ||| {
                        &&& s1 == s0.push((PinWrite { level: PinLevel::High, ok: true })).push(
                            (PinWrite { level: PinLevel::Low, ok: r is Ok }),
                        )
                        &&& r is Ok ==> w1 == w0.push(old(self).spec_pulse_width()).push(
                            old(self).spec_pulse_delay(),
                        )
                        &&& r is Err ==> w1 == w0.push(old(self).spec_pulse_width())
                    }
                }
            }),
            r is Ok || r == Err::<(), StepperError>(StepperError::IoError),
            final(self).spec_enable_pin() == old(self).spec_enable_pin(),
            final(self).spec_direction_pin() == old(self).spec_direction_pin(),
            final(self).spec_enable_mode() == old(self).spec_enable_mode(),
            final(self).spec_pulse_width() == old(self).spec_pulse_width(),
            final(self).spec_pulse_delay() == old(self).spec_pulse_delay(),
    {
        let ghost ev0 = self.events@;
        let ghost s0 = self.step_pin.writes();
        let high = self.drive_step(PinLevel::High);
        if high.is_err() {
            assert(self.step_pin.writes()[s0.len() as int].ok == false);
            assert(self.events@ =~= ev0 + step_events(self.pulse_width, self.pulse_delay, false, false));
            return high;
        }
        self.wait(self.pulse_width);
        let low = self.drive_step(PinLevel::Low);
        if low.is_err() {
            assert(self.step_pin.writes()[s0.len() as int].ok == true);
            assert(self.events@ =~= ev0 + step_events(self.pulse_width, self.pulse_delay, true, false));
            return low;
        }
        self.wait(self.pulse_delay);
        assert(self.step_pin.writes()[s0.len() as int].ok == true);
        assert(self.events@ =~= ev0 + step_events(self.pulse_width, self.pulse_delay, true, true));
        Ok(())
    }
}

} // verus!
