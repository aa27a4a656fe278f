//! Step timing of the motion demo: the pulse shape that a step frequency
//! gives, and the integer bookkeeping of the trajectory loop that turns
//! planned positions into step pulses.
use vstd::prelude::*;

verus! {

/// Step frequency of the demo, in steps per second.
pub const STEP_FREQUENCY: u32 = 20_000;

/// Width of the high phase of a step pulse, in microseconds.
pub const STEP_PULSE_WIDTH_US: u32 = 4;

/// Full steps of the motor per revolution.
pub const DEFAULT_MOTOR_STEPS: u32 = 200;

/// Microsteps per full step.
pub const MICRO_STEPPING_MULTIPLIER: u32 = 8;

/// Length of one cycle of the trajectory loop, in microseconds.
pub const CYCLE_INTERVAL_US: u64 = 1000;

/// Length of one cycle of the simple back-and-forth loop, in microseconds.
pub const SIMPLE_CYCLE_INTERVAL_US: u64 = 200;

/// Shape of the step pulses at a given frequency.
#[derive(Debug, Clone, Copy, PartialEq, Eq, Structural)]
pub struct StepTiming {
    /// Time from one step to the next.
    pub period_us: u32,
    /// Width of the high phase.
    pub pulse_width_us: u32,
    /// Time from the end of the high phase to the next step.
    pub pulse_delay_us: u32,
}

/// The pulse shape for `frequency` steps per second with high phases of
/// `pulse_width_us`.
pub fn step_timing(frequency: u32, pulse_width_us: u32) -> (t: StepTiming)
    requires
        frequency > 0,
        pulse_width_us <= 1_000_000u32 / frequency,
    ensures
        t.period_us == 1_000_000u32 / frequency,
        t.pulse_width_us == pulse_width_us,
        t.pulse_delay_us + t.pulse_width_us == t.period_us,
{
    let period = 1_000_000 / frequency;
    StepTiming { period_us: period, pulse_width_us, pulse_delay_us: period - pulse_width_us }
}

/// Microsteps in one revolution of the motor.
pub fn motor_steps(default_steps: u32, micro_stepping: u32) -> (steps: u32)
    requires
        default_steps * micro_stepping <= u32::MAX,
    ensures
        steps == default_steps * micro_stepping,
{
    default_steps * micro_stepping
}

/// The steps to emit in a cycle whose planned position moved from `last` to
/// `new`: the distance, truncated to 32 bits.
pub fn steps_this_cycle(last: i64, new: i64) -> (steps: u32)
    requires
        i64::MIN < new - last <= i64::MAX,
    ensures
        steps == (if new >= last {
            new - last
        } else {
            last - new
        }) % 0x1_0000_0000,
{
    let d = new - last;
    let a = if d < 0 {
        -d
    } else {
        d
    };
    (a % 0x1_0000_0000) as u32
}

/// The spacing of `steps` step pulses spread over one cycle.
pub fn pulse_interval_us(cycle_interval_us: u64, steps: u32) -> (interval: u64)
    requires
        steps > 0,
    ensures
        interval == cycle_interval_us / (steps as u64),
{
    cycle_interval_us / steps as u64
}

/// The deadline of the next step pulse: the spacing of the cycle, but never
/// sooner than the pulse delay of the driver; the time wraps around.
pub fn next_step_deadline(deadline: u64, pulse_interval: u64, pulse_delay: u32) -> (next: u64)
    ensures
        next == vstd::wrapping::u64_specs::wrapping_add(
            deadline,
            if pulse_interval >= pulse_delay {
                pulse_interval
            } else {
                pulse_delay as u64
            },
        ),
{
    let wait = if pulse_interval >= pulse_delay as u64 {
        pulse_interval
    } else {
        pulse_delay as u64
    };
    deadline.wrapping_add(wait)
}

/// A deadline `interval` later; the time wraps around.
pub fn advance_deadline(deadline: u64, interval: u64) -> (next: u64)
    ensures
        next == vstd::wrapping::u64_specs::wrapping_add(deadline, interval),
{
    deadline.wrapping_add(interval)
}

} // verus!
