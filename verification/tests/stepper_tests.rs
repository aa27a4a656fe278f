use std::cell::RefCell;
use std::rc::Rc;

use makerpnp::motion::{
    advance_deadline, motor_steps, next_step_deadline, pulse_interval_us, step_timing, steps_this_cycle,
    STEP_FREQUENCY, STEP_PULSE_WIDTH_US,
};
use makerpnp::stepper::bitbash::{step_pulse_deadlines, GpioBitbashStepper};
use makerpnp::stepper::ioboard_bitbash::GpioBitbashStepper as DelayStepper;
use makerpnp::stepper::{
    direction_level, disable_level, enable_level, pin_result, DelayUs, LevelPin, PinLevel, Stepper, StepperDirection,
    StepperEnableMode, StepperError,
};

type Log = Rc<RefCell<Vec<(&'static str, PinLevel)>>>;

struct Pin {
    name: &'static str,
    log: Log,
    fail: bool,
}

impl LevelPin for Pin {
    fn set_level(&mut self, level: PinLevel) -> Result<(), ()> {
        if self.fail {
            return Err(());
        }
        self.log.borrow_mut().push((self.name, level));
        Ok(())
    }
}

struct Delay {
    waits: Rc<RefCell<Vec<u32>>>,
}

impl DelayUs for Delay {
    fn delay_us(&mut self, us: u32) {
        self.waits.borrow_mut().push(us);
    }
}

fn pins(log: &Log) -> (Pin, Pin, Pin) {
    (
        Pin { name: "enable", log: log.clone(), fail: false },
        Pin { name: "step", log: log.clone(), fail: false },
        Pin { name: "direction", log: log.clone(), fail: false },
    )
}

#[test]
fn levels() {
    assert_eq!(enable_level(StepperEnableMode::ActiveHigh), PinLevel::High);
    assert_eq!(enable_level(StepperEnableMode::ActiveLow), PinLevel::Low);
    assert_eq!(disable_level(StepperEnableMode::ActiveHigh), PinLevel::Low);
    assert_eq!(disable_level(StepperEnableMode::ActiveLow), PinLevel::High);
    assert_eq!(direction_level(StepperDirection::Normal), PinLevel::Low);
    assert_eq!(direction_level(StepperDirection::Reversed), PinLevel::High);
    assert_eq!(StepperDirection::default(), StepperDirection::Normal);
}

#[test]
fn bitbash_initialize_enable_direction() {
    let log: Log = Rc::new(RefCell::new(Vec::new()));
    let (e, s, d) = pins(&log);
    let mut stepper = GpioBitbashStepper::new(e, s, d, StepperEnableMode::ActiveLow, 1000, 1000);
    stepper.initialize_io().unwrap();
    stepper.enable().unwrap();
    stepper.direction(StepperDirection::Reversed).unwrap();
    stepper.set_pulse_width_us(4);
    stepper.set_pulse_delay_us(46);
    assert_eq!(stepper.pulse_width_us(), 4);
    assert_eq!(stepper.pulse_delay_us(), 46);
    assert_eq!(
        *log.borrow(),
        vec![
            ("step", PinLevel::Low),
            ("direction", PinLevel::Low),
            ("enable", PinLevel::High),
            ("enable", PinLevel::Low),
            ("direction", PinLevel::High),
        ]
    );
    assert_eq!(step_pulse_deadlines(100, 4), (104, 108));
}

#[test]
fn failing_pin_is_an_io_error() {
    let log: Log = Rc::new(RefCell::new(Vec::new()));
    let (e, mut s, d) = pins(&log);
    s.fail = true;
    let mut stepper = GpioBitbashStepper::new(e, s, d, StepperEnableMode::ActiveHigh, 1, 1);
    assert_eq!(stepper.initialize_io(), Err(StepperError::IoError));
    assert!(log.borrow().is_empty());
}

#[test]
fn delay_stepper_steps() {
    let log: Log = Rc::new(RefCell::new(Vec::new()));
    let waits = Rc::new(RefCell::new(Vec::new()));
    let (e, s, d) = pins(&log);
    let mut stepper = DelayStepper::new(e, s, d, StepperEnableMode::ActiveHigh, Delay { waits: waits.clone() }, 4, 46);
    stepper.initialize_io().unwrap();
    stepper.enable().unwrap();
    stepper.step_and_wait().unwrap();
    stepper.disable().unwrap();
    assert_eq!(
        *log.borrow(),
        vec![
            ("step", PinLevel::Low),
            ("direction", PinLevel::Low),
            ("enable", PinLevel::Low),
            ("enable", PinLevel::High),
            ("step", PinLevel::High),
            ("step", PinLevel::Low),
            ("enable", PinLevel::Low),
        ]
    );
    assert_eq!(*waits.borrow(), vec![4, 46]);
}

#[test]
fn motion_timing() {
    let t = step_timing(STEP_FREQUENCY, STEP_PULSE_WIDTH_US);
    assert_eq!(t.period_us, 50);
    assert_eq!(t.pulse_delay_us, 46);
    assert_eq!(motor_steps(200, 8), 1600);
    assert_eq!(steps_this_cycle(10, 4), 6);
    assert_eq!(steps_this_cycle(-3, 4), 7);
    assert_eq!(steps_this_cycle(0, 0x1_0000_0002), 2);
    assert_eq!(pulse_interval_us(1000, 3), 333);
    assert_eq!(next_step_deadline(10, 333, 46), 343);
    assert_eq!(next_step_deadline(10, 20, 46), 56);
    assert_eq!(next_step_deadline(u64::MAX, 2, 1), 1);
    assert_eq!(advance_deadline(u64::MAX, 200), 199);
}

#[test]
fn pin_failures_become_io_errors() {
    assert_eq!(pin_result(Ok(())), Ok(()));
    assert_eq!(pin_result(Err(())), Err(StepperError::IoError));
}
