use makerpnp::firmware::{
    housekeeping_tick, log2minus1, region_attributes, startup_beep, startup_sequence, swapped_outputs,
    BeepStep, DIT_TIME_MS, OCTOSPI_SIZE,
};
use makerpnp::morse::{encode_text, MorseSymbol};

#[test]
fn mpu_region_for_the_octospi_window() {
    assert_eq!(log2minus1(OCTOSPI_SIZE), 27);
    assert_eq!(log2minus1(32), 4);
    assert_eq!(log2minus1(0x8000_0000), 30);
    assert_eq!(region_attributes(OCTOSPI_SIZE), 0x1300_0037);
}

#[test]
fn startup_greeting_timing() {
    assert_eq!(DIT_TIME_MS, 40);
    assert_eq!(startup_beep(MorseSymbol::Dit), BeepStep::Beep { on_ms: 40, off_ms: 40 });
    assert_eq!(startup_beep(MorseSymbol::Dash), BeepStep::Beep { on_ms: 120, off_ms: 40 });
    assert_eq!(startup_beep(MorseSymbol::IntraLetter), BeepStep::Pause { ms: 40 });
    assert_eq!(startup_beep(MorseSymbol::IntraWord), BeepStep::Pause { ms: 280 });
    let steps = startup_sequence(&encode_text("MPNP"));
    // M = --, P = .--., N = -.
    assert_eq!(steps.len(), 2 + 1 + 4 + 1 + 2 + 1 + 4);
    assert_eq!(steps[0], BeepStep::Beep { on_ms: 120, off_ms: 40 });
    assert_eq!(steps[2], BeepStep::Pause { ms: 40 });
}

#[test]
fn housekeeping_schedule() {
    let t = housekeeping_tick(0);
    assert!(t.toggle_outputs && t.sample_inputs);
    assert_eq!(t.next_counter, 5);
    let t = housekeeping_tick(50);
    assert!(t.toggle_outputs && !t.sample_inputs);
    let t = housekeeping_tick(u32::MAX - 2);
    assert_eq!(t.next_counter, 2);
    assert_eq!(swapped_outputs(true), [false, true, false, true]);
    assert_eq!(swapped_outputs(false), [true, false, true, false]);
}
