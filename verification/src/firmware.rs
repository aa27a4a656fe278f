//! Decisions of the control-core firmware that do not touch the hardware:
//! the MPU region for the OctoSPI window, the start-up beeps, and the
//! schedule of the FPGA housekeeping task.
use vstd::prelude::*;
use vstd::arithmetic::power2::pow2;
use crate::morse::{MorseBitstream, MorseSymbol, BITSTREAM_CAPACITY};

verus! {

/// Size of the memory region mapped to the OctoSPI window, in bytes.
pub const OCTOSPI_SIZE: u32 = 256 * 1024 * 1024;

/// Base address of the OctoSPI window.
pub const REGION_BASE_ADDRESS: u32 = 0x9000_0000;

pub const REGION_EXECUTE_NEVER: u32 = 0x01;

pub const REGION_FULL_ACCESS: u32 = 0x03;

pub const REGION_NON_CACHEABLE: u32 = 0x00;

pub const REGION_NON_SHARABLE: u32 = 0x00;

pub const REGION_NON_BUFFERABLE: u32 = 0x00;

pub const REGION_ENABLE: u32 = 0x01;

pub const TEX: u32 = 0x00;

/// The size is a power of two between 32 bytes and 2 GiB.
pub open spec fn is_region_size(size: u32) -> bool {
    exists|k: nat| 5 <= k <= 31 && size == pow2(k)
}

/// The base-2 logarithm of `n`, rounded down.
pub open spec fn log2(n: nat) -> nat
    decreases n,
{
    if n <= 1 {
        0
    } else {
        1 + log2(n / 2)
    }
}

/// The logarithm of a power of two is its exponent.
pub proof fn lemma_log2_pow2(k: nat)
    ensures
        log2(pow2(k)) == k,
    decreases k,
{
    vstd::arithmetic::power2::lemma_pow2_pos(k);
    if k > 0 {
        vstd::arithmetic::power2::lemma_pow2_unfold(k);
        lemma_log2_pow2((k - 1) as nat);
        vstd::arithmetic::power2::lemma_pow2_pos((k - 1) as nat);
        assert(pow2(k) / 2 == pow2((k - 1) as nat));
    } else {
        vstd::arithmetic::power2::lemma2_to64();
    }
}

/// The value of the size field of an MPU region of `size` bytes: its base-2
/// logarithm, less one.
pub fn log2minus1(size: u32) -> (r: u32)
    requires
        is_region_size(size),
    ensures
        4 <= r <= 30,
        pow2((r + 1) as nat) == size,
        r == log2(size as nat) - 1,
{
    let ghost k = choose|k: nat| 5 <= k <= 31 && size == pow2(k);
    let mut i: u32 = 5;
    while i <= 31
        invariant
            5 <= i <= 32,
            5 <= k <= 31,
            size == pow2(k),
            k >= i,
        decreases 32 - i,
    {
        proof {
            vstd::bits::lemma_u32_pow2_no_overflow(i as nat);
            vstd::arithmetic::power2::lemma2_to64();
            vstd::bits::lemma_u32_shl_is_mul(1, i);
            if k > i {
                vstd::arithmetic::power2::lemma_pow2_strictly_increases(i as nat, k);
            }
        }
        if size == (1u32 << i) {
            proof {
                lemma_log2minus1_post(size, (i - 1) as u32);
            }
            return i - 1;
        }
        i = i + 1;
    }
    proof {
        assert(false);
    }
    0
}

proof fn lemma_log2minus1_post(size: u32, r: u32)
    requires
        pow2((r + 1) as nat) == size,
    ensures
        r == log2(size as nat) - 1,
{
    lemma_log2_pow2((r + 1) as nat);
}

/// The attribute word of the MPU region that maps the OctoSPI window:
/// enabled, full access, never executed, not cacheable, not bufferable, not
/// shareable, with the size field of `size`.
pub fn region_attributes(size: u32) -> (rasr: u32)
    requires
        is_region_size(size),
    ensures
        rasr == 0x1300_0001 + 2 * (log2(size as nat) - 1),
{
    let f = log2minus1(size);
    let rasr = 0 | (TEX << 19) | (REGION_NON_SHARABLE << 18) | (REGION_NON_CACHEABLE << 17) | (
    REGION_NON_BUFFERABLE << 16) | (REGION_FULL_ACCESS << 24) | (REGION_EXECUTE_NEVER << 28) | (f
        << 1) | REGION_ENABLE;
    assert(rasr == 0x1300_0001 + 2 * f) by (bit_vector)
        requires
            f <= 30,
            rasr == 0 | (0u32 << 19u32) | (0u32 << 18u32) | (0u32 << 17u32) | (0u32 << 16u32) | (
            3u32 << 24u32) | (1u32 << 28u32) | (f << 1u32) | 1u32,
    ;
    rasr
}

/// Speed of the start-up greeting, in words per minute.
pub const WORDS_PER_MINUTE: u32 = 30;

/// Length of a dit of the start-up greeting: a word is fifty dit lengths.
pub const DIT_TIME_MS: u32 = 1000 / ((50 * WORDS_PER_MINUTE) / 60);

/// One step of the start-up greeting.
#[derive(Debug, Clone, Copy, PartialEq, Eq, Structural)]
pub enum BeepStep {
    /// Stay silent.
    Pause { ms: u32 },
    /// Beep and light the LEDs, then stay silent and dark.
    Beep { on_ms: u32, off_ms: u32 },
}

/// The step that keys `symbol`: a dit beeps one dit, a dash three, each
/// followed by one dit of silence; a letter gap is one dit of silence and a
/// word gap seven.
pub open spec fn beep_for(symbol: MorseSymbol) -> BeepStep {
    match symbol {
        MorseSymbol::IntraLetter => BeepStep::Pause { ms: DIT_TIME_MS },
        MorseSymbol::Dit => BeepStep::Beep { on_ms: DIT_TIME_MS, off_ms: DIT_TIME_MS },
        MorseSymbol::IntraWord => BeepStep::Pause { ms: (7 * DIT_TIME_MS) as u32 },
        MorseSymbol::Dash => BeepStep::Beep { on_ms: (3 * DIT_TIME_MS) as u32, off_ms: DIT_TIME_MS },
    }
}

/// The step that keys `symbol`.
pub fn startup_beep(symbol: MorseSymbol) -> (step: BeepStep)
    ensures
        step == beep_for(symbol),
{
    let dit = DIT_TIME_MS;
    let dah = dit * 3;
    let inter_char = dit;
    let inter_word = dit * 7;
    match symbol {
        MorseSymbol::IntraLetter => BeepStep::Pause { ms: inter_char },
        MorseSymbol::Dit => BeepStep::Beep { on_ms: dit, off_ms: dit },
        MorseSymbol::IntraWord => BeepStep::Pause { ms: inter_word },
        MorseSymbol::Dash => BeepStep::Beep { on_ms: dah, off_ms: dit },
    }
}

/// The steps that key a bitstream, one for each symbol, in order.
pub fn startup_sequence(morse: &MorseBitstream) -> (steps: Vec<BeepStep>)
    requires
        morse.symbol_count <= BITSTREAM_CAPACITY,
    ensures
        steps@.len() == morse.symbols().len(),
        forall|i: int| 0 <= i < steps@.len() ==> #[trigger] steps@[i] == beep_for(morse.symbols()[i]),
{
    let mut steps: Vec<BeepStep> = Vec::new();
    let mut it = morse.iter();
    loop
        invariant_except_break
            it.wf(),
            it.symbols() == morse.symbols(),
            0 <= it.position() <= morse.symbols().len(),
            steps@.len() == it.position(),
        invariant
            forall|i: int|
                0 <= i < steps@.len() ==> #[trigger] steps@[i] == beep_for(morse.symbols()[i]),
        ensures
            steps@.len() == morse.symbols().len(),
        decreases morse.symbols().len() - it.position(),
    {
        match it.next() {
            Some(symbol) => {
                steps.push(startup_beep(symbol));
            },
            None => {
                break ;
            },
        }
    }
    steps
}

/// What one round of the FPGA housekeeping task does.
#[derive(Debug, Clone, Copy, PartialEq, Eq, Structural)]
pub struct HousekeepingTick {
    /// Swap the LEDs and the output enables.
    pub toggle_outputs: bool,
    /// Read the encoders and the digital inputs.
    pub sample_inputs: bool,
    /// The frame counter of the next round.
    pub next_counter: u32,
}

/// The round with frame counter `counter`: the outputs are swapped every 50
/// counts, the inputs sampled every 100, and the counter advances by 5 and
/// wraps around.
pub fn housekeeping_tick(counter: u32) -> (tick: HousekeepingTick)
    ensures
        tick.toggle_outputs == (counter % 50 == 0),
        tick.sample_inputs == (counter % 100 == 0),
        tick.next_counter == vstd::wrapping::u32_specs::wrapping_add(counter, 5),
{
    HousekeepingTick {
        toggle_outputs: counter % 50 == 0,
        sample_inputs: counter % 100 == 0,
        next_counter: counter.wrapping_add(5),
    }
}

/// The outputs after a swap: when `toggle` is set, LED 1 off, LED 2 on,
/// output enable 1 off and output enable 2 on; otherwise the opposite. The
/// order is LED 1, LED 2, output enable 1, output enable 2.
pub fn swapped_outputs(toggle: bool) -> (outputs: [bool; 4])
    ensures
        outputs@ == seq![!toggle, toggle, !toggle, toggle],
{
    let outputs = [!toggle, toggle, !toggle, toggle];
    assert(outputs@ =~= seq![!toggle, toggle, !toggle, toggle]);
    outputs
}

} // verus!
