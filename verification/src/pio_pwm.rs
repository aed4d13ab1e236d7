//! The pulse generator: a state machine of the timing coprocessor that
//! counts a period down and holds its pin high for the last `level` cycles.
//!
//! The generator is kept as a record of what the hardware has been told,
//! together with the list of hardware operations that are still to be
//! carried out, in order.

use vstd::prelude::*;

verus! {

/// The number of coprocessor cycles that the counting loop spends on one
/// count.
pub const CYCLES_PER_COUNT: u32 = 3;

/// The number of counts that last as long as `nanos` nanoseconds on a system
/// clock of `clk_sys_hz` hertz: whole clock ticks per microsecond, a third of
/// them, times the whole microseconds of the duration.
pub open spec fn pio_cycles(clk_sys_hz: u32, nanos: u64) -> int {
    (clk_sys_hz as int / 1_000_000 / 3) * (nanos as int / 1000)
}

/// A longer duration never takes fewer counts.
pub proof fn lemma_pio_cycles_monotonic(clk_sys_hz: u32, shorter: u64, longer: u64)
    requires
        shorter <= longer,
    ensures
        0 <= pio_cycles(clk_sys_hz, shorter) <= pio_cycles(clk_sys_hz, longer),
{
    let per = clk_sys_hz as int / 1_000_000 / 3;
    let a = shorter as int / 1000;
    let b = longer as int / 1000;
    assert(0 <= per * a <= per * b) by (nonlinear_arith)
        requires
            0 <= per,
            0 <= a <= b,
    ;
}

/// Converts a duration into counts of the coprocessor's loop; none where
/// the count does not fit the coprocessor's 32-bit registers.
pub fn to_pio_cycles(clk_sys_hz: u32, nanos: u64) -> (r: Option<u32>)
    ensures
        r is Some <==> pio_cycles(clk_sys_hz, nanos) <= u32::MAX,
        r matches Some(cycles) ==> cycles == pio_cycles(clk_sys_hz, nanos),
{
    let per_micro: u32 = clk_sys_hz / 1_000_000 / CYCLES_PER_COUNT;
    let micros: u64 = nanos / 1000;
    assert(per_micro as int * micros as int <= 0xffff_ffff * 0xffff_ffff_ffff_ffff) by (nonlinear_arith)
        requires
            0 <= per_micro <= 0xffff_ffff,
            0 <= micros <= 0xffff_ffff_ffff_ffff,
    ;
    let cycles: u128 = (per_micro as u128) * (micros as u128);
    if cycles > 0xffff_ffff {
        None
    } else {
        Some(cycles as u32)
    }
}

/// An instruction that the state machine is made to execute at once
/// while a period is loaded.
#[derive(Clone, Copy, Debug, PartialEq, Eq, Structural)]
pub enum ShiftInstruction {
    /// `pull`: take a word from the transmit queue into the output shift
    /// register.
    Pull { if_empty: bool, block: bool },
    /// `out isr, bit_count`: shift bits from the output shift register
    /// into the input shift register.
    OutIsr { bit_count: u8 },
}

/// The machine word of an instruction without delay or side-set. A `pull`
/// is `0x8080` plus the bits `0x40` for `if_empty` and `0x20` for `block`. An
/// `out` to the input shift register is `0x60c0` plus the bit count, where a
/// count of 32 is written as 0.
pub open spec fn instruction_word(instruction: ShiftInstruction) -> u16 {
    match instruction {
        ShiftInstruction::Pull { if_empty, block } => (0x8080 + if if_empty {
            0x40int
        } else {
            0
        } + if block {
            0x20int
        } else {
            0
        }) as u16,
        ShiftInstruction::OutIsr { bit_count } => (0x60c0 + bit_count as int % 32) as u16,
    }
}

/// Calls `pio::InstructionOperands::encode`. The encoder writes the
/// instruction class into the top three bits (`100` for a pull, `011` for an
/// out), leaves the five bits for delay and side-set 0, and fills the low
/// eight bits: for a pull the bits `1`, `if_empty`, `block` and five bits of
/// 0; for an out the destination `110` and the low five bits of the count.
/// It panics on a count of 0 or above 32.
#[verifier::external_body]
fn encode(instruction: ShiftInstruction) -> (word: u16)
    requires
        instruction matches ShiftInstruction::OutIsr { bit_count } ==> 1 <= bit_count <= 32,
    ensures
        word == instruction_word(instruction),
{
    match instruction {
        ShiftInstruction::Pull { if_empty, block } => pio::InstructionOperands::PULL {
            if_empty,
            block,
        },
        ShiftInstruction::OutIsr { bit_count } => pio::InstructionOperands::OUT {
            destination: pio::OutDestination::ISR,
            bit_count,
        },
    }.encode()
}

/// One operation on the state machine of the coprocessor.
#[derive(Clone, Copy, Debug, PartialEq, Eq, Structural)]
pub enum PioStep {
    /// Wait until the state machine has taken everything out of its
    /// transmit queue.
    DrainTx,
    /// Switch the state machine on or off.
    SetEnable(bool),
    /// Put a word into the transmit queue.
    PushTx(u32),
    /// Have the state machine execute one instruction at once.
    Exec(u16),
}

/// Why a duration was not accepted.
#[derive(Clone, Copy, Debug, PartialEq, Eq, Structural)]
pub enum PwmError {
    /// The duration takes more counts than a 32-bit register holds.
    DurationTooLong,
}

/// What the pulse generator stands for.
pub struct PwmState {
    /// The system clock in hertz.
    pub clk_sys_hz: u32,
    /// Whether the wave is being put out.
    pub enabled: bool,
    /// The period in counts.
    pub period: u32,
    /// The high time in counts, as last commanded.
    pub level: u32,
    /// The operations that are still to be carried out, oldest first.
    pub pending: Seq<PioStep>,
}

/// The operations that load a new period of `cycles` counts: let the
/// queue drain, switch off, queue the period, pull it into the output shift
/// register and move it on to the input shift register, from where the
/// program reloads its counter; then switch on again if the wave was on.
pub open spec fn period_steps(cycles: u32, enabled: bool) -> Seq<PioStep> {
    let load = seq![
        PioStep::DrainTx,
        PioStep::SetEnable(false),
        PioStep::PushTx(cycles),
        PioStep::Exec(instruction_word(ShiftInstruction::Pull { if_empty: false, block: false })),
        PioStep::Exec(instruction_word(ShiftInstruction::OutIsr { bit_count: 32 })),
    ];
    if enabled {
        load.push(PioStep::SetEnable(true))
    } else {
        load
    }
}

/// A pulse generator on one pin.
pub struct PwmPio {
    clk_sys_hz: u32,
    enabled: bool,
    period: u32,
    level: u32,
    pending: Vec<PioStep>,
}

impl View for PwmPio {
    type V = PwmState;

    closed spec fn view(&self) -> PwmState {
        PwmState {
            clk_sys_hz: self.clk_sys_hz,
            enabled: self.enabled,
            period: self.period,
            level: self.level,
            pending: self.pending@,
        }
    }
}

impl PwmPio {
    /// A generator on a system clock of `clk_sys_hz` hertz: switched off,
    /// with no period and no high time yet, and nothing to carry out.
    pub fn attach(clk_sys_hz: u32) -> (r: Self)
        ensures
            r@ == (PwmState {
                clk_sys_hz,
                enabled: false,
                period: 0,
                level: 0,
                pending: Seq::<PioStep>::empty(),
            }),
    {
        PwmPio { clk_sys_hz, enabled: false, period: 0, level: 0, pending: Vec::new() }
    }

    /// The system clock in hertz.
    pub fn clk_sys_hz(&self) -> (r: u32)
        ensures
            r == self@.clk_sys_hz,
    {
        self.clk_sys_hz
    }

    /// Whether the wave is being put out.
    pub fn is_enabled(&self) -> (r: bool)
        ensures
            r == self@.enabled,
    {
        self.enabled
    }

    /// The period in counts.
    pub fn period(&self) -> (r: u32)
        ensures
            r == self@.period,
    {
        self.period
    }

    /// The high time in counts, as last commanded.
    pub fn level(&self) -> (r: u32)
        ensures
            r == self@.level,
    {
        self.level
    }

    /// Switches the wave on. Period and high time stay as they are.
    pub fn start(&mut self)
        ensures
            final(self)@ == (PwmState {
                enabled: true,
                pending: old(self)@.pending.push(PioStep::SetEnable(true)),
                ..old(self)@
            }),
    {
        self.pending.push(PioStep::SetEnable(true));
        self.enabled = true;
    }

    /// Switches the wave off. Period and high time stay as they are.
    pub fn stop(&mut self)
        ensures
            final(self)@ == (PwmState {
                enabled: false,
                pending: old(self)@.pending.push(PioStep::SetEnable(false)),
                ..old(self)@
            }),
    {
        self.pending.push(PioStep::SetEnable(false));
        self.enabled = false;
    }

    /// Sets the period of the wave to `nanos` nanoseconds. The period is
    /// loaded while the state machine is off and its queue is empty; a wave
    /// that was on is switched on again. A period of too many counts is
    /// refused and nothing changes.
    pub fn set_period(&mut self, nanos: u64) -> (r: Result<(), PwmError>)
        ensures
            r is Ok <==> pio_cycles(old(self)@.clk_sys_hz, nanos) <= u32::MAX,
            r is Err ==> r->Err_0 == PwmError::DurationTooLong && *final(self) == *old(self),
            r is Ok ==> final(self)@ == (PwmState {
                period: pio_cycles(old(self)@.clk_sys_hz, nanos) as u32,
                pending: old(self)@.pending + period_steps(
                    pio_cycles(old(self)@.clk_sys_hz, nanos) as u32,
                    old(self)@.enabled,
                ),
                ..old(self)@
            }),
    {
        let cycles: u32 = match to_pio_cycles(self.clk_sys_hz, nanos) {
            Some(cycles) => cycles,
            None => {
                return Err(PwmError::DurationTooLong);
            },
        };
        let ghost before = self.pending@;
        self.pending.push(PioStep::DrainTx);
        self.pending.push(PioStep::SetEnable(false));
        self.pending.push(PioStep::PushTx(cycles));
        self.pending.push(
            PioStep::Exec(encode(ShiftInstruction::Pull { if_empty: false, block: false })),
        );
        self.pending.push(PioStep::Exec(encode(ShiftInstruction::OutIsr { bit_count: 32 })));
        if self.enabled {
            self.pending.push(PioStep::SetEnable(true));
        }
        self.period = cycles;
        assert(self.pending@ =~= before + period_steps(cycles, self.enabled));
        Ok(())
    }

    /// Commands a high time of `level` counts. The state machine takes it
    /// from its queue at the start of a period, never inside a pulse.
    pub fn set_level(&mut self, level: u32)
        ensures
            final(self)@ == (PwmState {
                level,
                pending: old(self)@.pending.push(PioStep::PushTx(level)),
                ..old(self)@
            }),
    {
        self.pending.push(PioStep::PushTx(level));
        self.level = level;
    }

    /// Commands a high time of `nanos` nanoseconds. One of too many counts
    /// is refused and nothing changes.
    pub fn write(&mut self, nanos: u64) -> (r: Result<(), PwmError>)
        ensures
            r is Ok <==> pio_cycles(old(self)@.clk_sys_hz, nanos) <= u32::MAX,
            r is Err ==> r->Err_0 == PwmError::DurationTooLong && *final(self) == *old(self),
            r is Ok ==> final(self)@ == (PwmState {
                level: pio_cycles(old(self)@.clk_sys_hz, nanos) as u32,
                pending: old(self)@.pending.push(
                    PioStep::PushTx(pio_cycles(old(self)@.clk_sys_hz, nanos) as u32),
                ),
                ..old(self)@
            }),
    {
        match to_pio_cycles(self.clk_sys_hz, nanos) {
            Some(cycles) => {
                self.set_level(cycles);
                Ok(())
            },
            None => Err(PwmError::DurationTooLong),
        }
    }

    /// Hands out the operations that are to be carried out, oldest first,
    /// and leaves none behind.
    pub fn take_steps(&mut self) -> (steps: Vec<PioStep>)
        ensures
            steps@ == old(self)@.pending,
            final(self)@ == (PwmState { pending: Seq::<PioStep>::empty(), ..old(self)@ }),
    {
        let mut steps: Vec<PioStep> = Vec::new();
        core::mem::swap(&mut self.pending, &mut steps);
        steps
    }

    /// Gives the generator up; what was still to be carried out is handed
    /// out.
    pub fn release(self) -> (steps: Vec<PioStep>)
        ensures
            steps@ == self@.pending,
    {
        self.pending
    }
}

} // verus!
