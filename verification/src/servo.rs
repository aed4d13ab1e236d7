//! A servo on a pulse generator: its calibration, and the linear map
//! between angles and pulse widths. Durations are in nanoseconds.

use crate::pio_pwm::{lemma_pio_cycles_monotonic, pio_cycles, period_steps, PioStep, PwmPio, PwmState};
use vstd::arithmetic::div_mod::{lemma_fundamental_div_mod, lemma_mod_bound};
use vstd::prelude::*;

verus! {

/// The shortest pulse sent to a servo that was not calibrated: 1 ms.
pub const DEFAULT_MIN_PULSE_WIDTH: u64 = 1_000_000;

/// The longest pulse sent to a servo that was not calibrated: 2 ms.
pub const DEFAULT_MAX_PULSE_WIDTH: u64 = 2_000_000;

/// The usual period in which a servo expects its pulses: 20 ms.
pub const REFRESH_INTERVAL: u64 = 20_000_000;

/// The usual range of a servo in degrees.
pub const DEFAULT_MAX_DEGREE_ROTATION: u64 = 180;

/// The pulse width that commands `degrees`: the angle's share of the range
/// between `min` and `max`, rounded down, and never more than `max`.
pub open spec fn pulse_for(min: u64, max: u64, max_degrees: u64, degrees: u64) -> int
    recommends
        min <= max,
        max_degrees > 0,
{
    let raw = min + (degrees * (max - min)) / (max_degrees as int);
    if raw > max {
        max as int
    } else {
        raw
    }
}

/// The angle that a pulse of `time` stands for: the greatest angle of the
/// range whose pulse is not longer than `time`. This is the inverse of
/// `pulse_for`: of the angles that share a pulse it gives the greatest, and
/// a pulse beyond the longest gives the end of the range.
pub open spec fn degrees_for(min: u64, max: u64, max_degrees: u64, time: u64) -> int
    recommends
        min <= max,
        max_degrees > 0,
        min <= time,
{
    if max == min {
        max_degrees as int
    } else {
        let angle = ((time - min + 1) * max_degrees - 1) / (max - min);
        if angle > max_degrees {
            max_degrees as int
        } else {
            angle
        }
    }
}

/// Whether `angle` is the greatest angle of the range whose pulse is not
/// longer than `time`.
pub open spec fn is_greatest_angle(
    min: u64,
    max: u64,
    max_degrees: u64,
    time: u64,
    angle: int,
) -> bool {
    &&& 0 <= angle <= max_degrees
    &&& pulse_for(min, max, max_degrees, angle as u64) <= time
    &&& forall|other: u64|
        angle < other <= max_degrees ==> #[trigger] pulse_for(min, max, max_degrees, other) > time
}

/// The pulse of an angle lies between the calibrated limits.
pub proof fn lemma_pulse_in_range(min: u64, max: u64, max_degrees: u64, degrees: u64)
    requires
        min <= max,
        max_degrees > 0,
    ensures
        min <= pulse_for(min, max, max_degrees, degrees) <= max,
{
    let span = max - min;
    let m = max_degrees as int;
    let d = degrees as int;
    assert(0 <= d * span) by (nonlinear_arith)
        requires
            0 <= d,
            0 <= span,
    ;
    lemma_fundamental_div_mod(d * span, m);
    lemma_mod_bound(d * span, m);
    assert(0 <= (d * span) / m) by (nonlinear_arith)
        requires
            d * span == m * ((d * span) / m) + (d * span) % m,
            0 <= (d * span) % m < m,
            0 <= d * span,
            m > 0,
    ;
}

/// An angle at or beyond the end of the range commands the longest pulse.
pub proof fn lemma_clamp(min: u64, max: u64, max_degrees: u64, degrees: u64)
    requires
        min <= max,
        max_degrees > 0,
        degrees >= max_degrees,
    ensures
        pulse_for(min, max, max_degrees, degrees) == max,
{
    let span = max - min;
    let m = max_degrees as int;
    let d = degrees as int;
    lemma_fundamental_div_mod(d * span, m);
    lemma_mod_bound(d * span, m);
    assert((d * span) / m >= span) by (nonlinear_arith)
        requires
            d * span == m * ((d * span) / m) + (d * span) % m,
            0 <= (d * span) % m < m,
            d >= m,
            m > 0,
            span >= 0,
    ;
}

/// The share of the range that `degrees` takes, rounded down, lies at or
/// below `bound` exactly when `degrees * span` lies below `(bound + 1) *
/// max_degrees`.
proof fn lemma_share(degrees: int, span: int, max_degrees: int, bound: int)
    requires
        0 <= degrees,
        0 <= span,
        0 < max_degrees,
    ensures
        0 <= (degrees * span) / max_degrees,
        degrees * span < (bound + 1) * max_degrees <==> (degrees * span) / max_degrees <= bound,
{
    let product = degrees * span;
    let share = product / max_degrees;
    assert(0 <= product) by (nonlinear_arith)
        requires
            product == degrees * span,
            0 <= degrees,
            0 <= span,
    ;
    lemma_fundamental_div_mod(product, max_degrees);
    lemma_mod_bound(product, max_degrees);
    assert(0 <= share) by (nonlinear_arith)
        requires
            product == max_degrees * share + product % max_degrees,
            0 <= product % max_degrees < max_degrees,
            0 <= product,
    ;
    if share <= bound {
        assert(product < (bound + 1) * max_degrees) by (nonlinear_arith)
            requires
                product == max_degrees * share + product % max_degrees,
                0 <= product % max_degrees < max_degrees,
                share <= bound,
                0 < max_degrees,
        ;
    } else {
        assert(product >= (bound + 1) * max_degrees) by (nonlinear_arith)
            requires
                product == max_degrees * share + product % max_degrees,
                0 <= product % max_degrees < max_degrees,
                share >= bound + 1,
                0 < max_degrees,
        ;
    }
}

/// A greater angle never has a shorter pulse.
pub proof fn lemma_pulse_monotonic(min: u64, max: u64, max_degrees: u64, lower: u64, higher: u64)
    requires
        min <= max,
        max_degrees > 0,
        lower <= higher,
    ensures
        pulse_for(min, max, max_degrees, lower) <= pulse_for(min, max, max_degrees, higher),
{
    let span = max - min;
    let m = max_degrees as int;
    let low_share = (lower * span) / m;
    lemma_share(lower as int, span, m, low_share - 1);
    lemma_share(higher as int, span, m, low_share - 1);
    assert(higher * span >= lower * span) by (nonlinear_arith)
        requires
            higher >= lower,
            span >= 0,
    ;
}

/// `degrees_for` gives the greatest angle of the range whose pulse is not
/// longer than the time.
pub proof fn lemma_degrees_for(min: u64, max: u64, max_degrees: u64, time: u64)
    requires
        min <= max,
        max_degrees > 0,
        min <= time,
    ensures
        is_greatest_angle(min, max, max_degrees, time, degrees_for(min, max, max_degrees, time)),
{
    let span = max - min;
    let m = max_degrees as int;
    let above = time - min;
    let angle = degrees_for(min, max, max_degrees, time);
    if span == 0 {
        assert(m * 0 == 0);
        assert(0int / m == 0) by (nonlinear_arith)
            requires
                m > 0,
        ;
        assert(pulse_for(min, max, max_degrees, max_degrees) == min) by {
            assert(max_degrees * (max - min) == 0) by (nonlinear_arith)
                requires
                    max - min == 0,
            ;
        }
    } else {
        let top = (above + 1) * m - 1;
        let found = top / span;
        assert(0 <= top) by (nonlinear_arith)
            requires
                top == (above + 1) * m - 1,
                above >= 0,
                m >= 1,
        ;
        lemma_fundamental_div_mod(top, span);
        lemma_mod_bound(top, span);
        assert(0 <= found) by (nonlinear_arith)
            requires
                top == span * found + top % span,
                0 <= top % span < span,
                0 <= top,
        ;
        assert(0 <= angle <= m);
        // the pulse of the angle is not longer than the time
        assert(angle * span < (above + 1) * m) by (nonlinear_arith)
            requires
                angle <= found,
                0 <= angle,
                span > 0,
                top == span * found + top % span,
                0 <= top % span < span,
                top == (above + 1) * m - 1,
        ;
        lemma_share(angle, span, m, above);
        assert(pulse_for(min, max, max_degrees, angle as u64) <= time);
        // the pulse of every greater angle is longer
        assert forall|other: u64| angle < other <= max_degrees implies #[trigger] pulse_for(
            min,
            max,
            max_degrees,
            other,
        ) > time by {
            assert(angle == found);
            assert(other * span >= (above + 1) * m) by (nonlinear_arith)
                requires
                    other >= found + 1,
                    span > 0,
                    top == span * found + top % span,
                    0 <= top % span < span,
                    top == (above + 1) * m - 1,
            ;
            lemma_share(other as int, span, m, above);
            assert(above + 1 <= span) by (nonlinear_arith)
                requires
                    found < m,
                    top == span * found + top % span,
                    0 <= top % span < span,
                    top == (above + 1) * m - 1,
                    m > 0,
                    span > 0,
            ;
        }
    }
}

/// Converting an angle of the range to a pulse and back gives an angle with
/// the same pulse, and never a smaller one. Where the calibrated range has
/// at least one nanosecond for each degree, no two angles share a pulse, and
/// the way back gives the angle itself.
pub proof fn lemma_round_trip(min: u64, max: u64, max_degrees: u64, degrees: u64)
    requires
        min <= max,
        max_degrees > 0,
        degrees <= max_degrees,
    ensures
        min <= pulse_for(min, max, max_degrees, degrees) <= max,
        ({
            let pulse = pulse_for(min, max, max_degrees, degrees);
            let back = degrees_for(min, max, max_degrees, pulse as u64);
            &&& degrees <= back <= max_degrees
            &&& pulse_for(min, max, max_degrees, back as u64) == pulse
            &&& max - min >= max_degrees ==> back == degrees
        }),
{
    lemma_pulse_in_range(min, max, max_degrees, degrees);
    let span = max - min;
    let m = max_degrees as int;
    let pulse = pulse_for(min, max, max_degrees, degrees) as u64;
    let back = degrees_for(min, max, max_degrees, pulse);
    lemma_degrees_for(min, max, max_degrees, pulse);
    if back < degrees {
        assert(pulse_for(min, max, max_degrees, degrees) > pulse);
    }
    lemma_pulse_monotonic(min, max, max_degrees, degrees, back as u64);
    if span >= m && back > degrees {
        let share = (degrees * span) / m;
        lemma_share(degrees as int, span, m, share - 1);
        lemma_share(degrees as int, span, m, span);
        assert(degrees * span < (span + 1) * m) by (nonlinear_arith)
            requires
                degrees <= m,
                span >= 0,
                m > 0,
        ;
        assert(back * span >= (share + 1) * m) by (nonlinear_arith)
            requires
                back >= degrees + 1,
                degrees * span >= (share - 1 + 1) * m,
                span >= m,
                m > 0,
        ;
        lemma_share(back, span, m, share);
        lemma_share(back, span, m, span);
        assert(back * span < (span + 1) * m) by (nonlinear_arith)
            requires
                back <= m,
                span >= 0,
                m > 0,
        ;
        assert(pulse_for(min, max, max_degrees, back as u64) > pulse);
    }
}

/// The pulse of the angle that a time stands for is close below the time:
/// on a range that is no single point, and for a time inside it, the gap is
/// less than the width of one degree.
pub proof fn lemma_angle_gap(min: u64, max: u64, max_degrees: u64, time: u64)
    requires
        min < max,
        max_degrees > 0,
        min <= time <= max,
    ensures
        ({
            let angle = degrees_for(min, max, max_degrees, time);
            let pulse = pulse_for(min, max, max_degrees, angle as u64);
            &&& pulse <= time
            &&& (time - pulse) * max_degrees < max - min
        }),
{
    let span = max - min;
    let m = max_degrees as int;
    let above = time - min;
    let angle = degrees_for(min, max, max_degrees, time);
    lemma_degrees_for(min, max, max_degrees, time);
    lemma_pulse_in_range(min, max, max_degrees, angle as u64);
    let pulse = pulse_for(min, max, max_degrees, angle as u64);
    if angle == m {
        lemma_clamp(min, max, max_degrees, max_degrees);
        assert((time - pulse) * m == 0) by (nonlinear_arith)
            requires
                time - pulse == 0,
        ;
    } else {
        let next = (angle + 1) as u64;
        assert(pulse_for(min, max, max_degrees, next) > time);
        let share = (angle * span) / m;
        lemma_share(angle, span, m, share);
        lemma_share(angle, span, m, span);
        assert(angle * span < (span + 1) * m) by (nonlinear_arith)
            requires
                angle <= m,
                span >= 0,
                m > 0,
        ;
        assert(pulse == min + share);
        lemma_share(next as int, span, m, above);
        lemma_share(next as int, span, m, span);
        assert(next * span < (span + 1) * m) by (nonlinear_arith)
            requires
                next <= m,
                span >= 0,
                m > 0,
        ;
        assert((above - share) * m < span) by (nonlinear_arith)
            requires
                (angle + 1) * span >= (above + 1) * m,
                angle * span < (share + 1) * m,
        ;
    }
}

/// Why a calibration was refused.
#[derive(Clone, Copy, Debug, PartialEq, Eq, Structural)]
pub enum ServoError {
    /// The servo is said to turn by no degree at all.
    NoRotation,
    /// The shortest pulse is longer than the longest.
    PulseRangeInverted,
    /// The period takes more counts than the pulse generator holds.
    PeriodTooLong,
    /// The longest pulse takes more counts than the pulse generator holds.
    PulseTooLong,
}

/// What a servo builder stands for.
pub struct ServoSetup {
    pub pwm: PwmState,
    pub period: u64,
    pub min_pulse_width: u64,
    pub max_pulse_width: u64,
    pub max_degree_rotation: u64,
}

/// What is wrong with a calibration, if anything; the first fault found
/// counts.
pub open spec fn setup_fault(setup: ServoSetup) -> Option<ServoError> {
    if setup.max_degree_rotation == 0 {
        Some(ServoError::NoRotation)
    } else if setup.min_pulse_width > setup.max_pulse_width {
        Some(ServoError::PulseRangeInverted)
    } else if pio_cycles(setup.pwm.clk_sys_hz, setup.period) > u32::MAX {
        Some(ServoError::PeriodTooLong)
    } else if pio_cycles(setup.pwm.clk_sys_hz, setup.max_pulse_width) > u32::MAX {
        Some(ServoError::PulseTooLong)
    } else {
        None
    }
}

/// Collects the calibration of a servo.
pub struct ServoBuilder {
    pwm: PwmPio,
    period: u64,
    min_pulse_width: u64,
    max_pulse_width: u64,
    max_degree_rotation: u64,
}

impl View for ServoBuilder {
    type V = ServoSetup;

    closed spec fn view(&self) -> ServoSetup {
        ServoSetup {
            pwm: self.pwm@,
            period: self.period,
            min_pulse_width: self.min_pulse_width,
            max_pulse_width: self.max_pulse_width,
            max_degree_rotation: self.max_degree_rotation,
        }
    }
}

impl ServoBuilder {
    /// A builder with the usual values: a period of 20 ms, pulses from 1 ms
    /// to 2 ms, a range of 180 degrees.
    pub fn new(pwm: PwmPio) -> (r: Self)
        ensures
            r@ == (ServoSetup {
                pwm: pwm@,
                period: REFRESH_INTERVAL,
                min_pulse_width: DEFAULT_MIN_PULSE_WIDTH,
                max_pulse_width: DEFAULT_MAX_PULSE_WIDTH,
                max_degree_rotation: DEFAULT_MAX_DEGREE_ROTATION,
            }),
    {
        ServoBuilder {
            pwm,
            period: REFRESH_INTERVAL,
            min_pulse_width: DEFAULT_MIN_PULSE_WIDTH,
            max_pulse_width: DEFAULT_MAX_PULSE_WIDTH,
            max_degree_rotation: DEFAULT_MAX_DEGREE_ROTATION,
        }
    }

    /// Sets the period of the wave.
    pub fn set_period(self, duration: u64) -> (r: Self)
        ensures
            r@ == (ServoSetup { period: duration, ..self@ }),
    {
        let mut builder = self;
        builder.period = duration;
        builder
    }

    /// Sets the pulse width that stands for 0 degrees.
    pub fn set_min_pulse_width(self, duration: u64) -> (r: Self)
        ensures
            r@ == (ServoSetup { min_pulse_width: duration, ..self@ }),
    {
        let mut builder = self;
        builder.min_pulse_width = duration;
        builder
    }

    /// Sets the pulse width that stands for the full rotation.
    pub fn set_max_pulse_width(self, duration: u64) -> (r: Self)
        ensures
            r@ == (ServoSetup { max_pulse_width: duration, ..self@ }),
    {
        let mut builder = self;
        builder.max_pulse_width = duration;
        builder
    }

    /// Sets the number of degrees that the servo can turn.
    pub fn set_max_degree_rotation(self, degree: u64) -> (r: Self)
        ensures
            r@ == (ServoSetup { max_degree_rotation: degree, ..self@ }),
    {
        let mut builder = self;
        builder.max_degree_rotation = degree;
        builder
    }

    /// Checks the calibration and makes the servo. A faulty calibration is
    /// refused. Else the period is loaded into the pulse generator, and the
    /// servo stands at the shortest pulse.
    pub fn build(self) -> (r: Result<Servo, ServoError>)
        ensures
            match r {
                Ok(servo) => {
                    &&& setup_fault(self@) is None
                    &&& servo.wf()
                    &&& servo@ == (ServoState {
                        pwm: PwmState {
                            period: pio_cycles(self@.pwm.clk_sys_hz, self@.period) as u32,
                            pending: self@.pwm.pending + period_steps(
                                pio_cycles(self@.pwm.clk_sys_hz, self@.period) as u32,
                                self@.pwm.enabled,
                            ),
                            ..self@.pwm
                        },
                        min_pulse_width: self@.min_pulse_width,
                        max_pulse_width: self@.max_pulse_width,
                        max_degree_rotation: self@.max_degree_rotation,
                        last_time_written: self@.min_pulse_width,
                    })
                },
                Err(e) => setup_fault(self@) == Some(e),
            },
    {
        if self.max_degree_rotation == 0 {
            return Err(ServoError::NoRotation);
        }
        if self.min_pulse_width > self.max_pulse_width {
            return Err(ServoError::PulseRangeInverted);
        }
        let clk: u32 = self.pwm.clk_sys_hz();
        if crate::pio_pwm::to_pio_cycles(clk, self.period).is_none() {
            return Err(ServoError::PeriodTooLong);
        }
        if crate::pio_pwm::to_pio_cycles(clk, self.max_pulse_width).is_none() {
            return Err(ServoError::PulseTooLong);
        }
        let mut pwm = self.pwm;
        let loaded = pwm.set_period(self.period);
        assert(loaded is Ok);
        Ok(
            Servo {
                pwm,
                min_pulse_width: self.min_pulse_width,
                max_pulse_width: self.max_pulse_width,
                max_degree_rotation: self.max_degree_rotation,
                last_time_written: self.min_pulse_width,
            },
        )
    }
}

/// What a servo stands for.
pub struct ServoState {
    pub pwm: PwmState,
    pub min_pulse_width: u64,
    pub max_pulse_width: u64,
    pub max_degree_rotation: u64,
    /// The pulse width that was commanded last.
    pub last_time_written: u64,
}

impl ServoState {
    /// The invariant of a servo: it can turn, its pulse range is in order,
    /// the commanded pulse lies in that range, and every pulse of the range
    /// fits the pulse generator.
    pub open spec fn valid(self) -> bool {
        &&& self.max_degree_rotation > 0
        &&& self.min_pulse_width <= self.last_time_written <= self.max_pulse_width
        &&& pio_cycles(self.pwm.clk_sys_hz, self.max_pulse_width) <= u32::MAX
    }

    /// The state after a pulse of `time` has been commanded.
    pub open spec fn commanded(self, time: u64) -> ServoState {
        ServoState {
            pwm: PwmState {
                level: pio_cycles(self.pwm.clk_sys_hz, time) as u32,
                pending: self.pwm.pending.push(
                    PioStep::PushTx(pio_cycles(self.pwm.clk_sys_hz, time) as u32),
                ),
                ..self.pwm
            },
            last_time_written: time,
            ..self
        }
    }
}

/// `time` brought into the range from `min` to `max`.
pub open spec fn clamp_time(min: u64, max: u64, time: u64) -> u64 {
    if time < min {
        min
    } else if time > max {
        max
    } else {
        time
    }
}

/// A calibrated servo on its pulse generator.
pub struct Servo {
    pwm: PwmPio,
    min_pulse_width: u64,
    max_pulse_width: u64,
    max_degree_rotation: u64,
    last_time_written: u64,
}

/// How a servo approaches its target over time.
pub enum EasingFunction {
    Cubic,
}

impl View for Servo {
    type V = ServoState;

    closed spec fn view(&self) -> ServoState {
        ServoState {
            pwm: self.pwm@,
            min_pulse_width: self.min_pulse_width,
            max_pulse_width: self.max_pulse_width,
            max_degree_rotation: self.max_degree_rotation,
            last_time_written: self.last_time_written,
        }
    }
}

impl Servo {
    /// Whether the servo is valid. Every servo that `build` makes is, and
    /// every operation keeps it so.
    pub open spec fn wf(&self) -> bool {
        self@.valid()
    }

    /// The number of degrees that the servo can turn.
    pub fn max_degree_rotation(&self) -> (r: u64)
        ensures
            r == self@.max_degree_rotation,
    {
        self.max_degree_rotation
    }

    /// The pulse width that stands for 0 degrees.
    pub fn min_pulse_width(&self) -> (r: u64)
        ensures
            r == self@.min_pulse_width,
    {
        self.min_pulse_width
    }

    /// The pulse width that stands for the full rotation.
    pub fn max_pulse_width(&self) -> (r: u64)
        ensures
            r == self@.max_pulse_width,
    {
        self.max_pulse_width
    }

    /// The pulse width that was commanded last.
    pub fn last_time_written(&self) -> (r: u64)
        ensures
            r == self@.last_time_written,
    {
        self.last_time_written
    }

    /// Switches the wave on.
    pub fn start(&mut self)
        ensures
            final(self)@ == (ServoState {
                pwm: PwmState {
                    enabled: true,
                    pending: old(self)@.pwm.pending.push(PioStep::SetEnable(true)),
                    ..old(self)@.pwm
                },
                ..old(self)@
            }),
    {
        self.pwm.start();
    }

    /// Switches the wave off.
    pub fn stop(&mut self)
        ensures
            final(self)@ == (ServoState {
                pwm: PwmState {
                    enabled: false,
                    pending: old(self)@.pwm.pending.push(PioStep::SetEnable(false)),
                    ..old(self)@.pwm
                },
                ..old(self)@
            }),
    {
        self.pwm.stop();
    }

    /// Commands a pulse of `duration`, brought into the calibrated range
    /// first.
    pub fn write_time(&mut self, duration: u64)
        requires
            old(self).wf(),
        ensures
            final(self).wf(),
            final(self)@ == old(self)@.commanded(
                clamp_time(old(self)@.min_pulse_width, old(self)@.max_pulse_width, duration),
            ),
    {
        let time: u64 = if duration < self.min_pulse_width {
            self.min_pulse_width
        } else if duration > self.max_pulse_width {
            self.max_pulse_width
        } else {
            duration
        };
        proof {
            lemma_pio_cycles_monotonic(self@.pwm.clk_sys_hz, time, self.max_pulse_width);
        }
        let written = self.pwm.write(time);
        assert(written is Ok);
        self.last_time_written = time;
    }

    /// Turns the servo to `degree`. An angle beyond the range turns it to
    /// the end of the range.
    pub fn rotate(&mut self, degree: u64)
        requires
            old(self).wf(),
        ensures
            final(self).wf(),
            final(self)@ == old(self)@.commanded(
                pulse_for(
                    old(self)@.min_pulse_width,
                    old(self)@.max_pulse_width,
                    old(self)@.max_degree_rotation,
                    degree,
                ) as u64,
            ),
    {
        let duration: u64 = self.degrees_to_time(degree);
        self.write_time(duration);
    }

    /// The pulse width that commands `degree`.
    pub fn degrees_to_time(&self, degree: u64) -> (r: u64)
        requires
            self.wf(),
        ensures
            r == pulse_for(
                self@.min_pulse_width,
                self@.max_pulse_width,
                self@.max_degree_rotation,
                degree,
            ),
            self@.min_pulse_width <= r <= self@.max_pulse_width,
    {
        proof {
            lemma_pulse_in_range(
                self.min_pulse_width,
                self.max_pulse_width,
                self.max_degree_rotation,
                degree,
            );
        }
        let span: u64 = self.max_pulse_width - self.min_pulse_width;
        assert(degree as int * span as int <= 0xffff_ffff_ffff_ffff * 0xffff_ffff_ffff_ffff)
            by (nonlinear_arith)
            requires
                0 <= degree <= 0xffff_ffff_ffff_ffff,
                0 <= span <= 0xffff_ffff_ffff_ffff,
        ;
        let share: u128 = (degree as u128) * (span as u128) / (self.max_degree_rotation as u128);
        if share >= span as u128 {
            self.max_pulse_width
        } else {
            self.min_pulse_width + (share as u64)
        }
    }

    /// The angle that a pulse of `time` stands for: the greatest angle of
    /// the range whose pulse is not longer than `time`. The time must not be
    /// below the shortest pulse, which no angle has.
    pub fn time_to_degree(&self, time: u64) -> (r: u64)
        requires
            self.wf(),
            self@.min_pulse_width <= time,
        ensures
            r == degrees_for(
                self@.min_pulse_width,
                self@.max_pulse_width,
                self@.max_degree_rotation,
                time,
            ),
            is_greatest_angle(
                self@.min_pulse_width,
                self@.max_pulse_width,
                self@.max_degree_rotation,
                time,
                r as int,
            ),
    {
        proof {
            lemma_degrees_for(
                self.min_pulse_width,
                self.max_pulse_width,
                self.max_degree_rotation,
                time,
            );
        }
        let span: u64 = self.max_pulse_width - self.min_pulse_width;
        if span == 0 {
            return self.max_degree_rotation;
        }
        let above: u64 = time - self.min_pulse_width;
        assert(1 <= (above as int + 1) * self.max_degree_rotation as int <= 0x1_0000_0000_0000_0000
            * 0xffff_ffff_ffff_ffff) by (nonlinear_arith)
            requires
                0 <= above <= 0xffff_ffff_ffff_ffff,
                1 <= self.max_degree_rotation <= 0xffff_ffff_ffff_ffff,
        ;
        let top: u128 = (above as u128 + 1) * (self.max_degree_rotation as u128) - 1;
        let angle: u128 = top / (span as u128);
        if angle > self.max_degree_rotation as u128 {
            self.max_degree_rotation
        } else {
            angle as u64
        }
    }

    /// Gives the servo up and hands out its pulse generator.
    pub fn release(self) -> (pwm: PwmPio)
        ensures
            pwm@ == self@.pwm,
    {
        self.pwm
    }

    /// Hands out the hardware operations that are to be carried out, oldest
    /// first, and leaves none behind.
    pub fn take_steps(&mut self) -> (steps: Vec<PioStep>)
        ensures
            steps@ == old(self)@.pwm.pending,
            final(self)@ == (ServoState {
                pwm: PwmState { pending: Seq::<PioStep>::empty(), ..old(self)@.pwm },
                ..old(self)@
            }),
    {
        self.pwm.take_steps()
    }
}

} // verus!
