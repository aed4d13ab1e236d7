use devil_arm::pio_pwm::{to_pio_cycles, PioStep, PwmError, PwmPio};
use devil_arm::servo::{
    Servo, ServoBuilder, ServoError, DEFAULT_MAX_DEGREE_ROTATION, DEFAULT_MAX_PULSE_WIDTH,
    DEFAULT_MIN_PULSE_WIDTH, REFRESH_INTERVAL,
};

const CLK: u32 = 125_000_000;

fn calibrated() -> Servo {
    ServoBuilder::new(PwmPio::attach(CLK))
        .set_max_degree_rotation(180)
        .set_min_pulse_width(500_000)
        .set_max_pulse_width(2_500_000)
        .build()
        .unwrap()
}

#[test]
fn cycles_are_a_third_of_the_clock_ticks() {
    assert_eq!(to_pio_cycles(CLK, 1_500_000), Some(61_500));
    assert_eq!(to_pio_cycles(CLK, 20_000_000), Some(820_000));
    assert_eq!(to_pio_cycles(CLK, 999), Some(0));
    assert_eq!(to_pio_cycles(2_999_999, 5_000_000), Some(0));
    assert_eq!(to_pio_cycles(3_000_000, 5_000_000), Some(5_000));
}

#[test]
fn cycles_that_do_not_fit_are_refused() {
    assert_eq!(to_pio_cycles(CLK, u64::MAX), None);
    // 41 counts per microsecond: 104_755_299 microseconds are the most that fit
    assert_eq!(to_pio_cycles(CLK, 104_755_299_000), Some(4_294_967_259));
    assert_eq!(to_pio_cycles(CLK, 104_755_300_000), None);
}

#[test]
fn attach_starts_switched_off() {
    let mut pwm = PwmPio::attach(CLK);
    assert_eq!(pwm.clk_sys_hz(), CLK);
    assert!(!pwm.is_enabled());
    assert_eq!(pwm.period(), 0);
    assert_eq!(pwm.level(), 0);
    assert!(pwm.take_steps().is_empty());
}

#[test]
fn set_period_loads_through_the_shift_registers() {
    let mut pwm = PwmPio::attach(CLK);
    assert_eq!(pwm.set_period(20_000_000), Ok(()));
    assert_eq!(pwm.period(), 820_000);
    assert_eq!(
        pwm.take_steps(),
        vec![
            PioStep::DrainTx,
            PioStep::SetEnable(false),
            PioStep::PushTx(820_000),
            PioStep::Exec(0x8080),
            PioStep::Exec(0x60c0),
        ]
    );
}

#[test]
fn set_period_switches_a_running_wave_on_again() {
    let mut pwm = PwmPio::attach(CLK);
    pwm.start();
    assert_eq!(pwm.set_period(1_000_000), Ok(()));
    assert!(pwm.is_enabled());
    assert_eq!(
        pwm.take_steps(),
        vec![
            PioStep::SetEnable(true),
            PioStep::DrainTx,
            PioStep::SetEnable(false),
            PioStep::PushTx(41_000),
            PioStep::Exec(0x8080),
            PioStep::Exec(0x60c0),
            PioStep::SetEnable(true),
        ]
    );
}

#[test]
fn a_period_that_does_not_fit_changes_nothing() {
    let mut pwm = PwmPio::attach(CLK);
    assert_eq!(pwm.set_period(u64::MAX), Err(PwmError::DurationTooLong));
    assert_eq!(pwm.period(), 0);
    assert_eq!(pwm.write(u64::MAX), Err(PwmError::DurationTooLong));
    assert_eq!(pwm.level(), 0);
    assert!(pwm.take_steps().is_empty());
}

#[test]
fn start_stop_and_write_are_queued_in_order() {
    let mut pwm = PwmPio::attach(CLK);
    pwm.start();
    assert_eq!(pwm.write(1_000_000), Ok(()));
    pwm.set_level(7);
    pwm.stop();
    assert!(!pwm.is_enabled());
    assert_eq!(pwm.level(), 7);
    assert_eq!(
        pwm.release(),
        vec![
            PioStep::SetEnable(true),
            PioStep::PushTx(41_000),
            PioStep::PushTx(7),
            PioStep::SetEnable(false),
        ]
    );
}

#[test]
fn builder_defaults() {
    assert_eq!(DEFAULT_MIN_PULSE_WIDTH, 1_000_000);
    assert_eq!(DEFAULT_MAX_PULSE_WIDTH, 2_000_000);
    assert_eq!(REFRESH_INTERVAL, 20_000_000);
    assert_eq!(DEFAULT_MAX_DEGREE_ROTATION, 180);
    let mut servo = ServoBuilder::new(PwmPio::attach(CLK)).build().unwrap();
    assert_eq!(servo.min_pulse_width(), 1_000_000);
    assert_eq!(servo.max_pulse_width(), 2_000_000);
    assert_eq!(servo.max_degree_rotation(), 180);
    assert_eq!(servo.last_time_written(), 1_000_000);
    let steps = servo.take_steps();
    assert_eq!(steps.len(), 5);
    assert_eq!(steps[2], PioStep::PushTx(820_000));
}

#[test]
fn faulty_calibrations_are_refused() {
    let no_rotation = ServoBuilder::new(PwmPio::attach(CLK)).set_max_degree_rotation(0).build();
    assert_eq!(no_rotation.err(), Some(ServoError::NoRotation));
    let inverted = ServoBuilder::new(PwmPio::attach(CLK))
        .set_min_pulse_width(2_500_000)
        .set_max_pulse_width(500_000)
        .build();
    assert_eq!(inverted.err(), Some(ServoError::PulseRangeInverted));
    let period = ServoBuilder::new(PwmPio::attach(CLK)).set_period(u64::MAX).build();
    assert_eq!(period.err(), Some(ServoError::PeriodTooLong));
    let pulse = ServoBuilder::new(PwmPio::attach(CLK)).set_max_pulse_width(u64::MAX).build();
    assert_eq!(pulse.err(), Some(ServoError::PulseTooLong));
    let both = ServoBuilder::new(PwmPio::attach(CLK))
        .set_max_degree_rotation(0)
        .set_min_pulse_width(3)
        .set_max_pulse_width(2)
        .build();
    assert_eq!(both.err(), Some(ServoError::NoRotation));
}

#[test]
fn a_single_point_range_is_accepted() {
    let servo = ServoBuilder::new(PwmPio::attach(CLK))
        .set_min_pulse_width(1_500_000)
        .set_max_pulse_width(1_500_000)
        .build()
        .unwrap();
    assert_eq!(servo.degrees_to_time(0), 1_500_000);
    assert_eq!(servo.degrees_to_time(90), 1_500_000);
}

#[test]
fn degrees_map_linearly_to_pulses() {
    let servo = calibrated();
    assert_eq!(servo.degrees_to_time(0), 500_000);
    assert_eq!(servo.degrees_to_time(90), 1_500_000);
    assert_eq!(servo.degrees_to_time(180), 2_500_000);
    assert_eq!(servo.degrees_to_time(1), 511_111);
    assert_eq!(servo.degrees_to_time(179), 2_488_888);
}

#[test]
fn degrees_beyond_the_range_give_the_longest_pulse() {
    let servo = calibrated();
    assert_eq!(servo.degrees_to_time(181), 2_500_000);
    assert_eq!(servo.degrees_to_time(100_000), 2_500_000);
    assert_eq!(servo.degrees_to_time(u64::MAX), 2_500_000);
}

#[test]
fn pulses_map_back_to_degrees() {
    let servo = calibrated();
    assert_eq!(servo.time_to_degree(500_000), 0);
    assert_eq!(servo.time_to_degree(1_500_000), 90);
    assert_eq!(servo.time_to_degree(2_500_000), 180);
    assert_eq!(servo.time_to_degree(511_111), 1);
    assert_eq!(servo.time_to_degree(511_110), 0);
    assert_eq!(servo.time_to_degree(522_221), 1);
    assert_eq!(servo.time_to_degree(522_222), 2);
    assert_eq!(servo.time_to_degree(2_488_888), 179);
    assert_eq!(servo.time_to_degree(2_499_999), 179);
}

#[test]
fn the_pulse_of_one_degree_comes_back_as_one_degree() {
    let servo = ServoBuilder::new(PwmPio::attach(CLK)).build().unwrap();
    assert_eq!(servo.degrees_to_time(1), 1_005_555);
    assert_eq!(servo.time_to_degree(1_005_555), 1);
    assert_eq!(servo.time_to_degree(1_005_554), 0);
}

#[test]
fn a_pulse_beyond_the_longest_is_the_end_of_the_range() {
    let servo = calibrated();
    assert_eq!(servo.time_to_degree(2_500_001), 180);
    assert_eq!(servo.time_to_degree(u64::MAX), 180);
}

#[test]
fn a_single_point_range_maps_back_to_the_end_of_the_range() {
    let servo = ServoBuilder::new(PwmPio::attach(CLK))
        .set_min_pulse_width(1_500_000)
        .set_max_pulse_width(1_500_000)
        .build()
        .unwrap();
    assert_eq!(servo.time_to_degree(1_500_000), 180);
    assert_eq!(servo.time_to_degree(1_500_001), 180);
}

#[test]
fn round_trip_gives_the_angle_back() {
    let servo = calibrated();
    for d in 0..=180u64 {
        assert_eq!(servo.time_to_degree(servo.degrees_to_time(d)), d);
    }
    let usual = ServoBuilder::new(PwmPio::attach(CLK)).build().unwrap();
    for d in 0..=180u64 {
        assert_eq!(usual.time_to_degree(usual.degrees_to_time(d)), d);
    }
    let exact = ServoBuilder::new(PwmPio::attach(CLK))
        .set_max_degree_rotation(120)
        .set_min_pulse_width(350_000)
        .set_max_pulse_width(2_600_000)
        .build()
        .unwrap();
    for d in 0..=120u64 {
        assert_eq!(exact.time_to_degree(exact.degrees_to_time(d)), d);
    }
}

#[test]
fn the_angle_of_a_time_is_the_greatest_whose_pulse_is_not_longer() {
    let servo = calibrated();
    for time in [500_000u64, 500_001, 511_110, 511_111, 999_999, 1_500_000, 2_499_999, 2_500_000] {
        let angle = servo.time_to_degree(time);
        assert!(servo.degrees_to_time(angle) <= time);
        if angle < 180 {
            assert!(servo.degrees_to_time(angle + 1) > time);
        }
        // the gap is less than the width of one degree
        assert!((time - servo.degrees_to_time(angle)) * 180 < 2_000_000);
    }
}

#[test]
fn a_narrow_range_maps_back_to_an_angle_of_the_same_pulse() {
    // 10 ns for 180 degrees: 18 angles share each pulse
    let servo = ServoBuilder::new(PwmPio::attach(CLK))
        .set_min_pulse_width(1_000)
        .set_max_pulse_width(1_010)
        .build()
        .unwrap();
    assert_eq!(servo.degrees_to_time(0), 1_000);
    assert_eq!(servo.degrees_to_time(17), 1_000);
    assert_eq!(servo.degrees_to_time(18), 1_001);
    assert_eq!(servo.time_to_degree(1_000), 17);
    assert_eq!(servo.time_to_degree(1_009), 179);
    assert_eq!(servo.time_to_degree(1_010), 180);
    for d in 0..=180u64 {
        let back = servo.time_to_degree(servo.degrees_to_time(d));
        assert!(back >= d);
        assert_eq!(servo.degrees_to_time(back), servo.degrees_to_time(d));
    }
}

#[test]
fn rotate_commands_the_pulse_of_the_angle() {
    let mut servo = calibrated();
    servo.take_steps();
    servo.rotate(90);
    assert_eq!(servo.last_time_written(), 1_500_000);
    assert_eq!(servo.take_steps(), vec![PioStep::PushTx(61_500)]);
    servo.rotate(500);
    assert_eq!(servo.last_time_written(), 2_500_000);
    assert_eq!(servo.take_steps(), vec![PioStep::PushTx(102_500)]);
}

#[test]
fn write_time_keeps_the_pulse_in_the_calibrated_range() {
    let mut servo = calibrated();
    servo.take_steps();
    servo.write_time(100);
    assert_eq!(servo.last_time_written(), 500_000);
    servo.write_time(9_000_000);
    assert_eq!(servo.last_time_written(), 2_500_000);
    servo.write_time(700_000);
    assert_eq!(servo.last_time_written(), 700_000);
    assert_eq!(
        servo.take_steps(),
        vec![PioStep::PushTx(20_500), PioStep::PushTx(102_500), PioStep::PushTx(28_700)]
    );
}

#[test]
fn start_and_stop_reach_the_generator() {
    let mut servo = calibrated();
    servo.take_steps();
    servo.start();
    servo.stop();
    let pwm = servo.release();
    assert!(!pwm.is_enabled());
    assert_eq!(pwm.release(), vec![PioStep::SetEnable(true), PioStep::SetEnable(false)]);
}
