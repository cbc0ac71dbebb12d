use robocup::motor::{dribbler_speed, encoder_step, next_wheel_targets, FeedbackStep, Motor, MotorDrive, MotorFeedback};

#[test]
fn speed_is_limited_and_dead_band_applies() {
    let mut m = Motor::new(false);
    assert_eq!(m.get_speed(), 0);
    assert_eq!(m.set_speed(150), MotorDrive { direction_high: true, duty_percent: 100 });
    assert_eq!(m.get_speed(), 100);
    assert_eq!(m.set_speed(-40), MotorDrive { direction_high: false, duty_percent: 40 });
    assert_eq!(m.get_speed(), -40);
    assert_eq!(m.set_speed(10), MotorDrive { direction_high: true, duty_percent: 0 });
    assert_eq!(m.set_speed(11), MotorDrive { direction_high: true, duty_percent: 11 });
    assert_eq!(m.set_speed(i32::MIN), MotorDrive { direction_high: false, duty_percent: 100 });
    assert_eq!(m.get_speed(), -100);
    assert_eq!(m.set_speed(0), MotorDrive { direction_high: false, duty_percent: 0 });
}

#[test]
fn reversed_motor_inverts_direction() {
    let mut m = Motor::new(true);
    assert_eq!(m.set_speed(50), MotorDrive { direction_high: false, duty_percent: 50 });
    assert_eq!(m.set_speed(-50), MotorDrive { direction_high: true, duty_percent: 50 });
    assert_eq!(m.set_speed(0), MotorDrive { direction_high: true, duty_percent: 0 });
}

#[test]
fn feedback_timing_gates() {
    let mut f = MotorFeedback::new(2, false);
    assert_eq!(f.motor_id(), 2);
    f.set_target(300);
    assert_eq!(f.target(), 300);
    assert_eq!(f.update(40, 80_000), FeedbackStep::TooLong);
    assert_eq!(f.last_diff(), 40);
    assert_eq!(f.update(50, 20_000), FeedbackStep::TooShort);
    assert_eq!(f.last_diff(), 10);
    assert_eq!(f.update(60, 75_000), FeedbackStep::Control { measured_speed: 133 });
    assert_eq!(f.update(40, 25_000), FeedbackStep::Control { measured_speed: -800 });
    assert_eq!(f.update(33, 50_999), FeedbackStep::Control { measured_speed: -140 });
}

#[test]
fn zero_target_stops_the_motor() {
    let mut f = MotorFeedback::new(0, true);
    f.set_target(100);
    assert_eq!(f.update(0, 50_000), FeedbackStep::Control { measured_speed: 0 });
    assert_eq!(f.drive(20, 30), MotorDrive { direction_high: false, duty_percent: 50 });
    assert_eq!(f.speed(), 50);
    f.set_target(0);
    assert_eq!(f.update(5, 50_000), FeedbackStep::Stopped(MotorDrive { direction_high: true, duty_percent: 0 }));
    assert_eq!(f.speed(), 0);
}

#[test]
fn overflowing_updates_are_reported() {
    let mut f = MotorFeedback::new(0, false);
    f.set_target(1);
    assert!(f.can_update(2_000_000, 50_000));
    assert!(!f.can_update(3_000_000, 50_000));
    assert!(f.can_update(3_000_000, 10_000));
    f.set_target(0);
    assert!(f.can_update(3_000_000, 50_000));
    assert_eq!(f.update(1, 10_000), FeedbackStep::TooShort);
    assert!(!f.can_update(i32::MIN, 10_000));
}

#[test]
fn encoder_counts_with_direction() {
    assert_eq!(encoder_step(5, true, false), 6);
    assert_eq!(encoder_step(5, false, false), 4);
    assert_eq!(encoder_step(5, true, true), 4);
    assert_eq!(encoder_step(-5, false, true), -4);
}

#[test]
fn wheel_targets_follow_commands_and_time_out() {
    let current = [10, -20, 30, -40];
    assert_eq!(next_wheel_targets(current, Some([1, 2, 3, 4]), 900_000), [1, 2, 3, 4]);
    assert_eq!(next_wheel_targets(current, None, 500_000), current);
    assert_eq!(next_wheel_targets(current, None, 500_001), [0, 0, 0, 0]);
}

#[test]
fn dribbler_stops_without_requests() {
    assert_eq!(dribbler_speed(Some(-60)), -60);
    assert_eq!(dribbler_speed(None), 0);
}
