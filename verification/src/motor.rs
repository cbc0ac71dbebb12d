//! Motor speed commands and the feedback loop around a wheel motor.
//!
//! The direction pin and PWM output of a motor are hardware; a [`Motor`]
//! decides what to put on them and hands that back as a [`MotorDrive`].
use vstd::prelude::*;

verus! {

/// `x` limited to `-100..=100`.
pub open spec fn clamp_percent(x: int) -> int {
    if x < -100 {
        -100
    } else if x > 100 {
        100
    } else {
        x
    }
}

/// The magnitude of `x`.
pub open spec fn abs_int(x: int) -> int {
    if x < 0 {
        -x
    } else {
        x
    }
}

/// Integer division rounding towards zero, as Rust's `/` on signed integers.
pub open spec fn div_toward_zero(a: int, b: int) -> int
    recommends
        b > 0,
{
    if a >= 0 {
        a / b
    } else {
        -((-a) / b)
    }
}

/// What to put on a motor's pins.
#[derive(Clone, Copy, Debug, PartialEq, Eq, Structural)]
pub struct MotorDrive {
    /// The level of the direction pin: `true` for high.
    pub direction_high: bool,
    /// The PWM duty cycle, in percent.
    pub duty_percent: u8,
}

/// The drive for a requested speed `speed` on a motor wired `reversed`: the
/// direction pin is high when the speed is forwards, inverted for a reversed
/// motor; the duty cycle is the clamped speed's magnitude, with speeds of 10%
/// or less not driven at all.
pub open spec fn drive_for(speed: int, reversed: bool) -> MotorDrive {
    let magnitude = abs_int(clamp_percent(speed));
    MotorDrive {
        direction_high: (speed > 0) != reversed,
        duty_percent: (if magnitude > 10 {
            magnitude
        } else {
            0
        }) as u8,
    }
}

/// Whatever speed is asked for, the motor is driven with a duty cycle of
/// zero or between 11% and 100%: it is zero exactly for speeds within the
/// dead band of -10..=10, and otherwise the magnitude of the limited speed.
pub proof fn lemma_drive_bounds(speed: int, reversed: bool)
    ensures
        -100 <= clamp_percent(speed) <= 100,
        drive_for(speed, reversed).duty_percent == 0 || 11 <= drive_for(
            speed,
            reversed,
        ).duty_percent <= 100,
        drive_for(speed, reversed).duty_percent == 0 <==> -10 <= speed <= 10,
{
}

/// The duty cycle a motor is driven with is the magnitude of the requested
/// speed, limited to 100%, and nothing within the dead band of 10%: every
/// speed from 11 to 100 (either way) is driven at exactly that duty, every
/// speed beyond 100 at full duty. The direction pin is high exactly for a
/// forwards speed on a motor wired the normal way, or a backwards or zero
/// speed on one wired reversed.
pub proof fn lemma_duty_follows_speed(speed: int, reversed: bool)
    ensures
        11 <= speed <= 100 ==> drive_for(speed, reversed).duty_percent == speed,
        -100 <= speed <= -11 ==> drive_for(speed, reversed).duty_percent == -speed,
        (speed > 100 || speed < -100) ==> drive_for(speed, reversed).duty_percent == 100,
        -10 <= speed <= 10 ==> drive_for(speed, reversed).duty_percent == 0,
        drive_for(speed, reversed).duty_percent == drive_for(-speed, reversed).duty_percent,
        drive_for(speed, reversed).direction_high <==> (speed > 0 && !reversed) || (speed <= 0
            && reversed),
{
}

/// Reversing a motor's wiring inverts its direction pin and leaves its duty
/// cycle alone.
pub proof fn lemma_reversed_inverts_direction(speed: int)
    ensures
        drive_for(speed, true).direction_high == !drive_for(speed, false).direction_high,
        drive_for(speed, true).duty_percent == drive_for(speed, false).duty_percent,
{
}

/// A DC motor driven by a direction pin and a PWM output.
pub struct Motor {
    /// Speed value from -100 to 100
    speed: i32,
    reversed: bool,
}

impl Motor {
    pub closed spec fn speed_spec(&self) -> i32 {
        self.speed
    }

    pub closed spec fn reversed_spec(&self) -> bool {
        self.reversed
    }

    /// A stopped motor; `reversed` inverts its direction pin.
    pub fn new(reversed: bool) -> (m: Motor)
        ensures
            m.speed_spec() == 0,
            m.reversed_spec() == reversed,
    {
        Motor { speed: 0, reversed }
    }

    /// Sets the speed, in percent of full speed either way, limited to
    /// `-100..=100`; returns what to put on the pins.
    pub fn set_speed(&mut self, speed: i32) -> (d: MotorDrive)
        ensures
            final(self).speed_spec() == clamp_percent(speed as int),
            final(self).reversed_spec() == old(self).reversed_spec(),
            d == drive_for(speed as int, old(self).reversed_spec()),
            d.duty_percent as int == (if speed < -100 || speed > 100 {
                100
            } else if speed > 10 {
                speed as int
            } else if speed < -10 {
                -speed
            } else {
                0
            }),
            d.direction_high == ((speed > 0) != old(self).reversed_spec()),
    {
        self.speed = if speed < -100 {
            -100
        } else if speed > 100 {
            100
        } else {
            speed
        };
        let direction_high = (speed > 0) != self.reversed;
        let abs_speed = if self.speed < 0 {
            -self.speed
        } else {
            self.speed
        };
        let duty: i32 = if abs_speed > 10 {
            abs_speed
        } else {
            0
        };
        MotorDrive { direction_high, duty_percent: duty as u8 }
    }

    /// The speed last set, after limiting.
    pub fn get_speed(&self) -> (s: i32)
        ensures
            s == self.speed_spec(),
    {
        self.speed
    }
}

/// Feedback faster than this (in microseconds) is skipped.
pub const MIN_FEEDBACK_INTERVAL_US: u64 = 25_000;

/// Feedback slower than this (in microseconds) is skipped.
pub const MAX_FEEDBACK_INTERVAL_US: u64 = 75_000;

/// What one feedback update decided.
#[derive(Clone, Copy, Debug, PartialEq, Eq, Structural)]
pub enum FeedbackStep {
    /// Too long since the last update: nothing is driven.
    TooLong,
    /// Too short since the last update: nothing is driven.
    TooShort,
    /// The target is zero: the motor is stopped with this drive.
    Stopped(MotorDrive),
    /// The controller must compute an output for this measured speed, in
    /// pulses per second.
    Control { measured_speed: i32 },
}

/// A wheel motor under closed-loop speed control from its encoder.
pub struct MotorFeedback {
    motor: Motor,
    motor_id: u32,
    /// target speed in pulses/s
    pub target: i32,
    last_odom: i32,
    /// in pulses
    pub last_diff: i32,
}

impl MotorFeedback {
    pub closed spec fn target_spec(&self) -> i32 {
        self.target
    }

    pub closed spec fn last_diff_spec(&self) -> i32 {
        self.last_diff
    }

    pub closed spec fn motor_spec(&self) -> &Motor {
        &self.motor
    }

    pub closed spec fn motor_id_spec(&self) -> u32 {
        self.motor_id
    }

    pub closed spec fn last_odom_spec(&self) -> i32 {
        self.last_odom
    }

    /// A stopped motor with identifier `id`, a zero target and no odometry yet.
    pub fn new(id: u32, reversed: bool) -> (f: MotorFeedback)
        ensures
            f.motor_spec().speed_spec() == 0,
            f.motor_spec().reversed_spec() == reversed,
            f.motor_id_spec() == id,
            f.target_spec() == 0,
            f.last_odom_spec() == 0,
            f.last_diff_spec() == 0,
    {
        MotorFeedback { motor: Motor::new(reversed), motor_id: id, target: 0, last_odom: 0, last_diff: 0 }
    }

    /// Sets the target speed, in pulses/s.
    pub fn set_target(&mut self, target: i32)
        ensures
            final(self).target_spec() == target,
            final(self).motor_spec() == old(self).motor_spec(),
            final(self).motor_id_spec() == old(self).motor_id_spec(),
            final(self).last_odom_spec() == old(self).last_odom_spec(),
            final(self).last_diff_spec() == old(self).last_diff_spec(),
    {
        self.target = target;
    }

    /// The target speed, in pulses/s.
    pub fn target(&self) -> (t: i32)
        ensures
            t == self.target_spec(),
    {
        self.target
    }

    /// The pulses counted between the last two updates.
    pub fn last_diff(&self) -> (d: i32)
        ensures
            d == self.last_diff_spec(),
    {
        self.last_diff
    }

    /// The identifier of this motor.
    pub fn motor_id(&self) -> (id: u32)
        ensures
            id == self.motor_id_spec(),
    {
        self.motor_id
    }

    /// The speed last set on the motor.
    pub fn speed(&self) -> (s: i32)
        ensures
            s == self.motor_spec().speed_spec(),
    {
        self.motor.get_speed()
    }

    /// The update would overflow: the pulse difference does not fit, or it
    /// would be turned into a speed that does not fit.
    pub open spec fn update_overflows(&self, odom: i32, elapsed_us: u64) -> bool {
        let diff = odom - self.last_odom_spec();
        ||| diff < i32::MIN || diff > i32::MAX
        ||| (MIN_FEEDBACK_INTERVAL_US <= elapsed_us <= MAX_FEEDBACK_INTERVAL_US && self.target_spec() != 0
            && (diff * 1000 < i32::MIN || diff * 1000 > i32::MAX))
    }

    /// Whether [`Self::update`] can run without overflow.
    pub fn can_update(&self, odom: i32, elapsed_us: u64) -> (b: bool)
        ensures
            b == !self.update_overflows(odom, elapsed_us),
    {
        let diff: i64 = odom as i64 - self.last_odom as i64;
        if diff < i32::MIN as i64 || diff > i32::MAX as i64 {
            return false;
        }
        if MIN_FEEDBACK_INTERVAL_US <= elapsed_us && elapsed_us <= MAX_FEEDBACK_INTERVAL_US
            && self.target != 0 {
            let scaled: i64 = diff * 1000;
            scaled >= i32::MIN as i64 && scaled <= i32::MAX as i64
        } else {
            true
        }
    }

    /// Takes the encoder count `odom`, read `elapsed_us` microseconds after the
    /// previous update (meant to run at 20 Hz). Updates that come too early or
    /// too late are skipped; a zero target stops the motor; otherwise the
    /// measured speed is handed to the controller.
    pub fn update(&mut self, odom: i32, elapsed_us: u64) -> (r: FeedbackStep)
        requires
            !old(self).update_overflows(odom, elapsed_us),
        ensures
            final(self).last_diff_spec() == odom - old(self).last_odom_spec(),
            final(self).last_odom_spec() == odom,
            final(self).target_spec() == old(self).target_spec(),
            final(self).motor_id_spec() == old(self).motor_id_spec(),
            (r == FeedbackStep::TooLong) <==> elapsed_us > MAX_FEEDBACK_INTERVAL_US,
            (r == FeedbackStep::TooShort) <==> elapsed_us < MIN_FEEDBACK_INTERVAL_US,
            (r is Stopped) <==> (MIN_FEEDBACK_INTERVAL_US <= elapsed_us <= MAX_FEEDBACK_INTERVAL_US
                && old(self).target_spec() == 0),
            r matches FeedbackStep::Stopped(d) ==> {
                &&& d == drive_for(0, old(self).motor_spec().reversed_spec())
                &&& final(self).motor_spec().speed_spec() == 0
                &&& final(self).motor_spec().reversed_spec() == old(
                    self,
                ).motor_spec().reversed_spec()
            },
            !(r is Stopped) ==> final(self).motor_spec() == old(self).motor_spec(),
            r matches FeedbackStep::Control { measured_speed } ==> measured_speed
                == div_toward_zero(final(self).last_diff_spec() * 1000, (elapsed_us / 1000) as int),
    {
        self.last_diff = odom - self.last_odom;
        self.last_odom = odom;
        if elapsed_us > MAX_FEEDBACK_INTERVAL_US {
            return FeedbackStep::TooLong;
        }
        if elapsed_us < MIN_FEEDBACK_INTERVAL_US {
            return FeedbackStep::TooShort;
        }
        if self.target == 0 {
            let d = self.motor.set_speed(0);
            return FeedbackStep::Stopped(d);
        }
        let elapsed_ms: i32 = (elapsed_us / 1000) as i32;
        let speed: i32 = (self.last_diff * 1000) / elapsed_ms;
        FeedbackStep::Control { measured_speed: speed }
    }

    /// The controller's output would overflow when added up.
    pub open spec fn drive_overflows(feed_forward: i32, pid_output: i32) -> bool {
        feed_forward + pid_output < i32::MIN || feed_forward + pid_output > i32::MAX
    }

    /// Drives the motor with the sum of the feed-forward term and the PID
    /// controller's output, both already converted to integers.
    pub fn drive(&mut self, feed_forward: i32, pid_output: i32) -> (d: MotorDrive)
        requires
            !Self::drive_overflows(feed_forward, pid_output),
        ensures
            d == drive_for(feed_forward + pid_output, old(self).motor_spec().reversed_spec()),
            final(self).motor_spec().speed_spec() == clamp_percent(feed_forward + pid_output),
            final(self).motor_spec().reversed_spec() == old(self).motor_spec().reversed_spec(),
            final(self).target_spec() == old(self).target_spec(),
            final(self).last_diff_spec() == old(self).last_diff_spec(),
            final(self).last_odom_spec() == old(self).last_odom_spec(),
            final(self).motor_id_spec() == old(self).motor_id_spec(),
    {
        self.motor.set_speed(feed_forward + pid_output)
    }
}

/// The encoder count after one step of a quadrature encoder: one up for a
/// clockwise step, one down for a counter-clockwise step, the other way round
/// for an encoder mounted `reversed`.
pub open spec fn encoder_step_spec(count: int, clockwise: bool, reversed: bool) -> int {
    count + if clockwise != reversed {
        1int
    } else {
        -1int
    }
}

/// Counts one encoder step.
pub fn encoder_step(count: i32, clockwise: bool, reversed: bool) -> (c: i32)
    requires
        i32::MIN <= encoder_step_spec(count as int, clockwise, reversed) <= i32::MAX,
    ensures
        c == encoder_step_spec(count as int, clockwise, reversed),
{
    let step: i32 = if clockwise {
        1
    } else {
        -1
    };
    let sign: i32 = if reversed {
        -1
    } else {
        1
    };
    count + step * sign
}

/// Without a new command for this long (in microseconds), the wheels are stopped.
pub const COMMAND_TIMEOUT_US: u64 = 500_000;

/// The wheel speed targets for the next control period: a new command's
/// targets when one arrived, zero once no command has come for longer than
/// the timeout, and the current targets otherwise.
pub open spec fn next_wheel_targets_spec(
    current: [i32; 4],
    command: Option<[i32; 4]>,
    since_last_command_us: u64,
) -> [i32; 4] {
    match command {
        Some(targets) => targets,
        None => if since_last_command_us > COMMAND_TIMEOUT_US {
            [0i32, 0i32, 0i32, 0i32]
        } else {
            current
        },
    }
}

/// A new command always sets the targets, however soon it follows the last
/// one; without one, the targets are kept for up to 500 ms and are all zero
/// after that.
pub proof fn lemma_commands_set_targets(
    current: [i32; 4],
    command: Option<[i32; 4]>,
    since_last_command_us: u64,
)
    ensures
        command matches Some(c) ==> next_wheel_targets_spec(current, command, since_last_command_us)
            == c,
        command is None && since_last_command_us <= 500_000 ==> next_wheel_targets_spec(
            current,
            command,
            since_last_command_us,
        ) == current,
        command is None && since_last_command_us > 500_000 ==> forall|i: int|
            0 <= i < 4 ==> #[trigger] next_wheel_targets_spec(
                current,
                command,
                since_last_command_us,
            )[i] == 0,
{
}

/// Chooses the wheel speed targets for the next control period.
pub fn next_wheel_targets(
    current: [i32; 4],
    command: Option<[i32; 4]>,
    since_last_command_us: u64,
) -> (t: [i32; 4])
    ensures
        t == next_wheel_targets_spec(current, command, since_last_command_us),
        command matches Some(c) ==> t == c,
        command is None && since_last_command_us > 500_000 ==> t == [0i32, 0i32, 0i32, 0i32],
        command is None && since_last_command_us <= 500_000 ==> t == current,
{
    match command {
        Some(targets) => targets,
        None => {
            if since_last_command_us > COMMAND_TIMEOUT_US {
                [0, 0, 0, 0]
            } else {
                current
            }
        },
    }
}

/// The speed to run the dribbler at: the speed last requested, or zero when
/// no request came within the timeout.
pub fn dribbler_speed(request: Option<i32>) -> (s: i32)
    ensures
        s == match request {
            Some(v) => v,
            None => 0,
        },
{
    match request {
        Some(v) => v,
        None => 0,
    }
}

} // verus!
