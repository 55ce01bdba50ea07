//! One motor's driver: two direction lines and one duty-cycle output.
//!
//! Each motor is wired with a fixed polarity: the "active" level is
//! chosen at construction and the "passive" level is its opposite, so
//! inverted wirings drive through the same code.  Driving sets the two
//! direction lines for the requested rotation sense and then the duty
//! fraction; neutral cuts the duty first and only then releases the
//! direction lines, so no transient drive pulse escapes.
//!
//! The output lines themselves are ports the integrator supplies; the
//! recorded ports below are the simulated wiring and implement them in
//! software.

use vstd::prelude::*;

verus! {

/// A digital output level.
#[derive(Clone, Copy, Debug, PartialEq, Eq, Structural)]
pub enum Level {
    High,
    Low,
}

/// The opposite level.
pub open spec fn opposite_of(l: Level) -> Level {
    match l {
        Level::High => Level::Low,
        Level::Low => Level::High,
    }
}

impl Level {
    /// The opposite level.
    pub fn opposite(&self) -> (r: Level)
        ensures
            r == opposite_of(*self),
    {
        match self {
            Level::High => Level::Low,
            Level::Low => Level::High,
        }
    }
}

/// A motor's rotation sense.
#[derive(Clone, Copy, Debug, PartialEq, Eq, Structural)]
pub enum Direction {
    Clockwise,
    CounterClockwise,
}

/// The pair of direction-line levels for a rotation sense: clockwise
/// drives (active, passive), counter-clockwise the reverse.
pub open spec fn drive_levels(dir: Direction, active: Level) -> (Level, Level) {
    match dir {
        Direction::Clockwise => (active, opposite_of(active)),
        Direction::CounterClockwise => (opposite_of(active), active),
    }
}

/// The executable twin of [`drive_levels`].
pub fn motor_levels(dir: Direction, active: Level) -> (r: (Level, Level))
    ensures
        r == drive_levels(dir, active),
{
    match dir {
        Direction::Clockwise => (active, active.opposite()),
        Direction::CounterClockwise => (active.opposite(), active),
    }
}

/// One digital output line, as the integrator wires it up.  An
/// implementation promises only that a successful write leaves the
/// line at the requested level.
pub trait PinPort {
    /// The level the line is driven to.
    spec fn level(&self) -> Level;

    /// Drive the line.
    fn write_level(&mut self, l: Level) -> (r: Result<(), ()>)
        ensures
            r is Ok ==> final (self).level() == l,
    ;
}

/// One duty-cycle output.  An implementation promises only that a
/// successful write leaves the output at the requested fraction.
pub trait DutyPort {
    /// Numerator of the duty fraction currently set.
    spec fn duty_num(&self) -> int;

    /// Denominator of the duty fraction currently set.
    spec fn duty_den(&self) -> int;

    /// Set the duty cycle to `num / den` of full scale.
    fn write_fraction(&mut self, num: u16, den: u16) -> (r: Result<(), ()>)
        requires
            0 < den,
            num <= den,
        ensures
            r is Ok ==> final (self).duty_num() == num as int && final (self).duty_den()
                == den as int,
    ;

    /// Cut the duty cycle to zero.
    fn write_off(&mut self) -> (r: Result<(), ()>)
        ensures
            r is Ok ==> final (self).duty_num() == 0,
    ;
}

/// A software pin that simply records the level written to it: the
/// simulated wiring.
#[derive(Clone, Copy, Debug, PartialEq, Eq, Structural)]
pub struct RecordedPin {
    pub state: Level,
}

impl RecordedPin {
    /// A pin resting at the given level.
    pub fn new(initial: Level) -> (r: RecordedPin)
        ensures
            r.state == initial,
    {
        RecordedPin { state: initial }
    }
}

impl PinPort for RecordedPin {
    open spec fn level(&self) -> Level {
        self.state
    }

    fn write_level(&mut self, l: Level) -> (r: Result<(), ()>) {
        self.state = l;
        Ok(())
    }
}

/// A software duty-cycle output that records the fraction written to
/// it: the simulated wiring.
#[derive(Clone, Copy, Debug, PartialEq, Eq, Structural)]
pub struct RecordedDuty {
    pub num: u16,
    pub den: u16,
}

impl RecordedDuty {
    /// An output resting at zero duty.
    pub fn new() -> (r: RecordedDuty)
        ensures
            r.num == 0,
            r.den == 1,
    {
        RecordedDuty { num: 0, den: 1 }
    }
}

impl DutyPort for RecordedDuty {
    open spec fn duty_num(&self) -> int {
        self.num as int
    }

    open spec fn duty_den(&self) -> int {
        self.den as int
    }

    fn write_fraction(&mut self, num: u16, den: u16) -> (r: Result<(), ()>) {
        self.num = num;
        self.den = den;
        Ok(())
    }

    fn write_off(&mut self) -> (r: Result<(), ()>) {
        self.num = 0;
        Ok(())
    }
}

/// The capability a motor offers: drive with an unsigned magnitude and
/// a rotation sense, or fall back to neutral.  Sign and heading are
/// resolved one layer up; the magnitude here is never negative.
pub trait Motor {
    type Error;

    /// Drive at `power / 255` of full scale in the given sense.
    fn drive(&mut self, power: u8, dir: Direction) -> Result<(), Self::Error>;

    /// Zero duty, both direction lines passive.
    fn neutral(&mut self) -> Result<(), Self::Error>;
}

/// A motor driver over two direction lines and one duty output.
pub struct MyMotor<P: DutyPort, O0: PinPort, O1: PinPort> {
    pub pwm: P,
    pub dir_0: O0,
    pub dir_1: O1,
    pub dir_active: Level,
    pub dir_passive: Level,
}

impl<P: DutyPort, O0: PinPort, O1: PinPort> MyMotor<P, O0, O1> {
    /// The level that means "drive" on this wiring.
    pub closed spec fn active_level(&self) -> Level {
        self.dir_active
    }

    /// The level that means "rest" on this wiring.
    pub closed spec fn passive_level(&self) -> Level {
        self.dir_passive
    }

    /// The first direction line's level.
    pub closed spec fn pin0_level(&self) -> Level {
        self.dir_0.level()
    }

    /// The second direction line's level.
    pub closed spec fn pin1_level(&self) -> Level {
        self.dir_1.level()
    }

    /// Numerator of the duty fraction currently set.
    pub closed spec fn duty_num(&self) -> int {
        self.pwm.duty_num()
    }

    /// Denominator of the duty fraction currently set.
    pub closed spec fn duty_den(&self) -> int {
        self.pwm.duty_den()
    }

    /// The polarity pair is consistent: passive is active's opposite,
    /// fixed once at construction.
    pub open spec fn wf(&self) -> bool {
        self.passive_level() == opposite_of(self.active_level())
    }

    /// Build a motor over its outputs, fixing the polarity pair.
    pub fn new(pwm: P, dir_0: O0, dir_1: O1, dir_active: Level) -> (r: MyMotor<P, O0, O1>)
        ensures
            r.wf(),
            r.active_level() == dir_active,
            r.pin0_level() == dir_0.level(),
            r.pin1_level() == dir_1.level(),
            r.duty_num() == pwm.duty_num(),
            r.duty_den() == pwm.duty_den(),
    {
        let dir_passive = dir_active.opposite();
        MyMotor { pwm, dir_0, dir_1, dir_active, dir_passive }
    }

    /// Set both direction lines for `dir`, then duty `power / 255`.
    ///
    /// The three writes run in this order; the first failure surfaces
    /// at once, with no rollback of lines already set.
    pub fn drive(&mut self, power: u8, dir: Direction) -> (r: Result<(), ()>)
        ensures
            final (self).active_level() == old(self).active_level(),
            final (self).passive_level() == old(self).passive_level(),
            r is Ok ==> final (self).pin0_level() == (match dir {
                Direction::Clockwise => old(self).active_level(),
                Direction::CounterClockwise => old(self).passive_level(),
            }),
            r is Ok ==> final (self).pin1_level() == (match dir {
                Direction::Clockwise => old(self).passive_level(),
                Direction::CounterClockwise => old(self).active_level(),
            }),
            r is Ok ==> final (self).duty_num() == power as int && final (self).duty_den()
                == 255,
            old(self).wf() && r is Ok ==> (final (self).pin0_level(), final (self).pin1_level())
                == drive_levels(dir, old(self).active_level()),
    {
        let levels = match dir {
            Direction::Clockwise => (self.dir_active, self.dir_passive),
            Direction::CounterClockwise => (self.dir_passive, self.dir_active),
        };
        match self.dir_0.write_level(levels.0) {
            Ok(_) => (),
            Err(e) => {
                return Err(e);
            },
        }
        match self.dir_1.write_level(levels.1) {
            Ok(_) => (),
            Err(e) => {
                return Err(e);
            },
        }
        match self.pwm.write_fraction(power as u16, 255) {
            Ok(_) => (),
            Err(e) => {
                return Err(e);
            },
        }
        Ok(())
    }

    /// Cut the duty to zero, then rest both direction lines.
    ///
    /// Duty goes first, so torque stops before the lines move and no
    /// transient drive pulse escapes.
    pub fn neutral(&mut self) -> (r: Result<(), ()>)
        ensures
            final (self).active_level() == old(self).active_level(),
            final (self).passive_level() == old(self).passive_level(),
            r is Ok ==> final (self).duty_num() == 0,
            r is Ok ==> final (self).pin0_level() == old(self).passive_level(),
            r is Ok ==> final (self).pin1_level() == old(self).passive_level(),
    {
        match self.pwm.write_off() {
            Ok(_) => (),
            Err(e) => {
                return Err(e);
            },
        }
        let passive = self.dir_passive;
        match self.dir_0.write_level(passive) {
            Ok(_) => (),
            Err(e) => {
                return Err(e);
            },
        }
        match self.dir_1.write_level(passive) {
            Ok(_) => (),
            Err(e) => {
                return Err(e);
            },
        }
        Ok(())
    }
}

impl<P: DutyPort, O0: PinPort, O1: PinPort> Motor for MyMotor<P, O0, O1> {
    type Error = ();

    fn drive(&mut self, power: u8, dir: Direction) -> Result<(), ()> {
        MyMotor::drive(self, power, dir)
    }

    fn neutral(&mut self) -> Result<(), ()> {
        MyMotor::neutral(self)
    }
}

} // verus!
