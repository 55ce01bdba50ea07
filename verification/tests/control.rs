//! Watchdog, manual override, motor driver, and the whole session.

use rover::motor::{motor_levels, Direction, Level, Motor, MyMotor, RecordedDuty, RecordedPin};
use rover::session::{
    override_action, ButtonEdge, CommandSession, LoopEvent, RoverRequest,
    OVERRIDE_HEADING_MILLIS, OVERRIDE_POWER_MILLIS, OVERRIDE_TURN_MILLIS,
};
use rover::units::{Angle, Power, Turn};
use rover::watchdog::{
    ActivitySignal, WatchAction, WatchEvent, Watchdog, WATCHDOG_TIMEOUT_MS,
};

fn test_motor(active: Level) -> MyMotor<RecordedDuty, RecordedPin, RecordedPin> {
    MyMotor::new(
        RecordedDuty::new(),
        RecordedPin::new(Level::Low),
        RecordedPin::new(Level::Low),
        active,
    )
}

/// One frame on the wire: the cobs encoding plus the delimiter.
fn wire(payload: &[u8]) -> Vec<u8> {
    let mut w = cobs::encode_vec(payload);
    w.push(0);
    w
}

fn feed_session(session: &mut CommandSession, bytes: &[u8]) -> Vec<LoopEvent> {
    let mut out = Vec::new();
    for &b in bytes {
        match session.handle_byte(b) {
            LoopEvent::Quiet => {}
            ev => out.push(ev),
        }
    }
    out
}

#[test]
fn watchdog_trips_after_quiet_window() {
    let mut wd = Watchdog::new(0);
    assert_eq!(wd.deadline(), WATCHDOG_TIMEOUT_MS);
    let action = wd.observe(WatchEvent::TimerFired(WATCHDOG_TIMEOUT_MS));
    assert_eq!(action, WatchAction::ForceNeutral);
    assert_eq!(wd.deadline(), 2 * WATCHDOG_TIMEOUT_MS);
}

#[test]
fn frequent_activity_never_trips() {
    // Activity strictly more often than the window: every race is won
    // by the notification, none forces neutral.
    let mut wd = Watchdog::new(0);
    let mut now = 0u64;
    for _ in 0..20 {
        now += WATCHDOG_TIMEOUT_MS - 100;
        let action = wd.observe(WatchEvent::Activity(now));
        assert_eq!(action, WatchAction::Rearm);
        assert_eq!(wd.deadline(), now + WATCHDOG_TIMEOUT_MS);
    }
}

#[test]
fn signal_coalesces_wakes() {
    let mut sig = ActivitySignal::new();
    assert!(!sig.take());
    sig.raise();
    sig.raise();
    sig.raise();
    assert!(sig.take());
    assert!(!sig.take());
}

#[test]
fn motor_levels_map() {
    assert_eq!(motor_levels(Direction::Clockwise, Level::High), (Level::High, Level::Low));
    assert_eq!(motor_levels(Direction::CounterClockwise, Level::High), (Level::Low, Level::High));
    assert_eq!(motor_levels(Direction::Clockwise, Level::Low), (Level::Low, Level::High));
}

#[test]
fn motor_drive_sets_lines_and_duty() {
    let mut m = test_motor(Level::High);
    assert_eq!(m.drive(128, Direction::Clockwise), Ok(()));
    assert_eq!(m.dir_0.state, Level::High);
    assert_eq!(m.dir_1.state, Level::Low);
    assert_eq!(m.pwm.num, 128);
    assert_eq!(m.pwm.den, 255);

    assert_eq!(m.drive(255, Direction::CounterClockwise), Ok(()));
    assert_eq!(m.dir_0.state, Level::Low);
    assert_eq!(m.dir_1.state, Level::High);
    assert_eq!(m.pwm.num, 255);
}

#[test]
fn inverted_wiring_swaps_polarity() {
    let mut m = test_motor(Level::Low);
    assert_eq!(m.drive(10, Direction::Clockwise), Ok(()));
    assert_eq!(m.dir_0.state, Level::Low);
    assert_eq!(m.dir_1.state, Level::High);
}

#[test]
fn motor_neutral_cuts_duty_and_rests_lines() {
    let mut m = test_motor(Level::High);
    m.drive(200, Direction::Clockwise).unwrap();
    assert_eq!(m.neutral(), Ok(()));
    assert_eq!(m.pwm.num, 0);
    assert_eq!(m.dir_0.state, Level::Low);
    assert_eq!(m.dir_1.state, Level::Low);
}

#[test]
fn motor_trait_dispatches_to_driver() {
    let mut m = test_motor(Level::High);
    Motor::drive(&mut m, 64, Direction::Clockwise).unwrap();
    assert_eq!(m.pwm.num, 64);
    Motor::neutral(&mut m).unwrap();
    assert_eq!(m.pwm.num, 0);
}

#[test]
fn override_press_then_release() {
    // The override drives its fixed preset while held and returns to
    // neutral on release; it never raises the activity signal — only
    // decoded serial commands count as activity.
    let mut sig = ActivitySignal::new();
    let pressed = override_action(ButtonEdge::Pressed);
    assert_eq!(
        pressed,
        RoverRequest::Drive(
            Power::new(OVERRIDE_POWER_MILLIS),
            Angle::new(OVERRIDE_HEADING_MILLIS),
            Turn::new(OVERRIDE_TURN_MILLIS),
        )
    );
    let released = override_action(ButtonEdge::Released);
    assert_eq!(released, RoverRequest::Neutral);
    assert!(!sig.take());
}

#[test]
fn session_merges_two_commands() {
    // `{"p":0.5}` then `{"th":1.57}`: two drive requests, the second
    // carrying the full merged triple, not just the delta.
    let mut session = CommandSession::new();
    let mut stream = wire(b"{\"p\":0.5}");
    stream.extend_from_slice(&wire(b"{\"th\":1.57}"));
    let events = feed_session(&mut session, &stream);
    assert_eq!(
        events,
        vec![
            LoopEvent::CommandDrive(Power::new(500), Angle::new(0), Turn::new(0)),
            LoopEvent::CommandDrive(Power::new(500), Angle::new(1570), Turn::new(0)),
        ]
    );
}

#[test]
fn session_rejects_bad_payload_without_driving() {
    // A frame whose payload is `{"p": "not-a-number"}` yields no
    // command and no drive request; the loop then simply awaits the
    // next frame, which still works.
    let mut session = CommandSession::new();
    let mut stream = wire(b"{\"p\": \"not-a-number\"}");
    stream.extend_from_slice(&wire(b"{\"tu\":-0.25}"));
    let events = feed_session(&mut session, &stream);
    assert_eq!(
        events,
        vec![
            LoopEvent::PayloadRejected,
            LoopEvent::CommandDrive(Power::new(0), Angle::new(0), Turn::new(-250)),
        ]
    );
}

#[test]
fn session_empty_command_is_activity_without_drive() {
    let mut session = CommandSession::new();
    let events = feed_session(&mut session, &wire(b"{}"));
    assert_eq!(events, vec![LoopEvent::CommandNoChange]);
}
