//! The safety watchdog.
//!
//! Each round races a fixed window against an activity notification:
//! an activity wins by arriving strictly inside the window, the timer
//! wins exactly when the window closes.  Whichever wins re-arms the
//! race at its own time; a timer win additionally forces the robot to
//! neutral.  The notification is a single-slot wake, not a queue —
//! raising it twice between checks coalesces into one wake.
//!
//! [`valid_step`] captures what the runtime guarantees of one round;
//! the trace lemmas below state the two safety laws that follow: a
//! timeout can only happen after a full quiet window, and a full quiet
//! window always leads to a timeout one window after the last event.

use vstd::prelude::*;

verus! {

/// The watchdog window, in milliseconds.
pub const WATCHDOG_TIMEOUT_MS: u64 = 500;

/// How one race round ended, stamped with its time in milliseconds.
#[derive(Clone, Copy, Debug, PartialEq, Eq, Structural)]
pub enum WatchEvent {
    /// A valid command arrived at this time, inside the window.
    Activity(u64),
    /// The window closed at this time with no command.
    TimerFired(u64),
}

/// What the watchdog asks its caller to do after a round.
#[derive(Clone, Copy, Debug, PartialEq, Eq, Structural)]
pub enum WatchAction {
    /// Discard the wake and race again.
    Rearm,
    /// Force the robot to neutral, then race again.  A failure of this
    /// very call is the loss of the final backstop and is fatal.
    ForceNeutral,
}

/// The time an event carries.
pub open spec fn event_time(e: WatchEvent) -> int {
    match e {
        WatchEvent::Activity(t) => t as int,
        WatchEvent::TimerFired(t) => t as int,
    }
}

/// What the runtime guarantees of a round armed at `armed`: activity
/// can only win strictly inside the window (else the timer had already
/// won), and the timer fires exactly when the window closes.
pub open spec fn valid_step(armed: int, e: WatchEvent) -> bool {
    match e {
        WatchEvent::Activity(t) => armed <= t < armed + WATCHDOG_TIMEOUT_MS as int,
        WatchEvent::TimerFired(t) => t == armed + WATCHDOG_TIMEOUT_MS as int,
    }
}

/// A possible history of rounds, each re-arming the race at its time.
pub open spec fn valid_trace(armed: int, evs: Seq<WatchEvent>) -> bool
    decreases evs.len(),
{
    evs.len() == 0 || (valid_step(armed, evs[0]) && valid_trace(
        event_time(evs[0]),
        evs.drop_first(),
    ))
}

/// When the race is armed after a history.
pub open spec fn armed_after(armed: int, evs: Seq<WatchEvent>) -> int
    decreases evs.len(),
{
    if evs.len() == 0 {
        armed
    } else {
        armed_after(event_time(evs[0]), evs.drop_first())
    }
}

/// Before event `j` the race was armed at the previous event's time
/// (at `armed` for the first), and event `j` obeys the round guarantee
/// from there.
pub proof fn lemma_trace_step(armed: int, evs: Seq<WatchEvent>, j: int)
    requires
        valid_trace(armed, evs),
        0 <= j < evs.len(),
    ensures
        valid_step(
            if j == 0 {
                armed
            } else {
                event_time(evs[j - 1])
            },
            evs[j],
        ),
    decreases j,
{
    if j > 0 {
        lemma_trace_step(event_time(evs[0]), evs.drop_first(), j - 1);
        assert(evs.drop_first()[j - 1] == evs[j]);
        if j > 1 {
            assert(evs.drop_first()[j - 2] == evs[j - 1]);
        }
    }
}

/// Event times never decrease along a valid history.
pub proof fn lemma_trace_monotone(armed: int, evs: Seq<WatchEvent>, i: int, j: int)
    requires
        valid_trace(armed, evs),
        0 <= i <= j < evs.len(),
    ensures
        event_time(evs[i]) <= event_time(evs[j]),
    decreases j - i,
{
    if i < j {
        lemma_trace_monotone(armed, evs, i, j - 1);
        lemma_trace_step(armed, evs, j);
    }
}

/// Activity staves the timeout off: any timeout event lies a full
/// window or more after every earlier activity.  So while valid
/// commands keep arriving strictly more often than the window, the
/// watchdog never forces neutral — only explicit commands move the
/// robot.
pub proof fn lemma_activity_staves_off_timeout(
    armed: int,
    evs: Seq<WatchEvent>,
    i: int,
    j: int,
)
    requires
        valid_trace(armed, evs),
        0 <= i < j < evs.len(),
        evs[i] is Activity,
        evs[j] is TimerFired,
    ensures
        event_time(evs[j]) >= event_time(evs[i]) + WATCHDOG_TIMEOUT_MS as int,
{
    lemma_trace_step(armed, evs, j);
    lemma_trace_monotone(armed, evs, i, j - 1);
}

/// After a history's last event the race is armed at that event's time.
pub proof fn lemma_armed_after_last(armed: int, evs: Seq<WatchEvent>)
    requires
        evs.len() > 0,
    ensures
        armed_after(armed, evs) == event_time(evs.last()),
    decreases evs.len(),
{
    if evs.len() > 1 {
        lemma_armed_after_last(event_time(evs[0]), evs.drop_first());
        assert(evs.drop_first().last() == evs.last());
    } else {
        assert(evs.drop_first().len() == 0);
        assert(armed_after(event_time(evs[0]), evs.drop_first()) == event_time(evs[0]));
        assert(evs.last() == evs[0]);
    }
}

/// A full quiet window always trips the watchdog: in a history that is
/// complete up to horizon `h` (the open round's window has not yet
/// closed at `h`), an event followed by no further activity and by a
/// whole elapsed window is followed by the timer — neutral is forced
/// exactly one window after the last activity.
pub proof fn lemma_watchdog_fires(armed: int, evs: Seq<WatchEvent>, i: int, h: int)
    requires
        valid_trace(armed, evs),
        0 <= i < evs.len(),
        event_time(evs[i]) + WATCHDOG_TIMEOUT_MS as int <= h,
        armed_after(armed, evs) + WATCHDOG_TIMEOUT_MS as int > h,
        forall|k: int| i < k < evs.len() ==> !(#[trigger] evs[k] is Activity),
    ensures
        i + 1 < evs.len(),
        evs[i + 1] is TimerFired,
        event_time(evs[i + 1]) == event_time(evs[i]) + WATCHDOG_TIMEOUT_MS as int,
{
    lemma_armed_after_last(armed, evs);
    if i == evs.len() - 1 {
        assert(armed_after(armed, evs) == event_time(evs[i]));
        assert(false);
    } else {
        lemma_trace_step(armed, evs, i + 1);
    }
}

/// The executable watchdog state: when the current round was armed.
pub struct Watchdog {
    armed_at: u64,
}

impl Watchdog {
    /// When the current round was armed, in milliseconds.
    pub closed spec fn spec_armed_at(&self) -> int {
        self.armed_at as int
    }

    /// Arm the first round now.
    pub fn new(now: u64) -> (r: Watchdog)
        ensures
            r.spec_armed_at() == now as int,
    {
        Watchdog { armed_at: now }
    }

    /// When the current round's window closes.
    pub fn deadline(&self) -> (r: u64)
        requires
            self.spec_armed_at() + WATCHDOG_TIMEOUT_MS as int <= u64::MAX,
        ensures
            r as int == self.spec_armed_at() + WATCHDOG_TIMEOUT_MS as int,
    {
        self.armed_at + WATCHDOG_TIMEOUT_MS
    }

    /// End one round with its event: re-arm at the event's time and
    /// say what to do — nothing for an activity win, force neutral for
    /// a timer win.
    pub fn observe(&mut self, ev: WatchEvent) -> (a: WatchAction)
        requires
            valid_step(old(self).spec_armed_at(), ev),
        ensures
            final(self).spec_armed_at() == event_time(ev),
            a == (match ev {
                WatchEvent::Activity(_) => WatchAction::Rearm,
                WatchEvent::TimerFired(_) => WatchAction::ForceNeutral,
            }),
    {
        match ev {
            WatchEvent::Activity(t) => {
                self.armed_at = t;
                WatchAction::Rearm
            },
            WatchEvent::TimerFired(t) => {
                self.armed_at = t;
                WatchAction::ForceNeutral
            },
        }
    }
}

/// The single-slot activity wake: raising it when already raised is a
/// no-op, waiting takes and clears it.  Wakes between checks coalesce.
pub struct ActivitySignal {
    pending: bool,
}

impl ActivitySignal {
    /// Whether a wake is pending.
    pub closed spec fn spec_pending(&self) -> bool {
        self.pending
    }

    /// A fresh, clear signal.
    pub fn new() -> (r: ActivitySignal)
        ensures
            !r.spec_pending(),
    {
        ActivitySignal { pending: false }
    }

    /// Raise the wake; further raises before the next take coalesce.
    pub fn raise(&mut self)
        ensures
            final(self).spec_pending(),
    {
        self.pending = true;
    }

    /// Take the pending wake, if any, clearing the slot.
    pub fn take(&mut self) -> (r: bool)
        ensures
            r == old(self).spec_pending(),
            !final(self).spec_pending(),
    {
        let was = self.pending;
        self.pending = false;
        was
    }
}

} // verus!
