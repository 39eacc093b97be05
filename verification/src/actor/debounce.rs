//! The timer that holds refreshes of the menu bar together.
//!
//! Times are numbers of some unit since some instant, both chosen by the caller.

use vstd::prelude::*;

verus! {

/// What the timer is told.
#[derive(Debug, Clone, Copy, PartialEq, Eq, Structural)]
pub enum DebounceCommand {
    Arm,
    Shutdown,
}

/// What wakes the timer.
#[derive(Debug, Clone, Copy, PartialEq, Eq, Structural)]
pub enum DebounceSignal {
    Command(DebounceCommand),
    /// The wait is over and nothing came.
    TimedOut,
    /// Nobody can tell the timer anything any more.
    Disconnected,
}

/// The timer's state.
#[derive(Debug, Clone, Copy, PartialEq, Eq, Structural)]
pub enum Debouncer {
    Idle,
    Armed { deadline: u64 },
    Stopped,
}

/// How long the timer waits for something to happen.
#[derive(Debug, Clone, Copy, PartialEq, Eq, Structural)]
pub enum DebounceWait {
    Unlimited,
    AtMost(u64),
    Never,
}

/// The end of a period, or the greatest time if that comes first.
pub open spec fn period_end(now: u64, period: u64) -> u64 {
    if now + period > u64::MAX {
        u64::MAX
    } else {
        (now + period) as u64
    }
}

impl Debouncer {
    /// When the timer ticks, once it is armed: for one that is idle a period
    /// later, for one that is armed already as before.
    pub open spec fn deadline_on_arming(self, now: u64, period: u64) -> u64 {
        match self {
            Debouncer::Armed { deadline } => deadline,
            _ => period_end(now, period),
        }
    }

    /// The timer after a signal.
    pub open spec fn signalled(self, signal: DebounceSignal, now: u64, period: u64) -> Debouncer {
        match (self, signal) {
            (Debouncer::Stopped, _) => Debouncer::Stopped,
            (_, DebounceSignal::Disconnected) => Debouncer::Stopped,
            (_, DebounceSignal::Command(DebounceCommand::Shutdown)) => Debouncer::Stopped,
            (_, DebounceSignal::TimedOut) => Debouncer::Idle,
            (_, DebounceSignal::Command(DebounceCommand::Arm)) => {
                let deadline = self.deadline_on_arming(now, period);
                if now >= deadline {
                    Debouncer::Idle
                } else {
                    Debouncer::Armed { deadline }
                }
            },
        }
    }

    /// Whether a signal makes the timer tick.
    pub open spec fn ticks(self, signal: DebounceSignal, now: u64, period: u64) -> bool {
        match (self, signal) {
            (Debouncer::Stopped, _) => false,
            (_, DebounceSignal::Command(DebounceCommand::Arm)) => now >= self.deadline_on_arming(
                now,
                period,
            ),
            (Debouncer::Armed { .. }, DebounceSignal::TimedOut) => true,
            _ => false,
        }
    }

    /// An idle timer.
    pub fn new() -> (timer: Self)
        ensures
            timer == Debouncer::Idle,
    {
        Debouncer::Idle
    }

    /// Takes in a signal, and tells whether the timer ticks.
    pub fn signal(&mut self, signal: DebounceSignal, now: u64, period: u64) -> (tick: bool)
        ensures
            *final(self) == old(self).signalled(signal, now, period),
            tick == old(self).ticks(signal, now, period),
    {
        let deadline: Option<u64> = match *self {
            Debouncer::Stopped => {
                return false;
            },
            Debouncer::Idle => None,
            Debouncer::Armed { deadline } => Some(deadline),
        };
        match signal {
            DebounceSignal::Command(DebounceCommand::Arm) => {
                let deadline: u64 = match deadline {
                    Some(deadline) => deadline,
                    None => now.saturating_add(period),
                };
                if now >= deadline {
                    *self = Debouncer::Idle;
                    true
                } else {
                    *self = Debouncer::Armed { deadline };
                    false
                }
            },
            DebounceSignal::TimedOut => {
                *self = Debouncer::Idle;
                deadline.is_some()
            },
            _ => {
                *self = Debouncer::Stopped;
                false
            },
        }
    }

    /// Stops the timer, as nobody hears its ticks any more.
    pub fn stop(&mut self)
        ensures
            *final(self) == Debouncer::Stopped,
    {
        *self = Debouncer::Stopped;
    }

    pub open spec fn waiting(self, now: u64) -> DebounceWait {
        match self {
            Debouncer::Idle => DebounceWait::Unlimited,
            Debouncer::Armed { deadline } => DebounceWait::AtMost(
                if now >= deadline {
                    0
                } else {
                    (deadline - now) as u64
                },
            ),
            Debouncer::Stopped => DebounceWait::Never,
        }
    }

    /// How long to wait for the next signal.
    pub fn wait(&self, now: u64) -> (wait: DebounceWait)
        ensures
            wait == self.waiting(now),
    {
        match *self {
            Debouncer::Idle => DebounceWait::Unlimited,
            Debouncer::Armed { deadline } => DebounceWait::AtMost(deadline.saturating_sub(now)),
            Debouncer::Stopped => DebounceWait::Never,
        }
    }

    /// The timer after it was armed at each of the times.
    pub open spec fn armed_at(self, times: Seq<u64>, period: u64) -> Debouncer
        decreases times.len(),
    {
        if times.len() == 0 {
            self
        } else {
            self.signalled(
                DebounceSignal::Command(DebounceCommand::Arm),
                times[0],
                period,
            ).armed_at(times.drop_first(), period)
        }
    }
}

/// However often an armed timer is armed again before its deadline, the deadline
/// stays.
pub proof fn law_arming_again_keeps_deadline(deadline: u64, times: Seq<u64>, period: u64)
    requires
        forall|i: int| 0 <= i < times.len() ==> #[trigger] times[i] < deadline,
    ensures
        (Debouncer::Armed { deadline }).armed_at(times, period) == (Debouncer::Armed { deadline }),
    decreases times.len(),
{
    if times.len() > 0 {
        let rest = times.drop_first();
        assert forall|i: int| 0 <= i < rest.len() implies #[trigger] rest[i] < deadline by {
            assert(rest[i] == times[i + 1]);
        }
        assert(times[0] < deadline);
        law_arming_again_keeps_deadline(deadline, rest, period);
    }
}

/// Continuous updates cannot starve a refresh: a timer that is armed at `start`,
/// and again at any times within the period, waits until the period's end at
/// most, and ticks when that wait is over or when it is armed then.
pub proof fn law_ticks_within_one_period(start: u64, times: Seq<u64>, now: u64, period: u64)
    requires
        period > 0,
        start + period <= u64::MAX,
        forall|i: int| 0 <= i < times.len() ==> #[trigger] times[i] < start + period,
        start <= now <= start + period,
    ensures
        ({
            let armed = Debouncer::Idle.signalled(
                DebounceSignal::Command(DebounceCommand::Arm),
                start,
                period,
            );
            let timer = armed.armed_at(times, period);
            let end = (start + period) as u64;
            &&& timer.waiting(now) == DebounceWait::AtMost((end - now) as u64)
            &&& timer.ticks(DebounceSignal::TimedOut, end, period)
            &&& timer.ticks(DebounceSignal::Command(DebounceCommand::Arm), end, period)
            &&& now < end ==> !timer.ticks(
                DebounceSignal::Command(DebounceCommand::Arm),
                now,
                period,
            )
        }),
{
    law_arming_again_keeps_deadline((start + period) as u64, times, period);
}

/// A stopped timer never ticks again.
pub proof fn law_stopped_stays_stopped(signal: DebounceSignal, now: u64, period: u64)
    ensures
        Debouncer::Stopped.signalled(signal, now, period) == Debouncer::Stopped,
        !Debouncer::Stopped.ticks(signal, now, period),
{
}

/// A timer ticks only if it was armed: a wait that is over makes an armed timer
/// tick and leaves it idle, and an idle one stays as it is. A shutdown, or nobody
/// being left to arm it, stops it without a tick.
pub proof fn law_only_an_armed_timer_ticks(timer: Debouncer, now: u64, period: u64)
    ensures
        timer.ticks(DebounceSignal::TimedOut, now, period) <==> timer is Armed,
        !(timer is Stopped) ==> timer.signalled(DebounceSignal::TimedOut, now, period)
            == Debouncer::Idle,
        timer.signalled(
            DebounceSignal::Command(DebounceCommand::Shutdown),
            now,
            period,
        ) == Debouncer::Stopped,
        timer.signalled(DebounceSignal::Disconnected, now, period) == Debouncer::Stopped,
        !timer.ticks(DebounceSignal::Command(DebounceCommand::Shutdown), now, period),
        !timer.ticks(DebounceSignal::Disconnected, now, period),
        timer.waiting(now) is Unlimited <==> timer is Idle,
        timer.waiting(now) is Never <==> timer is Stopped,
{
}

/// Arming an idle timer makes it wait for one period from then on, and for no
/// longer than time lasts; arming it at or after its deadline makes it tick and
/// leaves it idle.
pub proof fn law_arming_starts_one_period(deadline: u64, now: u64, period: u64)
    ensures
        period > 0 && now + period <= u64::MAX ==> Debouncer::Idle.signalled(
            DebounceSignal::Command(DebounceCommand::Arm),
            now,
            period,
        ) == (Debouncer::Armed { deadline: (now + period) as u64 }),
        now + period > u64::MAX && now < u64::MAX ==> Debouncer::Idle.signalled(
            DebounceSignal::Command(DebounceCommand::Arm),
            now,
            period,
        ) == (Debouncer::Armed { deadline: u64::MAX }),
        now >= deadline ==> (Debouncer::Armed { deadline }).signalled(
            DebounceSignal::Command(DebounceCommand::Arm),
            now,
            period,
        ) == Debouncer::Idle,
        (Debouncer::Armed { deadline }).ticks(
            DebounceSignal::Command(DebounceCommand::Arm),
            now,
            period,
        ) <==> now >= deadline,
        (Debouncer::Armed { deadline }).waiting(now) == DebounceWait::AtMost(
            if now >= deadline {
                0
            } else {
                (deadline - now) as u64
            },
        ),
{
}

} // verus!
