//! The timer engine: one per session, it turns clock readings into ticks.
//!
//! The engine does not sleep nor read the clock itself. The program calls
//! [`Timer::on_clock`] once per tick interval with the whole seconds elapsed
//! since the session started (or `None` when the clock could not be read),
//! and hands each tick that comes back to the sinks.
use vstd::prelude::*;

use crate::config::{ceil_div, interval_of};
use vstd::arithmetic::div_mod::{lemma_fundamental_div_mod, lemma_fundamental_div_mod_converse};

verus! {

/// Lifecycle of the engine: it runs once.
#[derive(Clone, Copy, Debug, PartialEq, Eq, Structural)]
pub enum TimerState {
    Idle,
    Running,
    Finished,
}

/// Why the engine refused a call.
#[derive(Clone, Copy, Debug, PartialEq, Eq, Structural)]
pub enum TimerError {
    /// `start` on an engine that already started.
    AlreadyStarted,
    /// A reading on an engine that is not running.
    NotRunning,
    /// The clock could not be read or went backwards: the session cannot go on.
    ClockFailure,
}

/// One sample of the time elapsed since the session started, in seconds.
#[derive(Clone, Copy, Debug, PartialEq, Eq, Structural)]
pub struct Tick {
    pub elapsed: u64,
}

/// The timer engine of one session.
#[derive(Clone, Copy, Debug, PartialEq, Eq, Structural)]
pub struct Timer {
    /// Length of the session, in seconds.
    pub duration: u64,
    /// Seconds between two readings of the clock.
    pub tick_interval: u64,
    pub state: TimerState,
    /// The elapsed time of the last tick, 0 before the first.
    pub last_elapsed: u64,
}

impl Timer {
    /// What a reading yields: a tick when it is later than the last one, and
    /// a clock failure when it is missing or not later.
    pub open spec fn clock_result(self, reading: Option<u64>) -> Result<Tick, TimerError> {
        if self.state != TimerState::Running {
            Err(TimerError::NotRunning)
        } else {
            match reading {
                Some(e) if e > self.last_elapsed => Ok(Tick { elapsed: e }),
                _ => Err(TimerError::ClockFailure),
            }
        }
    }

    /// The engine after a reading: a tick past the duration is the last one,
    /// and a clock failure ends the engine too.
    pub open spec fn after_clock(self, reading: Option<u64>) -> Timer {
        if self.state != TimerState::Running {
            self
        } else {
            match reading {
                Some(e) if e > self.last_elapsed => Timer {
                    last_elapsed: e,
                    state: if e > self.duration { TimerState::Finished } else { TimerState::Running },
                    ..self
                },
                _ => Timer { state: TimerState::Finished, ..self },
            }
        }
    }

    /// The elapsed times of the ticks that a run of readings yields, up to the
    /// end of the stream or the first failure.
    pub open spec fn ticks_from(self, readings: Seq<Option<u64>>) -> Seq<u64>
        decreases readings.len(),
    {
        if readings.len() == 0 {
            Seq::empty()
        } else {
            match self.clock_result(readings[0]) {
                Ok(tick) => seq![tick.elapsed]
                    + self.after_clock(readings[0]).ticks_from(readings.subrange(1, readings.len() as int)),
                Err(_) => Seq::empty(),
            }
        }
    }

    /// An engine for a session of `duration` seconds that reads the clock every
    /// `tick_interval` seconds; an interval of zero means every second.
    pub fn new(duration: u64, tick_interval: u64) -> (r: Timer)
        ensures
            r.duration == duration,
            r.tick_interval as nat == interval_of(tick_interval as nat),
            r.state == TimerState::Idle,
            r.last_elapsed == 0,
    {
        Timer {
            duration,
            tick_interval: if tick_interval == 0 { 1 } else { tick_interval },
            state: TimerState::Idle,
            last_elapsed: 0,
        }
    }

    /// Starts the engine; it starts only once.
    pub fn start(&mut self) -> (r: Result<(), TimerError>)
        ensures
            old(self).state == TimerState::Idle ==> r is Ok
                && *final(self) == (Timer { state: TimerState::Running, ..*old(self) }),
            old(self).state != TimerState::Idle ==> r == Err::<(), TimerError>(TimerError::AlreadyStarted)
                && *final(self) == *old(self),
    {
        if self.state == TimerState::Idle {
            self.state = TimerState::Running;
            Ok(())
        } else {
            Err(TimerError::AlreadyStarted)
        }
    }

    /// Whether the stream of ticks has ended.
    pub fn is_finished(&self) -> (r: bool)
        ensures
            r == (self.state == TimerState::Finished),
    {
        self.state == TimerState::Finished
    }

    /// Takes one reading of the clock: the whole seconds elapsed since the
    /// session started, or `None` where the clock failed.
    pub fn on_clock(&mut self, reading: Option<u64>) -> (r: Result<Tick, TimerError>)
        ensures
            r == old(self).clock_result(reading),
            *final(self) == old(self).after_clock(reading),
    {
        if self.state != TimerState::Running {
            return Err(TimerError::NotRunning);
        }
        match reading {
            Some(e) if e > self.last_elapsed => {
                self.last_elapsed = e;
                if e > self.duration {
                    self.state = TimerState::Finished;
                }
                Ok(Tick { elapsed: e })
            },
            _ => {
                self.state = TimerState::Finished;
                Err(TimerError::ClockFailure)
            },
        }
    }
}

/// Readings of a steady clock that is read every `interval` seconds:
/// `interval`, `2 * interval`, ... (`n` readings in all).
pub open spec fn steady_readings(interval: nat, n: nat) -> Seq<Option<u64>> {
    Seq::new(n, |i: int| Some(((i + 1) * interval) as u64))
}

/// Whatever the clock reads, the ticks of a stream strictly increase and all
/// come after the last tick already given; every tick but the last falls
/// within the session, so the stream ends with its first tick past the duration.
pub proof fn lemma_ticks_increase(t: Timer, readings: Seq<Option<u64>>)
    ensures
        t.ticks_from(readings).len() <= readings.len(),
        forall|i: int| 0 <= i < t.ticks_from(readings).len()
            ==> #[trigger] t.ticks_from(readings)[i] > t.last_elapsed,
        forall|i: int, j: int| 0 <= i < j < t.ticks_from(readings).len()
            ==> t.ticks_from(readings)[i] < t.ticks_from(readings)[j],
        forall|i: int| 0 <= i < t.ticks_from(readings).len() - 1
            ==> #[trigger] t.ticks_from(readings)[i] <= t.duration,
    decreases readings.len(),
{
    if readings.len() > 0 {
        if let Ok(tick) = t.clock_result(readings[0]) {
            let next = t.after_clock(readings[0]);
            let rest = readings.subrange(1, readings.len() as int);
            lemma_ticks_increase(next, rest);
            let tail = next.ticks_from(rest);
            let ticks = t.ticks_from(readings);
            assert(ticks == seq![tick.elapsed] + tail);
            if tick.elapsed > t.duration {
                assert(next.state == TimerState::Finished);
                if rest.len() > 0 {
                    assert(next.clock_result(rest[0]) is Err);
                }
                assert(tail.len() == 0);
            }
            assert forall|i: int| 0 <= i < ticks.len() implies #[trigger] ticks[i] > t.last_elapsed by {
                if i > 0 {
                    assert(ticks[i] == tail[i - 1]);
                }
            }
            assert forall|i: int, j: int| 0 <= i < j < ticks.len() implies ticks[i] < ticks[j] by {
                assert(ticks[j] == tail[j - 1]);
                if i > 0 {
                    assert(ticks[i] == tail[i - 1]);
                }
            }
            assert forall|i: int| 0 <= i < ticks.len() - 1 implies #[trigger] ticks[i] <= t.duration by {
                if i > 0 {
                    assert(ticks[i] == tail[i - 1]);
                }
            }
        }
    }
}

proof fn lemma_steady_from(t: Timer, interval: nat, m: nat, len: nat)
    requires
        interval >= 1,
        t.state == TimerState::Running,
        t.last_elapsed == m * interval,
        m * interval <= t.duration,
        (m + len) * interval <= u64::MAX,
        m + len >= (t.duration as nat) / interval + 1,
    ensures
        t.ticks_from(Seq::new(len, |i: int| Some(((m + 1 + i) * interval) as u64))).len()
            == (t.duration as nat) / interval + 1 - m,
    decreases len,
{
    let d = t.duration as int;
    let k = interval as int;
    let q = d / k;
    let r = d % k;
    let readings = Seq::new(len, |i: int| Some(((m + 1 + i) * interval) as u64));
    lemma_fundamental_div_mod(d, k);
    assert(m <= q) by (nonlinear_arith)
        requires
            d == k * q + r,
            0 <= r < k,
            m * k <= d;
    assert(len >= 1);
    let e = (m + 1) * interval;
    assert(e == m * interval + interval) by (nonlinear_arith)
        requires
            e == (m + 1) * interval;
    assert(e <= (m + len) * interval) by (nonlinear_arith)
        requires
            len >= 1,
            e == (m + 1) * interval;
    assert(readings[0] == Some(e as u64));
    let next = t.after_clock(readings[0]);
    let rest = readings.subrange(1, len as int);
    if e > d {
        lemma_fundamental_div_mod_converse(d, k, m as int, d - m * k);
        assert(next.state == TimerState::Finished);
        if rest.len() > 0 {
            assert(next.clock_result(rest[0]) is Err);
        }
        assert(next.ticks_from(rest).len() == 0);
    } else {
        assert(m + 1 <= q) by (nonlinear_arith)
            requires
                d == k * q + r,
                0 <= r < k,
                (m + 1) * k <= d;
        assert(rest =~= Seq::new((len - 1) as nat, |i: int| Some((((m + 1) + 1 + i) * interval) as u64)));
        lemma_steady_from(next, interval, m + 1, (len - 1) as nat);
    }
}

/// On a steady clock read every `interval` seconds, a session of `duration`
/// seconds (at least one interval) yields `duration / interval + 1` ticks,
/// which is `ceil(duration / interval)` or one more; readings after the last
/// tick are ignored.
pub proof fn lemma_steady_tick_count(duration: u64, interval: u64, n: nat)
    requires
        interval >= 1,
        duration >= interval,
        n >= duration / interval + 1,
        n * interval <= u64::MAX,
    ensures
        (Timer { duration, tick_interval: interval, state: TimerState::Running, last_elapsed: 0 })
            .ticks_from(steady_readings(interval as nat, n)).len() == duration / interval + 1,
        ceil_div(duration as nat, interval as nat) <= duration / interval + 1
            <= ceil_div(duration as nat, interval as nat) + 1,
{
    let t = Timer { duration, tick_interval: interval, state: TimerState::Running, last_elapsed: 0 };
    assert(steady_readings(interval as nat, n)
        =~= Seq::new(n, |i: int| Some(((0 + 1 + i) * interval) as u64)));
    assert(0 * interval == 0) by (nonlinear_arith);
    lemma_steady_from(t, interval as nat, 0, n);
    let d = duration as int;
    let q = d / interval as int;
    let r = d % interval as int;
    lemma_fundamental_div_mod(d, interval as int);
    let x = d + interval - 1;
    if r == 0 {
        lemma_fundamental_div_mod_converse(x, interval as int, q, interval - 1);
    } else {
        assert(x == (q + 1) * interval + (r - 1)) by (nonlinear_arith)
            requires
                d == interval * q + r,
                x == d + interval - 1;
        lemma_fundamental_div_mod_converse(x, interval as int, q + 1, r - 1);
    }
}

} // verus!
