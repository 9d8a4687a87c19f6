//! Sessions: the length of each kind, the lock and the sink names settled
//! before any sink starts, and the driver that takes each sink through its lifecycle.
//!
//! The program runs one driver per sink on its own task, and hands every
//! driver each tick of the session's single timer engine.
use vstd::prelude::*;

use crate::config::{interval_of, Config, ConfigView};
use crate::output::{
    get_outputs, is_first_unknown, is_known_sink, message_view, Effect, Output, Phase, PomodoroHandler,
    UnknownSinkKind,
};
use crate::timer::Tick;

verus! {

/// What a session is for.
#[derive(Clone, Copy, Debug, PartialEq, Eq, Structural)]
pub enum SessionKind {
    Pomodoro,
    ShortBreak,
    LongBreak,
}

/// One bounded run of the timer.
#[derive(Clone, Debug)]
pub struct Session {
    pub kind: SessionKind,
    /// Length, in seconds.
    pub duration: u64,
    /// Seconds between two ticks; at least 1.
    pub tick_interval: u64,
    /// What the session is about, if the user said.
    pub message: Option<String>,
}

/// The length that the settings give a session of kind `kind`.
pub open spec fn duration_of(kind: SessionKind, config: ConfigView) -> nat {
    match kind {
        SessionKind::Pomodoro => config.pomodoro_duration,
        SessionKind::ShortBreak => config.break_duration,
        SessionKind::LongBreak => config.long_break_duration,
    }
}

impl Session {
    /// A session of kind `kind` as the settings describe it.
    pub fn new(kind: SessionKind, config: &Config, message: Option<String>) -> (r: Session)
        ensures
            r.kind == kind,
            r.duration as nat == duration_of(kind, config@),
            r.tick_interval as nat == interval_of(config@.refresh_rate),
            r.message == message,
    {
        let duration = match kind {
            SessionKind::Pomodoro => config.pomodoro_duration,
            SessionKind::ShortBreak => config.break_duration,
            SessionKind::LongBreak => config.long_break_duration,
        };
        Session { kind, duration, tick_interval: config.tick_interval(), message }
    }
}

/// Why a session could not run, or failed.
#[derive(Clone, Debug)]
pub enum RunError {
    /// Another session holds the lock.
    AlreadyRunning,
    /// The settings name a sink kind that does not exist.
    UnknownSinkKind(UnknownSinkKind),
    /// The clock could not be read or went backwards.
    ClockFailure,
    /// A sink could not read or write what backs it.
    SinkIOFailure(String),
}

/// One lifecycle call made on a sink.
pub enum Call {
    Start(Option<Seq<char>>),
    Refresh(Option<u64>),
    End,
}

/// Drives one sink: starts it, refreshes it with the remaining time on every
/// tick within the session, and ends it once.
pub struct SinkDriver {
    pub output: Output,
    /// Length of the session, in seconds.
    pub duration: u64,
    /// Elapsed seconds of the last tick taken, 0 before the first.
    pub last_elapsed: u64,
    /// The lifecycle calls made on the sink so far.
    pub calls: Ghost<Seq<Call>>,
}

/// Whether `calls` is a start followed by refreshes only.
pub open spec fn started_then_refreshed(calls: Seq<Call>) -> bool {
    &&& calls.len() >= 1
    &&& calls[0] is Start
    &&& forall|i: int| 1 <= i < calls.len() ==> #[trigger] calls[i] is Refresh
}

impl SinkDriver {
    /// The driver's invariant: the sink's phase is what its calls made of it,
    /// and the remaining times it was shown strictly decrease, none below what
    /// the last tick left.
    pub open spec fn wf(&self) -> bool {
        let calls = self.calls@;
        &&& self.output.duration() == self.duration
        &&& self.last_elapsed <= self.duration || self.output.phase() == Phase::Ended
        &&& (self.output.phase() == Phase::Idle <==> calls.len() == 0)
        &&& (self.output.phase() == Phase::Running <==> started_then_refreshed(calls))
        &&& (self.output.phase() == Phase::Ended <==> (calls.len() >= 2
            && started_then_refreshed(calls.drop_last()) && calls.last() is End))
        &&& forall|i: int| 0 <= i < calls.len() ==> match #[trigger] calls[i] {
            Call::Refresh(Some(x)) => x as int >= self.duration - self.last_elapsed,
            Call::Refresh(None) => false,
            _ => true,
        }
        &&& forall|i: int, j: int| 0 <= i < j < calls.len() && calls[i] is Refresh && calls[j] is Refresh
            ==> calls[i]->Refresh_0->Some_0 > calls[j]->Refresh_0->Some_0
    }

    /// A driver for a sink that has not started.
    pub fn new(output: Output) -> (r: SinkDriver)
        requires
            output.phase() == Phase::Idle,
        ensures
            r.wf(),
            r.output == output,
            r.duration == output.duration(),
            r.last_elapsed == 0,
            r.calls@.len() == 0,
    {
        let duration = output.session_length();
        SinkDriver { output, duration, last_elapsed: 0, calls: Ghost(Seq::empty()) }
    }

    /// Starts the sink, unless it was started before.
    pub fn start(&mut self, message: Option<&str>) -> (r: Option<Effect>)
        requires
            old(self).wf(),
        ensures
            final(self).wf(),
            final(self).duration == old(self).duration,
            old(self).output.phase() == Phase::Idle ==> {
                &&& r is Some
                &&& r->Some_0@ == old(self).output.start_effect(message_view(message))
                &&& final(self).output == old(self).output.in_phase(Phase::Running)
                &&& final(self).output.phase() == Phase::Running
                &&& final(self).last_elapsed == old(self).last_elapsed
                &&& final(self).calls@ == old(self).calls@.push(Call::Start(message_view(message)))
            },
            old(self).output.phase() != Phase::Idle ==> r is None && *final(self) == *old(self),
    {
        if self.output.phase_now() != Phase::Idle {
            return None;
        }
        let effect = self.output.start_handler(message);
        self.calls = Ghost(self.calls@.push(Call::Start(message_view(message))));
        proof {
            let calls = self.calls@;
            assert(calls.len() == 1);
            assert(started_then_refreshed(calls));
        }
        Some(effect)
    }

    /// Takes one tick: a tick within the session refreshes the sink with the
    /// time that remains, the first tick past it ends the sink. A tick that is
    /// not later than the last one, or that comes to a sink that is not
    /// running, does nothing.
    pub fn on_tick(&mut self, tick: Tick) -> (r: Option<Effect>)
        requires
            old(self).wf(),
        ensures
            final(self).wf(),
            final(self).duration == old(self).duration,
            old(self).output.phase() == Phase::Running && tick.elapsed > old(self).last_elapsed
                && tick.elapsed <= old(self).duration ==> {
                &&& r is Some
                &&& r->Some_0@ == old(self).output.refresh_effect(
                    Some((old(self).duration - tick.elapsed) as u64))
                &&& final(self).output == old(self).output
                &&& final(self).last_elapsed == tick.elapsed
                &&& final(self).calls@ == old(self).calls@.push(
                    Call::Refresh(Some((old(self).duration - tick.elapsed) as u64)))
            },
            old(self).output.phase() == Phase::Running && tick.elapsed > old(self).last_elapsed
                && tick.elapsed > old(self).duration ==> {
                &&& r is Some
                &&& r->Some_0@ == old(self).output.end_effect()
                &&& final(self).output == old(self).output.in_phase(Phase::Ended)
                &&& final(self).output.phase() == Phase::Ended
                &&& final(self).last_elapsed == tick.elapsed
                &&& final(self).calls@ == old(self).calls@.push(Call::End)
            },
            old(self).output.phase() != Phase::Running || tick.elapsed <= old(self).last_elapsed
                ==> r is None && *final(self) == *old(self),
    {
        if self.output.phase_now() != Phase::Running || tick.elapsed <= self.last_elapsed {
            return None;
        }
        let ghost old_calls = self.calls@;
        let ghost old_last = self.last_elapsed;
        if tick.elapsed <= self.duration {
            let remaining = self.duration - tick.elapsed;
            let effect = self.output.refresh(Some(remaining));
            self.last_elapsed = tick.elapsed;
            self.calls = Ghost(old_calls.push(Call::Refresh(Some(remaining))));
            proof {
                let calls = self.calls@;
                assert(calls.drop_last() == old_calls);
                assert forall|i: int| 1 <= i < calls.len() implies #[trigger] calls[i] is Refresh by {
                    if i < old_calls.len() {
                        assert(calls[i] == old_calls[i]);
                    }
                }
                assert forall|i: int| 0 <= i < calls.len() implies match #[trigger] calls[i] {
                    Call::Refresh(Some(x)) => x as int >= self.duration - self.last_elapsed,
                    Call::Refresh(None) => false,
                    _ => true,
                } by {
                    if i < old_calls.len() {
                        assert(calls[i] == old_calls[i]);
                    }
                }
                assert forall|i: int, j: int| 0 <= i < j < calls.len() && calls[i] is Refresh
                    && calls[j] is Refresh implies calls[i]->Refresh_0->Some_0
                    > calls[j]->Refresh_0->Some_0 by {
                    assert(calls[i] == old_calls[i]);
                    if j < old_calls.len() {
                        assert(calls[j] == old_calls[j]);
                    } else {
                        assert(old_calls[i] is Refresh);
                        assert(old_calls[i]->Refresh_0->Some_0 >= self.duration - old_last);
                    }
                }
            }
            Some(effect)
        } else {
            let effect = self.output.end_handler();
            self.last_elapsed = tick.elapsed;
            self.calls = Ghost(old_calls.push(Call::End));
            proof {
                let calls = self.calls@;
                assert(calls.drop_last() == old_calls);
                assert forall|i: int| 0 <= i < calls.len() implies match #[trigger] calls[i] {
                    Call::Refresh(Some(x)) => x as int >= self.duration - self.last_elapsed,
                    Call::Refresh(None) => false,
                    _ => true,
                } by {
                    if i < old_calls.len() {
                        assert(calls[i] == old_calls[i]);
                    }
                }
                assert forall|i: int, j: int| 0 <= i < j < calls.len() && calls[i] is Refresh
                    && calls[j] is Refresh implies calls[i]->Refresh_0->Some_0
                    > calls[j]->Refresh_0->Some_0 by {
                    assert(calls[i] == old_calls[i]);
                    assert(calls[j] == old_calls[j]);
                }
            }
            Some(effect)
        }
    }

    /// Ends a running sink when the stream of ticks stops early: the session
    /// was cancelled, or failed. A sink that never started, or already ended,
    /// is left as it is.
    pub fn finish(&mut self) -> (r: Option<Effect>)
        requires
            old(self).wf(),
        ensures
            final(self).wf(),
            final(self).duration == old(self).duration,
            old(self).output.phase() == Phase::Running ==> {
                &&& r is Some
                &&& r->Some_0@ == old(self).output.end_effect()
                &&& final(self).output == old(self).output.in_phase(Phase::Ended)
                &&& final(self).output.phase() == Phase::Ended
                &&& final(self).last_elapsed == old(self).last_elapsed
                &&& final(self).calls@ == old(self).calls@.push(Call::End)
            },
            old(self).output.phase() != Phase::Running ==> r is None && *final(self) == *old(self),
    {
        if self.output.phase_now() != Phase::Running {
            return None;
        }
        let ghost old_calls = self.calls@;
        let effect = self.output.end_handler();
        self.calls = Ghost(old_calls.push(Call::End));
        proof {
            let calls = self.calls@;
            assert(calls.drop_last() == old_calls);
            assert forall|i: int| 0 <= i < calls.len() implies match #[trigger] calls[i] {
                Call::Refresh(Some(x)) => x as int >= self.duration - self.last_elapsed,
                Call::Refresh(None) => false,
                _ => true,
            } by {
                if i < old_calls.len() {
                    assert(calls[i] == old_calls[i]);
                }
            }
            assert forall|i: int, j: int| 0 <= i < j < calls.len() && calls[i] is Refresh
                && calls[j] is Refresh implies calls[i]->Refresh_0->Some_0
                > calls[j]->Refresh_0->Some_0 by {
                assert(calls[i] == old_calls[i]);
                assert(calls[j] == old_calls[j]);
            }
        }
        Some(effect)
    }

    /// Whether the sink has ended.
    pub fn is_done(&self) -> (r: bool)
        ensures
            r == (self.output.phase() == Phase::Ended),
    {
        self.output.phase_now() == Phase::Ended
    }
}

/// A driver, fresh, for the sink that `name` names in a session of `duration` seconds.
pub open spec fn is_fresh_driver(d: SinkDriver, name: Seq<char>, config: ConfigView, duration: u64) -> bool {
    &&& d.wf()
    &&& d.output.is_built_from(name, config, duration)
    &&& d.duration == duration
    &&& d.last_elapsed == 0
    &&& d.calls@.len() == 0
}

/// Opens a session once the program has tried to take the lock: without the
/// lock nothing is built and the answer is `AlreadyRunning`; with it, one fresh
/// driver per configured sink, in order, unless a name is unknown, in which
/// case no sink is built at all.
pub fn open_session(config: &Config, session: &Session, lock_acquired: bool) -> (r: Result<
    Vec<SinkDriver>,
    RunError,
>)
    ensures
        !lock_acquired ==> r is Err && r->Err_0 is AlreadyRunning,
        lock_acquired ==> (r is Ok <==> forall|i: int| 0 <= i < config@.outputs_to_use.len()
            ==> is_known_sink(#[trigger] config@.outputs_to_use[i])),
        lock_acquired && r is Ok ==> r->Ok_0@.len() == config@.outputs_to_use.len(),
        lock_acquired && r is Ok ==> forall|i: int| 0 <= i < config@.outputs_to_use.len()
            ==> is_fresh_driver(#[trigger] r->Ok_0@[i], config@.outputs_to_use[i], config@, session.duration),
        lock_acquired && r is Err ==> r->Err_0 is UnknownSinkKind
            && is_first_unknown(config@.outputs_to_use, r->Err_0->UnknownSinkKind_0.name@),
{
    if !lock_acquired {
        return Err(RunError::AlreadyRunning);
    }
    let mut outputs = match get_outputs(config, session.duration) {
        Ok(outputs) => outputs,
        Err(e) => {
            return Err(RunError::UnknownSinkKind(e));
        },
    };
    let ghost built = outputs@;
    let n = outputs.len();
    let mut drivers: Vec<SinkDriver> = Vec::with_capacity(n);
    let mut k: usize = 0;
    while outputs.len() > 0
        invariant
            k + outputs@.len() == built.len(),
            built.len() == n,
            outputs@ == built.subrange(k as int, built.len() as int),
            drivers@.len() == k,
            built.len() == config@.outputs_to_use.len(),
            forall|i: int| 0 <= i < built.len()
                ==> (#[trigger] built[i]).is_built_from(config@.outputs_to_use[i], config@, session.duration),
            forall|i: int| 0 <= i < k
                ==> is_fresh_driver(#[trigger] drivers@[i], config@.outputs_to_use[i], config@, session.duration),
        decreases outputs@.len(),
    {
        let output = outputs.remove(0);
        assert(output == built[k as int]);
        drivers.push(SinkDriver::new(output));
        k = k + 1;
        assert(outputs@ =~= built.subrange(k as int, built.len() as int));
    }
    Ok(drivers)
}

/// However a sink's session comes to an end (its last tick, an early stop or a
/// failure elsewhere), once it has ended it was started exactly once, first,
/// and ended exactly once, last, with only refreshes in between.
pub proof fn lemma_ended_once(d: SinkDriver)
    requires
        d.wf(),
        d.output.phase() == Phase::Ended,
    ensures
        d.calls@.len() >= 2,
        d.calls@[0] is Start,
        d.calls@.last() is End,
        forall|i: int| 0 <= i < d.calls@.len() && (#[trigger] d.calls@[i]) is Start ==> i == 0,
        forall|i: int| 0 <= i < d.calls@.len() && (#[trigger] d.calls@[i]) is End ==> i == d.calls@.len() - 1,
{
    let calls = d.calls@;
    let init = calls.drop_last();
    assert forall|i: int| 0 <= i < calls.len() && (#[trigger] calls[i]) is Start implies i == 0 by {
        if 0 < i < calls.len() - 1 {
            assert(calls[i] == init[i]);
            assert(init[i] is Refresh);
        }
    }
    assert forall|i: int| 0 <= i < calls.len() && (#[trigger] calls[i]) is End implies i == calls.len() - 1 by {
        if i < calls.len() - 1 {
            assert(calls[i] == init[i]);
        }
    }
    assert(calls[0] == init[0]);
}

/// Within one sink, the remaining times shown by successive refreshes
/// strictly decrease.
pub proof fn lemma_remaining_decreases(d: SinkDriver, i: int, j: int)
    requires
        d.wf(),
        0 <= i < j < d.calls@.len(),
        d.calls@[i] is Refresh,
        d.calls@[j] is Refresh,
    ensures
        d.calls@[i]->Refresh_0 is Some,
        d.calls@[j]->Refresh_0 is Some,
        d.calls@[i]->Refresh_0->Some_0 > d.calls@[j]->Refresh_0->Some_0,
{
    assert(d.calls@[i]->Refresh_0 is Some);
    assert(d.calls@[j]->Refresh_0 is Some);
}

} // verus!
