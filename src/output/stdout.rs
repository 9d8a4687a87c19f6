//! The terminal sink: a countdown bar.
use vstd::prelude::*;

use crate::config::{ceil_div, interval_of};
use crate::output::{Effect, EffectView, Phase, PomodoroHandler};

verus! {

/// Options of the terminal sink.
#[derive(Clone, Copy, Debug, PartialEq, Eq, Structural)]
pub struct Config {
    /// Whether the bar shows the percentage done.
    pub show_percent: bool,
}

/// The terminal sink: a bar with one step per tick of the session.
#[derive(Clone, Debug)]
pub struct Stdout {
    pub config: crate::config::Config,
    /// Length of the session, in seconds.
    pub duration: u64,
    pub phase: Phase,
}

/// The line printed when a session starts.
pub open spec fn banner_text(message: Option<Seq<char>>) -> Seq<char> {
    match message {
        Some(m) => "Starting a Pomodoro for "@ + m,
        None => "Starting a pomodoro"@,
    }
}

/// The line printed when a session ends.
pub open spec fn farewell_text() -> Seq<char> {
    "Nice one! You diserve a break."@
}

/// Steps of the bar: one per tick that falls within the session.
pub open spec fn bar_steps(duration: nat, refresh_rate: nat) -> nat {
    ceil_div(duration, interval_of(refresh_rate))
}

fn steps(duration: u64, interval: u64) -> (r: u64)
    requires
        interval >= 1,
    ensures
        r as nat == ceil_div(duration as nat, interval as nat),
{
    let q = duration / interval;
    let rem = duration % interval;
    proof {
        vstd::arithmetic::div_mod::lemma_fundamental_div_mod(duration as int, interval as int);
        let x = duration as int + interval as int - 1;
        if rem == 0 {
            vstd::arithmetic::div_mod::lemma_fundamental_div_mod_converse(
                x, interval as int, q as int, interval as int - 1);
        } else {
            assert(x == (q as int + 1) * interval as int + (rem as int - 1)) by (nonlinear_arith)
                requires
                    duration as int == interval as int * q as int + rem as int,
                    x == duration as int + interval as int - 1;
            assert(q < 0xffff_ffff_ffff_ffff) by (nonlinear_arith)
                requires
                    duration as int == interval as int * q as int + rem as int,
                    rem > 0,
                    rem < interval,
                    duration <= 0xffff_ffff_ffff_ffff;
            vstd::arithmetic::div_mod::lemma_fundamental_div_mod_converse(
                x, interval as int, q as int + 1, rem as int - 1);
        }
    }
    if rem == 0 { q } else { q + 1 }
}

impl Stdout {
    /// A terminal sink, not started yet, for a session of `duration` seconds.
    pub fn new(config: crate::config::Config, duration: u64) -> (r: Stdout)
        ensures
            r.config == config,
            r.duration == duration,
            r.phase == Phase::Idle,
    {
        Stdout { config, duration, phase: Phase::Idle }
    }
}

impl PomodoroHandler for Stdout {
    open spec fn phase(&self) -> Phase {
        self.phase
    }

    open spec fn in_phase(&self, p: Phase) -> Stdout {
        Stdout { config: self.config, duration: self.duration, phase: p }
    }

    open spec fn start_effect(&self, message: Option<Seq<char>>) -> EffectView {
        EffectView::OpenBar {
            total: bar_steps(self.duration as nat, self.config@.refresh_rate),
            show_percent: self.config@.show_percent,
            banner: banner_text(message),
        }
    }

    open spec fn refresh_effect(&self, remaining: Option<u64>) -> EffectView {
        EffectView::AdvanceBar
    }

    open spec fn end_effect(&self) -> EffectView {
        EffectView::Print { line: farewell_text() }
    }

    fn start_handler(&mut self, message: Option<&str>) -> (r: Effect) {
        let total = steps(self.duration, self.config.tick_interval());
        let banner = match message {
            Some(m) => String::from_str("Starting a Pomodoro for ").concat(m),
            None => String::from_str("Starting a pomodoro"),
        };
        self.phase = Phase::Running;
        Effect::OpenBar { total, show_percent: self.config.outputs.stdout.show_percent, banner }
    }

    fn refresh(&mut self, remaining_time: Option<u64>) -> (r: Effect) {
        Effect::AdvanceBar
    }

    fn end_handler(&mut self) -> (r: Effect) {
        self.phase = Phase::Ended;
        Effect::Print { line: String::from_str("Nice one! You diserve a break.") }
    }
}

} // verus!
