//! Output sinks and the formatting they share.
//!
//! A sink does not perform its own input or output: each lifecycle call returns
//! the effect to perform (draw, print, write or remove a file), and the program
//! that drives the session carries it out.
use vstd::prelude::*;

use crate::config::{file_name, file_string, stdout_name, stdout_string, Config, ConfigView};

pub mod file;
pub mod stdout;

verus! {

/// The character of a decimal digit.
pub open spec fn digit_char(d: nat) -> char {
    if d == 0 { '0' }
    else if d == 1 { '1' }
    else if d == 2 { '2' }
    else if d == 3 { '3' }
    else if d == 4 { '4' }
    else if d == 5 { '5' }
    else if d == 6 { '6' }
    else if d == 7 { '7' }
    else if d == 8 { '8' }
    else { '9' }
}

/// The decimal notation of `n`, without leading zeros.
pub open spec fn decimal(n: nat) -> Seq<char>
    decreases n,
{
    if n < 10 {
        seq![digit_char(n)]
    } else {
        decimal(n / 10).push(digit_char(n % 10))
    }
}

/// The decimal notation of `n`, padded with a leading zero to at least two digits.
pub open spec fn two_digits(n: nat) -> Seq<char> {
    if n < 10 {
        seq!['0', digit_char(n)]
    } else {
        decimal(n)
    }
}

/// `MM:SS` display of a number of seconds: whole minutes, then the seconds left over.
pub open spec fn format_duration_spec(secs: nat) -> Seq<char> {
    two_digits(secs / 60) + seq![':'] + two_digits(secs % 60)
}

fn digit_str(d: u64) -> (r: &'static str)
    requires
        d < 10,
    ensures
        r@ == seq![digit_char(d as nat)],
{
    proof {
        reveal_strlit("0");
        reveal_strlit("1");
        reveal_strlit("2");
        reveal_strlit("3");
        reveal_strlit("4");
        reveal_strlit("5");
        reveal_strlit("6");
        reveal_strlit("7");
        reveal_strlit("8");
        reveal_strlit("9");
    }
    if d == 0 { "0" }
    else if d == 1 { "1" }
    else if d == 2 { "2" }
    else if d == 3 { "3" }
    else if d == 4 { "4" }
    else if d == 5 { "5" }
    else if d == 6 { "6" }
    else if d == 7 { "7" }
    else if d == 8 { "8" }
    else { "9" }
}

fn push_decimal(s: &mut String, n: u64)
    ensures
        final(s)@ == old(s)@ + decimal(n as nat),
    decreases n,
{
    if n >= 10 {
        push_decimal(s, n / 10);
    }
    s.append(digit_str(n % 10));
}

fn push_two_digits(s: &mut String, n: u64)
    ensures
        final(s)@ == old(s)@ + two_digits(n as nat),
{
    if n < 10 {
        proof { reveal_strlit("0"); }
        s.append("0");
    }
    push_decimal(s, n);
    proof {
        if n < 10 {
            assert(decimal(n as nat) == seq![digit_char(n as nat)]);
            assert(old(s)@ + seq!['0'] + seq![digit_char(n as nat)] =~= old(s)@ + two_digits(n as nat));
        }
    }
}

/// Renders a number of seconds as `MM:SS` (minutes keep every digit past the second).
pub fn format_duration(secs: u64) -> (r: String)
    ensures
        r@ == format_duration_spec(secs as nat),
{
    let mut s = String::new();
    push_two_digits(&mut s, secs / 60);
    proof { reveal_strlit(":"); }
    s.append(":");
    push_two_digits(&mut s, secs % 60);
    assert(s@ =~= format_duration_spec(secs as nat));
    s
}

/// Where a sink stands in its lifecycle.
#[derive(Clone, Copy, Debug, PartialEq, Eq, Structural)]
pub enum Phase {
    /// Built, not started.
    Idle,
    /// Started, receiving refreshes.
    Running,
    /// Ended; it receives nothing more.
    Ended,
}

/// What a sink asks to be done on one lifecycle call.
#[derive(Clone, Debug)]
pub enum Effect {
    /// Print `banner`, then draw a countdown bar of `total` steps.
    OpenBar { total: u64, show_percent: bool, banner: String },
    /// Move the countdown bar one step on.
    AdvanceBar,
    /// Print one line.
    Print { line: String },
    /// Replace the whole content of the file at `path` with `contents`,
    /// creating it if it does not exist.
    WriteFile { path: String, contents: String },
    /// Delete the file at `path`.
    RemoveFile { path: String },
}

/// An effect as a mathematical value.
pub enum EffectView {
    OpenBar { total: nat, show_percent: bool, banner: Seq<char> },
    AdvanceBar,
    Print { line: Seq<char> },
    WriteFile { path: Seq<char>, contents: Seq<char> },
    RemoveFile { path: Seq<char> },
}

impl View for Effect {
    type V = EffectView;

    open spec fn view(&self) -> EffectView {
        match self {
            Effect::OpenBar { total, show_percent, banner } => EffectView::OpenBar {
                total: *total as nat,
                show_percent: *show_percent,
                banner: banner@,
            },
            Effect::AdvanceBar => EffectView::AdvanceBar,
            Effect::Print { line } => EffectView::Print { line: line@ },
            Effect::WriteFile { path, contents } => EffectView::WriteFile {
                path: path@,
                contents: contents@,
            },
            Effect::RemoveFile { path } => EffectView::RemoveFile { path: path@ },
        }
    }
}

/// The text of an optional message.
pub open spec fn message_view(message: Option<&str>) -> Option<Seq<char>> {
    match message {
        Some(m) => Some(m@),
        None => None,
    }
}

/// The lifecycle of an output sink: started once, refreshed once per tick,
/// ended once. Each call returns the effect that renders it.
pub trait PomodoroHandler: Sized {
    /// Where the sink stands in its lifecycle.
    spec fn phase(&self) -> Phase;

    /// The same sink, moved to phase `p`.
    spec fn in_phase(&self, p: Phase) -> Self;

    /// The effect of starting, with an optional message.
    spec fn start_effect(&self, message: Option<Seq<char>>) -> EffectView;

    /// The effect of a refresh with the remaining seconds, if known.
    spec fn refresh_effect(&self, remaining: Option<u64>) -> EffectView;

    /// The effect of ending.
    spec fn end_effect(&self) -> EffectView;

    /// Starts the sink.
    fn start_handler(&mut self, message: Option<&str>) -> (r: Effect)
        requires
            old(self).phase() == Phase::Idle,
        ensures
            r@ == old(self).start_effect(message_view(message)),
            *final(self) == old(self).in_phase(Phase::Running),
    ;

    /// Shows the remaining seconds.
    fn refresh(&mut self, remaining_time: Option<u64>) -> (r: Effect)
        requires
            old(self).phase() == Phase::Running,
        ensures
            r@ == old(self).refresh_effect(remaining_time),
            *final(self) == *old(self),
    ;

    /// Ends the sink and releases what it holds.
    fn end_handler(&mut self) -> (r: Effect)
        requires
            old(self).phase() == Phase::Running,
        ensures
            r@ == old(self).end_effect(),
            *final(self) == old(self).in_phase(Phase::Ended),
    ;
}

/// A configured sink of one of the known kinds.
#[derive(Clone, Debug)]
pub enum Output {
    Stdout(stdout::Stdout),
    File(file::File),
}

/// A sink name that no kind answers to.
#[derive(Clone, Debug)]
pub struct UnknownSinkKind {
    pub name: String,
}

/// Whether a sink kind answers to `name`.
pub open spec fn is_known_sink(name: Seq<char>) -> bool {
    name == stdout_name() || name == file_name()
}

/// Whether `name` is the first of `names` that no sink kind answers to.
pub open spec fn is_first_unknown(names: Seq<Seq<char>>, name: Seq<char>) -> bool {
    exists|i: int| 0 <= i < names.len()
        && !is_known_sink(#[trigger] names[i])
        && name == names[i]
        && forall|j: int| 0 <= j < i ==> is_known_sink(#[trigger] names[j])
}

impl Output {
    /// The name of the sink's kind.
    pub open spec fn kind(&self) -> Seq<char> {
        match self {
            Output::Stdout(_) => stdout_name(),
            Output::File(_) => file_name(),
        }
    }

    /// The settings the sink was built with.
    pub open spec fn settings(&self) -> ConfigView {
        match self {
            Output::Stdout(s) => s.config@,
            Output::File(f) => f.config@,
        }
    }

    /// Length of the session the sink renders, in seconds.
    pub open spec fn duration(&self) -> u64 {
        match self {
            Output::Stdout(s) => s.duration,
            Output::File(f) => f.duration,
        }
    }

    /// Whether this is a fresh sink of kind `name` for these settings and this length.
    pub open spec fn is_built_from(&self, name: Seq<char>, config: ConfigView, duration: u64) -> bool {
        &&& self.kind() == name
        &&& self.settings() == config
        &&& self.duration() == duration
        &&& self.phase() == Phase::Idle
    }

    /// Where the sink stands in its lifecycle.
    pub fn phase_now(&self) -> (r: Phase)
        ensures
            r == self.phase(),
    {
        match self {
            Output::Stdout(s) => s.phase,
            Output::File(f) => f.phase,
        }
    }

    /// Length of the session the sink renders, in seconds.
    pub fn session_length(&self) -> (r: u64)
        ensures
            r == self.duration(),
    {
        match self {
            Output::Stdout(s) => s.duration,
            Output::File(f) => f.duration,
        }
    }

    /// Builds the sink that `output` names, for a session of `duration` seconds.
    pub fn new(output: &str, config: &Config, duration: u64) -> (r: Result<Output, UnknownSinkKind>)
        ensures
            r is Ok <==> is_known_sink(output@),
            r is Ok ==> r->Ok_0.is_built_from(output@, config@, duration),
            r is Err ==> r->Err_0.name@ == output@,
    {
        let name = output.to_owned();
        if name == stdout_string() {
            Ok(Output::Stdout(stdout::Stdout::new(config.clone(), duration)))
        } else if name == file_string() {
            Ok(Output::File(file::File::new(config.clone(), duration)))
        } else {
            Err(UnknownSinkKind { name })
        }
    }
}

impl PomodoroHandler for Output {
    open spec fn phase(&self) -> Phase {
        match self {
            Output::Stdout(s) => s.phase(),
            Output::File(f) => f.phase(),
        }
    }

    open spec fn in_phase(&self, p: Phase) -> Output {
        match self {
            Output::Stdout(s) => Output::Stdout(s.in_phase(p)),
            Output::File(f) => Output::File(f.in_phase(p)),
        }
    }

    open spec fn start_effect(&self, message: Option<Seq<char>>) -> EffectView {
        match self {
            Output::Stdout(s) => s.start_effect(message),
            Output::File(f) => f.start_effect(message),
        }
    }

    open spec fn refresh_effect(&self, remaining: Option<u64>) -> EffectView {
        match self {
            Output::Stdout(s) => s.refresh_effect(remaining),
            Output::File(f) => f.refresh_effect(remaining),
        }
    }

    open spec fn end_effect(&self) -> EffectView {
        match self {
            Output::Stdout(s) => s.end_effect(),
            Output::File(f) => f.end_effect(),
        }
    }

    fn start_handler(&mut self, message: Option<&str>) -> (r: Effect) {
        match self {
            Output::Stdout(s) => s.start_handler(message),
            Output::File(f) => f.start_handler(message),
        }
    }

    fn refresh(&mut self, remaining_time: Option<u64>) -> (r: Effect) {
        match self {
            Output::Stdout(s) => s.refresh(remaining_time),
            Output::File(f) => f.refresh(remaining_time),
        }
    }

    fn end_handler(&mut self) -> (r: Effect) {
        match self {
            Output::Stdout(s) => s.end_handler(),
            Output::File(f) => f.end_handler(),
        }
    }
}

/// Builds one sink per configured name, in order, for a session of `duration`
/// seconds. Nothing is built unless every name is known: the error names the
/// first unknown one.
pub fn get_outputs(config: &Config, duration: u64) -> (r: Result<Vec<Output>, UnknownSinkKind>)
    ensures
        r is Ok <==> forall|i: int| 0 <= i < config@.outputs_to_use.len()
            ==> is_known_sink(#[trigger] config@.outputs_to_use[i]),
        r is Ok ==> r->Ok_0@.len() == config@.outputs_to_use.len(),
        r is Ok ==> forall|i: int| 0 <= i < config@.outputs_to_use.len()
            ==> (#[trigger] r->Ok_0@[i]).is_built_from(config@.outputs_to_use[i], config@, duration),
        r is Err ==> is_first_unknown(config@.outputs_to_use, r->Err_0.name@),
{
    let names = &config.outputs_to_use;
    let mut outputs: Vec<Output> = Vec::with_capacity(names.len());
    let mut k: usize = 0;
    while k < names.len()
        invariant
            k <= names@.len(),
            names.deep_view() == config@.outputs_to_use,
            outputs@.len() == k,
            forall|j: int| 0 <= j < k ==> is_known_sink(#[trigger] config@.outputs_to_use[j]),
            forall|j: int| 0 <= j < k
                ==> (#[trigger] outputs@[j]).is_built_from(config@.outputs_to_use[j], config@, duration),
        decreases names@.len() - k,
    {
        assert(names.deep_view()[k as int] == names@[k as int]@);
        match Output::new(names[k].as_str(), config, duration) {
            Ok(o) => outputs.push(o),
            Err(e) => {
                return Err(e);
            },
        }
        k = k + 1;
    }
    Ok(outputs)
}

} // verus!
