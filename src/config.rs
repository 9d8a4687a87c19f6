//! Settings of the timer, and how a settings file is merged with the defaults.
use vstd::prelude::*;

use crate::output::file::Config as FileConfig;
use crate::output::stdout::Config as StdoutConfig;

verus! {

/// Seconds between two refreshes when nothing else is configured.
pub const DEFAULT_REFRESH_RATE: u64 = 2;

/// Length of a pomodoro when nothing else is configured: 25 minutes.
pub const DEFAULT_POMODORO_DURATION: u64 = 1500;

/// Length of a short break when nothing else is configured: 5 minutes.
pub const DEFAULT_BREAK_DURATION: u64 = 300;

/// Length of a long break when nothing else is configured: 15 minutes.
pub const DEFAULT_LONG_BREAK_DURATION: u64 = 900;

/// Name of the terminal sink.
pub open spec fn stdout_name() -> Seq<char> {
    seq!['s', 't', 'd', 'o', 'u', 't']
}

/// Name of the file sink.
pub open spec fn file_name() -> Seq<char> {
    seq!['f', 'i', 'l', 'e']
}

/// Path of the file sink when nothing else is configured.
pub open spec fn default_file_path() -> Seq<char> {
    seq!['.', '/', '.', 't', 'o', 'm', 'a', 't', 'o']
}

/// Options of every sink kind.
#[derive(Debug)]
pub struct OutputConfig {
    pub stdout: StdoutConfig,
    pub file: FileConfig,
}

/// The settings of the timer. Durations are whole seconds.
#[derive(Debug)]
pub struct Config {
    /// Seconds between two refreshes of the sinks.
    pub refresh_rate: u64,
    /// Length of a pomodoro.
    pub pomodoro_duration: u64,
    /// Length of a short break.
    pub break_duration: u64,
    /// Length of a long break.
    pub long_break_duration: u64,
    /// Names of the sinks to drive, in order.
    pub outputs_to_use: Vec<String>,
    /// Options of each sink kind.
    pub outputs: OutputConfig,
}

/// Seconds between two ticks for a configured refresh rate; a rate of zero
/// means that none was chosen, and ticks come every second.
pub open spec fn interval_of(refresh_rate: nat) -> nat {
    if refresh_rate == 0 { 1 } else { refresh_rate }
}

/// `a / b` rounded up.
pub open spec fn ceil_div(a: nat, b: nat) -> nat {
    if b == 0 { 0 } else { ((a + b - 1) as nat) / b }
}

impl Clone for OutputConfig {
    fn clone(&self) -> (r: OutputConfig)
        ensures
            r == *self,
    {
        OutputConfig { stdout: self.stdout, file: self.file.clone() }
    }
}

impl Clone for Config {
    fn clone(&self) -> (r: Config)
        ensures
            r@ == self@,
    {
        let outputs_to_use = self.outputs_to_use.clone();
        assert forall|i: int| 0 <= i < outputs_to_use.len() implies outputs_to_use[i]
            == self.outputs_to_use[i] by {
            assert(cloned::<String>(self.outputs_to_use[i], outputs_to_use[i]));
        }
        assert(outputs_to_use.deep_view() =~= self.outputs_to_use.deep_view());
        Config {
            refresh_rate: self.refresh_rate,
            pomodoro_duration: self.pomodoro_duration,
            break_duration: self.break_duration,
            long_break_duration: self.long_break_duration,
            outputs_to_use,
            outputs: self.outputs.clone(),
        }
    }
}

/// Settings as a mathematical value.
pub struct ConfigView {
    pub refresh_rate: nat,
    pub pomodoro_duration: nat,
    pub break_duration: nat,
    pub long_break_duration: nat,
    pub outputs_to_use: Seq<Seq<char>>,
    pub show_percent: bool,
    pub file_path: Seq<char>,
}

impl View for Config {
    type V = ConfigView;

    open spec fn view(&self) -> ConfigView {
        ConfigView {
            refresh_rate: self.refresh_rate as nat,
            pomodoro_duration: self.pomodoro_duration as nat,
            break_duration: self.break_duration as nat,
            long_break_duration: self.long_break_duration as nat,
            outputs_to_use: self.outputs_to_use.deep_view(),
            show_percent: self.outputs.stdout.show_percent,
            file_path: self.outputs.file.path@,
        }
    }
}

/// The settings used when no settings file is given.
pub open spec fn default_config() -> ConfigView {
    ConfigView {
        refresh_rate: DEFAULT_REFRESH_RATE as nat,
        pomodoro_duration: DEFAULT_POMODORO_DURATION as nat,
        break_duration: DEFAULT_BREAK_DURATION as nat,
        long_break_duration: DEFAULT_LONG_BREAK_DURATION as nat,
        outputs_to_use: seq![stdout_name()],
        show_percent: false,
        file_path: default_file_path(),
    }
}

pub(crate) fn stdout_string() -> (r: String)
    ensures
        r@ == stdout_name(),
{
    proof { reveal_strlit("stdout"); }
    String::from_str("stdout")
}

pub(crate) fn file_string() -> (r: String)
    ensures
        r@ == file_name(),
{
    proof { reveal_strlit("file"); }
    String::from_str("file")
}

/// The settings used when no settings file is given: refresh every 2 seconds,
/// 25-minute pomodoros, and the terminal sink alone.
pub fn get_default_config() -> (r: Config)
    ensures
        r@ == default_config(),
{
    proof { reveal_strlit("./.tomato"); }
    let default_tomato_file = String::from_str("./.tomato");
    assert(default_tomato_file@ =~= default_file_path());
    let mut outputs_to_use: Vec<String> = Vec::new();
    outputs_to_use.push(stdout_string());
    let r = Config {
        refresh_rate: DEFAULT_REFRESH_RATE,
        pomodoro_duration: DEFAULT_POMODORO_DURATION,
        break_duration: DEFAULT_BREAK_DURATION,
        long_break_duration: DEFAULT_LONG_BREAK_DURATION,
        outputs_to_use,
        outputs: OutputConfig {
            stdout: StdoutConfig { show_percent: false },
            file: FileConfig { path: default_tomato_file },
        },
    };
    assert(r.outputs_to_use.deep_view()[0] == r.outputs_to_use@[0]@);
    assert(r.outputs_to_use.deep_view() =~= seq![stdout_name()]);
    r
}

/// Sink options found in a settings file; each kind may be absent.
#[derive(Clone, Debug)]
pub struct OutputConfigFromFile {
    pub stdout: Option<StdoutConfig>,
    pub file: Option<FileConfig>,
}

/// Settings found in a settings file; each may be absent.
#[derive(Clone, Debug)]
pub struct ConfigFromFile {
    pub refresh_rate: Option<u64>,
    pub pomodoro_duration: Option<u64>,
    pub break_duration: Option<u64>,
    pub long_break_duration: Option<u64>,
    pub outputs: Option<OutputConfigFromFile>,
}

/// A number from the file, or the default where it is absent.
pub open spec fn or_default(v: Option<u64>, d: u64) -> nat {
    match v {
        Some(x) => x as nat,
        None => d as nat,
    }
}

/// The sinks that a file's `outputs` section turns on: the terminal sink if it
/// has options there, then the file sink if it has options there.
pub open spec fn sinks_named(o: OutputConfigFromFile) -> Seq<Seq<char>> {
    (if o.stdout is Some { seq![stdout_name()] } else { Seq::empty() })
        + (if o.file is Some { seq![file_name()] } else { Seq::empty() })
}

/// The settings that a file gives: each number present overrides its default.
/// Without an `outputs` section the default sinks and options stay; with one,
/// exactly the sink kinds it mentions are used, and the options of those it
/// does not mention keep their defaults.
pub open spec fn merged(f: ConfigFromFile) -> ConfigView {
    let d = default_config();
    ConfigView {
        refresh_rate: or_default(f.refresh_rate, DEFAULT_REFRESH_RATE),
        pomodoro_duration: or_default(f.pomodoro_duration, DEFAULT_POMODORO_DURATION),
        break_duration: or_default(f.break_duration, DEFAULT_BREAK_DURATION),
        long_break_duration: or_default(f.long_break_duration, DEFAULT_LONG_BREAK_DURATION),
        outputs_to_use: match f.outputs {
            Some(o) => sinks_named(o),
            None => d.outputs_to_use,
        },
        show_percent: match f.outputs {
            Some(o) => match o.stdout {
                Some(c) => c.show_percent,
                None => d.show_percent,
            },
            None => d.show_percent,
        },
        file_path: match f.outputs {
            Some(o) => match o.file {
                Some(c) => c.path@,
                None => d.file_path,
            },
            None => d.file_path,
        },
    }
}

fn value_or(v: Option<u64>, d: u64) -> (r: u64)
    ensures
        r as nat == or_default(v, d),
{
    match v {
        Some(x) => x,
        None => d,
    }
}

impl Config {
    /// Seconds between two ticks of the timer.
    pub fn tick_interval(&self) -> (r: u64)
        ensures
            r as nat == interval_of(self.refresh_rate as nat),
            r >= 1,
    {
        if self.refresh_rate == 0 { 1 } else { self.refresh_rate }
    }

    /// Merges the settings read from a file with the defaults.
    pub fn from_file(config: ConfigFromFile) -> (r: Config)
        ensures
            r@ == merged(config),
    {
        let default_config = get_default_config();
        let refresh_rate = value_or(config.refresh_rate, DEFAULT_REFRESH_RATE);
        let pomodoro_duration = value_or(config.pomodoro_duration, DEFAULT_POMODORO_DURATION);
        let break_duration = value_or(config.break_duration, DEFAULT_BREAK_DURATION);
        let long_break_duration = value_or(config.long_break_duration, DEFAULT_LONG_BREAK_DURATION);
        let ghost file_outputs = config.outputs;
        let mut outputs_to_use: Vec<String> = Vec::new();
        let outputs = match config.outputs {
            Some(outputs) => {
                let stdout = match outputs.stdout {
                    Some(stdout_config) => {
                        outputs_to_use.push(stdout_string());
                        stdout_config
                    },
                    None => default_config.outputs.stdout,
                };
                let file = match outputs.file {
                    Some(file_config) => {
                        outputs_to_use.push(file_string());
                        file_config
                    },
                    None => default_config.outputs.file,
                };
                OutputConfig { stdout, file }
            },
            None => {
                outputs_to_use = default_config.outputs_to_use;
                default_config.outputs
            },
        };
        let r = Config {
            refresh_rate,
            pomodoro_duration,
            break_duration,
            long_break_duration,
            outputs_to_use,
            outputs,
        };
        proof {
            if let Some(o) = file_outputs {
                let names = r.outputs_to_use.deep_view();
                if o.stdout is Some {
                    assert(names[0] == r.outputs_to_use@[0]@);
                }
                if o.file is Some {
                    assert(names[names.len() - 1] == r.outputs_to_use@[names.len() - 1]@);
                }
                assert(names =~= sinks_named(o));
            }
        }
        r
    }
}

} // verus!
