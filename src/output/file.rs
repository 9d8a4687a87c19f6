//! The file sink: the remaining time, kept in a plain-text file.
use vstd::prelude::*;

use crate::output::{format_duration, format_duration_spec, Effect, EffectView, Phase, PomodoroHandler};

verus! {

/// Options of the file sink.
#[derive(Debug)]
pub struct Config {
    /// Where the remaining time is written.
    pub path: String,
}

impl Clone for Config {
    fn clone(&self) -> (r: Config)
        ensures
            r == *self,
    {
        Config { path: self.path.clone() }
    }
}

/// The file sink: the file holds the remaining time as `MM:SS` while the
/// session runs, and is removed when it ends.
#[derive(Clone, Debug)]
pub struct File {
    pub config: crate::config::Config,
    /// Length of the session, in seconds.
    pub duration: u64,
    pub phase: Phase,
}

/// The line printed for a refresh that carries no remaining time.
pub open spec fn no_time_text() -> Seq<char> {
    "No remaining time!"@
}

impl File {
    /// A file sink, not started yet, for a session of `duration` seconds.
    pub fn new(config: crate::config::Config, duration: u64) -> (r: File)
        ensures
            r.config == config,
            r.duration == duration,
            r.phase == Phase::Idle,
    {
        File { config, duration, phase: Phase::Idle }
    }

    /// The path of the file.
    pub open spec fn path(&self) -> Seq<char> {
        self.config@.file_path
    }
}

impl PomodoroHandler for File {
    open spec fn phase(&self) -> Phase {
        self.phase
    }

    open spec fn in_phase(&self, p: Phase) -> File {
        File { config: self.config, duration: self.duration, phase: p }
    }

    open spec fn start_effect(&self, message: Option<Seq<char>>) -> EffectView {
        EffectView::WriteFile { path: self.path(), contents: format_duration_spec(self.duration as nat) }
    }

    open spec fn refresh_effect(&self, remaining: Option<u64>) -> EffectView {
        match remaining {
            Some(r) => EffectView::WriteFile { path: self.path(), contents: format_duration_spec(r as nat) },
            None => EffectView::Print { line: no_time_text() },
        }
    }

    open spec fn end_effect(&self) -> EffectView {
        EffectView::RemoveFile { path: self.path() }
    }

    fn start_handler(&mut self, message: Option<&str>) -> (r: Effect) {
        self.phase = Phase::Running;
        Effect::WriteFile {
            path: self.config.outputs.file.path.clone(),
            contents: format_duration(self.duration),
        }
    }

    fn refresh(&mut self, remaining_time: Option<u64>) -> (r: Effect) {
        match remaining_time {
            Some(remaining) => Effect::WriteFile {
                path: self.config.outputs.file.path.clone(),
                contents: format_duration(remaining),
            },
            None => Effect::Print { line: String::from_str("No remaining time!") },
        }
    }

    fn end_handler(&mut self) -> (r: Effect) {
        self.phase = Phase::Ended;
        Effect::RemoveFile { path: self.config.outputs.file.path.clone() }
    }
}

/// While the file sink runs, every refresh that carries a remaining time
/// overwrites its file with that time as `MM:SS`, and ending the sink removes
/// that same file.
pub proof fn lemma_file_round_trip(f: File, remaining: u64)
    ensures
        f.refresh_effect(Some(remaining)) == (EffectView::WriteFile {
            path: f.path(),
            contents: format_duration_spec(remaining as nat),
        }),
        f.end_effect() == (EffectView::RemoveFile { path: f.path() }),
{
}

} // verus!
