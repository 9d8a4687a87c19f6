use tomato::config::get_default_config;
use tomato::output::{Effect, Output, Phase};
use tomato::session::{open_session, RunError, Session, SessionKind, SinkDriver};
use tomato::timer::{Tick, Timer};

fn names(list: &[&str]) -> Vec<String> {
    list.iter().map(|s| s.to_string()).collect()
}

/// Runs a steady one-tick-per-interval clock and returns the ticks.
fn steady_ticks(duration: u64, interval: u64) -> Vec<Tick> {
    let mut t = Timer::new(duration, interval);
    t.start().unwrap();
    let mut ticks = Vec::new();
    let mut k = 1;
    while !t.is_finished() {
        ticks.push(t.on_clock(Some(k * interval)).unwrap());
        k += 1;
    }
    ticks
}

fn drive(d: &mut SinkDriver, message: Option<&str>, ticks: &[Tick]) -> Vec<Effect> {
    let mut effects = Vec::new();
    effects.extend(d.start(message));
    for t in ticks {
        effects.extend(d.on_tick(*t));
    }
    effects.extend(d.finish());
    effects
}

#[test]
fn session_lengths_follow_kind() {
    let mut c = get_default_config();
    c.refresh_rate = 0;
    let p = Session::new(SessionKind::Pomodoro, &c, Some(String::from("m")));
    assert_eq!(p.duration, 1500);
    assert_eq!(p.tick_interval, 1);
    assert_eq!(p.message, Some(String::from("m")));
    assert_eq!(Session::new(SessionKind::ShortBreak, &c, None).duration, 300);
    assert_eq!(Session::new(SessionKind::LongBreak, &c, None).duration, 900);
}

#[test]
fn second_session_is_refused_while_locked() {
    let c = get_default_config();
    let s = Session::new(SessionKind::Pomodoro, &c, None);
    assert!(matches!(open_session(&c, &s, false), Err(RunError::AlreadyRunning)));
}

#[test]
fn bogus_sink_stops_before_any_start() {
    let mut c = get_default_config();
    c.outputs_to_use = names(&["stdout", "bogus"]);
    let s = Session::new(SessionKind::Pomodoro, &c, None);
    match open_session(&c, &s, true) {
        Err(RunError::UnknownSinkKind(e)) => assert_eq!(e.name, "bogus"),
        other => panic!("unexpected {:?}", other.map(|d| d.len())),
    }
}

#[test]
fn open_session_builds_fresh_drivers() {
    let mut c = get_default_config();
    c.outputs_to_use = names(&["stdout", "file"]);
    let s = Session::new(SessionKind::ShortBreak, &c, None);
    let drivers = open_session(&c, &s, true).unwrap();
    assert_eq!(drivers.len(), 2);
    assert!(matches!(drivers[0].output, Output::Stdout(_)));
    assert!(matches!(drivers[1].output, Output::File(_)));
    for d in &drivers {
        assert_eq!(d.duration, 300);
        assert_eq!(d.last_elapsed, 0);
        assert_eq!(d.output.phase_now(), Phase::Idle);
    }
}

#[test]
fn file_sink_writes_every_refresh_then_removes() {
    let mut c = get_default_config();
    c.refresh_rate = 1;
    c.pomodoro_duration = 3;
    c.outputs_to_use = names(&["file"]);
    c.outputs.file.path = String::from("/tmp/left");
    let s = Session::new(SessionKind::Pomodoro, &c, None);
    let mut drivers = open_session(&c, &s, true).unwrap();
    let ticks = steady_ticks(s.duration, s.tick_interval);
    let effects = drive(&mut drivers[0], None, &ticks);
    let mut writes = Vec::new();
    for e in &effects[..effects.len() - 1] {
        match e {
            Effect::WriteFile { path, contents } => {
                assert_eq!(path, "/tmp/left");
                writes.push(contents.clone());
            }
            other => panic!("unexpected {:?}", other),
        }
    }
    assert_eq!(writes, vec!["00:03", "00:02", "00:01", "00:00"]);
    assert!(writes.len() >= 3 && writes.len() <= 4);
    match &effects[effects.len() - 1] {
        Effect::RemoveFile { path } => assert_eq!(path, "/tmp/left"),
        other => panic!("unexpected {:?}", other),
    }
}

#[test]
fn two_sinks_end_to_end() {
    let mut c = get_default_config();
    c.refresh_rate = 1;
    c.pomodoro_duration = 2;
    c.outputs_to_use = names(&["stdout", "file"]);
    let s = Session::new(SessionKind::Pomodoro, &c, Some(String::from("reading")));
    let mut drivers = open_session(&c, &s, true).unwrap();
    let ticks = steady_ticks(s.duration, s.tick_interval);
    assert_eq!(ticks.len(), 3);

    let out = drive(&mut drivers[0], s.message.as_deref(), &ticks);
    assert_eq!(out.len(), 4);
    match &out[0] {
        Effect::OpenBar { total, banner, .. } => {
            assert_eq!(*total, 2);
            assert_eq!(banner, "Starting a Pomodoro for reading");
        }
        other => panic!("unexpected {:?}", other),
    }
    assert!(matches!(out[1], Effect::AdvanceBar));
    assert!(matches!(out[2], Effect::AdvanceBar));
    assert!(matches!(out[3], Effect::Print { .. }));

    let file = drive(&mut drivers[1], s.message.as_deref(), &ticks);
    let contents: Vec<String> = file
        .iter()
        .filter_map(|e| match e {
            Effect::WriteFile { contents, .. } => Some(contents.clone()),
            _ => None,
        })
        .collect();
    assert_eq!(contents, vec!["00:02", "00:01", "00:00"]);
    assert!(matches!(file[file.len() - 1], Effect::RemoveFile { .. }));
    for d in &drivers {
        assert!(d.is_done());
    }
}

#[test]
fn early_stop_ends_once() {
    let mut c = get_default_config();
    c.outputs_to_use = names(&["file"]);
    let s = Session::new(SessionKind::Pomodoro, &c, None);
    let mut drivers = open_session(&c, &s, true).unwrap();
    let d = &mut drivers[0];
    assert!(d.start(None).is_some());
    assert!(d.start(None).is_none());
    assert!(d.on_tick(Tick { elapsed: 2 }).is_some());
    assert!(matches!(d.finish(), Some(Effect::RemoveFile { .. })));
    assert!(d.is_done());
    assert!(d.finish().is_none());
    assert!(d.on_tick(Tick { elapsed: 4 }).is_none());
}

#[test]
fn stale_tick_is_ignored() {
    let mut c = get_default_config();
    c.outputs_to_use = names(&["file"]);
    c.pomodoro_duration = 10;
    let s = Session::new(SessionKind::Pomodoro, &c, None);
    let mut drivers = open_session(&c, &s, true).unwrap();
    let d = &mut drivers[0];
    d.start(None);
    match d.on_tick(Tick { elapsed: 4 }) {
        Some(Effect::WriteFile { contents, .. }) => assert_eq!(contents, "00:06"),
        other => panic!("unexpected {:?}", other),
    }
    assert!(d.on_tick(Tick { elapsed: 4 }).is_none());
    assert!(d.on_tick(Tick { elapsed: 3 }).is_none());
    assert_eq!(d.last_elapsed, 4);
}

#[test]
fn tick_before_start_is_ignored() {
    let c = get_default_config();
    let s = Session::new(SessionKind::Pomodoro, &c, None);
    let mut drivers = open_session(&c, &s, true).unwrap();
    assert!(drivers[0].on_tick(Tick { elapsed: 1 }).is_none());
    assert!(drivers[0].finish().is_none());
    assert_eq!(drivers[0].output.phase_now(), Phase::Idle);
}
