use tomato::config::{get_default_config, Config, ConfigFromFile, OutputConfigFromFile};
use tomato::output::file::Config as FileConfig;
use tomato::output::stdout::Config as StdoutConfig;

fn empty_file() -> ConfigFromFile {
    ConfigFromFile {
        refresh_rate: None,
        pomodoro_duration: None,
        break_duration: None,
        long_break_duration: None,
        outputs: None,
    }
}

#[test]
fn test_empty_config_file_returns_default_config_file() {
    let config = Config::from_file(empty_file());
    let default_config = get_default_config();

    assert_eq!(config.refresh_rate, default_config.refresh_rate);
    assert_eq!(config.pomodoro_duration, default_config.pomodoro_duration);
    assert_eq!(config.outputs_to_use, default_config.outputs_to_use);
    assert_eq!(config.outputs.file.path, default_config.outputs.file.path);
    assert_eq!(
        config.outputs.stdout.show_percent,
        default_config.outputs.stdout.show_percent
    );
}

#[test]
fn test_config_file_without_output() {
    // pomodoro_duration = 1, refresh_rate = 1
    let mut file = empty_file();
    file.pomodoro_duration = Some(1);
    file.refresh_rate = Some(1);
    let config = Config::from_file(file);

    assert_eq!(config.refresh_rate, 1);
    assert_eq!(config.outputs_to_use[0], String::from("stdout"));
}

#[test]
fn test_config_file_with_outputs_only() {
    // [outputs.file] path = "~/.tomato"
    let mut file = empty_file();
    file.outputs = Some(OutputConfigFromFile {
        stdout: None,
        file: Some(FileConfig { path: String::from("~/.tomato") }),
    });
    let config = Config::from_file(file);
    let default_config = get_default_config();

    assert_eq!(config.refresh_rate, default_config.refresh_rate);
    assert_eq!(config.pomodoro_duration, default_config.pomodoro_duration);
    assert_eq!(config.outputs_to_use[0], "file");
    assert_eq!(config.outputs.file.path, "~/.tomato")
}

#[test]
fn test_config_file_with_multiple_outputs() {
    // [outputs.file] path = "~/.tomato"; [outputs.stdout] show_percent = false
    let mut file = empty_file();
    file.outputs = Some(OutputConfigFromFile {
        stdout: Some(StdoutConfig { show_percent: false }),
        file: Some(FileConfig { path: String::from("~/.tomato") }),
    });
    let config = Config::from_file(file);
    let default_config = get_default_config();
    println!("{:?}", config.outputs_to_use);

    assert_eq!(config.refresh_rate, default_config.refresh_rate);
    assert_eq!(config.pomodoro_duration, default_config.pomodoro_duration);
    assert!(config.outputs_to_use.contains(&String::from("file")));
    assert!(config.outputs_to_use.contains(&String::from("stdout")));

    assert_eq!(config.outputs.file.path, "~/.tomato")
}

#[test]
fn default_config_values() {
    let c = get_default_config();
    assert_eq!(c.refresh_rate, 2);
    assert_eq!(c.pomodoro_duration, 1500);
    assert_eq!(c.break_duration, 300);
    assert_eq!(c.long_break_duration, 900);
    assert_eq!(c.outputs_to_use, vec![String::from("stdout")]);
    assert!(!c.outputs.stdout.show_percent);
    assert_eq!(c.outputs.file.path, "./.tomato");
}

#[test]
fn file_numbers_override_defaults() {
    let mut file = empty_file();
    file.break_duration = Some(60);
    file.long_break_duration = Some(1200);
    let c = Config::from_file(file);
    assert_eq!(c.refresh_rate, 2);
    assert_eq!(c.pomodoro_duration, 1500);
    assert_eq!(c.break_duration, 60);
    assert_eq!(c.long_break_duration, 1200);
}

#[test]
fn empty_outputs_section_turns_every_sink_off() {
    let mut file = empty_file();
    file.outputs = Some(OutputConfigFromFile { stdout: None, file: None });
    let c = Config::from_file(file);
    assert!(c.outputs_to_use.is_empty());
    assert_eq!(c.outputs.file.path, "./.tomato");
}

#[test]
fn stdout_options_are_kept() {
    let mut file = empty_file();
    file.outputs = Some(OutputConfigFromFile {
        stdout: Some(StdoutConfig { show_percent: true }),
        file: None,
    });
    let c = Config::from_file(file);
    assert_eq!(c.outputs_to_use, vec![String::from("stdout")]);
    assert!(c.outputs.stdout.show_percent);
}

#[test]
fn zero_refresh_rate_ticks_every_second() {
    let mut c = get_default_config();
    c.refresh_rate = 0;
    assert_eq!(c.tick_interval(), 1);
    c.refresh_rate = 5;
    assert_eq!(c.tick_interval(), 5);
}

#[test]
fn clone_keeps_settings() {
    let c = get_default_config();
    let d = c.clone();
    assert_eq!(d.outputs_to_use, c.outputs_to_use);
    assert_eq!(d.outputs.file.path, c.outputs.file.path);
    assert_eq!(d.refresh_rate, c.refresh_rate);
}
