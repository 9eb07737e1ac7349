use audio_router::config::{
    AudioConfig, Config, DeviceConfig, DeviceEntry, DeviceType, DeviceWaitConfig, LoggingConfig,
    NO_GAIN, SILENCE,
};
use audio_router::logging::{level_from_lowercase, parse_level, LogLevel};

fn entry(alias: &str) -> DeviceEntry {
    DeviceEntry {
        alias: alias.to_string(),
        device: DeviceConfig {
            name: "Device".to_string(),
            device_type: DeviceType::Input,
            buffer_size: 256,
            primary_buffer: 1024,
            gain: NO_GAIN,
        },
    }
}

fn config(devices: Vec<DeviceEntry>) -> Config {
    Config {
        devices,
        routing: Vec::new(),
        audio: AudioConfig {
            prefill_samples: 0,
            keep_alive_sleep_ms: 100,
            stereo_to_mono_mix_ratio: 0.5f32.to_bits(),
            audio_sample_min: (-1.0f32).to_bits(),
            audio_sample_max: 1.0f32.to_bits(),
        },
        logging: LoggingConfig { level: "info".to_string() },
        device_wait: DeviceWaitConfig {
            enabled: false,
            max_wait_time: 0,
            retry_interval: 0,
            allow_partial: false,
        },
    }
}

#[test]
fn a_direction_is_named_in_lower_case() {
    assert_eq!(DeviceType::Input.to_string(), "input");
    assert_eq!(DeviceType::Output.to_string(), "output");
    assert_eq!(DeviceType::Input.as_str(), "input");
    assert_eq!(DeviceType::Output.as_str(), "output");
}

#[test]
fn the_amplitude_constants_are_the_bits_of_one_and_zero() {
    assert_eq!(NO_GAIN, 1.0f32.to_bits());
    assert_eq!(SILENCE, 0.0f32.to_bits());
}

#[test]
fn an_alias_is_looked_up_from_the_front_of_the_table() {
    let table = config(vec![entry("a"), entry("b"), entry("a"), entry("")]);
    assert_eq!(table.device_position("a"), Some(0));
    assert_eq!(table.device_position("b"), Some(1));
    assert_eq!(table.device_position(""), Some(3));
    assert_eq!(table.device_position("c"), None);
    assert_eq!(table.device_position("A"), None);
    assert_eq!(table.device_position("ab"), None);
    assert_eq!(config(Vec::new()).device_position("a"), None);
}

#[test]
fn a_copy_of_an_entry_equals_it() {
    let first = entry("mic");
    assert_eq!(first.duplicate(), first);
    assert_eq!(first.device.duplicate(), first.device);
}

#[test]
fn level_names_are_read_in_any_case() {
    assert_eq!(parse_level("trace"), LogLevel::Trace);
    assert_eq!(parse_level("DEBUG"), LogLevel::Debug);
    assert_eq!(parse_level("Info"), LogLevel::Info);
    assert_eq!(parse_level("wArN"), LogLevel::Warn);
    assert_eq!(parse_level("ERROR"), LogLevel::Error);
}

#[test]
fn an_unknown_level_name_means_info() {
    assert_eq!(parse_level("verbose"), LogLevel::Info);
    assert_eq!(parse_level(""), LogLevel::Info);
    assert_eq!(parse_level(" warn"), LogLevel::Info);
    assert_eq!(parse_level("warning"), LogLevel::Info);
}

#[test]
fn a_lower_case_level_name_is_read_as_it_stands() {
    assert_eq!(level_from_lowercase("error"), LogLevel::Error);
    assert_eq!(level_from_lowercase("warn"), LogLevel::Warn);
    assert_eq!(level_from_lowercase("debug"), LogLevel::Debug);
    assert_eq!(level_from_lowercase("trace"), LogLevel::Trace);
    assert_eq!(level_from_lowercase("info"), LogLevel::Info);
    assert_eq!(level_from_lowercase("ERROR"), LogLevel::Info);
}
