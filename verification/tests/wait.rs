use audio_router::config::{
    AudioConfig, Config, DeviceConfig, DeviceEntry, DeviceType, DeviceWaitConfig, LoggingConfig,
    RouteConfig, RouteEntry, NO_GAIN,
};
use audio_router::devices::{AudioDevices, DeviceInfo, StreamFormat};
use audio_router::error::RouterError;
use audio_router::plan::build_route;
use audio_router::wait::SearchAction;

fn microphone() -> DeviceInfo {
    DeviceInfo {
        name: Some("USB Microphone".to_string()),
        input: Some(StreamFormat { channels: 1, sample_rate: 48000 }),
        output: None,
    }
}

fn speakers() -> DeviceInfo {
    DeviceInfo {
        name: Some("Desk Speakers".to_string()),
        input: None,
        output: Some(StreamFormat { channels: 2, sample_rate: 48000 }),
    }
}

fn headset() -> DeviceInfo {
    DeviceInfo {
        name: Some("Headset".to_string()),
        input: None,
        output: Some(StreamFormat { channels: 1, sample_rate: 48000 }),
    }
}

fn entry(alias: &str, pattern: &str, device_type: DeviceType) -> DeviceEntry {
    DeviceEntry {
        alias: alias.to_string(),
        device: DeviceConfig {
            name: pattern.to_string(),
            device_type,
            buffer_size: 256,
            primary_buffer: 1024,
            gain: NO_GAIN,
        },
    }
}

fn route(name: &str, from: &str, to: &str) -> RouteEntry {
    RouteEntry {
        name: name.to_string(),
        route: RouteConfig { from: from.to_string(), to: to.to_string() },
    }
}

fn config(wait: DeviceWaitConfig) -> Config {
    Config {
        devices: vec![
            entry("mic", "Microphone", DeviceType::Input),
            entry("desk", "Speakers", DeviceType::Output),
            entry("ear", "Headset", DeviceType::Output),
        ],
        routing: vec![route("to_desk", "mic", "desk"), route("to_ear", "mic", "ear")],
        audio: AudioConfig {
            prefill_samples: 0,
            keep_alive_sleep_ms: 100,
            stereo_to_mono_mix_ratio: 0.5f32.to_bits(),
            audio_sample_min: (-1.0f32).to_bits(),
            audio_sample_max: 1.0f32.to_bits(),
        },
        logging: LoggingConfig { level: "info".to_string() },
        device_wait: wait,
    }
}

fn waiting(max_wait_time: u64, retry_interval: u64, allow_partial: bool) -> DeviceWaitConfig {
    DeviceWaitConfig { enabled: true, max_wait_time, retry_interval, allow_partial }
}

fn at_once() -> DeviceWaitConfig {
    DeviceWaitConfig { enabled: false, max_wait_time: 30, retry_interval: 2, allow_partial: true }
}

#[test]
fn a_search_begins_with_everything_pending() {
    let search = AudioDevices::find_all(&config(waiting(10, 2, false)));
    assert_eq!(search.pending.len(), 3);
    assert_eq!(search.pending[0].alias, "mic");
    assert_eq!(search.pending[2].alias, "ear");
    assert!(search.found.is_empty());
    assert_eq!(search.failure, None);
    assert!(!search.probed);
    assert_eq!(search.wait, waiting(10, 2, false));
}

#[test]
fn a_round_that_finds_everything_ends_the_search() {
    let mut search = AudioDevices::find_all(&config(waiting(10, 2, false)));
    assert_eq!(search.next_action(0), SearchAction::Probe);
    search.observe(&vec![speakers(), headset(), microphone()]);
    assert!(search.pending.is_empty());
    assert_eq!(search.next_action(0), SearchAction::Finish);
    let devices = search.conclude().unwrap();
    assert_eq!(devices.len(), 3);
    assert_eq!(devices.get("mic").unwrap().device_index, 2);
    assert_eq!(devices.get("desk").unwrap().device_index, 0);
    assert_eq!(devices.get("ear").unwrap().device_index, 1);
}

#[test]
fn rounds_are_separated_by_sleeps_until_the_time_is_up() {
    let mut search = AudioDevices::find_all(&config(waiting(5, 2, false)));
    assert_eq!(search.next_action(0), SearchAction::Probe);
    search.observe(&vec![microphone()]);
    assert_eq!(search.next_action(0), SearchAction::Sleep { seconds: 2 });
    assert_eq!(search.next_action(2), SearchAction::Probe);
    search.observe(&vec![microphone(), speakers()]);
    assert_eq!(search.next_action(2), SearchAction::Sleep { seconds: 2 });
    assert_eq!(search.next_action(4), SearchAction::Probe);
    search.observe(&vec![microphone(), speakers()]);
    assert_eq!(search.next_action(4), SearchAction::Sleep { seconds: 2 });
    assert_eq!(search.next_action(6), SearchAction::Finish);
    assert_eq!(search.next_action(7), SearchAction::Finish);
    assert_eq!(
        search.conclude().err(),
        Some(RouterError::DeviceWaitTimeout { missing: vec!["ear".to_string()], waited_secs: 5 })
    );
}

#[test]
fn a_probe_is_due_until_the_last_second_before_the_limit() {
    let mut search = AudioDevices::find_all(&config(waiting(5, 1, false)));
    assert_eq!(search.next_action(4), SearchAction::Probe);
    assert_eq!(search.next_action(5), SearchAction::Finish);
    assert_eq!(search.next_action(u64::MAX), SearchAction::Finish);
}

#[test]
fn what_was_found_once_is_kept_and_not_looked_for_again() {
    let mut search = AudioDevices::find_all(&config(waiting(10, 1, false)));
    search.observe(&vec![speakers(), microphone()]);
    assert_eq!(search.found.len(), 2);
    assert_eq!(search.found[0].alias, "mic");
    assert_eq!(search.found[0].device_index, 1);
    assert_eq!(search.found[1].alias, "desk");
    assert_eq!(search.pending.len(), 1);
    assert_eq!(search.pending[0].alias, "ear");
    search.observe(&vec![headset()]);
    assert!(search.pending.is_empty());
    assert_eq!(search.found.len(), 3);
    assert_eq!(search.found[0].device_index, 1);
    assert_eq!(search.found[2].alias, "ear");
    assert_eq!(search.found[2].device_index, 0);
}

#[test]
fn a_device_of_the_wrong_direction_stays_pending() {
    let mut search = AudioDevices::find_all(&config(waiting(10, 1, false)));
    let deaf = DeviceInfo { name: Some("Microphone".to_string()), input: None, output: None };
    search.observe(&vec![deaf, speakers(), headset()]);
    assert_eq!(search.pending.len(), 1);
    assert_eq!(search.pending[0].alias, "mic");
    assert_eq!(search.failure, None);
}

#[test]
fn a_zero_wait_makes_no_round() {
    let mut search = AudioDevices::find_all(&config(waiting(0, 1, false)));
    assert_eq!(search.next_action(0), SearchAction::Finish);
    assert_eq!(
        search.conclude().err(),
        Some(RouterError::DeviceWaitTimeout {
            missing: vec!["mic".to_string(), "desk".to_string(), "ear".to_string()],
            waited_secs: 0
        })
    );
}

#[test]
fn a_partial_set_is_accepted_when_allowed() {
    let table = config(waiting(4, 2, true));
    let mut search = AudioDevices::find_all(&table);
    let mut elapsed = 0;
    loop {
        match search.next_action(elapsed) {
            SearchAction::Probe => search.observe(&vec![microphone(), speakers()]),
            SearchAction::Sleep { seconds } => elapsed += seconds,
            SearchAction::Finish => break,
        }
    }
    assert_eq!(elapsed, 4);
    let devices = search.conclude().unwrap();
    assert_eq!(devices.len(), 2);
    assert!(devices.get("mic").is_ok());
    assert!(devices.get("desk").is_ok());
    assert_eq!(
        devices.get("ear").err(),
        Some(RouterError::DeviceNotFound { alias: "ear".to_string() })
    );
    assert!(build_route(0, &table.routing[0], &table, &devices).is_ok());
    assert_eq!(
        build_route(1, &table.routing[1], &table, &devices).err(),
        Some(RouterError::DeviceNotFound { alias: "ear".to_string() })
    );
}

#[test]
fn a_partial_set_of_nothing_is_a_timeout() {
    let mut search = AudioDevices::find_all(&config(waiting(1, 1, true)));
    assert_eq!(search.next_action(0), SearchAction::Probe);
    search.observe(&Vec::new());
    assert_eq!(search.next_action(0), SearchAction::Sleep { seconds: 1 });
    assert_eq!(search.next_action(1), SearchAction::Finish);
    assert_eq!(
        search.conclude().err(),
        Some(RouterError::DeviceWaitTimeout {
            missing: vec!["mic".to_string(), "desk".to_string(), "ear".to_string()],
            waited_secs: 1
        })
    );
}

#[test]
fn a_search_for_no_devices_is_over_at_once() {
    let mut table = config(waiting(10, 1, false));
    table.devices.clear();
    let mut search = AudioDevices::find_all(&table);
    assert_eq!(search.next_action(0), SearchAction::Finish);
    assert!(search.conclude().unwrap().is_empty());
    table.device_wait = at_once();
    let mut search = AudioDevices::find_all(&table);
    assert_eq!(search.next_action(0), SearchAction::Finish);
    assert!(search.conclude().unwrap().is_empty());
}

#[test]
fn without_a_wait_policy_one_snapshot_decides() {
    let mut search = AudioDevices::find_all(&config(at_once()));
    assert_eq!(search.next_action(0), SearchAction::Probe);
    assert_eq!(search.next_action(100), SearchAction::Probe);
    search.observe(&vec![microphone(), speakers(), headset()]);
    assert_eq!(search.next_action(0), SearchAction::Finish);
    assert_eq!(search.conclude().unwrap().len(), 3);
}

#[test]
fn without_a_wait_policy_the_first_miss_is_the_failure() {
    let mut search = AudioDevices::find_all(&config(at_once()));
    search.observe(&vec![microphone(), headset()]);
    assert_eq!(search.failure, Some(RouterError::DeviceNotFound { alias: "desk".to_string() }));
    assert_eq!(search.pending.len(), 3);
    assert!(search.found.is_empty());
    assert_eq!(search.next_action(0), SearchAction::Finish);
    assert_eq!(
        search.conclude().err(),
        Some(RouterError::DeviceNotFound { alias: "desk".to_string() })
    );
}

#[test]
fn without_a_wait_policy_a_wrong_direction_is_the_failure() {
    let mut search = AudioDevices::find_all(&config(at_once()));
    let mute = DeviceInfo { name: Some("Speakers".to_string()), input: None, output: None };
    search.observe(&vec![microphone(), mute, speakers(), headset()]);
    assert_eq!(
        search.conclude().err(),
        Some(RouterError::DeviceCapabilityMismatch {
            alias: "desk".to_string(),
            required: DeviceType::Output
        })
    );
}

#[test]
fn a_search_concluded_before_its_probe_reports_the_first_alias() {
    let search = AudioDevices::find_all(&config(at_once()));
    assert_eq!(
        search.conclude().err(),
        Some(RouterError::DeviceNotFound { alias: "mic".to_string() })
    );
}
