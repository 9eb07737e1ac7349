use audio_router::adapter::{next_output_sample, AudioSettings, ChannelPolicy};
use audio_router::config::{
    AudioConfig, Config, DeviceConfig, DeviceEntry, DeviceType, DeviceWaitConfig, LoggingConfig,
    RouteConfig, RouteEntry, NO_GAIN,
};
use audio_router::devices::{AudioDevices, DeviceBinding};
use audio_router::error::{RouteEnd, RouterError};
use audio_router::plan::{build_route, plan_audio_routing, RoutePlan};
use audio_router::routing::DuplicateRoute;

fn entry(alias: &str, device_type: DeviceType, primary_buffer: usize, gain: f32) -> DeviceEntry {
    DeviceEntry {
        alias: alias.to_string(),
        device: DeviceConfig {
            name: alias.to_uppercase(),
            device_type,
            buffer_size: 128,
            primary_buffer,
            gain: gain.to_bits(),
        },
    }
}

fn route(name: &str, from: &str, to: &str) -> RouteEntry {
    RouteEntry {
        name: name.to_string(),
        route: RouteConfig { from: from.to_string(), to: to.to_string() },
    }
}

fn binding(
    alias: &str,
    device_index: usize,
    device_type: DeviceType,
    channels: u16,
    sample_rate: u32,
) -> DeviceBinding {
    DeviceBinding { alias: alias.to_string(), device_index, device_type, channels, sample_rate }
}

fn config(routing: Vec<RouteEntry>) -> Config {
    Config {
        devices: vec![
            entry("mic", DeviceType::Input, 4096, 2.0),
            entry("line", DeviceType::Input, 512, 1.0),
            entry("desk", DeviceType::Output, 64, 1.0),
            entry("ear", DeviceType::Output, 32, 1.0),
        ],
        routing,
        audio: AudioConfig {
            prefill_samples: 3,
            keep_alive_sleep_ms: 100,
            stereo_to_mono_mix_ratio: 0.5f32.to_bits(),
            audio_sample_min: (-1.0f32).to_bits(),
            audio_sample_max: 1.0f32.to_bits(),
        },
        logging: LoggingConfig { level: "info".to_string() },
        device_wait: DeviceWaitConfig {
            enabled: false,
            max_wait_time: 0,
            retry_interval: 0,
            allow_partial: false,
        },
    }
}

fn devices() -> AudioDevices {
    AudioDevices::from_bindings(vec![
        binding("mic", 7, DeviceType::Input, 1, 44100),
        binding("line", 2, DeviceType::Input, 2, 48000),
        binding("desk", 0, DeviceType::Output, 2, 48000),
        binding("ear", 5, DeviceType::Output, 1, 48000),
    ])
}

#[test]
fn a_route_is_planned_from_its_two_devices() {
    let table = config(vec![route("voice", "mic", "desk")]);
    let plan = build_route(0, &table.routing[0], &table, &devices()).unwrap();
    assert_eq!(
        plan,
        RoutePlan {
            name: "voice".to_string(),
            from: "mic".to_string(),
            to: "desk".to_string(),
            source_device: 7,
            sink_device: 0,
            in_channels: 1,
            out_channels: 2,
            in_rate: 44100,
            out_rate: 48000,
            rate_mismatch: true,
            capacity: 4096,
            block_size: 128,
            prefill: 0,
            gain: 2.0f32.to_bits(),
            applies_gain: true,
            policy: ChannelPolicy::Duplicate,
            settings: AudioSettings {
                mix_ratio: 0.5f32.to_bits(),
                sample_min: (-1.0f32).to_bits(),
                sample_max: 1.0f32.to_bits(),
            },
        }
    );
}

#[test]
fn every_route_but_the_first_is_planned_with_silence() {
    let table = config(vec![route("music", "line", "ear")]);
    let first = build_route(0, &table.routing[0], &table, &devices()).unwrap();
    let second = build_route(1, &table.routing[0], &table, &devices()).unwrap();
    let later = build_route(9, &table.routing[0], &table, &devices()).unwrap();
    assert_eq!(first.prefill, 0);
    assert_eq!(second.prefill, 3);
    assert_eq!(later.prefill, 3);
    assert_eq!(second.capacity, 512);
    assert_eq!(second.policy, ChannelPolicy::MixDown);
    assert!(!second.rate_mismatch);
    assert!(!second.applies_gain);
    assert_eq!(second.gain, NO_GAIN);
}

#[test]
fn the_planned_silence_is_in_the_buffer_before_any_audio() {
    let table = config(vec![route("music", "line", "ear")]);
    let plan = build_route(1, &table.routing[0], &table, &devices()).unwrap();
    let mut buffer = plan.make_buffer();
    assert!(buffer.push(0.5f32.to_bits()));
    let (_producer, mut consumer) = buffer.split();
    assert_eq!(next_output_sample(&mut consumer), 0);
    assert_eq!(next_output_sample(&mut consumer), 0);
    assert_eq!(next_output_sample(&mut consumer), 0);
    assert_eq!(next_output_sample(&mut consumer), 0.5f32.to_bits());
}

#[test]
fn the_first_route_starts_with_an_empty_buffer() {
    let table = config(vec![route("music", "line", "ear")]);
    let plan = build_route(0, &table.routing[0], &table, &devices()).unwrap();
    let mut buffer = plan.make_buffer();
    assert!(buffer.push(0.5f32.to_bits()));
    let (_producer, mut consumer) = buffer.split();
    assert_eq!(next_output_sample(&mut consumer), 0.5f32.to_bits());
}

#[test]
fn silence_beyond_the_capacity_is_dropped() {
    let mut table = config(vec![route("music", "line", "ear")]);
    table.devices[1].device.primary_buffer = 2;
    let plan = build_route(1, &table.routing[0], &table, &devices()).unwrap();
    assert_eq!(plan.prefill, 3);
    let mut buffer = plan.make_buffer();
    assert!(!buffer.push(0.5f32.to_bits()));
}

#[test]
fn a_route_to_an_unbound_alias_is_not_built() {
    let table = config(vec![route("voice", "mic", "desk")]);
    let partial = AudioDevices::from_bindings(vec![binding("mic", 0, DeviceType::Input, 1, 8000)]);
    assert_eq!(
        build_route(0, &table.routing[0], &table, &partial).err(),
        Some(RouterError::DeviceNotFound { alias: "desk".to_string() })
    );
    assert_eq!(
        build_route(0, &table.routing[0], &table, &AudioDevices::new()).err(),
        Some(RouterError::DeviceNotFound { alias: "mic".to_string() })
    );
}

#[test]
fn a_route_to_an_alias_outside_the_table_is_not_built() {
    let table = config(Vec::new());
    let bound = AudioDevices::from_bindings(vec![
        binding("tape", 0, DeviceType::Input, 1, 8000),
        binding("horn", 1, DeviceType::Output, 1, 8000),
        binding("mic", 2, DeviceType::Input, 1, 8000),
    ]);
    assert_eq!(
        build_route(0, &route("r", "tape", "horn"), &table, &bound).err(),
        Some(RouterError::UnknownDeviceReference {
            route: "r".to_string(),
            alias: "tape".to_string(),
            end: RouteEnd::Source
        })
    );
    assert_eq!(
        build_route(0, &route("r", "mic", "horn"), &table, &bound).err(),
        Some(RouterError::UnknownDeviceReference {
            route: "r".to_string(),
            alias: "horn".to_string(),
            end: RouteEnd::Destination
        })
    );
}

#[test]
fn a_route_against_the_configured_direction_is_not_built() {
    let table = config(Vec::new());
    assert_eq!(
        build_route(0, &route("r", "desk", "ear"), &table, &devices()).err(),
        Some(RouterError::DeviceCapabilityMismatch {
            alias: "desk".to_string(),
            required: DeviceType::Input
        })
    );
    assert_eq!(
        build_route(0, &route("r", "mic", "line"), &table, &devices()).err(),
        Some(RouterError::DeviceCapabilityMismatch {
            alias: "line".to_string(),
            required: DeviceType::Output
        })
    );
}

#[test]
fn a_route_against_the_bound_direction_is_not_built() {
    let table = config(Vec::new());
    let crossed = AudioDevices::from_bindings(vec![
        binding("mic", 0, DeviceType::Output, 1, 8000),
        binding("desk", 1, DeviceType::Output, 1, 8000),
    ]);
    assert_eq!(
        build_route(0, &route("r", "mic", "desk"), &table, &crossed).err(),
        Some(RouterError::DeviceCapabilityMismatch {
            alias: "mic".to_string(),
            required: DeviceType::Input
        })
    );
    let crossed = AudioDevices::from_bindings(vec![
        binding("mic", 0, DeviceType::Input, 1, 8000),
        binding("desk", 1, DeviceType::Input, 1, 8000),
    ]);
    assert_eq!(
        build_route(0, &route("r", "mic", "desk"), &table, &crossed).err(),
        Some(RouterError::DeviceCapabilityMismatch {
            alias: "desk".to_string(),
            required: DeviceType::Output
        })
    );
}

#[test]
fn all_routes_are_planned_in_table_order() {
    let table = config(vec![
        route("voice", "mic", "desk"),
        route("music", "line", "ear"),
        route("echo", "mic", "desk"),
    ]);
    let planned = plan_audio_routing(&table, &devices()).unwrap();
    assert_eq!(planned.routes.len(), 3);
    assert_eq!(planned.routes[0].name, "voice");
    assert_eq!(planned.routes[0].prefill, 0);
    assert_eq!(planned.routes[1].name, "music");
    assert_eq!(planned.routes[1].prefill, 3);
    assert_eq!(planned.routes[2].name, "echo");
    assert_eq!(planned.routes[2].prefill, 3);
    assert_eq!(planned.repeats, vec![DuplicateRoute { earlier: 0, later: 2 }]);
}

#[test]
fn no_route_is_planned_unless_all_are() {
    let table = config(vec![route("voice", "mic", "desk"), route("music", "line", "ear")]);
    let partial = AudioDevices::from_bindings(vec![
        binding("mic", 0, DeviceType::Input, 1, 8000),
        binding("desk", 1, DeviceType::Output, 1, 8000),
        binding("ear", 2, DeviceType::Output, 1, 8000),
    ]);
    assert_eq!(
        plan_audio_routing(&table, &partial).err(),
        Some(RouterError::DeviceNotFound { alias: "line".to_string() })
    );
}

#[test]
fn the_table_is_checked_before_any_route_is_planned() {
    let table = config(vec![route("voice", "mic", "desk"), route("music", "line", "horn")]);
    assert_eq!(
        plan_audio_routing(&table, &AudioDevices::new()).err(),
        Some(RouterError::UnknownDeviceReference {
            route: "music".to_string(),
            alias: "horn".to_string(),
            end: RouteEnd::Destination
        })
    );
}

#[test]
fn an_empty_table_plans_nothing() {
    let planned = plan_audio_routing(&config(Vec::new()), &AudioDevices::new()).unwrap();
    assert!(planned.routes.is_empty());
    assert!(planned.repeats.is_empty());
}
