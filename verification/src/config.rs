//! The configuration that the router consumes.
//!
//! Device and route tables are ordered lists of named entries. A name is
//! looked up by scanning from the front, so the first entry with a given name
//! is the one that counts.

use vstd::prelude::*;
use crate::scan::{first_where, lemma_first_where_absent, lemma_first_where_found};
use crate::text::same_text;

verus! {

/// Bit pattern of the single-precision number `1.0`: the gain that leaves a
/// sample unchanged.
pub const NO_GAIN: u32 = 0x3F80_0000;

/// Bit pattern of the single-precision number `0.0`: one sample of silence.
pub const SILENCE: u32 = 0;

/// The direction a configured device is used in.
#[derive(Clone, Copy, Debug, PartialEq, Eq, Structural)]
pub enum DeviceType {
    /// A capture device: samples are read from it.
    Input,
    /// A playback device: samples are written to it.
    Output,
}

impl DeviceType {
    /// The lower-case word for the direction.
    pub open spec fn label(self) -> Seq<char> {
        match self {
            DeviceType::Input => "input"@,
            DeviceType::Output => "output"@,
        }
    }

    /// The lower-case word for the direction, as a string slice.
    pub fn as_str(&self) -> (word: &'static str)
        ensures
            word@ == self.label(),
    {
        match self {
            DeviceType::Input => "input",
            DeviceType::Output => "output",
        }
    }

    /// The lower-case word for the direction, as an owned string.
    pub fn to_string(&self) -> (word: String)
        ensures
            word@ == self.label(),
    {
        self.as_str().to_owned()
    }
}

/// One configured device.
#[derive(Clone, Debug, PartialEq, Eq)]
pub struct DeviceConfig {
    /// Substring that the physical device's display name must contain.
    pub name: String,
    /// Direction in which the device is used.
    pub device_type: DeviceType,
    /// Frames per callback block requested from the audio subsystem.
    pub buffer_size: u32,
    /// Capacity, in samples, of the ring buffer of a route that starts here.
    pub primary_buffer: usize,
    /// Gain applied to samples captured from this device (bit pattern).
    pub gain: u32,
}

/// One route: audio captured from `from` is played on `to`.
#[derive(Clone, Debug, PartialEq, Eq)]
pub struct RouteConfig {
    /// Alias of the capture device.
    pub from: String,
    /// Alias of the playback device.
    pub to: String,
}

/// Settings shared by all routes.
#[derive(Clone, Copy, Debug, PartialEq, Eq, Structural)]
pub struct AudioConfig {
    /// Silence samples put into the buffer of every route but the first.
    pub prefill_samples: usize,
    /// Interval at which the controller looks at the cancellation flag.
    pub keep_alive_sleep_ms: u64,
    /// Factor applied to the sum of a stereo pair when mixing down (bit pattern).
    pub stereo_to_mono_mix_ratio: u32,
    /// Lower clamp bound of an output sample (bit pattern).
    pub audio_sample_min: u32,
    /// Upper clamp bound of an output sample (bit pattern).
    pub audio_sample_max: u32,
}

/// Settings of the log sink.
#[derive(Clone, Debug, PartialEq, Eq)]
pub struct LoggingConfig {
    /// Name of the most verbose level that is written.
    pub level: String,
}

/// How long and how often to look for devices that are not there yet.
#[derive(Clone, Copy, Debug, PartialEq, Eq, Structural)]
pub struct DeviceWaitConfig {
    /// Whether to retry at all; if not, devices are looked for once.
    pub enabled: bool,
    /// Seconds after which no further round is started.
    pub max_wait_time: u64,
    /// Seconds to sleep between rounds.
    pub retry_interval: u64,
    /// Whether to go on with the devices found once the time is up.
    pub allow_partial: bool,
}

/// A device configuration under its alias.
#[derive(Clone, Debug, PartialEq, Eq)]
pub struct DeviceEntry {
    /// The name routes use for the device.
    pub alias: String,
    /// What is configured for it.
    pub device: DeviceConfig,
}

/// A route under its name.
#[derive(Clone, Debug, PartialEq, Eq)]
pub struct RouteEntry {
    /// The route's name.
    pub name: String,
    /// Its two endpoints.
    pub route: RouteConfig,
}

/// The whole configuration.
#[derive(Clone, Debug, PartialEq, Eq)]
pub struct Config {
    /// Device table, in configuration order.
    pub devices: Vec<DeviceEntry>,
    /// Routing table, in configuration order.
    pub routing: Vec<RouteEntry>,
    /// Settings shared by all routes.
    pub audio: AudioConfig,
    /// Settings of the log sink.
    pub logging: LoggingConfig,
    /// Device wait policy.
    pub device_wait: DeviceWaitConfig,
}

/// Position of the first entry of `devices` whose alias is `alias`.
pub open spec fn alias_position(devices: Seq<DeviceEntry>, alias: Seq<char>) -> Option<int> {
    first_where(devices, |entry: DeviceEntry| entry.alias@ == alias)
}

impl DeviceConfig {
    /// A copy of the configuration.
    pub fn duplicate(&self) -> (copy: DeviceConfig)
        ensures
            copy == *self,
    {
        DeviceConfig {
            name: self.name.clone(),
            device_type: self.device_type,
            buffer_size: self.buffer_size,
            primary_buffer: self.primary_buffer,
            gain: self.gain,
        }
    }
}

impl DeviceEntry {
    /// A copy of the entry.
    pub fn duplicate(&self) -> (copy: DeviceEntry)
        ensures
            copy == *self,
    {
        DeviceEntry { alias: self.alias.clone(), device: self.device.duplicate() }
    }
}

impl Config {
    /// Whether the device table has an entry for `alias`.
    pub open spec fn knows(&self, alias: Seq<char>) -> bool {
        alias_position(self.devices@, alias) is Some
    }

    /// The configuration of the device that `alias` names.
    pub open spec fn device_of(&self, alias: Seq<char>) -> DeviceConfig
        recommends
            self.knows(alias),
    {
        self.devices@[alias_position(self.devices@, alias).unwrap()].device
    }

    /// Looks `alias` up in the device table.
    pub fn device_position(&self, alias: &str) -> (found: Option<usize>)
        ensures
            match found {
                Some(at) => alias_position(self.devices@, alias@) == Some(at as int),
                None => alias_position(self.devices@, alias@) is None,
            },
    {
        let mut at: usize = 0;
        while at < self.devices.len()
            invariant
                at <= self.devices.len(),
                forall|k: int| 0 <= k < at ==> self.devices@[k].alias@ != alias@,
            decreases self.devices.len() - at,
        {
            if same_text(self.devices[at].alias.as_str(), alias) {
                proof {
                    lemma_first_where_found(
                        self.devices@,
                        |entry: DeviceEntry| entry.alias@ == alias@,
                        at as int,
                    );
                }
                return Some(at);
            }
            at += 1;
        }
        proof {
            lemma_first_where_absent(self.devices@, |entry: DeviceEntry| entry.alias@ == alias@);
        }
        None
    }
}

} // verus!
