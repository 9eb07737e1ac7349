//! The device registry: binding configured aliases to the devices that the
//! audio subsystem enumerates.
//!
//! The registry works on snapshots. A snapshot lists, in enumeration order,
//! what is known of each device: its display name, if it could be read, and
//! the default stream format for capture and for playback, where the device
//! has one. An alias is bound to the first device of the snapshot whose name
//! contains the configured pattern, provided that device has a default
//! format for the configured direction.

use vstd::prelude::*;
use crate::config::{Config, DeviceEntry, DeviceType};
use crate::error::{ErrorView, RouterError, same_outcome, texts_of};
use crate::scan::{first_where, lemma_first_where_absent, lemma_first_where_found};
use crate::text::{contains_text, has_substring, same_text};

verus! {

/// The native format of a device for one direction.
#[derive(Clone, Copy, Debug, PartialEq, Eq, Structural)]
pub struct StreamFormat {
    /// Number of interleaved channels.
    pub channels: u16,
    /// Samples per second and channel.
    pub sample_rate: u32,
}

/// What one enumeration tells of one device.
#[derive(Clone, Debug, PartialEq, Eq)]
pub struct DeviceInfo {
    /// The display name, or `None` if the device would not tell it.
    pub name: Option<String>,
    /// The default capture format, if the device captures.
    pub input: Option<StreamFormat>,
    /// The default playback format, if the device plays.
    pub output: Option<StreamFormat>,
}

/// An alias bound to a device.
#[derive(Clone, Debug, PartialEq, Eq)]
pub struct DeviceBinding {
    /// The alias that routes use.
    pub alias: String,
    /// Position of the device in the snapshot in which it was found.
    pub device_index: usize,
    /// The direction the device is bound for.
    pub device_type: DeviceType,
    /// Native channel count in that direction.
    pub channels: u16,
    /// Native sample rate in that direction.
    pub sample_rate: u32,
}

/// A `DeviceBinding` with its alias as a character sequence.
pub struct BindingView {
    pub alias: Seq<char>,
    pub device_index: usize,
    pub device_type: DeviceType,
    pub channels: u16,
    pub sample_rate: u32,
}

impl View for DeviceBinding {
    type V = BindingView;

    open spec fn view(&self) -> BindingView {
        BindingView {
            alias: self.alias@,
            device_index: self.device_index,
            device_type: self.device_type,
            channels: self.channels,
            sample_rate: self.sample_rate,
        }
    }
}

/// The bindings of a list, each by its view.
pub open spec fn binding_views(bindings: Seq<DeviceBinding>) -> Seq<BindingView> {
    bindings.map_values(|binding: DeviceBinding| binding@)
}

impl DeviceInfo {
    /// The name the device is matched by: its display name, or the empty
    /// text if it has told none.
    pub open spec fn shown_name(&self) -> Seq<char> {
        match self.name {
            Some(name) => name@,
            None => Seq::<char>::empty(),
        }
    }

    /// Whether the device's name contains `pattern`.
    pub open spec fn matches(&self, pattern: Seq<char>) -> bool {
        has_substring(self.shown_name(), pattern)
    }

    /// The device's default format for a direction.
    pub open spec fn format_for(&self, direction: DeviceType) -> Option<StreamFormat> {
        match direction {
            DeviceType::Input => self.input,
            DeviceType::Output => self.output,
        }
    }
}

/// Position of the first device of the snapshot whose name contains `pattern`.
pub open spec fn first_match(snapshot: Seq<DeviceInfo>, pattern: Seq<char>) -> Option<int> {
    first_where(snapshot, |device: DeviceInfo| device.matches(pattern))
}

/// What a snapshot yields for one configured device: the binding, or the
/// reason there is none. Only the first device whose name matches is looked
/// at; if it lacks the configured direction, no later device is tried.
pub open spec fn resolution(entry: DeviceEntry, snapshot: Seq<DeviceInfo>) -> Result<
    BindingView,
    ErrorView,
> {
    match first_match(snapshot, entry.device.name@) {
        None => Err(ErrorView::DeviceNotFound { alias: entry.alias@ }),
        Some(at) => match snapshot[at].format_for(entry.device.device_type) {
            None => Err(
                ErrorView::DeviceCapabilityMismatch {
                    alias: entry.alias@,
                    required: entry.device.device_type,
                },
            ),
            Some(format) => Ok(
                BindingView {
                    alias: entry.alias@,
                    device_index: at as usize,
                    device_type: entry.device.device_type,
                    channels: format.channels,
                    sample_rate: format.sample_rate,
                },
            ),
        },
    }
}

/// What a snapshot yields for a device table when every alias must be bound
/// at once: all the bindings in table order, or the failure of the first
/// entry that cannot be bound.
pub open spec fn immediate_outcome(entries: Seq<DeviceEntry>, snapshot: Seq<DeviceInfo>) -> Result<
    Seq<BindingView>,
    ErrorView,
>
    decreases entries.len(),
{
    if entries.len() == 0 {
        Ok(Seq::<BindingView>::empty())
    } else {
        match immediate_outcome(entries.drop_last(), snapshot) {
            Err(error) => Err(error),
            Ok(bound) => match resolution(entries.last(), snapshot) {
                Err(error) => Err(error),
                Ok(binding) => Ok(bound.push(binding)),
            },
        }
    }
}

/// The display names of a snapshot, in order, leaving out the devices that
/// told none.
pub open spec fn available_names(snapshot: Seq<DeviceInfo>) -> Seq<Seq<char>>
    decreases snapshot.len(),
{
    if snapshot.len() == 0 {
        Seq::<Seq<char>>::empty()
    } else {
        match snapshot.last().name {
            Some(name) => available_names(snapshot.drop_last()).push(name@),
            None => available_names(snapshot.drop_last()),
        }
    }
}

/// Immediate resolution succeeds exactly when every entry of the table can
/// be bound, and then binds entry `k` as `resolution` says.
pub proof fn lemma_immediate_outcome(entries: Seq<DeviceEntry>, snapshot: Seq<DeviceInfo>)
    ensures
        immediate_outcome(entries, snapshot) is Ok <==> forall|k: int|
            0 <= k < entries.len() ==> (#[trigger] resolution(entries[k], snapshot)) is Ok,
        immediate_outcome(entries, snapshot) matches Ok(bound) ==> {
            &&& bound.len() == entries.len()
            &&& forall|k: int|
                0 <= k < entries.len() ==> resolution(entries[k], snapshot) == Ok::<
                    BindingView,
                    ErrorView,
                >(#[trigger] bound[k])
        },
        immediate_outcome(entries, snapshot) matches Err(error) ==> exists|k: int|
            {
                &&& 0 <= k < entries.len()
                &&& #[trigger] resolution(entries[k], snapshot) == Err::<BindingView, ErrorView>(
                    error,
                )
                &&& forall|j: int| 0 <= j < k ==> (#[trigger] resolution(entries[j], snapshot)) is Ok
            },
    decreases entries.len(),
{
    if entries.len() > 0 {
        let front = entries.drop_last();
        lemma_immediate_outcome(front, snapshot);
        assert(forall|k: int| 0 <= k < front.len() ==> front[k] == entries[k]);
        match immediate_outcome(front, snapshot) {
            Err(error) => {
                let k = choose|k: int|
                    {
                        &&& 0 <= k < front.len()
                        &&& #[trigger] resolution(front[k], snapshot) == Err::<
                            BindingView,
                            ErrorView,
                        >(error)
                        &&& forall|j: int|
                            0 <= j < k ==> (#[trigger] resolution(front[j], snapshot)) is Ok
                    };
                assert(resolution(entries[k], snapshot) == Err::<BindingView, ErrorView>(error));
                assert(forall|j: int|
                    0 <= j < k ==> (#[trigger] resolution(entries[j], snapshot)) is Ok);
            },
            Ok(bound) => {
                match resolution(entries.last(), snapshot) {
                    Err(error) => {
                        let k = entries.len() - 1;
                        assert(resolution(entries[k], snapshot) == Err::<BindingView, ErrorView>(
                            error,
                        ));
                    },
                    Ok(binding) => {},
                }
            },
        }
    }
}

/// The devices that the configured aliases are bound to.
pub struct AudioDevices {
    devices: Vec<DeviceBinding>,
}

impl View for AudioDevices {
    type V = Seq<BindingView>;

    /// The bindings, in the order in which they were made.
    closed spec fn view(&self) -> Seq<BindingView> {
        binding_views(self.devices@)
    }
}

/// Position of the first binding for `alias`.
pub open spec fn binding_position(bindings: Seq<BindingView>, alias: Seq<char>) -> Option<int> {
    first_where(bindings, |binding: BindingView| binding.alias == alias)
}

impl AudioDevices {
    /// A registry with no binding.
    pub fn new() -> (devices: AudioDevices)
        ensures
            devices@ == Seq::<BindingView>::empty(),
    {
        let devices = AudioDevices { devices: Vec::new() };
        assert(devices@ =~= Seq::<BindingView>::empty());
        devices
    }

    /// A registry of the given bindings.
    pub fn from_bindings(bindings: Vec<DeviceBinding>) -> (devices: AudioDevices)
        ensures
            devices@ == binding_views(bindings@),
    {
        AudioDevices { devices: bindings }
    }

    /// The number of bindings.
    pub fn len(&self) -> (count: usize)
        ensures
            count == self@.len(),
    {
        self.devices.len()
    }

    /// Whether there is no binding.
    pub fn is_empty(&self) -> (empty: bool)
        ensures
            empty == (self@.len() == 0),
    {
        self.devices.len() == 0
    }

    /// The binding at a position.
    pub fn binding(&self, at: usize) -> (binding: &DeviceBinding)
        requires
            at < self@.len(),
        ensures
            binding@ == self@[at as int],
    {
        &self.devices[at]
    }

    /// The binding of an alias: the first one made for it. An alias without
    /// a binding is reported as a device that was not found.
    pub fn get(&self, name: &str) -> (found: Result<&DeviceBinding, RouterError>)
        ensures
            match found {
                Ok(binding) => binding_position(self@, name@) matches Some(at) && binding@
                    == self@[at],
                Err(error) => binding_position(self@, name@) is None && error@
                    == (ErrorView::DeviceNotFound { alias: name@ }),
            },
    {
        let ghost wanted = |binding: BindingView| binding.alias == name@;
        let mut at: usize = 0;
        while at < self.devices.len()
            invariant
                at <= self.devices.len(),
                self@ == binding_views(self.devices@),
                wanted == |binding: BindingView| binding.alias == name@,
                forall|k: int| 0 <= k < at ==> !wanted(#[trigger] self@[k]),
            decreases self.devices.len() - at,
        {
            if same_text(self.devices[at].alias.as_str(), name) {
                proof {
                    lemma_first_where_found(self@, wanted, at as int);
                }
                return Ok(&self.devices[at]);
            }
            at += 1;
        }
        proof {
            lemma_first_where_absent(self@, wanted);
        }
        Err(RouterError::DeviceNotFound { alias: name.to_owned() })
    }

    /// The first device of the snapshot whose name contains the pattern. A
    /// device that told no name is matched as if its name were empty.
    pub fn find_device(snapshot: &Vec<DeviceInfo>, name_pattern: &str) -> (found: Option<usize>)
        ensures
            match found {
                Some(at) => at < snapshot@.len() && first_match(snapshot@, name_pattern@) == Some(
                    at as int,
                ),
                None => first_match(snapshot@, name_pattern@) is None,
            },
    {
        let ghost wanted = |device: DeviceInfo| device.matches(name_pattern@);
        let mut at: usize = 0;
        while at < snapshot.len()
            invariant
                at <= snapshot.len(),
                wanted == |device: DeviceInfo| device.matches(name_pattern@),
                forall|k: int| 0 <= k < at ==> !wanted(#[trigger] snapshot@[k]),
            decreases snapshot.len() - at,
        {
            let hit = match &snapshot[at].name {
                Some(name) => contains_text(name.as_str(), name_pattern),
                None => {
                    proof {
                        reveal_strlit("");
                        assert(""@ =~= Seq::<char>::empty());
                    }
                    contains_text("", name_pattern)
                },
            };
            if hit {
                proof {
                    lemma_first_where_found(snapshot@, wanted, at as int);
                }
                return Some(at);
            }
            at += 1;
        }
        proof {
            lemma_first_where_absent(snapshot@, wanted);
        }
        None
    }

    /// Checks that a device can be used in the expected direction and gives
    /// its native format for that direction.
    pub fn verify_device_type(device: &DeviceInfo, expected_type: &DeviceType, alias: &str) -> (
        verified: Result<StreamFormat, RouterError>
    )
        ensures
            match verified {
                Ok(format) => device.format_for(*expected_type) == Some(format),
                Err(error) => device.format_for(*expected_type) is None && error@ == (
                    ErrorView::DeviceCapabilityMismatch { alias: alias@, required: *expected_type }
                ),
            },
    {
        let format = match expected_type {
            DeviceType::Input => device.input,
            DeviceType::Output => device.output,
        };
        match format {
            Some(format) => Ok(format),
            None => Err(
                RouterError::DeviceCapabilityMismatch {
                    alias: alias.to_owned(),
                    required: *expected_type,
                },
            ),
        }
    }

    /// Binds one configured device against a snapshot.
    pub fn resolve(entry: &DeviceEntry, snapshot: &Vec<DeviceInfo>) -> (bound: Result<
        DeviceBinding,
        RouterError,
    >)
        ensures
            same_outcome(bound, resolution(*entry, snapshot@)),
    {
        match Self::find_device(snapshot, entry.device.name.as_str()) {
            None => Err(RouterError::DeviceNotFound { alias: entry.alias.clone() }),
            Some(at) => {
                match Self::verify_device_type(
                    &snapshot[at],
                    &entry.device.device_type,
                    entry.alias.as_str(),
                ) {
                    Err(error) => Err(error),
                    Ok(format) => Ok(
                        DeviceBinding {
                            alias: entry.alias.clone(),
                            device_index: at,
                            device_type: entry.device.device_type,
                            channels: format.channels,
                            sample_rate: format.sample_rate,
                        },
                    ),
                }
            },
        }
    }

    /// Binds every entry of a device table against one snapshot, in table
    /// order. The first entry that cannot be bound ends the resolution with
    /// its failure.
    pub fn resolve_all(entries: &Vec<DeviceEntry>, snapshot: &Vec<DeviceInfo>) -> (bound: Result<
        Vec<DeviceBinding>,
        RouterError,
    >)
        ensures
            match bound {
                Ok(bindings) => immediate_outcome(entries@, snapshot@) == Ok::<
                    Seq<BindingView>,
                    ErrorView,
                >(binding_views(bindings@)),
                Err(error) => immediate_outcome(entries@, snapshot@) == Err::<
                    Seq<BindingView>,
                    ErrorView,
                >(error@),
            },
    {
        let mut bindings: Vec<DeviceBinding> = Vec::new();
        let mut at: usize = 0;
        proof {
            assert(binding_views(bindings@) =~= Seq::<BindingView>::empty());
            assert(entries@.take(0).len() == 0);
        }
        while at < entries.len()
            invariant
                at <= entries.len(),
                immediate_outcome(entries@.take(at as int), snapshot@) == Ok::<
                    Seq<BindingView>,
                    ErrorView,
                >(binding_views(bindings@)),
            decreases entries.len() - at,
        {
            proof {
                assert(entries@.take(at + 1).drop_last() =~= entries@.take(at as int));
            }
            match Self::resolve(&entries[at], snapshot) {
                Err(error) => {
                    proof {
                        lemma_immediate_failure_stays(entries@, snapshot@, at + 1);
                    }
                    return Err(error);
                },
                Ok(binding) => {
                    proof {
                        assert(binding_views(bindings@.push(binding)) =~= binding_views(
                            bindings@,
                        ).push(binding@));
                    }
                    bindings.push(binding);
                },
            }
            at += 1;
        }
        proof {
            assert(entries@.take(at as int) =~= entries@);
        }
        Ok(bindings)
    }

    /// Binds every configured device against one snapshot, in table order.
    /// The first device that cannot be bound ends the resolution with its
    /// failure.
    pub fn find_immediate(config: &Config, snapshot: &Vec<DeviceInfo>) -> (found: Result<
        AudioDevices,
        RouterError,
    >)
        ensures
            same_outcome(found, immediate_outcome(config.devices@, snapshot@)),
    {
        match Self::resolve_all(&config.devices, snapshot) {
            Ok(bindings) => Ok(AudioDevices { devices: bindings }),
            Err(error) => Err(error),
        }
    }

    /// The display names of the devices of a snapshot, in enumeration
    /// order. A device that told no name is left out.
    pub fn list_available(snapshot: &Vec<DeviceInfo>) -> (names: Vec<String>)
        ensures
            texts_of(names@) == available_names(snapshot@),
    {
        let mut names: Vec<String> = Vec::new();
        let mut at: usize = 0;
        while at < snapshot.len()
            invariant
                at <= snapshot.len(),
                texts_of(names@) == available_names(snapshot@.take(at as int)),
            decreases snapshot.len() - at,
        {
            proof {
                assert(snapshot@.take(at + 1).drop_last() =~= snapshot@.take(at as int));
            }
            match &snapshot[at].name {
                Some(name) => {
                    let copy = name.clone();
                    proof {
                        assert(texts_of(names@.push(copy))
                            =~= texts_of(names@).push(copy@));
                    }
                    names.push(copy);
                },
                None => {},
            }
            at += 1;
        }
        proof {
            assert(snapshot@.take(at as int) =~= snapshot@);
        }
        names
    }
}

/// Once a prefix of the device table fails, the whole table fails in the
/// same way.
pub proof fn lemma_immediate_failure_stays(
    entries: Seq<DeviceEntry>,
    snapshot: Seq<DeviceInfo>,
    upto: int,
)
    requires
        0 <= upto <= entries.len(),
        immediate_outcome(entries.take(upto), snapshot) is Err,
    ensures
        immediate_outcome(entries, snapshot) == immediate_outcome(entries.take(upto), snapshot),
    decreases entries.len() - upto,
{
    if upto < entries.len() {
        assert(entries.take(upto + 1).drop_last() =~= entries.take(upto));
        lemma_immediate_failure_stays(entries, snapshot, upto + 1);
    } else {
        assert(entries.take(upto) =~= entries);
    }
}

} // verus!
