//! Building the routes: what is decided, route by route, between a checked
//! configuration with its bound devices and the streams that carry audio.
//!
//! A plan holds, as plain values, everything the streams and the sample
//! adapter of one route are set up with. The buffer of a route is made from
//! its plan; every route but the first starts with silence in its buffer, to
//! absorb the difference between the moments at which its two streams start.

use vstd::prelude::*;
use crate::adapter::{AudioSettings, ChannelPolicy};
use crate::buffer::{MAX_CAPACITY, SampleBuffer, at_most, silence};
use crate::config::{Config, DeviceEntry, DeviceType, NO_GAIN, RouteEntry};
use crate::devices::{AudioDevices, BindingView, binding_position};
use crate::error::{ErrorView, RouteEnd, RouterError, same_outcome};
use crate::routing::{
    DuplicateRoute, direction_fault, duplicates, reference_fault, validate_routing,
    validation_fault,
};
use crate::scan::lemma_first_where;

verus! {

/// Everything one route is set up with.
#[derive(Clone, Debug, PartialEq, Eq)]
pub struct RoutePlan {
    /// The route's name.
    pub name: String,
    /// Alias of the capture device.
    pub from: String,
    /// Alias of the playback device.
    pub to: String,
    /// Position of the capture device in the snapshot it was found in.
    pub source_device: usize,
    /// Position of the playback device in the snapshot it was found in.
    pub sink_device: usize,
    /// Native channel count of the capture device.
    pub in_channels: u16,
    /// Native channel count of the playback device.
    pub out_channels: u16,
    /// Native sample rate of the capture device.
    pub in_rate: u32,
    /// Native sample rate of the playback device.
    pub out_rate: u32,
    /// Whether the two rates differ. Advisory: nothing is resampled.
    pub rate_mismatch: bool,
    /// Capacity of the route's buffer, in samples.
    pub capacity: usize,
    /// Frames per callback block, for both streams.
    pub block_size: u32,
    /// Silence samples put into the buffer before the streams are built.
    pub prefill: usize,
    /// Gain applied to captured samples (bit pattern).
    pub gain: u32,
    /// Whether the gain differs from the one that changes nothing.
    pub applies_gain: bool,
    /// How captured channels map to played ones.
    pub policy: ChannelPolicy,
    /// Mix ratio and clamp bounds.
    pub settings: AudioSettings,
}

/// A `RoutePlan` with its texts as character sequences.
pub struct PlanView {
    pub name: Seq<char>,
    pub from: Seq<char>,
    pub to: Seq<char>,
    pub source_device: usize,
    pub sink_device: usize,
    pub in_channels: u16,
    pub out_channels: u16,
    pub in_rate: u32,
    pub out_rate: u32,
    pub rate_mismatch: bool,
    pub capacity: usize,
    pub block_size: u32,
    pub prefill: usize,
    pub gain: u32,
    pub applies_gain: bool,
    pub policy: ChannelPolicy,
    pub settings: AudioSettings,
}

impl View for RoutePlan {
    type V = PlanView;

    open spec fn view(&self) -> PlanView {
        PlanView {
            name: self.name@,
            from: self.from@,
            to: self.to@,
            source_device: self.source_device,
            sink_device: self.sink_device,
            in_channels: self.in_channels,
            out_channels: self.out_channels,
            in_rate: self.in_rate,
            out_rate: self.out_rate,
            rate_mismatch: self.rate_mismatch,
            capacity: self.capacity,
            block_size: self.block_size,
            prefill: self.prefill,
            gain: self.gain,
            applies_gain: self.applies_gain,
            policy: self.policy,
            settings: self.settings,
        }
    }
}

/// The plans of a list, each by its view.
pub open spec fn plan_views(plans: Seq<RoutePlan>) -> Seq<PlanView> {
    plans.map_values(|plan: RoutePlan| plan@)
}

/// The routes to build, and what to warn about.
#[derive(Clone, Debug, PartialEq, Eq)]
pub struct RoutingPlan {
    /// One plan for each route of the table, in table order.
    pub routes: Vec<RoutePlan>,
    /// The routes that repeat an earlier one.
    pub repeats: Vec<DuplicateRoute>,
}

/// A `RoutingPlan` with its plans by their views.
pub struct RoutingPlanView {
    pub routes: Seq<PlanView>,
    pub repeats: Seq<DuplicateRoute>,
}

impl View for RoutingPlan {
    type V = RoutingPlanView;

    open spec fn view(&self) -> RoutingPlanView {
        RoutingPlanView { routes: plan_views(self.routes@), repeats: self.repeats@ }
    }
}

/// The silence a route starts with: none for the first route built, the
/// configured count for every other.
pub open spec fn planned_prefill(index: int, configured: usize) -> usize {
    if index > 0 {
        configured
    } else {
        0
    }
}

/// The plan of the route at position `index` of the table, or why it
/// cannot be built. In this order:
///
/// * both aliases must be bound to a device, the source first;
/// * both must be in the device table;
/// * the source must be configured for capture and the destination for
///   playback;
/// * the source must be bound for capture and the destination for playback.
pub open spec fn route_plan(
    index: int,
    entry: RouteEntry,
    config: Config,
    bindings: Seq<BindingView>,
) -> Result<PlanView, ErrorView> {
    match binding_position(bindings, entry.route.from@) {
        None => Err(ErrorView::DeviceNotFound { alias: entry.route.from@ }),
        Some(source) => match binding_position(bindings, entry.route.to@) {
            None => Err(ErrorView::DeviceNotFound { alias: entry.route.to@ }),
            Some(sink) => if let Some(fault) = reference_fault(config, entry) {
                Err(fault)
            } else if let Some(fault) = direction_fault(config, entry) {
                Err(fault)
            } else if bindings[source].device_type != DeviceType::Input {
                Err(
                    ErrorView::DeviceCapabilityMismatch {
                        alias: entry.route.from@,
                        required: DeviceType::Input,
                    },
                )
            } else if bindings[sink].device_type != DeviceType::Output {
                Err(
                    ErrorView::DeviceCapabilityMismatch {
                        alias: entry.route.to@,
                        required: DeviceType::Output,
                    },
                )
            } else {
                let device = config.device_of(entry.route.from@);
                Ok(
                    PlanView {
                        name: entry.name@,
                        from: entry.route.from@,
                        to: entry.route.to@,
                        source_device: bindings[source].device_index,
                        sink_device: bindings[sink].device_index,
                        in_channels: bindings[source].channels,
                        out_channels: bindings[sink].channels,
                        in_rate: bindings[source].sample_rate,
                        out_rate: bindings[sink].sample_rate,
                        rate_mismatch: bindings[source].sample_rate != bindings[sink].sample_rate,
                        capacity: device.primary_buffer,
                        block_size: device.buffer_size,
                        prefill: planned_prefill(index, config.audio.prefill_samples),
                        gain: device.gain,
                        applies_gain: device.gain != NO_GAIN,
                        policy: ChannelPolicy::of(
                            bindings[source].channels,
                            bindings[sink].channels,
                        ),
                        settings: AudioSettings {
                            mix_ratio: config.audio.stereo_to_mono_mix_ratio,
                            sample_min: config.audio.audio_sample_min,
                            sample_max: config.audio.audio_sample_max,
                        },
                    },
                )
            },
        },
    }
}

/// The plans of the first `count` routes of the table, in table order, or
/// the failure of the first of them that cannot be built.
pub open spec fn planned_routes(config: Config, bindings: Seq<BindingView>, count: nat) -> Result<
    Seq<PlanView>,
    ErrorView,
>
    decreases count,
{
    if count == 0 {
        Ok(Seq::<PlanView>::empty())
    } else {
        match planned_routes(config, bindings, (count - 1) as nat) {
            Err(error) => Err(error),
            Ok(plans) => match route_plan(
                count - 1,
                config.routing@[count - 1],
                config,
                bindings,
            ) {
                Err(error) => Err(error),
                Ok(plan) => Ok(plans.push(plan)),
            },
        }
    }
}

/// What routing comes to: the table is checked first, and if it passes,
/// every route is planned.
pub open spec fn routing_outcome(config: Config, bindings: Seq<BindingView>) -> Result<
    RoutingPlanView,
    ErrorView,
> {
    match validation_fault(config) {
        Some(fault) => Err(fault),
        None => match planned_routes(config, bindings, config.routing@.len()) {
            Err(error) => Err(error),
            Ok(plans) => Ok(
                RoutingPlanView { routes: plans, repeats: duplicates(config.routing@) },
            ),
        },
    }
}

/// Once the first routes of the table fail, planning more of them fails in
/// the same way.
pub proof fn lemma_planning_failure_stays(
    config: Config,
    bindings: Seq<BindingView>,
    count: nat,
    more: nat,
)
    requires
        count <= more,
        planned_routes(config, bindings, count) is Err,
    ensures
        planned_routes(config, bindings, more) == planned_routes(config, bindings, count),
    decreases more - count,
{
    if count < more {
        lemma_planning_failure_stays(config, bindings, count, (more - 1) as nat);
    }
}

/// What a route's buffer holds when its streams are built: the planned
/// silence, as far as the buffer has room for it.
pub open spec fn initial_contents(prefill: usize, capacity: usize) -> Seq<u32> {
    silence(at_most(prefill as nat, capacity as nat))
}

/// Every route but the first starts with exactly the configured number of
/// silence samples in its buffer, provided the buffer can hold that many;
/// the first route starts with an empty buffer.
pub proof fn lemma_prefill_before_audio(index: int, configured: usize, capacity: usize)
    ensures
        index > 0 && configured <= capacity ==> initial_contents(
            planned_prefill(index, configured),
            capacity,
        ) == silence(configured as nat),
        index <= 0 ==> initial_contents(planned_prefill(index, configured), capacity)
            == Seq::<u32>::empty(),
{
    assert(silence(0) =~= Seq::<u32>::empty());
}

impl RoutePlan {
    /// Makes the route's buffer and puts the planned silence into it.
    pub fn make_buffer(&self) -> (buffer: SampleBuffer)
        requires
            0 < self.capacity <= MAX_CAPACITY,
        ensures
            buffer@ == initial_contents(self.prefill, self.capacity),
            buffer.capacity() == self.capacity,
    {
        let mut buffer = SampleBuffer::new(self.capacity);
        let added = buffer.prefill(self.prefill);
        proof {
            assert(Seq::<u32>::empty() + silence(added as nat) =~= silence(added as nat));
        }
        buffer
    }
}

/// Plans the route at position `index` of the routing table.
pub fn build_route(index: usize, entry: &RouteEntry, config: &Config, devices: &AudioDevices) -> (
    built: Result<RoutePlan, RouterError>
)
    ensures
        same_outcome(built, route_plan(index as int, *entry, *config, devices@)),
{
    let source = match devices.get(entry.route.from.as_str()) {
        Ok(binding) => binding,
        Err(error) => {
            return Err(error);
        },
    };
    let sink = match devices.get(entry.route.to.as_str()) {
        Ok(binding) => binding,
        Err(error) => {
            return Err(error);
        },
    };
    let source_at = match config.device_position(entry.route.from.as_str()) {
        Some(at) => at,
        None => {
            return Err(
                RouterError::UnknownDeviceReference {
                    route: entry.name.clone(),
                    alias: entry.route.from.clone(),
                    end: RouteEnd::Source,
                },
            );
        },
    };
    let sink_at = match config.device_position(entry.route.to.as_str()) {
        Some(at) => at,
        None => {
            return Err(
                RouterError::UnknownDeviceReference {
                    route: entry.name.clone(),
                    alias: entry.route.to.clone(),
                    end: RouteEnd::Destination,
                },
            );
        },
    };
    proof {
        lemma_first_where(
            config.devices@,
            |device: DeviceEntry| device.alias@ == entry.route.from@,
        );
        lemma_first_where(
            config.devices@,
            |device: DeviceEntry| device.alias@ == entry.route.to@,
        );
    }
    let device = &config.devices[source_at].device;
    match device.device_type {
        DeviceType::Input => {},
        DeviceType::Output => {
            return Err(
                RouterError::DeviceCapabilityMismatch {
                    alias: entry.route.from.clone(),
                    required: DeviceType::Input,
                },
            );
        },
    }
    match config.devices[sink_at].device.device_type {
        DeviceType::Output => {},
        DeviceType::Input => {
            return Err(
                RouterError::DeviceCapabilityMismatch {
                    alias: entry.route.to.clone(),
                    required: DeviceType::Output,
                },
            );
        },
    }
    match source.device_type {
        DeviceType::Input => {},
        DeviceType::Output => {
            return Err(
                RouterError::DeviceCapabilityMismatch {
                    alias: entry.route.from.clone(),
                    required: DeviceType::Input,
                },
            );
        },
    }
    match sink.device_type {
        DeviceType::Output => {},
        DeviceType::Input => {
            return Err(
                RouterError::DeviceCapabilityMismatch {
                    alias: entry.route.to.clone(),
                    required: DeviceType::Output,
                },
            );
        },
    }
    Ok(
        RoutePlan {
            name: entry.name.clone(),
            from: entry.route.from.clone(),
            to: entry.route.to.clone(),
            source_device: source.device_index,
            sink_device: sink.device_index,
            in_channels: source.channels,
            out_channels: sink.channels,
            in_rate: source.sample_rate,
            out_rate: sink.sample_rate,
            rate_mismatch: source.sample_rate != sink.sample_rate,
            capacity: device.primary_buffer,
            block_size: device.buffer_size,
            prefill: if index > 0 {
                config.audio.prefill_samples
            } else {
                0
            },
            gain: device.gain,
            applies_gain: device.gain != NO_GAIN,
            policy: ChannelPolicy::select(source.channels, sink.channels),
            settings: AudioSettings {
                mix_ratio: config.audio.stereo_to_mono_mix_ratio,
                sample_min: config.audio.audio_sample_min,
                sample_max: config.audio.audio_sample_max,
            },
        },
    )
}

/// Checks the routing table and plans every route of it, in table order.
/// A table that does not pass the check, or a route that cannot be built,
/// ends the planning with its error: no route is built unless all are.
pub fn plan_audio_routing(config: &Config, devices: &AudioDevices) -> (planned: Result<
    RoutingPlan,
    RouterError,
>)
    ensures
        same_outcome(planned, routing_outcome(*config, devices@)),
{
    let repeats = match validate_routing(config) {
        Ok(repeats) => repeats,
        Err(error) => {
            return Err(error);
        },
    };
    let mut routes: Vec<RoutePlan> = Vec::new();
    let mut at: usize = 0;
    proof {
        assert(plan_views(routes@) =~= Seq::<PlanView>::empty());
    }
    while at < config.routing.len()
        invariant
            at <= config.routing.len(),
            validation_fault(*config) is None,
            planned_routes(*config, devices@, at as nat) == Ok::<Seq<PlanView>, ErrorView>(
                plan_views(routes@),
            ),
        decreases config.routing.len() - at,
    {
        match build_route(at, &config.routing[at], config, devices) {
            Err(error) => {
                proof {
                    assert(planned_routes(*config, devices@, (at + 1) as nat) == Err::<
                        Seq<PlanView>,
                        ErrorView,
                    >(error@));
                    lemma_planning_failure_stays(
                        *config,
                        devices@,
                        (at + 1) as nat,
                        config.routing@.len(),
                    );
                }
                return Err(error);
            },
            Ok(plan) => {
                proof {
                    assert(plan_views(routes@.push(plan)) =~= plan_views(routes@).push(plan@));
                }
                routes.push(plan);
            },
        }
        at += 1;
    }
    Ok(RoutingPlan { routes, repeats })
}

} // verus!
