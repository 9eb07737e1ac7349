//! The routing table: checking it against the device table and finding the
//! routes that repeat an earlier one.

use vstd::prelude::*;
use crate::config::{Config, DeviceEntry, DeviceType, RouteEntry};
use crate::error::{ErrorView, RouteEnd, RouterError};
use crate::scan::{
    first_where, last_where, lemma_first_where, lemma_first_where_absent,
    lemma_first_where_found, lemma_last_where_absent, lemma_last_where_found,
};
use crate::text::same_text;

verus! {

/// Two routes of the table that join the same two devices. Advisory only:
/// both routes are built.
#[derive(Clone, Copy, Debug, PartialEq, Eq, Structural)]
pub struct DuplicateRoute {
    /// Position of the nearest earlier route with the same two ends.
    pub earlier: usize,
    /// Position of the route that repeats it.
    pub later: usize,
}

/// Two routes read from the same alias and write to the same alias.
pub open spec fn same_ends(one: RouteEntry, other: RouteEntry) -> bool {
    one.route.from@ == other.route.from@ && one.route.to@ == other.route.to@
}

/// The fault, if any, in what a route refers to: its source alias is not in
/// the device table, or else its destination alias is not.
pub open spec fn reference_fault(config: Config, entry: RouteEntry) -> Option<ErrorView> {
    if !config.knows(entry.route.from@) {
        Some(
            ErrorView::UnknownDeviceReference {
                route: entry.name@,
                alias: entry.route.from@,
                end: RouteEnd::Source,
            },
        )
    } else if !config.knows(entry.route.to@) {
        Some(
            ErrorView::UnknownDeviceReference {
                route: entry.name@,
                alias: entry.route.to@,
                end: RouteEnd::Destination,
            },
        )
    } else {
        None
    }
}

/// The fault, if any, in the directions of a route whose aliases are both
/// in the device table: its source is not configured for capture, or else
/// its destination is not configured for playback.
pub open spec fn direction_fault(config: Config, entry: RouteEntry) -> Option<ErrorView> {
    if config.device_of(entry.route.from@).device_type != DeviceType::Input {
        Some(
            ErrorView::DeviceCapabilityMismatch {
                alias: entry.route.from@,
                required: DeviceType::Input,
            },
        )
    } else if config.device_of(entry.route.to@).device_type != DeviceType::Output {
        Some(
            ErrorView::DeviceCapabilityMismatch {
                alias: entry.route.to@,
                required: DeviceType::Output,
            },
        )
    } else {
        None
    }
}

/// A route is sound: both its aliases are in the device table, its source
/// is configured for capture and its destination for playback.
pub open spec fn route_is_sound(config: Config, entry: RouteEntry) -> bool {
    &&& config.knows(entry.route.from@)
    &&& config.knows(entry.route.to@)
    &&& config.device_of(entry.route.from@).device_type == DeviceType::Input
    &&& config.device_of(entry.route.to@).device_type == DeviceType::Output
}

/// Why the routing table is rejected, if it is: the reference fault of the
/// first route that has one, or, if no route has one, the direction fault of
/// the first route that has one.
pub open spec fn validation_fault(config: Config) -> Option<ErrorView> {
    match first_where(
        config.routing@,
        |entry: RouteEntry| reference_fault(config, entry) is Some,
    ) {
        Some(at) => reference_fault(config, config.routing@[at]),
        None => match first_where(
            config.routing@,
            |entry: RouteEntry| direction_fault(config, entry) is Some,
        ) {
            Some(at) => direction_fault(config, config.routing@[at]),
            None => None,
        },
    }
}

/// The routes that repeat an earlier route, each with the nearest earlier
/// route it repeats, ordered by the position of the repeating route.
pub open spec fn duplicates(routing: Seq<RouteEntry>) -> Seq<DuplicateRoute>
    decreases routing.len(),
{
    if routing.len() == 0 {
        Seq::<DuplicateRoute>::empty()
    } else {
        match last_where(
            routing.drop_last(),
            |entry: RouteEntry| same_ends(entry, routing.last()),
        ) {
            Some(at) => duplicates(routing.drop_last()).push(
                DuplicateRoute { earlier: at as usize, later: (routing.len() - 1) as usize },
            ),
            None => duplicates(routing.drop_last()),
        }
    }
}

/// The routing table is accepted exactly when every route is sound. When it
/// is rejected, the error is an unknown reference if some route names an
/// alias that the device table lacks, and a capability mismatch otherwise.
pub proof fn lemma_validation_accepts_sound_tables(config: Config)
    ensures
        validation_fault(config) is None <==> forall|k: int|
            0 <= k < config.routing@.len() ==> route_is_sound(config, #[trigger] config.routing@[k]),
        validation_fault(config) matches Some(fault) ==> {
            if exists|k: int|
                0 <= k < config.routing@.len() && !({
                    &&& config.knows((#[trigger] config.routing@[k]).route.from@)
                    &&& config.knows(config.routing@[k].route.to@)
                }) {
                fault is UnknownDeviceReference
            } else {
                fault is DeviceCapabilityMismatch
            }
        },
{
    let refers_badly = |entry: RouteEntry| reference_fault(config, entry) is Some;
    let points_badly = |entry: RouteEntry| direction_fault(config, entry) is Some;
    lemma_first_where(config.routing@, refers_badly);
    lemma_first_where(config.routing@, points_badly);
    if validation_fault(config) is None {
        assert forall|k: int| 0 <= k < config.routing@.len() implies route_is_sound(
            config,
            #[trigger] config.routing@[k],
        ) by {
            assert(!refers_badly(config.routing@[k]));
            assert(!points_badly(config.routing@[k]));
        }
    }
    match first_where(config.routing@, refers_badly) {
        Some(at) => {
            assert(refers_badly(config.routing@[at]));
            assert(!route_is_sound(config, config.routing@[at]));
        },
        None => {
            assert forall|k: int| 0 <= k < config.routing@.len() implies ({
                &&& config.knows((#[trigger] config.routing@[k]).route.from@)
                &&& config.knows(config.routing@[k].route.to@)
            }) by {
                assert(!refers_badly(config.routing@[k]));
            }
            match first_where(config.routing@, points_badly) {
                Some(at) => {
                    assert(points_badly(config.routing@[at]));
                    assert(!route_is_sound(config, config.routing@[at]));
                },
                None => {},
            }
        },
    }
}

/// Checks the routing table against the device table.
///
/// Every route must name two aliases of the device table; the first route
/// that does not is reported as an unknown reference. If all do, the source
/// of every route must be configured for capture and its destination for
/// playback; the first route of which that does not hold is reported as a
/// capability mismatch. A table that passes is accepted, and the routes that
/// repeat an earlier route are handed back for the caller to warn about.
pub fn validate_routing(config: &Config) -> (checked: Result<Vec<DuplicateRoute>, RouterError>)
    ensures
        match checked {
            Ok(repeats) => validation_fault(*config) is None && repeats@ == duplicates(
                config.routing@,
            ),
            Err(error) => validation_fault(*config) == Some(error@),
        },
{
    let ghost refers_badly = |entry: RouteEntry| reference_fault(*config, entry) is Some;
    let ghost points_badly = |entry: RouteEntry| direction_fault(*config, entry) is Some;
    let count = config.routing.len();
    let mut at: usize = 0;
    while at < count
        invariant
            count == config.routing@.len(),
            at <= count,
            refers_badly == |entry: RouteEntry| reference_fault(*config, entry) is Some,
            forall|k: int| 0 <= k < at ==> !refers_badly(#[trigger] config.routing@[k]),
        decreases count - at,
    {
        let entry = &config.routing[at];
        if config.device_position(entry.route.from.as_str()).is_none() {
            proof {
                lemma_first_where_found(config.routing@, refers_badly, at as int);
            }
            return Err(
                RouterError::UnknownDeviceReference {
                    route: entry.name.clone(),
                    alias: entry.route.from.clone(),
                    end: RouteEnd::Source,
                },
            );
        }
        if config.device_position(entry.route.to.as_str()).is_none() {
            proof {
                lemma_first_where_found(config.routing@, refers_badly, at as int);
            }
            return Err(
                RouterError::UnknownDeviceReference {
                    route: entry.name.clone(),
                    alias: entry.route.to.clone(),
                    end: RouteEnd::Destination,
                },
            );
        }
        at += 1;
    }
    proof {
        lemma_first_where_absent(config.routing@, refers_badly);
    }
    at = 0;
    while at < count
        invariant
            count == config.routing@.len(),
            at <= count,
            first_where(config.routing@, refers_badly) is None,
            refers_badly == |entry: RouteEntry| reference_fault(*config, entry) is Some,
            points_badly == |entry: RouteEntry| direction_fault(*config, entry) is Some,
            forall|k: int| 0 <= k < at ==> !points_badly(#[trigger] config.routing@[k]),
        decreases count - at,
    {
        let entry = &config.routing[at];
        proof {
            lemma_first_where(config.routing@, refers_badly);
            assert(!refers_badly(config.routing@[at as int]));
        }
        let source = config.device_position(entry.route.from.as_str());
        let sink = config.device_position(entry.route.to.as_str());
        match (source, sink) {
            (Some(source), Some(sink)) => {
                proof {
                    lemma_first_where(
                        config.devices@,
                        |device: DeviceEntry| device.alias@ == entry.route.from@,
                    );
                    lemma_first_where(
                        config.devices@,
                        |device: DeviceEntry| device.alias@ == entry.route.to@,
                    );
                }
                match config.devices[source].device.device_type {
                    DeviceType::Input => {},
                    DeviceType::Output => {
                        proof {
                            lemma_first_where_found(config.routing@, points_badly, at as int);
                        }
                        return Err(
                            RouterError::DeviceCapabilityMismatch {
                                alias: entry.route.from.clone(),
                                required: DeviceType::Input,
                            },
                        );
                    },
                }
                match config.devices[sink].device.device_type {
                    DeviceType::Output => {},
                    DeviceType::Input => {
                        proof {
                            lemma_first_where_found(config.routing@, points_badly, at as int);
                        }
                        return Err(
                            RouterError::DeviceCapabilityMismatch {
                                alias: entry.route.to.clone(),
                                required: DeviceType::Output,
                            },
                        );
                    },
                }
            },
            _ => {
                assert(false);
            },
        }
        at += 1;
    }
    proof {
        lemma_first_where_absent(config.routing@, points_badly);
    }
    Ok(find_duplicates(&config.routing))
}

/// The routes of a table that repeat an earlier route.
pub fn find_duplicates(routing: &Vec<RouteEntry>) -> (repeats: Vec<DuplicateRoute>)
    ensures
        repeats@ == duplicates(routing@),
{
    let mut repeats: Vec<DuplicateRoute> = Vec::new();
    let mut later: usize = 0;
    proof {
        assert(routing@.take(0).len() == 0);
    }
    while later < routing.len()
        invariant
            later <= routing.len(),
            repeats@ == duplicates(routing@.take(later as int)),
        decreases routing.len() - later,
    {
        let ghost before = routing@.take(later as int);
        let ghost repeated = |entry: RouteEntry| same_ends(entry, routing@[later as int]);
        proof {
            assert(routing@.take(later + 1).drop_last() =~= before);
            assert(routing@.take(later + 1).last() == routing@[later as int]);
        }
        let mut earlier: usize = later;
        let mut hit: Option<usize> = None;
        while earlier > 0 && hit.is_none()
            invariant
                earlier <= later < routing.len(),
                before == routing@.take(later as int),
                repeated == |entry: RouteEntry| same_ends(entry, routing@[later as int]),
                forall|k: int|
                    (match hit {
                        Some(found) => found as int,
                        None => earlier as int - 1,
                    }) < k < later ==> !repeated(#[trigger] before[k]),
                hit matches Some(found) ==> found < later && repeated(before[found as int]),
            decreases earlier + (if hit is None { 1int } else { 0int }),
        {
            earlier -= 1;
            if same_text(routing[earlier].route.from.as_str(), routing[later].route.from.as_str())
                && same_text(routing[earlier].route.to.as_str(), routing[later].route.to.as_str()) {
                hit = Some(earlier);
            }
        }
        match hit {
            Some(found) => {
                proof {
                    lemma_last_where_found(before, repeated, found as int);
                }
                repeats.push(DuplicateRoute { earlier: found, later });
            },
            None => {
                proof {
                    lemma_last_where_absent(before, repeated);
                }
            },
        }
        later += 1;
    }
    proof {
        assert(routing@.take(later as int) =~= routing@);
    }
    repeats
}

} // verus!
