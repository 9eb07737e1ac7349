//! What can go wrong before the routes are streaming.

use vstd::prelude::*;
use crate::config::DeviceType;

verus! {

/// One of the two ends of a route.
#[derive(Clone, Copy, Debug, PartialEq, Eq, Structural)]
pub enum RouteEnd {
    /// The capture device the route reads from.
    Source,
    /// The playback device the route writes to.
    Destination,
}

/// An error that ends the run before any audio flows.
#[derive(Clone, Debug, PartialEq, Eq)]
pub enum RouterError {
    /// A route names an alias that the device table does not have.
    UnknownDeviceReference { route: String, alias: String, end: RouteEnd },
    /// No physical device is bound to the alias.
    DeviceNotFound { alias: String },
    /// Devices were waited for and these aliases are still unbound.
    DeviceWaitTimeout { missing: Vec<String>, waited_secs: u64 },
    /// The device cannot be used in the direction that is required of it.
    DeviceCapabilityMismatch { alias: String, required: DeviceType },
    /// The streams of a route could not be built.
    StreamConstruction { route_index: usize },
    /// The stream at one end of a route did not start.
    StreamStart { route_index: usize, end: RouteEnd },
}

/// A `RouterError` with its texts as character sequences.
pub enum ErrorView {
    UnknownDeviceReference { route: Seq<char>, alias: Seq<char>, end: RouteEnd },
    DeviceNotFound { alias: Seq<char> },
    DeviceWaitTimeout { missing: Seq<Seq<char>>, waited_secs: u64 },
    DeviceCapabilityMismatch { alias: Seq<char>, required: DeviceType },
    StreamConstruction { route_index: usize },
    StreamStart { route_index: usize, end: RouteEnd },
}

/// The character sequences of a list of strings.
pub open spec fn texts_of(names: Seq<String>) -> Seq<Seq<char>> {
    names.map_values(|name: String| name@)
}

impl View for RouterError {
    type V = ErrorView;

    open spec fn view(&self) -> ErrorView {
        match *self {
            RouterError::UnknownDeviceReference { route, alias, end } => {
                ErrorView::UnknownDeviceReference { route: route@, alias: alias@, end }
            },
            RouterError::DeviceNotFound { alias } => ErrorView::DeviceNotFound { alias: alias@ },
            RouterError::DeviceWaitTimeout { missing, waited_secs } => {
                ErrorView::DeviceWaitTimeout { missing: texts_of(missing@), waited_secs }
            },
            RouterError::DeviceCapabilityMismatch { alias, required } => {
                ErrorView::DeviceCapabilityMismatch { alias: alias@, required }
            },
            RouterError::StreamConstruction { route_index } => {
                ErrorView::StreamConstruction { route_index }
            },
            RouterError::StreamStart { route_index, end } => {
                ErrorView::StreamStart { route_index, end }
            },
        }
    }
}

/// An outcome is the one described: a success with the described value, or
/// a failure with the described error.
pub open spec fn same_outcome<T: View>(
    outcome: Result<T, RouterError>,
    described: Result<T::V, ErrorView>,
) -> bool {
    match (outcome, described) {
        (Ok(value), Ok(view)) => value@ == view,
        (Err(error), Err(view)) => error@ == view,
        _ => false,
    }
}

} // verus!
