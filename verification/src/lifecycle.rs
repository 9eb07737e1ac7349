//! The lifecycle of a run: building the streams of every route, starting
//! them, watching the cancellation flag, and stopping.
//!
//! Building and starting a stream, reading the flag and sleeping are done by
//! the caller. The controller says which of them is due and is told how it
//! went.
//!
//! The streams of every route are built, in route order, before any stream
//! is started. They are then started in route order, for each route the
//! capture stream before the playback stream. Streams that cannot be built,
//! or a stream that does not start, end the run. Once all are started the
//! flag is read; while it says to go on, the controller has the caller sleep
//! for the polling interval and read it again.

use vstd::prelude::*;
use crate::error::{RouteEnd, RouterError};

verus! {

/// Where a run stands.
#[derive(Clone, Copy, Debug, PartialEq, Eq, Structural)]
pub enum Phase {
    /// The streams of this route are the next to build.
    Building { route: usize },
    /// The stream at this end of this route is the next to start.
    Starting { route: usize, end: RouteEnd },
    /// All streams run; the cancellation flag is to be read.
    Watching,
    /// All streams run; the flag said to go on, and a sleep is due.
    Resting,
    /// The flag said to stop.
    Stopped,
    /// The streams of this route could not be built.
    Unbuilt { route: usize },
    /// The stream at this end of this route did not start.
    Failed { route: usize, end: RouteEnd },
}

/// What the caller of the controller is to do next.
#[derive(Clone, Copy, Debug, PartialEq, Eq, Structural)]
pub enum RunAction {
    /// Make the buffer of this route and build its two streams, and report
    /// with `streams_built`.
    BuildStreams { route: usize },
    /// Start the stream at this end of this route, and report with
    /// `stream_started`.
    StartStream { route: usize, end: RouteEnd },
    /// Read the cancellation flag, and report with `flag_read`.
    ReadFlag,
    /// Sleep for this many milliseconds, and report with `slept`.
    Sleep { millis: u64 },
    /// Return and let the streams go; `result` tells how the run ended.
    Finish,
}

/// The controller of one run.
#[derive(Clone, Copy, Debug, PartialEq, Eq, Structural)]
pub struct Lifecycle {
    /// The number of routes, each with two streams.
    pub routes: usize,
    /// The interval at which the cancellation flag is read.
    pub sleep_ms: u64,
    /// Where the run stands.
    pub phase: Phase,
}

/// The phase a run begins in: the streams of the first route are to be
/// built, or the flag is to be read if there is no route.
pub open spec fn first_phase(routes: usize) -> Phase {
    if routes == 0 {
        Phase::Watching
    } else {
        Phase::Building { route: 0 }
    }
}

/// The phase that follows the building of the streams of `route`.
pub open spec fn phase_after_build(routes: usize, route: usize) -> Phase {
    if route + 1 < routes {
        Phase::Building { route: (route + 1) as usize }
    } else {
        Phase::Starting { route: 0, end: RouteEnd::Source }
    }
}

/// The phase that follows the start of the stream at `end` of `route`.
pub open spec fn phase_after_start(routes: usize, route: usize, end: RouteEnd) -> Phase {
    match end {
        RouteEnd::Source => Phase::Starting { route, end: RouteEnd::Destination },
        RouteEnd::Destination => if route + 1 < routes {
            Phase::Starting { route: (route + 1) as usize, end: RouteEnd::Source }
        } else {
            Phase::Watching
        },
    }
}

impl Phase {
    /// Whether the run is over.
    pub open spec fn is_final(self) -> bool {
        self is Stopped || self is Unbuilt || self is Failed
    }

    /// Whether every stream has been started.
    pub open spec fn is_streaming(self) -> bool {
        self is Watching || self is Resting
    }
}

impl Lifecycle {
    /// The action that is due in the controller's phase.
    pub open spec fn due(&self) -> RunAction {
        match self.phase {
            Phase::Building { route } => RunAction::BuildStreams { route },
            Phase::Starting { route, end } => RunAction::StartStream { route, end },
            Phase::Watching => RunAction::ReadFlag,
            Phase::Resting => RunAction::Sleep { millis: self.sleep_ms },
            Phase::Stopped => RunAction::Finish,
            Phase::Unbuilt { .. } => RunAction::Finish,
            Phase::Failed { .. } => RunAction::Finish,
        }
    }

    /// The controller after the streams of a route were reported built or
    /// not. Outside the building phase the report changes nothing.
    pub open spec fn after_build(self, built: bool) -> Lifecycle {
        match self.phase {
            Phase::Building { route } => Lifecycle {
                phase: if built {
                    phase_after_build(self.routes, route)
                } else {
                    Phase::Unbuilt { route }
                },
                ..self
            },
            _ => self,
        }
    }

    /// The controller after `count` routes in a row were reported built.
    pub open spec fn after_builds(self, count: nat) -> Lifecycle
        decreases count,
    {
        if count == 0 {
            self
        } else {
            self.after_builds((count - 1) as nat).after_build(true)
        }
    }

    /// The controller after a stream was reported started or not. Outside
    /// the starting phase the report changes nothing.
    pub open spec fn after_start(self, started: bool) -> Lifecycle {
        match self.phase {
            Phase::Starting { route, end } => Lifecycle {
                phase: if started {
                    phase_after_start(self.routes, route, end)
                } else {
                    Phase::Failed { route, end }
                },
                ..self
            },
            _ => self,
        }
    }

    /// The controller after the flag was read. Unless the flag was due the
    /// report changes nothing.
    pub open spec fn after_flag(self, running: bool) -> Lifecycle {
        match self.phase {
            Phase::Watching => Lifecycle {
                phase: if running {
                    Phase::Resting
                } else {
                    Phase::Stopped
                },
                ..self
            },
            _ => self,
        }
    }

    /// The controller after a sleep. Unless a sleep was due the report
    /// changes nothing.
    pub open spec fn after_sleep(self) -> Lifecycle {
        match self.phase {
            Phase::Resting => Lifecycle { phase: Phase::Watching, ..self },
            _ => self,
        }
    }

    /// The controller after `count` streams in a row were reported started.
    pub open spec fn after_starts(self, count: nat) -> Lifecycle
        decreases count,
    {
        if count == 0 {
            self
        } else {
            self.after_starts((count - 1) as nat).after_start(true)
        }
    }

    /// A controller for a run of `routes` routes of which nothing is built
    /// yet.
    pub fn new(routes: usize, sleep_ms: u64) -> (controller: Lifecycle)
        ensures
            controller == (Lifecycle { routes, sleep_ms, phase: first_phase(routes) }),
    {
        let phase = if routes == 0 {
            Phase::Watching
        } else {
            Phase::Building { route: 0 }
        };
        Lifecycle { routes, sleep_ms, phase }
    }

    /// Reports whether the streams that were due could be built.
    pub fn streams_built(&mut self, built: bool)
        ensures
            *final(self) == old(self).after_build(built),
    {
        match self.phase {
            Phase::Building { route } => {
                if !built {
                    self.phase = Phase::Unbuilt { route };
                } else if route < usize::MAX && route + 1 < self.routes {
                    self.phase = Phase::Building { route: route + 1 };
                } else {
                    self.phase = Phase::Starting { route: 0, end: RouteEnd::Source };
                }
            },
            _ => {},
        }
    }

    /// The action that is due.
    pub fn next_action(&self) -> (action: RunAction)
        ensures
            action == self.due(),
    {
        match self.phase {
            Phase::Building { route } => RunAction::BuildStreams { route },
            Phase::Starting { route, end } => RunAction::StartStream { route, end },
            Phase::Watching => RunAction::ReadFlag,
            Phase::Resting => RunAction::Sleep { millis: self.sleep_ms },
            Phase::Stopped => RunAction::Finish,
            Phase::Unbuilt { .. } => RunAction::Finish,
            Phase::Failed { .. } => RunAction::Finish,
        }
    }

    /// Reports whether the stream that was due has started.
    pub fn stream_started(&mut self, started: bool)
        ensures
            *final(self) == old(self).after_start(started),
    {
        match self.phase {
            Phase::Starting { route, end } => {
                if !started {
                    self.phase = Phase::Failed { route, end };
                } else {
                    match end {
                        RouteEnd::Source => {
                            self.phase = Phase::Starting { route, end: RouteEnd::Destination };
                        },
                        RouteEnd::Destination => {
                            if route < usize::MAX && route + 1 < self.routes {
                                self.phase = Phase::Starting {
                                    route: route + 1,
                                    end: RouteEnd::Source,
                                };
                            } else {
                                self.phase = Phase::Watching;
                            }
                        },
                    }
                }
            },
            _ => {},
        }
    }

    /// Reports what the cancellation flag said: `running` if the run is to
    /// go on.
    pub fn flag_read(&mut self, running: bool)
        ensures
            *final(self) == old(self).after_flag(running),
    {
        match self.phase {
            Phase::Watching => {
                if running {
                    self.phase = Phase::Resting;
                } else {
                    self.phase = Phase::Stopped;
                }
            },
            _ => {},
        }
    }

    /// Reports that the sleep that was due is over.
    pub fn slept(&mut self)
        ensures
            *final(self) == old(self).after_sleep(),
    {
        match self.phase {
            Phase::Resting => {
                self.phase = Phase::Watching;
            },
            _ => {},
        }
    }

    /// How the run ended, or `None` while it is not over: stopped on
    /// request, or failed at the streams that could not be built or at the
    /// stream that did not start.
    pub fn result(&self) -> (ended: Option<Result<(), RouterError>>)
        ensures
            match self.phase {
                Phase::Stopped => ended == Some(Ok::<(), RouterError>(())),
                Phase::Unbuilt { route } => ended == Some(
                    Err::<(), RouterError>(RouterError::StreamConstruction { route_index: route }),
                ),
                Phase::Failed { route, end } => ended == Some(
                    Err::<(), RouterError>(RouterError::StreamStart { route_index: route, end }),
                ),
                _ => ended is None,
            },
    {
        match self.phase {
            Phase::Stopped => Some(Ok(())),
            Phase::Unbuilt { route } => Some(
                Err(RouterError::StreamConstruction { route_index: route }),
            ),
            Phase::Failed { route, end } => Some(
                Err(RouterError::StreamStart { route_index: route, end }),
            ),
            _ => None,
        }
    }
}

/// A run that is over stays as it is, whatever is reported to it.
pub proof fn lemma_final_phase_is_kept(
    controller: Lifecycle,
    built: bool,
    started: bool,
    running: bool,
)
    requires
        controller.phase.is_final(),
    ensures
        controller.after_build(built) == controller,
        controller.after_start(started) == controller,
        controller.after_flag(running) == controller,
        controller.after_sleep() == controller,
        controller.due() == RunAction::Finish,
{
}

/// The streams of every route are built before any stream is started, in
/// route order: after `count` routes of a new run were built, the streams of
/// route `count` are due, and only when all routes are built is the first
/// stream to start.
pub proof fn lemma_build_order(routes: usize, sleep_ms: u64, count: nat)
    requires
        count <= routes,
        routes > 0,
    ensures
        ({
            let reached = (Lifecycle {
                routes,
                sleep_ms,
                phase: first_phase(routes),
            }).after_builds(count);
            &&& reached.routes == routes
            &&& reached.sleep_ms == sleep_ms
            &&& count < routes ==> reached.phase == (Phase::Building { route: count as usize })
            &&& count == routes ==> reached.phase == (Phase::Starting {
                route: 0,
                end: RouteEnd::Source,
            })
        }),
    decreases count,
{
    if count > 0 {
        lemma_build_order(routes, sleep_ms, (count - 1) as nat);
    }
}

/// The streams are started in route order, the capture stream of a route
/// before its playback stream: after `count` successful starts the stream
/// of route `count / 2` is due, at the source if `count` is even and at the
/// destination if it is odd. No flag is read before every stream has
/// started: only after two starts for every route is the run streaming.
pub proof fn lemma_start_order(routes: usize, sleep_ms: u64, count: nat)
    requires
        count <= 2 * routes,
        routes > 0,
    ensures
        ({
            let reached = (Lifecycle {
                routes,
                sleep_ms,
                phase: Phase::Starting { route: 0, end: RouteEnd::Source },
            }).after_starts(count);
            &&& reached.routes == routes
            &&& reached.sleep_ms == sleep_ms
            &&& count < 2 * routes ==> reached.phase == (Phase::Starting {
                route: (count / 2) as usize,
                end: if count % 2 == 0 {
                    RouteEnd::Source
                } else {
                    RouteEnd::Destination
                },
            })
            &&& count == 2 * routes ==> reached.phase == Phase::Watching
        }),
    decreases count,
{
    if count > 0 {
        lemma_start_order(routes, sleep_ms, (count - 1) as nat);
    }
}

/// Streams that cannot be built, or a stream that does not start, end the
/// run there, and the run never comes to stream.
pub proof fn lemma_failure_ends_run(controller: Lifecycle)
    ensures
        controller.phase matches Phase::Building { route } ==> controller.after_build(
            false,
        ).phase == (Phase::Unbuilt { route }),
        controller.phase matches Phase::Starting { route, end } ==> controller.after_start(
            false,
        ).phase == (Phase::Failed { route, end }),
        (Phase::Unbuilt { route: 0 }).is_final(),
        (Phase::Failed { route: 0, end: RouteEnd::Source }).is_final(),
        controller.phase.is_final() ==> !controller.phase.is_streaming(),
{
}

/// While the run is streaming, only the flag ends it: a flag that says to
/// go on leads to one sleep and back to the flag, and a flag that says to
/// stop leads to the end.
pub proof fn lemma_watch_cycle(controller: Lifecycle)
    requires
        controller.phase is Watching,
    ensures
        controller.after_flag(true).due() == (RunAction::Sleep { millis: controller.sleep_ms }),
        controller.after_flag(true).after_sleep() == controller,
        controller.after_flag(false).phase is Stopped,
{
}

} // verus!
