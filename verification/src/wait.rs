//! Resolving the configured devices over time.
//!
//! Looking for devices alternates between asking the audio subsystem what is
//! there and deciding what to do about it. The decisions are made here, by a
//! search that is told what was seen and how much time has passed and that
//! says what to do next: enumerate the devices, sleep, or stop and conclude.
//!
//! Without a wait policy the devices are enumerated once and every alias
//! must be bound from that snapshot. With one, rounds are made until every
//! alias is bound or the time is up; what was bound in one round stays bound
//! and is not looked for again.

use vstd::prelude::*;
use crate::config::{Config, DeviceEntry, DeviceWaitConfig};
use crate::devices::{
    AudioDevices, BindingView, DeviceBinding, DeviceInfo, binding_views, immediate_outcome,
    resolution,
};
use crate::error::{ErrorView, RouterError, same_outcome, texts_of};

verus! {

/// What the caller of a search is to do next.
#[derive(Clone, Copy, Debug, PartialEq, Eq, Structural)]
pub enum SearchAction {
    /// Enumerate the devices and hand the snapshot to `observe`.
    Probe,
    /// Sleep for this many seconds.
    Sleep { seconds: u64 },
    /// Stop; `conclude` tells how the search ended.
    Finish,
}

/// The state of a search for the configured devices.
#[derive(Debug)]
pub struct DeviceSearch {
    /// The wait policy the search runs under.
    pub wait: DeviceWaitConfig,
    /// The entries that are not bound yet, in table order.
    pub pending: Vec<DeviceEntry>,
    /// The bindings made so far, in the order in which they were made.
    pub found: Vec<DeviceBinding>,
    /// Without a wait policy: why the one snapshot did not suffice.
    pub failure: Option<RouterError>,
    /// Whether a snapshot was observed since the search last slept.
    pub probed: bool,
}

/// The entries that a snapshot does not bind, in order.
pub open spec fn still_missing(pending: Seq<DeviceEntry>, snapshot: Seq<DeviceInfo>) -> Seq<
    DeviceEntry,
>
    decreases pending.len(),
{
    if pending.len() == 0 {
        Seq::<DeviceEntry>::empty()
    } else if resolution(pending.last(), snapshot) is Ok {
        still_missing(pending.drop_last(), snapshot)
    } else {
        still_missing(pending.drop_last(), snapshot).push(pending.last())
    }
}

/// The bindings that a snapshot yields for the entries it binds, in order.
pub open spec fn newly_bound(pending: Seq<DeviceEntry>, snapshot: Seq<DeviceInfo>) -> Seq<
    BindingView,
>
    decreases pending.len(),
{
    if pending.len() == 0 {
        Seq::<BindingView>::empty()
    } else {
        match resolution(pending.last(), snapshot) {
            Ok(binding) => newly_bound(pending.drop_last(), snapshot).push(binding),
            Err(_) => newly_bound(pending.drop_last(), snapshot),
        }
    }
}

/// The aliases of a list of entries, in order.
pub open spec fn aliases_of(entries: Seq<DeviceEntry>) -> Seq<Seq<char>> {
    entries.map_values(|entry: DeviceEntry| entry.alias@)
}

/// A round leaves every entry either bound or missing: the two lists
/// together are as long as the list of entries that were pending.
pub proof fn lemma_round_partitions(pending: Seq<DeviceEntry>, snapshot: Seq<DeviceInfo>)
    ensures
        still_missing(pending, snapshot).len() + newly_bound(pending, snapshot).len()
            == pending.len(),
        still_missing(pending, snapshot).len() == 0 <==> forall|k: int|
            0 <= k < pending.len() ==> (#[trigger] resolution(pending[k], snapshot)) is Ok,
        forall|k: int|
            0 <= k < still_missing(pending, snapshot).len() ==> (resolution(
                #[trigger] still_missing(pending, snapshot)[k],
                snapshot,
            )) is Err,
    decreases pending.len(),
{
    if pending.len() > 0 {
        let front = pending.drop_last();
        lemma_round_partitions(front, snapshot);
        assert(forall|k: int| 0 <= k < front.len() ==> front[k] == pending[k]);
        if still_missing(pending, snapshot).len() == 0 {
            assert(resolution(pending.last(), snapshot) is Ok);
        }
    }
}

impl DeviceSearch {
    /// What is to be done next when `elapsed_secs` whole seconds have
    /// passed since the search began.
    ///
    /// * With nothing pending, or after a failure, the search is over.
    /// * Without a wait policy there is one probe, and then the search is over.
    /// * With one, a probe that left entries pending is followed by a
    ///   sleep of the retry interval; after the sleep comes the next probe
    ///   if the time is not up, and else the search is over.
    pub open spec fn planned(&self, elapsed_secs: u64) -> SearchAction {
        if self.pending@.len() == 0 || self.failure is Some {
            SearchAction::Finish
        } else if !self.wait.enabled {
            if self.probed {
                SearchAction::Finish
            } else {
                SearchAction::Probe
            }
        } else if self.probed {
            SearchAction::Sleep { seconds: self.wait.retry_interval }
        } else if elapsed_secs < self.wait.max_wait_time {
            SearchAction::Probe
        } else {
            SearchAction::Finish
        }
    }

    /// How the search ends in its present state.
    ///
    /// * A failure recorded without a wait policy is the result.
    /// * With nothing pending, the result is what was found.
    /// * With entries pending under a wait policy that allows a partial
    ///   set, the result is what was found, provided anything was.
    /// * With entries pending under a wait policy otherwise, the result is
    ///   a timeout that lists the pending aliases.
    /// * With entries pending and no wait policy, no snapshot was observed,
    ///   and the first pending alias is reported as not found.
    pub open spec fn conclusion(&self) -> Result<Seq<BindingView>, ErrorView> {
        if let Some(error) = self.failure {
            Err(error@)
        } else if self.pending@.len() == 0 {
            Ok(binding_views(self.found@))
        } else if self.wait.enabled {
            if self.wait.allow_partial && self.found@.len() > 0 {
                Ok(binding_views(self.found@))
            } else {
                Err(
                    ErrorView::DeviceWaitTimeout {
                        missing: aliases_of(self.pending@),
                        waited_secs: self.wait.max_wait_time,
                    },
                )
            }
        } else {
            Err(ErrorView::DeviceNotFound { alias: self.pending@[0].alias@ })
        }
    }

    /// Says what to do next, given the whole seconds that have passed since
    /// the search began. Being told to sleep uses up the last probe: after
    /// it the time is looked at again.
    pub fn next_action(&mut self, elapsed_secs: u64) -> (action: SearchAction)
        ensures
            action == old(self).planned(elapsed_secs),
            final(self).probed == (old(self).probed && !(action is Sleep)),
            final(self).wait == old(self).wait,
            final(self).pending == old(self).pending,
            final(self).found == old(self).found,
            final(self).failure == old(self).failure,
    {
        if self.pending.len() == 0 || self.failure.is_some() {
            SearchAction::Finish
        } else if !self.wait.enabled {
            if self.probed {
                SearchAction::Finish
            } else {
                SearchAction::Probe
            }
        } else if self.probed {
            self.probed = false;
            SearchAction::Sleep { seconds: self.wait.retry_interval }
        } else if elapsed_secs < self.wait.max_wait_time {
            SearchAction::Probe
        } else {
            SearchAction::Finish
        }
    }

    /// Takes in one snapshot of the devices.
    ///
    /// Under a wait policy, every pending entry that the snapshot binds
    /// moves to the bindings and the others stay pending. Without one,
    /// either the snapshot binds every pending entry, or the failure of the
    /// first one it does not bind is recorded and nothing else changes.
    pub fn observe(&mut self, snapshot: &Vec<DeviceInfo>)
        ensures
            final(self).wait == old(self).wait,
            final(self).probed,
            old(self).wait.enabled ==> {
                &&& final(self).pending@ == still_missing(old(self).pending@, snapshot@)
                &&& binding_views(final(self).found@) == binding_views(old(self).found@)
                    + newly_bound(old(self).pending@, snapshot@)
                &&& final(self).failure == old(self).failure
            },
            !old(self).wait.enabled ==> match immediate_outcome(old(self).pending@, snapshot@) {
                Ok(bound) => {
                    &&& final(self).pending@.len() == 0
                    &&& binding_views(final(self).found@) == binding_views(old(self).found@)
                        + bound
                    &&& final(self).failure == old(self).failure
                },
                Err(error) => {
                    &&& final(self).pending == old(self).pending
                    &&& final(self).found == old(self).found
                    &&& final(self).failure matches Some(recorded) && recorded@ == error
                },
            },
    {
        self.probed = true;
        if self.wait.enabled {
            let mut missing: Vec<DeviceEntry> = Vec::new();
            let mut at: usize = 0;
            let ghost found_before = self.found@;
            proof {
                assert(binding_views(found_before) + Seq::<BindingView>::empty()
                    =~= binding_views(found_before));
            }
            while at < self.pending.len()
                invariant
                    at <= self.pending.len(),
                    self.pending == old(self).pending,
                    self.wait == old(self).wait,
                    self.failure == old(self).failure,
                    self.probed,
                    found_before == old(self).found@,
                    missing@ == still_missing(self.pending@.take(at as int), snapshot@),
                    binding_views(self.found@) == binding_views(found_before) + newly_bound(
                        self.pending@.take(at as int),
                        snapshot@,
                    ),
                decreases self.pending.len() - at,
            {
                proof {
                    assert(self.pending@.take(at + 1).drop_last() =~= self.pending@.take(
                        at as int,
                    ));
                }
                match AudioDevices::resolve(&self.pending[at], snapshot) {
                    Ok(binding) => {
                        proof {
                            assert(binding_views(self.found@.push(binding)) =~= binding_views(
                                self.found@,
                            ).push(binding@));
                            assert((binding_views(found_before) + newly_bound(
                                self.pending@.take(at as int),
                                snapshot@,
                            )).push(binding@) =~= binding_views(found_before) + newly_bound(
                                self.pending@.take(at as int),
                                snapshot@,
                            ).push(binding@));
                        }
                        self.found.push(binding);
                    },
                    Err(_) => {
                        let copy = self.pending[at].duplicate();
                        missing.push(copy);
                    },
                }
                at += 1;
            }
            proof {
                assert(self.pending@.take(at as int) =~= self.pending@);
            }
            self.pending = missing;
        } else {
            match AudioDevices::resolve_all(&self.pending, snapshot) {
                Ok(mut bindings) => {
                    proof {
                        assert(binding_views(self.found@ + bindings@) =~= binding_views(
                            self.found@,
                        ) + binding_views(bindings@));
                    }
                    self.found.append(&mut bindings);
                    self.pending = Vec::new();
                },
                Err(error) => {
                    self.failure = Some(error);
                },
            }
        }
    }

    /// Ends the search and tells what it came to.
    pub fn conclude(self) -> (found: Result<AudioDevices, RouterError>)
        ensures
            same_outcome(found, self.conclusion()),
    {
        let DeviceSearch { wait, pending, found, failure, probed: _ } = self;
        match failure {
            Some(error) => Err(error),
            None => {
                if pending.len() == 0 {
                    Ok(AudioDevices::from_bindings(found))
                } else if wait.enabled {
                    if wait.allow_partial && found.len() > 0 {
                        Ok(AudioDevices::from_bindings(found))
                    } else {
                        let mut missing: Vec<String> = Vec::new();
                        let mut at: usize = 0;
                        while at < pending.len()
                            invariant
                                at <= pending.len(),
                                texts_of(missing@) == aliases_of(pending@.take(at as int)),
                            decreases pending.len() - at,
                        {
                            let alias = pending[at].alias.clone();
                            proof {
                                assert(texts_of(missing@.push(alias)) =~= texts_of(
                                    missing@,
                                ).push(alias@));
                                assert(aliases_of(pending@.take(at + 1)) =~= aliases_of(
                                    pending@.take(at as int),
                                ).push(pending@[at as int].alias@));
                            }
                            missing.push(alias);
                            at += 1;
                        }
                        proof {
                            assert(pending@.take(at as int) =~= pending@);
                        }
                        Err(
                            RouterError::DeviceWaitTimeout {
                                missing,
                                waited_secs: wait.max_wait_time,
                            },
                        )
                    }
                } else {
                    Err(RouterError::DeviceNotFound { alias: pending[0].alias.clone() })
                }
            },
        }
    }
}

impl AudioDevices {
    /// Begins the resolution of every device of the configuration, under
    /// the configuration's wait policy: every entry of the device table is
    /// pending, nothing is found and no snapshot was observed.
    pub fn find_all(config: &Config) -> (search: DeviceSearch)
        ensures
            search.wait == config.device_wait,
            search.pending@ == config.devices@,
            search.found@.len() == 0,
            search.failure is None,
            !search.probed,
    {
        let mut pending: Vec<DeviceEntry> = Vec::new();
        let mut at: usize = 0;
        while at < config.devices.len()
            invariant
                at <= config.devices.len(),
                pending@ == config.devices@.take(at as int),
            decreases config.devices.len() - at,
        {
            let copy = config.devices[at].duplicate();
            proof {
                assert(config.devices@.take(at as int).push(copy) =~= config.devices@.take(
                    at + 1,
                ));
            }
            pending.push(copy);
            at += 1;
        }
        proof {
            assert(config.devices@.take(at as int) =~= config.devices@);
        }
        DeviceSearch {
            wait: config.device_wait,
            pending,
            found: Vec::new(),
            failure: None,
            probed: false,
        }
    }
}

} // verus!
