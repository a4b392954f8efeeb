//! The warm pool: a bounded set of instances, handed out one caller at a
//! time, with quarantine of suspect instances and replenishment.

use crate::clock::Timestamp;
use crate::ident::{fresh_id, is_random_uuid};
use crate::idqueue::IdQueue;
use crate::instance::VmInstance;
use crate::proxy::{
    agent_body_text, agent_url_text, AgentCall, AgentEvent, ReleaseOutcome,
    EXECUTION_TIMEOUT_SECS,
};
use crate::types::{Function, HyperdriveError, VmInfo, VmState};
use crate::vm::{
    is_fresh_instance, lemma_follows_transitive, work_dir_text, BootPlan, ProbeStep, VmManager,
};
use vstd::prelude::*;
use vstd::string::*;

verus! {

/// The right to use one instance. Only `VmPool` makes handles, one for each
/// instance it hands out, and takes them back on release.
#[derive(Debug)]
pub struct PoolHandle {
    id: u128,
}

impl PoolHandle {
    /// The identifier of the instance held.
    pub closed spec fn id(&self) -> u128 {
        self.id
    }

    /// The identifier of the instance held.
    pub fn instance_id(&self) -> (id: u128)
        ensures
            id == self.id(),
    {
        self.id
    }
}

/// One pending request for an instance.
#[derive(Clone, Copy, Debug)]
pub struct Waiter {
    /// The number under which the request polls.
    pub ticket: u64,
    /// When the request was made.
    pub since: Timestamp,
    /// How long the request is willing to wait, in milliseconds.
    pub timeout_ms: u64,
}

/// Where a request for an instance stands.
#[derive(Debug)]
pub enum AcquireStep {
    /// The instance is the caller's until released.
    Acquired(PoolHandle),
    /// Nothing is available yet: poll again under `ticket`. If `boot` holds
    /// a plan, an instance was registered for the waiting demand and has to
    /// be booted.
    Waiting { ticket: u64, boot: Option<BootPlan> },
}

/// What a release set in motion.
#[derive(Debug)]
pub struct ReleaseReport {
    /// The instance that was quarantined and has to be terminated.
    pub destroyed: Option<VmInstance>,
    /// The instance that was registered in replacement and has to be booted.
    pub boot: Option<BootPlan>,
}

/// A snapshot of the pool's occupancy.
#[derive(Clone, Copy, Debug, PartialEq, Eq, Structural)]
pub struct PoolStats {
    pub total: usize,
    pub ready: usize,
    pub busy: usize,
    pub starting: usize,
    pub waiting: usize,
    pub max_size: usize,
    pub min_ready: usize,
}

/// `queue` without `id`, the others in their order.
pub open spec fn without(queue: Seq<u128>, id: u128) -> Seq<u128> {
    if queue.contains(id) {
        queue.remove(queue.index_of(id))
    } else {
        queue
    }
}

/// Some pending request polls under `ticket`.
pub open spec fn holds_ticket(waiters: Seq<Waiter>, ticket: u64) -> bool {
    exists|k: int| 0 <= k < waiters.len() && (#[trigger] waiters[k]).ticket == ticket
}

/// The position of the request that polls under `ticket`.
pub open spec fn slot_of_ticket(waiters: Seq<Waiter>, ticket: u64) -> int {
    choose|k: int| 0 <= k < waiters.len() && (#[trigger] waiters[k]).ticket == ticket
}

/// Requests stand in arrival order: tickets grow along the queue and lie
/// below the next ticket to be issued.
pub open spec fn tickets_ordered(waiters: Seq<Waiter>, next: u64) -> bool {
    &&& forall|i: int, j: int|
        0 <= i < j < waiters.len() ==> (#[trigger] waiters[i]).ticket < (
        #[trigger] waiters[j]).ticket
    &&& forall|i: int| 0 <= i < waiters.len() ==> (#[trigger] waiters[i]).ticket < next
}

/// The warm pool.
///
/// The pool owns the registry of its instances and keeps three indexes over
/// it: the instances that are starting, those that are available (oldest
/// first), and those that are checked out. Requests that cannot be served at
/// once queue in arrival order.
pub struct VmPool {
    manager: VmManager,
    starting: IdQueue,
    available: IdQueue,
    checked_out: IdQueue,
    waiters: Vec<Waiter>,
    next_ticket: u64,
    max_size: usize,
    min_ready: usize,
}

impl VmPool {
    /// The registry of the pool's instances.
    pub closed spec fn manager(&self) -> VmManager {
        self.manager
    }

    /// The instances that are booting, oldest first.
    pub closed spec fn starting(&self) -> Seq<u128> {
        self.starting@
    }

    /// The instances that can be handed out, in the order in which they
    /// will be.
    pub closed spec fn available(&self) -> Seq<u128> {
        self.available@
    }

    /// The instances that callers hold: one for each handle that was issued
    /// and not yet released.
    pub closed spec fn outstanding(&self) -> Seq<u128> {
        self.checked_out@
    }

    /// The pending requests, in arrival order.
    pub closed spec fn waiters(&self) -> Seq<Waiter> {
        self.waiters@
    }

    /// The ticket that the next request will get.
    pub closed spec fn next_ticket(&self) -> u64 {
        self.next_ticket
    }

    /// The most instances the pool may hold.
    pub closed spec fn max_size(&self) -> usize {
        self.max_size
    }

    /// The number of instances kept warm beyond the pending demand.
    pub closed spec fn min_ready(&self) -> usize {
        self.min_ready
    }

    /// `queue` holds exactly the live instances that are in `state`.
    pub open spec fn indexes(&self, queue: Seq<u128>, state: VmState) -> bool {
        forall|id: u128|
            #![trigger queue.contains(id)]
            #![trigger self.manager()@.contains_key(id)]
            queue.contains(id) <==> (self.manager()@.contains_key(id) && self.manager()@[id].state
                == state)
    }

    /// The pool's invariant: the registry is well-formed and within the
    /// pool's bound, each index holds exactly the instances of its state,
    /// each once, and requests stand in arrival order.
    pub open spec fn wf(&self) -> bool {
        &&& self.manager().wf()
        &&& self.starting().no_duplicates()
        &&& self.available().no_duplicates()
        &&& self.outstanding().no_duplicates()
        &&& self.indexes(self.starting(), VmState::Starting)
        &&& self.indexes(self.available(), VmState::Ready)
        &&& self.indexes(self.outstanding(), VmState::Busy)
        &&& self.manager().len() <= self.max_size()
        &&& self.min_ready() <= self.max_size()
        &&& tickets_ordered(self.waiters(), self.next_ticket())
    }

    /// The two pools have the same bounds.
    pub open spec fn same_limits(self, other: VmPool) -> bool {
        self.max_size() == other.max_size() && self.min_ready() == other.min_ready()
    }

    /// The two pools index the same instances in the same order.
    pub open spec fn same_queues(self, other: VmPool) -> bool {
        &&& self.starting() == other.starting()
        &&& self.available() == other.available()
        &&& self.outstanding() == other.outstanding()
    }

    /// The two pools are in the same state.
    pub open spec fn same_as(self, other: VmPool) -> bool {
        &&& self.manager().same_as(other.manager())
        &&& self.same_queues(other)
        &&& self.waiters() == other.waiters()
        &&& self.next_ticket() == other.next_ticket()
        &&& self.same_limits(other)
    }

    /// `self` is a later state of the pool `earlier`: a well-formed pool
    /// with the same bounds and settings, whose registry is a later state of
    /// the earlier registry and whose tickets have not gone back.
    pub open spec fn evolves_from(self, earlier: VmPool) -> bool {
        &&& self.wf()
        &&& self.same_limits(earlier)
        &&& self.manager().same_settings(earlier.manager())
        &&& self.manager().follows(earlier.manager())
        &&& self.next_ticket() >= earlier.next_ticket()
    }

    /// No identifier is live or retired under `id`: it can be registered.
    pub open spec fn can_register(&self, id: u128) -> bool {
        !self.manager()@.contains_key(id) && !self.manager().retired().contains(id)
    }

    /// The pool wants one more instance: it has room, and what is available
    /// or booting does not cover the warm target and the pending requests.
    pub open spec fn needs_boot(&self) -> bool {
        &&& self.manager().len() < self.max_size()
        &&& self.available().len() + self.starting().len() < self.min_ready()
            + self.waiters().len()
    }

    /// What replenishment with the candidate identifier does: where the pool
    /// wants an instance and the identifier is free, a starting instance is
    /// registered under it and its boot plan returned; otherwise nothing
    /// changes.
    pub open spec fn boots(
        self,
        after: VmPool,
        candidate: u128,
        now: Timestamp,
        plan: Option<BootPlan>,
    ) -> bool {
        if self.needs_boot() && self.can_register(candidate) {
            &&& plan matches Some(p)
            &&& p.id == candidate
            &&& p.work_dir@ == work_dir_text(self.manager().work_root(), candidate)
            &&& p.config == self.manager().config()
            &&& after.manager()@.contains_key(candidate)
            &&& is_fresh_instance(
                after.manager()@[candidate],
                candidate,
                self.manager().work_root(),
                now,
            )
            &&& after.manager()@ == self.manager()@.insert(candidate, after.manager()@[candidate])
            &&& after.manager().entries() == self.manager().entries().push(
                after.manager()@[candidate],
            )
            &&& after.manager().len() == self.manager().len() + 1
            &&& after.manager().retired() == self.manager().retired()
            &&& after.starting() == self.starting().push(candidate)
            &&& after.available() == self.available()
            &&& after.outstanding() == self.outstanding()
            &&& after.waiters() == self.waiters()
            &&& after.next_ticket() == self.next_ticket()
        } else {
            plan is None && after.same_as(self)
        }
    }

    /// What handing back the instance `id` does, before any replenishment.
    /// A healthy instance is ready again and queues behind the available
    /// ones. A suspect instance is destroyed: it leaves the registry for
    /// good and is handed out for termination.
    pub open spec fn hands_back(
        self,
        after: VmPool,
        id: u128,
        outcome: ReleaseOutcome,
        destroyed: Option<VmInstance>,
    ) -> bool {
        &&& after.starting() == self.starting()
        &&& after.outstanding() == without(self.outstanding(), id)
        &&& after.waiters() == self.waiters()
        &&& after.next_ticket() == self.next_ticket()
        &&& match outcome {
            ReleaseOutcome::Healthy => {
                &&& destroyed is None
                &&& after.manager()@ == self.manager()@.insert(
                    id,
                    VmInstance { state: VmState::Ready, ..self.manager()@[id] },
                )
                &&& after.manager().entries() == self.manager().entries().update(
                    self.manager().rank(id),
                    after.manager()@[id],
                )
                &&& after.manager().len() == self.manager().len()
                &&& after.manager().retired() == self.manager().retired()
                &&& after.available() == self.available().push(id)
            },
            ReleaseOutcome::Suspect => {
                &&& destroyed == Some(
                    VmInstance { state: VmState::Stopping, ..self.manager()@[id] },
                )
                &&& after.manager()@ == self.manager()@.remove(id)
                &&& after.manager().entries() == self.manager().entries().remove(
                    self.manager().rank(id),
                )
                &&& after.manager().len() == self.manager().len() - 1
                &&& after.manager().retired() == self.manager().retired().insert(id)
                &&& after.available() == self.available()
            },
        }
    }

    /// What a release does: a handle that is not outstanding is refused and
    /// nothing changes; otherwise the instance is handed back (`hands_back`)
    /// and the pool replenished (`boots`).
    pub open spec fn release_outcome(
        self,
        after: VmPool,
        id: u128,
        outcome: ReleaseOutcome,
        now: Timestamp,
        candidate: u128,
        result: Result<ReleaseReport, HyperdriveError>,
    ) -> bool {
        if !self.outstanding().contains(id) {
            &&& result matches Err(e)
            &&& e.is_not_ready("instance is not checked out"@)
            &&& after.same_as(self)
        } else {
            &&& result matches Ok(report)
            &&& exists|mid: VmPool|
                {
                    &&& #[trigger] mid.evolves_from(self)
                    &&& self.hands_back(mid, id, outcome, report.destroyed)
                    &&& mid.boots(after, candidate, now, report.boot)
                }
        }
    }

    /// What a poll under `ticket` at `now` does. A ticket that is not
    /// queued is refused. A request with fewer requests before it than
    /// instances are available is served the oldest available instance. One
    /// that cannot be served and has waited out its timeout leaves the queue
    /// with `PoolExhausted`. Any other keeps waiting, and the pool is
    /// replenished.
    pub open spec fn poll_outcome(
        self,
        after: VmPool,
        ticket: u64,
        now: Timestamp,
        candidate: u128,
        result: Result<AcquireStep, HyperdriveError>,
    ) -> bool {
        if !holds_ticket(self.waiters(), ticket) {
            &&& result matches Err(HyperdriveError::PoolExhausted)
            &&& after.same_as(self)
        } else {
            let k = slot_of_ticket(self.waiters(), ticket);
            let waiter = self.waiters()[k];
            if k < self.available().len() {
                let id = self.available()[0];
                &&& result matches Ok(AcquireStep::Acquired(handle))
                &&& handle.id() == id
                &&& after.available() == self.available().remove(0)
                &&& after.outstanding() == self.outstanding().push(id)
                &&& after.starting() == self.starting()
                &&& after.waiters() == self.waiters().remove(k)
                &&& after.next_ticket() == self.next_ticket()
                &&& after.manager()@ == self.manager()@.insert(
                    id,
                    VmInstance { state: VmState::Busy, last_used: now, ..self.manager()@[id] },
                )
                &&& after.manager().entries() == self.manager().entries().update(
                    self.manager().rank(id),
                    after.manager()@[id],
                )
                &&& after.manager().len() == self.manager().len()
                &&& after.manager().retired() == self.manager().retired()
            } else if now.millis_since(waiter.since) >= waiter.timeout_ms {
                &&& result matches Err(HyperdriveError::PoolExhausted)
                &&& after.waiters() == self.waiters().remove(k)
                &&& after.next_ticket() == self.next_ticket()
                &&& after.manager().same_as(self.manager())
                &&& after.same_queues(self)
            } else {
                &&& result matches Ok(AcquireStep::Waiting { ticket: t, boot })
                &&& t == ticket
                &&& self.boots(after, candidate, now, boot)
            }
        }
    }

    /// What queueing a request at `now` does: it gets the next ticket and
    /// stands behind every pending request.
    pub open spec fn enqueues(self, after: VmPool, now: Timestamp, timeout_ms: u64) -> bool {
        &&& self.next_ticket() < u64::MAX
        &&& after.waiters() == self.waiters().push(
            Waiter { ticket: self.next_ticket(), since: now, timeout_ms },
        )
        &&& after.next_ticket() == self.next_ticket() + 1
        &&& after.manager().same_as(self.manager())
        &&& after.same_queues(self)
    }

    /// What a request for an instance at `now` does: it is queued
    /// (`enqueues`) and polled at once (`poll_outcome`). Once every ticket
    /// has been issued, requests are refused.
    pub open spec fn acquire_outcome(
        self,
        after: VmPool,
        now: Timestamp,
        timeout_ms: u64,
        candidate: u128,
        result: Result<AcquireStep, HyperdriveError>,
    ) -> bool {
        if self.next_ticket() == u64::MAX {
            &&& result matches Err(HyperdriveError::PoolExhausted)
            &&& after.same_as(self)
        } else {
            exists|mid: VmPool|
                {
                    &&& #[trigger] mid.evolves_from(self)
                    &&& self.enqueues(mid, now, timeout_ms)
                    &&& mid.poll_outcome(after, self.next_ticket(), now, candidate, result)
                }
        }
    }

    /// What a readiness report for the instance `id` does. The registry
    /// judges the probe; an instance that became ready leaves the booting
    /// ones and queues behind the available ones, one that failed leaves
    /// the booting ones and stays in the registry until it is destroyed.
    pub open spec fn probe_outcome(
        self,
        after: VmPool,
        id: u128,
        address: Option<(String, u16)>,
        now: Timestamp,
        result: Result<ProbeStep, HyperdriveError>,
    ) -> bool {
        match result {
            Ok(step) => {
                &&& self.manager()@.contains_key(id)
                &&& self.manager()@[id].state == VmState::Starting
                &&& after.outstanding() == self.outstanding()
                &&& after.waiters() == self.waiters()
                &&& after.next_ticket() == self.next_ticket()
                &&& after.manager().len() == self.manager().len()
                &&& after.manager().retired() == self.manager().retired()
                &&& match address {
                    Some(at) => {
                        &&& step == ProbeStep::Ready
                        &&& after.manager()@ == self.manager()@.insert(
                            id,
                            VmInstance {
                                state: VmState::Ready,
                                ip_address: Some(at.0),
                                port: Some(at.1),
                                ..self.manager()@[id]
                            },
                        )
                        &&& after.manager().entries() == self.manager().entries().update(
                            self.manager().rank(id),
                            after.manager()@[id],
                        )
                        &&& after.starting() == without(self.starting(), id)
                        &&& after.available() == self.available().push(id)
                    },
                    None => if now.millis_since(self.manager()@[id].created_at)
                        >= self.manager().policy().boot_timeout_ms {
                        &&& step == ProbeStep::Failed
                        &&& after.manager()@ == self.manager()@.insert(
                            id,
                            VmInstance { state: VmState::Failed, ..self.manager()@[id] },
                        )
                        &&& after.manager().entries() == self.manager().entries().update(
                            self.manager().rank(id),
                            after.manager()@[id],
                        )
                        &&& after.starting() == without(self.starting(), id)
                        &&& after.available() == self.available()
                    } else {
                        &&& step == (ProbeStep::Retry {
                            after_ms: self.manager().policy().poll_interval_ms,
                        })
                        &&& after.same_as(self)
                    },
                }
            },
            Err(e) => {
                &&& after.same_as(self)
                &&& if !self.manager()@.contains_key(id) {
                    e.is_not_ready("unknown instance"@)
                } else {
                    &&& self.manager()@[id].state != VmState::Starting
                    &&& e.is_not_ready("illegal state transition"@)
                }
            },
        }
    }

    /// What destroying the instance `id` does: a live instance leaves the
    /// registry and every index for good, and is handed out in state
    /// `Stopping`; otherwise nothing changes.
    pub open spec fn destroy_outcome(self, after: VmPool, id: u128, gone: Option<VmInstance>) -> bool {
        match gone {
            Some(vm) => {
                &&& self.manager()@.contains_key(id)
                &&& vm == (VmInstance { state: VmState::Stopping, ..self.manager()@[id] })
                &&& after.manager()@ == self.manager()@.remove(id)
                &&& after.manager().entries() == self.manager().entries().remove(
                    self.manager().rank(id),
                )
                &&& after.manager().len() == self.manager().len() - 1
                &&& after.manager().retired() == self.manager().retired().insert(id)
                &&& after.starting() == without(self.starting(), id)
                &&& after.available() == without(self.available(), id)
                &&& after.outstanding() == without(self.outstanding(), id)
                &&& after.waiters() == self.waiters()
                &&& after.next_ticket() == self.next_ticket()
            },
            None => !self.manager()@.contains_key(id) && after.same_as(self),
        }
    }

    /// What beginning a call under a handle does: a handle that is not
    /// outstanding is refused, and so is a payload that is not one JSON
    /// document; otherwise the held instance is last used at `now` and the
    /// call to send is returned.
    pub open spec fn execute_outcome(
        self,
        after: VmPool,
        id: u128,
        function: Function,
        payload: Seq<char>,
        now: Timestamp,
        result: Result<AgentCall, HyperdriveError>,
    ) -> bool {
        if !self.outstanding().contains(id) {
            &&& result matches Err(e)
            &&& e.is_not_ready("instance is not checked out"@)
            &&& after.same_as(self)
        } else if !crate::json::json_well_formed(payload) {
            &&& result matches Err(e)
            &&& e.is_execution_failed("payload is not a JSON document"@)
            &&& after.same_as(self)
        } else {
            &&& result matches Ok(call)
            &&& call.url@ == agent_url_text(
                self.manager()@[id].ip_address->0@,
                self.manager()@[id].port->0,
            )
            &&& call.body@ == agent_body_text(function.code@, payload)
            &&& call.timeout_secs == EXECUTION_TIMEOUT_SECS
            &&& after.manager()@ == self.manager()@.insert(
                id,
                VmInstance { last_used: now, ..self.manager()@[id] },
            )
            &&& after.manager().entries() == self.manager().entries().update(
                self.manager().rank(id),
                after.manager()@[id],
            )
            &&& after.manager().len() == self.manager().len()
            &&& after.manager().retired() == self.manager().retired()
            &&& after.same_queues(self)
            &&& after.waiters() == self.waiters()
            &&& after.next_ticket() == self.next_ticket()
        }
    }

    /// The instance that has been available longest has gone unused for
    /// `max_idle_ms` or more, and the pool holds more available instances
    /// than it keeps warm.
    pub open spec fn has_idle_surplus(&self, now: Timestamp, max_idle_ms: u64) -> bool {
        &&& self.available().len() > self.min_ready()
        &&& now.millis_since(self.manager()@[self.available()[0]].last_used) >= max_idle_ms
    }

    /// What eviction at `now` does: where there is an idle surplus, the
    /// instance that has been available longest is destroyed; otherwise
    /// nothing changes.
    pub open spec fn evict_outcome(
        self,
        after: VmPool,
        now: Timestamp,
        max_idle_ms: u64,
        gone: Option<VmInstance>,
    ) -> bool {
        if self.has_idle_surplus(now, max_idle_ms) {
            gone is Some && self.destroy_outcome(after, self.available()[0], gone)
        } else {
            gone is None && after.same_as(self)
        }
    }

    /// A pool over an empty registry, bounded by `max_size`, that keeps
    /// `min_ready` instances warm.
    pub fn new(manager: VmManager, max_size: usize, min_ready: usize) -> (result: Result<
        VmPool,
        HyperdriveError,
    >)
        requires
            manager.wf(),
        ensures
            match result {
                Ok(pool) => {
                    &&& manager.len() == 0
                    &&& min_ready <= max_size
                    &&& pool.wf()
                    &&& pool.manager() == manager
                    &&& pool.starting() == Seq::<u128>::empty()
                    &&& pool.available() == Seq::<u128>::empty()
                    &&& pool.outstanding() == Seq::<u128>::empty()
                    &&& pool.waiters() == Seq::<Waiter>::empty()
                    &&& pool.next_ticket() == 0
                    &&& pool.max_size() == max_size
                    &&& pool.min_ready() == min_ready
                },
                Err(e) => {
                    &&& manager.len() != 0 || min_ready > max_size
                    &&& e.is_creation_failed("invalid pool configuration"@)
                },
            },
    {
        if manager.count() != 0 || min_ready > max_size {
            return Err(
                HyperdriveError::VmCreationFailed(String::from_str("invalid pool configuration")),
            );
        }
        proof {
            manager.lemma_entries_match_view();
            manager@.dom().lemma_len0_is_empty();
        }
        let pool = VmPool {
            manager,
            starting: IdQueue::new(),
            available: IdQueue::new(),
            checked_out: IdQueue::new(),
            waiters: Vec::new(),
            next_ticket: 0,
            max_size,
            min_ready,
        };
        assert(forall|id: u128| !pool.manager()@.contains_key(id)) by {
            assert(forall|id: u128| !pool.manager()@.dom().contains(id));
        }
        Ok(pool)
    }

    /// The pool's occupancy.
    pub fn stats(&self) -> (stats: PoolStats)
        ensures
            stats.total == self.manager().len(),
            stats.ready == self.available().len(),
            stats.busy == self.outstanding().len(),
            stats.starting == self.starting().len(),
            stats.waiting == self.waiters().len(),
            stats.max_size == self.max_size(),
            stats.min_ready == self.min_ready(),
    {
        PoolStats {
            total: self.manager.count(),
            ready: self.available.len(),
            busy: self.checked_out.len(),
            starting: self.starting.len(),
            waiting: self.waiters.len(),
            max_size: self.max_size,
            min_ready: self.min_ready,
        }
    }

    /// The inventory of the pool's instances, in registration order.
    pub fn list_active(&self) -> (lines: Vec<VmInfo>)
        requires
            self.wf(),
        ensures
            lines@.len() == self.manager().len(),
            forall|i: int|
                0 <= i < lines@.len() ==> self.manager().entries()[i].describes(
                    #[trigger] lines@[i],
                ),
    {
        self.manager.list_active()
    }

    /// The state of the live instance `id`.
    pub fn state_of(&self, id: u128) -> (state: Option<VmState>)
        requires
            self.wf(),
        ensures
            match state {
                Some(s) => self.manager()@.contains_key(id) && s == self.manager()@[id].state,
                None => !self.manager()@.contains_key(id),
            },
    {
        self.manager.state_of(id)
    }

    /// Whether the pool wants one more instance.
    pub fn wants_instance(&self) -> (yes: bool)
        ensures
            yes == self.needs_boot(),
    {
        let supply: u128 = self.available.len() as u128 + self.starting.len() as u128;
        let demand: u128 = self.min_ready as u128 + self.waiters.len() as u128;
        self.manager.count() < self.max_size && supply < demand
    }

    /// Replenishes the pool by at most one instance, registered under
    /// `candidate` as created at `now`. See `boots`.
    pub fn reconcile_with(&mut self, candidate: u128, now: Timestamp) -> (plan: Option<BootPlan>)
        requires
            old(self).wf(),
        ensures
            final(self).evolves_from(*old(self)),
            old(self).boots(*final(self), candidate, now, plan),
    {
        if !self.wants_instance() {
            proof {
                crate::vm::lemma_follows_reflexive(self.manager);
            }
            return None;
        }
        match self.manager.register(candidate, now) {
            Err(_) => None,
            Ok(plan) => {
                self.starting.push(candidate);
                Some(plan)
            },
        }
    }

    /// Replenishes the pool by at most one instance, registered under a
    /// fresh random identifier as created at `now`. Call it until it
    /// returns nothing. See `reconcile_with`.
    pub fn reconcile(&mut self, now: Timestamp) -> (plan: Option<BootPlan>)
        requires
            old(self).wf(),
        ensures
            final(self).evolves_from(*old(self)),
            exists|candidate: u128|
                is_random_uuid(candidate) && #[trigger] old(self).boots(
                    *final(self),
                    candidate,
                    now,
                    plan,
                ),
    {
        let candidate = fresh_id();
        let plan = self.reconcile_with(candidate, now);
        assert(old(self).boots(*self, candidate, now, plan));
        plan
    }

    /// Records the hypervisor process of the live instance `id`.
    pub fn attach_process(&mut self, id: u128, process_id: u32) -> (result: Result<
        (),
        HyperdriveError,
    >)
        requires
            old(self).wf(),
        ensures
            final(self).evolves_from(*old(self)),
            final(self).same_queues(*old(self)),
            final(self).waiters() == old(self).waiters(),
            final(self).next_ticket() == old(self).next_ticket(),
            final(self).manager().retired() == old(self).manager().retired(),
            match result {
                Ok(_) => {
                    &&& old(self).manager()@.contains_key(id)
                    &&& final(self).manager()@ == old(self).manager()@.insert(
                        id,
                        VmInstance { process_id: Some(process_id), ..old(self).manager()@[id] },
                    )
                    &&& final(self).manager().entries() == old(self).manager().entries().update(
                        old(self).manager().rank(id),
                        final(self).manager()@[id],
                    )
                },
                Err(e) => {
                    &&& !old(self).manager()@.contains_key(id)
                    &&& e.is_not_ready("unknown instance"@)
                    &&& final(self).same_as(*old(self))
                },
            },
    {
        self.manager.attach_process(id, process_id)
    }

    /// Takes in the result of one readiness probe of the instance `id`. See
    /// `probe_outcome`.
    pub fn report_probe(&mut self, id: u128, address: Option<(String, u16)>, now: Timestamp) -> (result:
        Result<ProbeStep, HyperdriveError>)
        requires
            old(self).wf(),
        ensures
            final(self).evolves_from(*old(self)),
            old(self).probe_outcome(*final(self), id, address, now, result),
    {
        let result = self.manager.report_probe(id, address, now);
        match result {
            Ok(ProbeStep::Ready) => {
                let _ = self.starting.remove(id);
                self.available.push(id);
                Ok(ProbeStep::Ready)
            },
            Ok(ProbeStep::Failed) => {
                let _ = self.starting.remove(id);
                Ok(ProbeStep::Failed)
            },
            Ok(ProbeStep::Retry { after_ms }) => Ok(ProbeStep::Retry { after_ms }),
            Err(e) => Err(e),
        }
    }

    /// Destroys the instance `id`, whatever its state. See
    /// `destroy_outcome`.
    pub fn destroy_instance(&mut self, id: u128) -> (gone: Option<VmInstance>)
        requires
            old(self).wf(),
        ensures
            final(self).evolves_from(*old(self)),
            old(self).destroy_outcome(*final(self), id, gone),
    {
        match self.manager.destroy_instance(id) {
            None => None,
            Some(vm) => {
                let _ = self.starting.remove(id);
                let _ = self.available.remove(id);
                let _ = self.checked_out.remove(id);
                Some(vm)
            },
        }
    }

    /// Destroys the first instance, in registration order, that has
    /// failed, if there is one. A failed instance keeps its slot until it
    /// is destroyed: call this until it returns nothing.
    pub fn collect_failed(&mut self) -> (gone: Option<VmInstance>)
        requires
            old(self).wf(),
        ensures
            final(self).evolves_from(*old(self)),
            match gone {
                Some(vm) => {
                    &&& old(self).manager()@.contains_key(vm.id)
                    &&& old(self).manager()@[vm.id].state == VmState::Failed
                    &&& old(self).destroy_outcome(*final(self), vm.id, gone)
                },
                None => {
                    &&& forall|id: u128| #[trigger]
                        old(self).manager()@.contains_key(id) ==> old(self).manager()@[id].state
                            != VmState::Failed
                    &&& final(self).same_as(*old(self))
                },
            },
    {
        match self.manager.first_in_state(VmState::Failed) {
            None => {
                proof {
                    crate::vm::lemma_follows_reflexive(self.manager);
                }
                None
            },
            Some(id) => {
                proof {
                    self.manager.lemma_entries_match_view();
                }
                self.destroy_instance(id)
            },
        }
    }

    /// Shrinks the pool by at most one instance that has sat unused. See
    /// `evict_outcome`. Call it until it returns nothing.
    pub fn evict_idle(&mut self, now: Timestamp, max_idle_ms: u64) -> (gone: Option<VmInstance>)
        requires
            old(self).wf(),
        ensures
            final(self).evolves_from(*old(self)),
            old(self).evict_outcome(*final(self), now, max_idle_ms, gone),
    {
        proof {
            crate::vm::lemma_follows_reflexive(self.manager);
        }
        if self.available.len() <= self.min_ready {
            return None;
        }
        let id = match self.available.front() {
            Some(id) => id,
            None => {
                return None;
            },
        };
        proof {
            assert(self.available().contains(id));
        }
        let idle = match self.manager.get(id) {
            Some(vm) => now.elapsed_millis(&vm.last_used),
            None => {
                return None;
            },
        };
        if idle >= max_idle_ms {
            self.destroy_instance(id)
        } else {
            None
        }
    }

    /// The live instance `id`.
    pub fn instance(&self, id: u128) -> (found: Option<&VmInstance>)
        requires
            self.wf(),
        ensures
            match found {
                Some(vm) => self.manager()@.contains_key(id) && *vm == self.manager()@[id],
                None => !self.manager()@.contains_key(id),
            },
    {
        self.manager.get(id)
    }

    /// Begins a call on the instance held under `handle`. See
    /// `execute_outcome`.
    pub fn execute(&mut self, handle: &PoolHandle, function: &Function, payload: &str, now: Timestamp) -> (result:
        Result<AgentCall, HyperdriveError>)
        requires
            old(self).wf(),
        ensures
            final(self).evolves_from(*old(self)),
            old(self).execute_outcome(*final(self), handle.id(), *function, payload@, now, result),
    {
        if !self.checked_out.contains(handle.id) {
            proof {
                crate::vm::lemma_follows_reflexive(self.manager);
            }
            return Err(
                HyperdriveError::VmNotReady(String::from_str("instance is not checked out")),
            );
        }
        proof {
            self.manager.lemma_entries_match_view();
        }
        let result = self.manager.begin_call(handle.id, function, payload, now);
        proof {
            assert(old(self).manager()@.contains_key(handle.id));
            assert(old(self).manager()@[handle.id].state == VmState::Busy);
            assert(old(self).manager()@[handle.id].has_address());
        }
        result
    }

    /// The position of the request that polls under `ticket`.
    fn waiter_slot(&self, ticket: u64) -> (at: Option<usize>)
        requires
            tickets_ordered(self.waiters(), self.next_ticket()),
        ensures
            match at {
                Some(k) => {
                    &&& k < self.waiters().len()
                    &&& self.waiters()[k as int].ticket == ticket
                    &&& holds_ticket(self.waiters(), ticket)
                    &&& slot_of_ticket(self.waiters(), ticket) == k
                },
                None => !holds_ticket(self.waiters(), ticket),
            },
    {
        let mut k: usize = 0;
        while k < self.waiters.len()
            invariant
                k <= self.waiters@.len(),
                tickets_ordered(self.waiters(), self.next_ticket()),
                forall|j: int| 0 <= j < k ==> (#[trigger] self.waiters@[j]).ticket != ticket,
            decreases self.waiters@.len() - k,
        {
            if self.waiters[k].ticket == ticket {
                proof {
                    let found = slot_of_ticket(self.waiters(), ticket);
                    assert(self.waiters()[k as int].ticket == ticket);
                    assert(0 <= found < self.waiters().len() && self.waiters()[found].ticket
                        == ticket);
                    if found < k {
                        assert(self.waiters()[found].ticket < self.waiters()[k as int].ticket);
                    }
                    if k < found {
                        assert(self.waiters()[k as int].ticket < self.waiters()[found].ticket);
                    }
                }
                return Some(k);
            }
            k += 1;
        }
        None
    }

    /// Takes the request at position `k` out of the queue.
    fn drop_waiter(&mut self, k: usize)
        requires
            old(self).wf(),
            k < old(self).waiters().len(),
        ensures
            final(self).wf(),
            final(self).waiters() == old(self).waiters().remove(k as int),
            final(self).manager() == old(self).manager(),
            final(self).same_queues(*old(self)),
            final(self).next_ticket() == old(self).next_ticket(),
            final(self).same_limits(*old(self)),
    {
        let ghost before = self.waiters@;
        let _ = self.waiters.remove(k);
        proof {
            let after = self.waiters@;
            assert forall|a: int| 0 <= a < after.len() implies (#[trigger] after[a]) == before[if a
                < k {
                a
            } else {
                a + 1
            }] by {}
            assert forall|i: int, j: int| 0 <= i < j < after.len() implies (#[trigger] after[i]).ticket
                < (#[trigger] after[j]).ticket by {
                let a = if i < k {
                    i
                } else {
                    i + 1
                };
                let b = if j < k {
                    j
                } else {
                    j + 1
                };
                assert(before[a].ticket < before[b].ticket);
            }
            assert forall|i: int| 0 <= i < after.len() implies (#[trigger] after[i]).ticket
                < self.next_ticket by {
                let a = if i < k {
                    i
                } else {
                    i + 1
                };
                assert(before[a].ticket < self.next_ticket);
            }
        }
    }

    /// Queues a request for an instance made at `now`, willing to wait
    /// `timeout_ms`, and returns its ticket. Once every ticket has been
    /// issued, nothing is queued.
    pub fn enqueue(&mut self, now: Timestamp, timeout_ms: u64) -> (ticket: Option<u64>)
        requires
            old(self).wf(),
        ensures
            final(self).evolves_from(*old(self)),
            match ticket {
                Some(t) => t == old(self).next_ticket() && old(self).enqueues(
                    *final(self),
                    now,
                    timeout_ms,
                ),
                None => old(self).next_ticket() == u64::MAX && final(self).same_as(*old(self)),
            },
    {
        proof {
            crate::vm::lemma_follows_reflexive(self.manager);
        }
        if self.next_ticket == u64::MAX {
            return None;
        }
        let ticket = self.next_ticket;
        self.waiters.push(Waiter { ticket, since: now, timeout_ms });
        self.next_ticket = ticket + 1;
        Some(ticket)
    }

    /// Withdraws the request that polls under `ticket`, and says whether it
    /// was queued.
    pub fn cancel(&mut self, ticket: u64) -> (withdrawn: bool)
        requires
            old(self).wf(),
        ensures
            final(self).evolves_from(*old(self)),
            withdrawn == holds_ticket(old(self).waiters(), ticket),
            final(self).waiters() == if withdrawn {
                old(self).waiters().remove(slot_of_ticket(old(self).waiters(), ticket))
            } else {
                old(self).waiters()
            },
            final(self).manager().same_as(old(self).manager()),
            final(self).same_queues(*old(self)),
            final(self).next_ticket() == old(self).next_ticket(),
    {
        proof {
            crate::vm::lemma_follows_reflexive(self.manager);
        }
        match self.waiter_slot(ticket) {
            None => false,
            Some(k) => {
                self.drop_waiter(k);
                true
            },
        }
    }

    /// Polls the request under `ticket` at `now`; should the pool want an
    /// instance, it is registered under `candidate`. See `poll_outcome`.
    pub fn poll_with(&mut self, ticket: u64, now: Timestamp, candidate: u128) -> (result: Result<
        AcquireStep,
        HyperdriveError,
    >)
        requires
            old(self).wf(),
        ensures
            final(self).evolves_from(*old(self)),
            old(self).poll_outcome(*final(self), ticket, now, candidate, result),
    {
        proof {
            crate::vm::lemma_follows_reflexive(self.manager);
        }
        let k = match self.waiter_slot(ticket) {
            None => {
                return Err(HyperdriveError::PoolExhausted);
            },
            Some(k) => k,
        };
        if k < self.available.len() {
            let id = match self.available.pop_front() {
                Some(id) => id,
                None => {
                    return Err(HyperdriveError::PoolExhausted);
                },
            };
            proof {
                assert(old(self).available().contains(id));
            }
            match self.manager.checkout(id, now) {
                Ok(_) => {},
                Err(e) => {
                    return Err(e);
                },
            }
            self.checked_out.push(id);
            self.drop_waiter(k);
            Ok(AcquireStep::Acquired(PoolHandle { id }))
        } else {
            let waiter = self.waiters[k];
            if now.elapsed_millis(&waiter.since) >= waiter.timeout_ms {
                self.drop_waiter(k);
                Err(HyperdriveError::PoolExhausted)
            } else {
                let boot = self.reconcile_with(candidate, now);
                Ok(AcquireStep::Waiting { ticket, boot })
            }
        }
    }

    /// Polls the request under `ticket` at `now`; should the pool want an
    /// instance, it is registered under a fresh random identifier. See
    /// `poll_with`.
    pub fn poll(&mut self, ticket: u64, now: Timestamp) -> (result: Result<
        AcquireStep,
        HyperdriveError,
    >)
        requires
            old(self).wf(),
        ensures
            final(self).evolves_from(*old(self)),
            exists|candidate: u128|
                is_random_uuid(candidate) && #[trigger] old(self).poll_outcome(
                    *final(self),
                    ticket,
                    now,
                    candidate,
                    result,
                ),
    {
        let candidate = fresh_id();
        let result = self.poll_with(ticket, now, candidate);
        assert(old(self).poll_outcome(*self, ticket, now, candidate, result));
        result
    }

    /// Asks for an instance at `now`, willing to wait `timeout_ms`; should
    /// the pool want an instance, it is registered under `candidate`. See
    /// `acquire_outcome`.
    pub fn acquire_with(&mut self, now: Timestamp, timeout_ms: u64, candidate: u128) -> (result:
        Result<AcquireStep, HyperdriveError>)
        requires
            old(self).wf(),
        ensures
            final(self).evolves_from(*old(self)),
            old(self).acquire_outcome(*final(self), now, timeout_ms, candidate, result),
    {
        match self.enqueue(now, timeout_ms) {
            None => Err(HyperdriveError::PoolExhausted),
            Some(ticket) => {
                let ghost mid = *self;
                let result = self.poll_with(ticket, now, candidate);
                proof {
                    lemma_follows_transitive(old(self).manager(), mid.manager(), self.manager());
                    assert(mid.evolves_from(*old(self)));
                }
                result
            },
        }
    }

    /// Asks for an instance at `now`, willing to wait `timeout_ms`. The
    /// request is served at once if an instance is available and nobody is
    /// queued before it; otherwise the caller polls under the ticket
    /// returned. See `acquire_with`.
    pub fn acquire(&mut self, now: Timestamp, timeout_ms: u64) -> (result: Result<
        AcquireStep,
        HyperdriveError,
    >)
        requires
            old(self).wf(),
        ensures
            final(self).evolves_from(*old(self)),
            exists|candidate: u128|
                is_random_uuid(candidate) && #[trigger] old(self).acquire_outcome(
                    *final(self),
                    now,
                    timeout_ms,
                    candidate,
                    result,
                ),
    {
        let candidate = fresh_id();
        let result = self.acquire_with(now, timeout_ms, candidate);
        assert(old(self).acquire_outcome(*self, now, timeout_ms, candidate, result));
        result
    }

    /// Takes back the instance held under `handle`, reported as `outcome`,
    /// and replenishes the pool, registering under `candidate`. See
    /// `release_outcome`.
    pub fn release_with(
        &mut self,
        handle: PoolHandle,
        outcome: ReleaseOutcome,
        now: Timestamp,
        candidate: u128,
    ) -> (result: Result<ReleaseReport, HyperdriveError>)
        requires
            old(self).wf(),
        ensures
            final(self).evolves_from(*old(self)),
            old(self).release_outcome(*final(self), handle.id(), outcome, now, candidate, result),
    {
        let id = handle.id;
        proof {
            crate::vm::lemma_follows_reflexive(self.manager);
            self.manager.lemma_entries_match_view();
        }
        if !self.checked_out.contains(id) {
            return Err(
                HyperdriveError::VmNotReady(String::from_str("instance is not checked out")),
            );
        }
        let destroyed = match outcome {
            ReleaseOutcome::Healthy => {
                match self.manager.advance(id, VmState::Ready) {
                    Ok(_) => {},
                    Err(e) => {
                        return Err(e);
                    },
                }
                let _ = self.checked_out.remove(id);
                self.available.push(id);
                None
            },
            ReleaseOutcome::Suspect => {
                match self.manager.advance(id, VmState::Failed) {
                    Ok(_) => {},
                    Err(e) => {
                        return Err(e);
                    },
                }
                let ghost failed = self.manager;
                let gone = self.manager.destroy_instance(id);
                let _ = self.checked_out.remove(id);
                proof {
                    lemma_follows_transitive(old(self).manager(), failed, self.manager());
                    assert(self.manager@ =~= old(self).manager()@.remove(id));
                    let rank = old(self).manager().rank(id);
                    assert(failed.rank(id) == rank);
                    assert(self.manager.entries() =~= old(self).manager().entries().remove(rank));
                }
                gone
            },
        };
        let ghost mid = *self;
        proof {
            assert(mid.evolves_from(*old(self)));
            assert(old(self).hands_back(mid, id, outcome, destroyed));
        }
        let boot = self.reconcile_with(candidate, now);
        proof {
            lemma_follows_transitive(old(self).manager(), mid.manager(), self.manager());
        }
        Ok(ReleaseReport { destroyed, boot })
    }

    /// Takes back the instance held under `handle`, reported as `outcome`,
    /// and replenishes the pool under a fresh random identifier. A healthy
    /// instance serves again; a suspect one never does. See `release_with`.
    pub fn release(&mut self, handle: PoolHandle, outcome: ReleaseOutcome, now: Timestamp) -> (result:
        Result<ReleaseReport, HyperdriveError>)
        requires
            old(self).wf(),
        ensures
            final(self).evolves_from(*old(self)),
            exists|candidate: u128|
                is_random_uuid(candidate) && #[trigger] old(self).release_outcome(
                    *final(self),
                    handle.id(),
                    outcome,
                    now,
                    candidate,
                    result,
                ),
    {
        let candidate = fresh_id();
        let ghost id = handle.id();
        let result = self.release_with(handle, outcome, now, candidate);
        assert(old(self).release_outcome(*self, id, outcome, now, candidate, result));
        result
    }

    /// Ends the call made under `handle` with what became of it, given
    /// whether the instance's agent answered the health probe made after
    /// the call: the caller gets what the event yields, and the instance is
    /// released healthy if its agent answered both the call and the probe,
    /// and suspect if not. Replenishment registers under `candidate`.
    pub fn complete_with(
        &mut self,
        handle: PoolHandle,
        event: AgentEvent,
        agent_answers: bool,
        now: Timestamp,
        candidate: u128,
    ) -> (done: (Result<String, HyperdriveError>, Result<ReleaseReport, HyperdriveError>))
        requires
            old(self).wf(),
        ensures
            final(self).evolves_from(*old(self)),
            event.yields(done.0),
            old(self).release_outcome(
                *final(self),
                handle.id(),
                event.outcome_after(agent_answers),
                now,
                candidate,
                done.1,
            ),
    {
        let outcome = event.release_outcome_after(agent_answers);
        let result = event.interpret();
        let report = self.release_with(handle, outcome, now, candidate);
        (result, report)
    }

    /// Ends the call made under `handle` with what became of it. See
    /// `complete_with`.
    pub fn complete(
        &mut self,
        handle: PoolHandle,
        event: AgentEvent,
        agent_answers: bool,
        now: Timestamp,
    ) -> (done: (Result<String, HyperdriveError>, Result<ReleaseReport, HyperdriveError>))
        requires
            old(self).wf(),
        ensures
            final(self).evolves_from(*old(self)),
            event.yields(done.0),
            exists|candidate: u128|
                is_random_uuid(candidate) && #[trigger] old(self).release_outcome(
                    *final(self),
                    handle.id(),
                    event.outcome_after(agent_answers),
                    now,
                    candidate,
                    done.1,
                ),
    {
        let candidate = fresh_id();
        let ghost id = handle.id();
        let ghost says = event.outcome_after(agent_answers);
        let done = self.complete_with(handle, event, agent_answers, now, candidate);
        assert(old(self).release_outcome(*self, id, says, now, candidate, done.1));
        done
    }
}

impl VmPool {
    /// The live instances that are busy.
    pub open spec fn busy_ids(&self) -> Set<u128> {
        Set::new(
            |id: u128| self.manager()@.contains_key(id) && self.manager()@[id].state == VmState::Busy,
        )
    }

    /// The live instances that occupy a slot: starting, ready or busy.
    pub open spec fn active_ids(&self) -> Set<u128> {
        Set::new(
            |id: u128| self.manager()@.contains_key(id) && self.manager()@[id].state.is_active(),
        )
    }
}

/// A pool is a later state of itself.
pub proof fn lemma_evolves_reflexive(pool: VmPool)
    requires
        pool.wf(),
    ensures
        pool.evolves_from(pool),
{
    crate::vm::lemma_follows_reflexive(pool.manager());
}

/// A later state of a later state of a pool is a later state of it.
pub proof fn lemma_evolves_transitive(first: VmPool, second: VmPool, third: VmPool)
    requires
        second.evolves_from(first),
        third.evolves_from(second),
    ensures
        third.evolves_from(first),
{
    lemma_follows_transitive(first.manager(), second.manager(), third.manager());
}

/// No instance is issued twice: the busy instances are exactly the ones
/// held under outstanding handles, each under one handle, so there are never
/// more busy instances than handles that were issued and not released.
pub proof fn lemma_busy_instances_are_held(pool: VmPool)
    requires
        pool.wf(),
    ensures
        pool.outstanding().no_duplicates(),
        pool.busy_ids() == pool.outstanding().to_set(),
        pool.busy_ids().finite(),
        pool.busy_ids().len() == pool.outstanding().len(),
        pool.busy_ids().len() <= pool.outstanding().len(),
{
    let held = pool.outstanding();
    assert(pool.busy_ids() =~= held.to_set()) by {
        assert forall|id: u128| pool.busy_ids().contains(id) == held.to_set().contains(id) by {
            assert(held.contains(id) <==> (pool.manager()@.contains_key(id)
                && pool.manager()@[id].state == VmState::Busy));
        }
    }
    held.unique_seq_to_set();
    vstd::seq_lib::seq_to_set_is_finite(held);
}

/// The pool stays within its bound: the registry never holds more than
/// `max_size` instances, so the starting, ready and busy ones together
/// never exceed it, and the three indexes account for every one of them.
pub proof fn lemma_capacity_is_bounded(pool: VmPool)
    requires
        pool.wf(),
    ensures
        pool.manager()@.dom().finite(),
        pool.manager()@.dom().len() <= pool.max_size(),
        pool.manager()@.dom().len() == pool.manager().len(),
        pool.active_ids().finite(),
        pool.active_ids().len() <= pool.manager().len(),
        pool.active_ids().len() <= pool.max_size(),
        pool.active_ids().len() == pool.starting().len() + pool.available().len()
            + pool.outstanding().len(),
{
    pool.manager().lemma_entries_match_view();
    let dom = pool.manager()@.dom();
    let s = pool.starting().to_set();
    let a = pool.available().to_set();
    let o = pool.outstanding().to_set();
    pool.starting().unique_seq_to_set();
    pool.available().unique_seq_to_set();
    pool.outstanding().unique_seq_to_set();
    vstd::seq_lib::seq_to_set_is_finite(pool.starting());
    vstd::seq_lib::seq_to_set_is_finite(pool.available());
    vstd::seq_lib::seq_to_set_is_finite(pool.outstanding());
    assert forall|id: u128| s.contains(id) implies !a.contains(id) && !o.contains(id) by {
        assert(pool.starting().contains(id));
        assert(pool.available().contains(id) ==> pool.manager()@[id].state == VmState::Ready);
        assert(pool.outstanding().contains(id) ==> pool.manager()@[id].state == VmState::Busy);
    }
    assert forall|id: u128| a.contains(id) implies !o.contains(id) by {
        assert(pool.available().contains(id));
        assert(pool.outstanding().contains(id) ==> pool.manager()@[id].state == VmState::Busy);
    }
    assert(s.disjoint(a));
    assert((s + a).disjoint(o));
    vstd::set_lib::lemma_set_disjoint_lens(s, a);
    vstd::set_lib::lemma_set_disjoint_lens(s + a, o);
    assert(pool.active_ids() =~= s + a + o) by {
        assert forall|id: u128| pool.active_ids().contains(id) == (s + a + o).contains(id) by {
            assert(pool.starting().contains(id) <==> (pool.manager()@.contains_key(id)
                && pool.manager()@[id].state == VmState::Starting));
            assert(pool.available().contains(id) <==> (pool.manager()@.contains_key(id)
                && pool.manager()@[id].state == VmState::Ready));
            assert(pool.outstanding().contains(id) <==> (pool.manager()@.contains_key(id)
                && pool.manager()@[id].state == VmState::Busy));
        }
    }
    assert(pool.active_ids().subset_of(dom));
    vstd::set_lib::lemma_len_subset(pool.active_ids(), dom);
}

/// Quarantine is permanent: an instance that has been destroyed is, in
/// every later state of the pool, neither live nor in any index, so no
/// request can be served it.
pub proof fn lemma_destroyed_is_never_indexed(earlier: VmPool, later: VmPool, id: u128)
    requires
        later.evolves_from(earlier),
        earlier.manager().retired().contains(id),
    ensures
        later.manager().retired().contains(id),
        !later.manager()@.contains_key(id),
        !later.starting().contains(id),
        !later.available().contains(id),
        !later.outstanding().contains(id),
{
    crate::vm::lemma_retired_never_returns(earlier.manager(), later.manager(), id);
}

/// Releasing an instance as suspect destroys it: afterwards its identifier
/// is retired, and it is not live.
pub proof fn lemma_suspect_release_quarantines(
    before: VmPool,
    after: VmPool,
    id: u128,
    now: Timestamp,
    candidate: u128,
    result: Result<ReleaseReport, HyperdriveError>,
)
    requires
        before.wf(),
        before.outstanding().contains(id),
        before.release_outcome(after, id, ReleaseOutcome::Suspect, now, candidate, result),
    ensures
        result is Ok,
        after.manager().retired().contains(id),
        !after.manager()@.contains_key(id),
{
    let report = result->Ok_0;
    let mid = choose|mid: VmPool|
        {
            &&& #[trigger] mid.evolves_from(before)
            &&& before.hands_back(mid, id, ReleaseOutcome::Suspect, report.destroyed)
            &&& mid.boots(after, candidate, now, report.boot)
        };
    assert(mid.manager().retired().contains(id));
    assert(!mid.manager()@.contains_key(id));
}

/// An instance released as suspect is never handed out again: no poll in
/// any later state of the pool is served an instance that had been
/// destroyed before.
pub proof fn lemma_quarantined_is_never_acquired(
    earlier: VmPool,
    later: VmPool,
    after: VmPool,
    id: u128,
    ticket: u64,
    now: Timestamp,
    candidate: u128,
    result: Result<AcquireStep, HyperdriveError>,
)
    requires
        later.evolves_from(earlier),
        earlier.manager().retired().contains(id),
        later.poll_outcome(after, ticket, now, candidate, result),
    ensures
        result matches Ok(AcquireStep::Acquired(handle)) ==> handle.id() != id,
{
    lemma_destroyed_is_never_indexed(earlier, later, id);
    if result matches Ok(AcquireStep::Acquired(handle)) {
        assert(later.available().contains(later.available()[0]));
    }
}

/// An exhausted pool refuses in time, and not before: where nothing is
/// available and the pool is full, a queued request that polls gets
/// `PoolExhausted` exactly if it has waited out its timeout; until then it
/// keeps waiting, no instance is registered for it, and the pool stays as it
/// was.
pub proof fn lemma_exhausted_pool_times_out(
    before: VmPool,
    after: VmPool,
    ticket: u64,
    now: Timestamp,
    candidate: u128,
    result: Result<AcquireStep, HyperdriveError>,
)
    requires
        before.wf(),
        holds_ticket(before.waiters(), ticket),
        before.available().len() == 0,
        before.manager().len() == before.max_size(),
        before.poll_outcome(after, ticket, now, candidate, result),
    ensures
        ({
            let waiter = before.waiters()[slot_of_ticket(before.waiters(), ticket)];
            if now.millis_since(waiter.since) >= waiter.timeout_ms {
                &&& result matches Err(HyperdriveError::PoolExhausted)
                &&& !holds_ticket(after.waiters(), ticket)
            } else {
                &&& result matches Ok(AcquireStep::Waiting { ticket: t, boot })
                &&& t == ticket
                &&& boot is None
                &&& after.same_as(before)
            }
        }),
{
    let k = slot_of_ticket(before.waiters(), ticket);
    let waiter = before.waiters()[k];
    if now.millis_since(waiter.since) >= waiter.timeout_ms {
        let rest = before.waiters().remove(k);
        assert(after.waiters() == rest);
        if holds_ticket(rest, ticket) {
            let j = slot_of_ticket(rest, ticket);
            let i = if j < k {
                j
            } else {
                j + 1
            };
            assert(rest[j] == before.waiters()[i]);
            if i < k {
                assert(before.waiters()[i].ticket < before.waiters()[k].ticket);
            } else {
                assert(before.waiters()[k].ticket < before.waiters()[i].ticket);
            }
        }
    }
}

/// Readiness is monotonic: an instance seen ready is not seen starting in
/// any later state of the pool.
pub proof fn lemma_ready_is_never_starting_again(earlier: VmPool, later: VmPool, id: u128)
    requires
        later.evolves_from(earlier),
        earlier.manager()@.contains_key(id),
        earlier.manager()@[id].state == VmState::Ready,
        later.manager()@.contains_key(id),
    ensures
        later.manager()@[id].state != VmState::Starting,
        !later.starting().contains(id),
{
    crate::vm::lemma_started_never_starting_again(earlier.manager(), later.manager(), id);
}

/// A call that succeeds comes back whole and leaves the instance in
/// service: where the agent of a held instance answers with a success status
/// and a well-formed document, and answers the health probe after it, the
/// caller gets exactly that document, and after the release the instance is
/// ready and last in line among the available ones.
pub proof fn lemma_successful_call_round_trips(
    before: VmPool,
    after: VmPool,
    id: u128,
    event: AgentEvent,
    now: Timestamp,
    candidate: u128,
    result: Result<String, HyperdriveError>,
    report: Result<ReleaseReport, HyperdriveError>,
)
    requires
        before.wf(),
        before.outstanding().contains(id),
        event matches AgentEvent::Reply { status, body, .. } && crate::proxy::status_is_success(
            status,
        ) && crate::json::json_well_formed(body@),
        event.yields(result),
        before.release_outcome(after, id, event.outcome_after(true), now, candidate, report),
    ensures
        event matches AgentEvent::Reply { body, .. } && result == Ok::<String, HyperdriveError>(
            body,
        ),
        report matches Ok(r) && r.destroyed is None,
        after.manager()@.contains_key(id),
        after.manager()@[id].state == VmState::Ready,
        after.available() == before.available().push(id),
        !after.outstanding().contains(id),
{
    let r = report->Ok_0;
    let mid = choose|mid: VmPool|
        {
            &&& #[trigger] mid.evolves_from(before)
            &&& before.hands_back(mid, id, ReleaseOutcome::Healthy, r.destroyed)
            &&& mid.boots(after, candidate, now, r.boot)
        };
    assert(mid.manager()@.contains_key(id));
    assert(mid.available() == before.available().push(id));
    assert(mid.available()[before.available().len() as int] == id);
    assert(mid.available().contains(id));
    assert(mid.manager()@[id].state == VmState::Ready);
    assert(!mid.outstanding().contains(id));
}

/// What the queue looks like once a request has been added to it: the new
/// request stands last, under the ticket it was given, and is found there.
proof fn lemma_enqueued_request_stands_last(before: VmPool, mid: VmPool, now: Timestamp, timeout_ms: u64)
    requires
        before.wf(),
        mid.wf(),
        before.enqueues(mid, now, timeout_ms),
    ensures
        holds_ticket(mid.waiters(), before.next_ticket()),
        slot_of_ticket(mid.waiters(), before.next_ticket()) == before.waiters().len(),
        mid.waiters()[before.waiters().len() as int] == (Waiter {
            ticket: before.next_ticket(),
            since: now,
            timeout_ms,
        }),
        mid.waiters().remove(before.waiters().len() as int) == before.waiters(),
{
    let last = before.waiters().len() as int;
    let ticket = before.next_ticket();
    assert(mid.waiters()[last].ticket == ticket);
    let found = slot_of_ticket(mid.waiters(), ticket);
    assert(0 <= found < mid.waiters().len() && mid.waiters()[found].ticket == ticket);
    if found < last {
        assert(mid.waiters()[found].ticket < mid.waiters()[last].ticket);
    }
    assert(mid.waiters().remove(last) =~= before.waiters());
}

/// A request is served at once where the supply covers the queue: if
/// fewer requests are pending than instances are available, and tickets are
/// left, the request gets the instance that has been available longest, and
/// no instance is registered for it.
pub proof fn lemma_request_is_served_at_once(
    before: VmPool,
    after: VmPool,
    now: Timestamp,
    timeout_ms: u64,
    candidate: u128,
    result: Result<AcquireStep, HyperdriveError>,
)
    requires
        before.wf(),
        before.next_ticket() < u64::MAX,
        before.waiters().len() < before.available().len(),
        before.acquire_outcome(after, now, timeout_ms, candidate, result),
    ensures
        result matches Ok(AcquireStep::Acquired(handle)) && handle.id() == before.available()[0],
        after.available() == before.available().remove(0),
        after.outstanding() == before.outstanding().push(before.available()[0]),
        after.starting() == before.starting(),
        after.waiters() == before.waiters(),
        after.manager().len() == before.manager().len(),
        after.manager()@.dom() == before.manager()@.dom(),
{
    let mid = choose|mid: VmPool|
        {
            &&& #[trigger] mid.evolves_from(before)
            &&& before.enqueues(mid, now, timeout_ms)
            &&& mid.poll_outcome(after, before.next_ticket(), now, candidate, result)
        };
    lemma_enqueued_request_stands_last(before, mid, now, timeout_ms);
    let id = before.available()[0];
    assert(before.available().contains(id));
    assert(before.manager()@.contains_key(id));
    assert(after.manager()@.dom() =~= before.manager()@.dom());
}

/// An instance that has served serves again: where a held instance is the
/// pool's only supply, nobody is queued and tickets are left, a call that
/// succeeds on it returns its document, and the next request is served the
/// same instance at once, without any instance being registered for it.
pub proof fn lemma_second_call_reuses_the_instance(
    held: VmPool,
    released: VmPool,
    again: VmPool,
    id: u128,
    event: AgentEvent,
    released_at: Timestamp,
    first_candidate: u128,
    result: Result<String, HyperdriveError>,
    report: Result<ReleaseReport, HyperdriveError>,
    asked_at: Timestamp,
    timeout_ms: u64,
    second_candidate: u128,
    step: Result<AcquireStep, HyperdriveError>,
)
    requires
        held.wf(),
        held.outstanding().contains(id),
        held.available().len() == 0,
        held.waiters().len() == 0,
        held.next_ticket() < u64::MAX,
        event matches AgentEvent::Reply { status, body, .. } && crate::proxy::status_is_success(
            status,
        ) && crate::json::json_well_formed(body@),
        event.yields(result),
        held.release_outcome(
            released,
            id,
            event.outcome_after(true),
            released_at,
            first_candidate,
            report,
        ),
        released.wf(),
        released.acquire_outcome(again, asked_at, timeout_ms, second_candidate, step),
    ensures
        event matches AgentEvent::Reply { body, .. } && result == Ok::<String, HyperdriveError>(
            body,
        ),
        step matches Ok(AcquireStep::Acquired(handle)) && handle.id() == id,
        again.manager().len() == released.manager().len(),
        again.manager()@[id].state == VmState::Busy,
{
    lemma_successful_call_round_trips(
        held,
        released,
        id,
        event,
        released_at,
        first_candidate,
        result,
        report,
    );
    let r = report->Ok_0;
    let mid = choose|mid: VmPool|
        {
            &&& #[trigger] mid.evolves_from(held)
            &&& held.hands_back(mid, id, ReleaseOutcome::Healthy, r.destroyed)
            &&& mid.boots(released, first_candidate, released_at, r.boot)
        };
    assert(released.waiters() == held.waiters());
    assert(released.next_ticket() == held.next_ticket());
    assert(released.available()[0] == id);
    lemma_request_is_served_at_once(
        released,
        again,
        asked_at,
        timeout_ms,
        second_candidate,
        step,
    );
    let asked = choose|asked: VmPool|
        {
            &&& #[trigger] asked.evolves_from(released)
            &&& released.enqueues(asked, asked_at, timeout_ms)
            &&& asked.poll_outcome(again, released.next_ticket(), asked_at, second_candidate, step)
        };
    lemma_enqueued_request_stands_last(released, asked, asked_at, timeout_ms);
}

/// A suspect instance is replaced: where a held instance is released as
/// suspect while the pool is below its warm target, and the identifier
/// drawn is free, the instance leaves the inventory for good and a starting
/// instance is registered in its place under the identifier drawn; once that
/// one's agent answers a probe it is ready and available, and the pool is
/// still within its bound.
pub proof fn lemma_suspect_instance_is_replaced(
    before: VmPool,
    after: VmPool,
    warm: VmPool,
    id: u128,
    now: Timestamp,
    candidate: u128,
    report: Result<ReleaseReport, HyperdriveError>,
    address: (String, u16),
    probed_at: Timestamp,
    probe: Result<ProbeStep, HyperdriveError>,
)
    requires
        before.wf(),
        before.outstanding().contains(id),
        before.available().len() + before.starting().len() < before.min_ready()
            + before.waiters().len(),
        before.can_register(candidate),
        before.release_outcome(after, id, ReleaseOutcome::Suspect, now, candidate, report),
        warm.evolves_from(after),
        after.probe_outcome(warm, candidate, Some(address), probed_at, probe),
    ensures
        candidate != id,
        report matches Ok(r) && r.destroyed is Some && (r.boot matches Some(plan) && plan.id
            == candidate),
        !after.manager()@.contains_key(id),
        after.manager().retired().contains(id),
        after.manager()@.contains_key(candidate),
        after.manager()@[candidate].state == VmState::Starting,
        after.manager().len() == before.manager().len(),
        probe == Ok::<ProbeStep, HyperdriveError>(ProbeStep::Ready),
        warm.manager()@.contains_key(candidate),
        warm.manager()@[candidate].state == VmState::Ready,
        warm.available() == before.available().push(candidate),
        !warm.manager()@.contains_key(id),
        warm.manager().len() <= warm.max_size(),
{
    let r = report->Ok_0;
    let mid = choose|mid: VmPool|
        {
            &&& #[trigger] mid.evolves_from(before)
            &&& before.hands_back(mid, id, ReleaseOutcome::Suspect, r.destroyed)
            &&& mid.boots(after, candidate, now, r.boot)
        };
    assert(before.manager()@.contains_key(id));
    assert(candidate != id);
    assert(mid.manager().len() < mid.max_size());
    assert(mid.needs_boot());
    assert(mid.can_register(candidate));
    assert(after.manager()@.contains_key(candidate));
    assert(after.manager()@[candidate].state == VmState::Starting);
    assert(!after.manager()@.contains_key(id));
    assert(warm.manager()@.contains_key(candidate));
    assert(!warm.manager()@.contains_key(id));
}

/// Two callers share a pool of two, and a third waits its time out. The
/// pool may hold two instances and keeps one warm; one instance is ready,
/// nothing else is live, nobody is queued. The first request gets the ready
/// instance. The second finds none available: an instance is registered for
/// it under the identifier drawn, which has to be free, and once that
/// instance's agent answers a probe the second request gets it, so that two
/// distinct instances are held and the pool is full. A third request, made
/// with a timeout above zero, waits without anything being registered for
/// it, and is refused with `PoolExhausted` when it polls after its timeout.
pub proof fn lemma_two_callers_share_a_pool_of_two(
    states: Seq<VmPool>,
    first: u128,
    second: u128,
    times: Seq<Timestamp>,
    timeouts: Seq<u64>,
    candidates: Seq<u128>,
    address: (String, u16),
    steps: Seq<Result<AcquireStep, HyperdriveError>>,
    probe: Result<ProbeStep, HyperdriveError>,
)
    requires
        states.len() == 7,
        times.len() == 6,
        timeouts.len() == 3,
        candidates.len() == 5,
        steps.len() == 5,
        states[0].wf(),
        states[0].max_size() == 2,
        states[0].min_ready() == 1,
        states[0].available() == seq![first],
        states[0].manager().len() == 1,
        states[0].waiters().len() == 0,
        states[0].next_ticket() < u64::MAX - 3,
        states[0].can_register(second),
        candidates[1] == second,
        timeouts[1] > 0,
        timeouts[2] > 0,
        times[5].millis_since(times[4]) >= timeouts[2],
        forall|i: int| 1 <= i < 7 ==> (#[trigger] states[i]).evolves_from(states[i - 1]),
        states[0].acquire_outcome(states[1], times[0], timeouts[0], candidates[0], steps[0]),
        states[1].acquire_outcome(states[2], times[1], timeouts[1], candidates[1], steps[1]),
        states[2].probe_outcome(states[3], second, Some(address), times[2], probe),
        steps[1] matches Ok(AcquireStep::Waiting { ticket, .. }) ==> states[3].poll_outcome(
            states[4],
            ticket,
            times[3],
            candidates[2],
            steps[2],
        ),
        states[4].acquire_outcome(states[5], times[4], timeouts[2], candidates[3], steps[3]),
        steps[3] matches Ok(AcquireStep::Waiting { ticket, .. }) ==> states[5].poll_outcome(
            states[6],
            ticket,
            times[5],
            candidates[4],
            steps[4],
        ),
    ensures
        steps[0] matches Ok(AcquireStep::Acquired(handle)) && handle.id() == first,
        steps[1] matches Ok(AcquireStep::Waiting { boot, .. }) && (boot matches Some(plan)
            && plan.id == second),
        probe == Ok::<ProbeStep, HyperdriveError>(ProbeStep::Ready),
        steps[2] matches Ok(AcquireStep::Acquired(handle)) && handle.id() == second,
        first != second,
        states[4].outstanding() == seq![first, second],
        states[4].manager().len() == 2,
        steps[3] matches Ok(AcquireStep::Waiting { boot, .. }) && boot is None,
        states[5].manager().len() == 2,
        steps[4] matches Err(HyperdriveError::PoolExhausted),
        states[6].manager().len() == 2,
        states[6].outstanding() == seq![first, second],
{
    let s0 = states[0];
    let s1 = states[1];
    let s2 = states[2];
    let s3 = states[3];
    let s4 = states[4];
    let s5 = states[5];
    let s6 = states[6];
    assert(s1.evolves_from(s0) && s2.evolves_from(s1) && s3.evolves_from(s2) && s4.evolves_from(s3)
        && s5.evolves_from(s4) && s6.evolves_from(s5));
    lemma_capacity_is_bounded(s0);
    assert(s0.available().contains(first)) by {
        assert(s0.available()[0] == first);
    }
    assert(s0.starting().len() == 0 && s0.outstanding().len() == 0) by {
        s0.manager().lemma_entries_match_view();
    }

    // The first request is served.
    lemma_request_is_served_at_once(s0, s1, times[0], timeouts[0], candidates[0], steps[0]);
    assert(s1.available() =~= Seq::<u128>::empty());
    assert(s1.outstanding() =~= seq![first]);
    assert(s1.starting() =~= Seq::<u128>::empty());
    assert(s1.can_register(second)) by {
        assert(s1.manager()@.dom() == s0.manager()@.dom());
        assert(s0.manager()@.dom().contains(second) == s0.manager()@.contains_key(second));
        assert(s1.manager()@.dom().contains(second) == s1.manager()@.contains_key(second));
        let m0 = choose|m: VmPool|
            {
                &&& #[trigger] m.evolves_from(s0)
                &&& s0.enqueues(m, times[0], timeouts[0])
                &&& m.poll_outcome(s1, s0.next_ticket(), times[0], candidates[0], steps[0])
            };
        lemma_enqueued_request_stands_last(s0, m0, times[0], timeouts[0]);
    }
    assert(s1.next_ticket() == s0.next_ticket() + 1) by {
        let m0 = choose|m: VmPool|
            {
                &&& #[trigger] m.evolves_from(s0)
                &&& s0.enqueues(m, times[0], timeouts[0])
                &&& m.poll_outcome(s1, s0.next_ticket(), times[0], candidates[0], steps[0])
            };
        lemma_enqueued_request_stands_last(s0, m0, times[0], timeouts[0]);
    }
    assert(first != second);

    // The second request waits, and an instance is registered for it.
    let m1 = choose|m: VmPool|
        {
            &&& #[trigger] m.evolves_from(s1)
            &&& s1.enqueues(m, times[1], timeouts[1])
            &&& m.poll_outcome(s2, s1.next_ticket(), times[1], candidates[1], steps[1])
        };
    lemma_enqueued_request_stands_last(s1, m1, times[1], timeouts[1]);
    assert(times[1].millis_since(times[1]) == 0);
    assert(m1.needs_boot());
    assert(m1.can_register(second));
    let ticket2 = s1.next_ticket();
    assert(steps[1] matches Ok(AcquireStep::Waiting { ticket, boot }) && ticket == ticket2 && (
    boot matches Some(plan) && plan.id == second));
    assert(s2.starting() =~= seq![second]);
    assert(s2.manager()@.contains_key(second));
    assert(s2.manager()@[second].state == VmState::Starting);

    // Its agent answers, and the request is served it.
    assert(probe == Ok::<ProbeStep, HyperdriveError>(ProbeStep::Ready));
    assert(s3.available() =~= seq![second]);
    assert(s3.waiters() == m1.waiters());
    assert(holds_ticket(s3.waiters(), ticket2));
    assert(slot_of_ticket(s3.waiters(), ticket2) == 0);
    assert(s4.outstanding() =~= seq![first, second]);
    assert(s4.manager().len() == 2);
    assert(s4.available() =~= Seq::<u128>::empty());
    assert(s4.starting() =~= without(s2.starting(), second));
    assert(s2.starting().contains(second)) by {
        assert(s2.starting()[0] == second);
    }
    assert(s2.starting().index_of(second) == 0) by {
        let i = s2.starting().index_of(second);
        assert(0 <= i < s2.starting().len());
    }
    assert(s4.starting() =~= Seq::<u128>::empty());
    assert(s4.waiters() =~= Seq::<Waiter>::empty());

    // The third request waits its time out.
    let m4 = choose|m: VmPool|
        {
            &&& #[trigger] m.evolves_from(s4)
            &&& s4.enqueues(m, times[4], timeouts[2])
            &&& m.poll_outcome(s5, s4.next_ticket(), times[4], candidates[3], steps[3])
        };
    lemma_enqueued_request_stands_last(s4, m4, times[4], timeouts[2]);
    assert(times[4].millis_since(times[4]) == 0);
    assert(!m4.needs_boot());
    let ticket3 = s4.next_ticket();
    assert(steps[3] matches Ok(AcquireStep::Waiting { ticket, boot }) && ticket == ticket3
        && boot is None);
    assert(s5.waiters() == m4.waiters());
    assert(holds_ticket(s5.waiters(), ticket3));
    assert(slot_of_ticket(s5.waiters(), ticket3) == 0);
    assert(s5.waiters()[0].since == times[4]);
}

} // verus!
