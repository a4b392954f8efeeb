//! The VM manager: the one registry of every instance, live or retired.

use crate::clock::Timestamp;
use crate::ident::{fresh_id, id_text, is_random_uuid, uuid_hyphenated};
use crate::idqueue::IdQueue;
use crate::instance::VmInstance;
use crate::keyed::{
    keyed, lemma_keyed_at, lemma_keyed_len, lemma_keyed_push, lemma_keyed_remove,
    lemma_keyed_slot, lemma_keyed_update,
};
use crate::proxy::{agent_body_text, agent_url_text, AgentCall, EXECUTION_TIMEOUT_SECS};
use crate::types::{Function, HyperdriveError, VmConfig, VmInfo, VmState};
use vstd::prelude::*;
use vstd::string::*;

verus! {

/// How long a booting instance is given, and how often it is probed.
#[derive(Clone, Copy, Debug, PartialEq, Eq, Structural)]
pub struct ReadinessPolicy {
    /// Pause between two readiness probes, in milliseconds.
    pub poll_interval_ms: u64,
    /// Time after creation at which an unreachable instance is given up, in
    /// milliseconds.
    pub boot_timeout_ms: u64,
}

impl Default for ReadinessPolicy {
    fn default() -> (policy: Self)
        ensures
            policy.poll_interval_ms == 100,
            policy.boot_timeout_ms == 10_000,
    {
        ReadinessPolicy { poll_interval_ms: 100, boot_timeout_ms: 10_000 }
    }
}

/// What the hypervisor needs to boot a registered instance.
#[derive(Debug)]
pub struct BootPlan {
    pub id: u128,
    pub work_dir: String,
    pub config: VmConfig,
}

/// What to do after a readiness probe.
#[derive(Clone, Copy, Debug, PartialEq, Eq, Structural)]
pub enum ProbeStep {
    /// The agent answered: the instance is ready.
    Ready,
    /// No answer yet: probe again after the pause.
    Retry { after_ms: u64 },
    /// No answer within the boot timeout: the instance has failed.
    Failed,
}

/// The scratch directory of the instance `id` below `root`.
pub open spec fn work_dir_text(root: Seq<char>, id: u128) -> Seq<char> {
    root + "/"@ + uuid_hyphenated(id)
}

/// The scratch directory below `root` of the instance whose identifier
/// reads `id_text`.
pub fn work_dir_for(root: &str, id_text: &str) -> (dir: String)
    ensures
        dir@ == root@ + "/"@ + id_text@,
{
    String::from_str(root).concat("/").concat(id_text)
}

/// The instance that registration creates.
pub open spec fn is_fresh_instance(vm: VmInstance, id: u128, root: Seq<char>, now: Timestamp) -> bool {
    &&& vm.id == id
    &&& vm.state == VmState::Starting
    &&& vm.ip_address is None
    &&& vm.port is None
    &&& vm.process_id is None
    &&& vm.work_dir@ == work_dir_text(root, id)
    &&& vm.created_at == now
    &&& vm.last_used == now
}

/// The registry of instances.
///
/// Its model is a finite map from identifiers to instances (`self@`), kept
/// in registration order (`self.entries()`), beside the set of identifiers
/// that have been destroyed (`self.retired()`).
pub struct VmManager {
    config: VmConfig,
    policy: ReadinessPolicy,
    work_root: String,
    instances: Vec<VmInstance>,
    retired: IdQueue,
}

impl View for VmManager {
    type V = Map<u128, VmInstance>;

    closed spec fn view(&self) -> Map<u128, VmInstance> {
        keyed(self.ids(), self.instances@)
    }
}

impl VmManager {
    /// The identifiers of the live instances, in registration order.
    pub closed spec fn ids(&self) -> Seq<u128> {
        Seq::new(self.instances@.len(), |i: int| self.instances@[i].id)
    }

    /// The live instances, in registration order.
    pub closed spec fn entries(&self) -> Seq<VmInstance> {
        self.instances@
    }

    /// The position of the live instance `id` in registration order.
    pub open spec fn rank(&self, id: u128) -> int {
        self.ids().index_of(id)
    }

    /// The identifiers of the instances that were destroyed.
    pub closed spec fn retired(&self) -> Set<u128> {
        Set::new(|id: u128| self.retired@.contains(id))
    }

    /// The boot parameters of every instance.
    pub closed spec fn config(&self) -> VmConfig {
        self.config
    }

    /// The readiness policy.
    pub closed spec fn policy(&self) -> ReadinessPolicy {
        self.policy
    }

    /// The directory below which instances get their scratch directories.
    pub closed spec fn work_root(&self) -> Seq<char> {
        self.work_root@
    }

    /// The number of live instances.
    pub open spec fn len(&self) -> nat {
        self.entries().len()
    }

    /// No identifier is registered twice, none is both live and retired,
    /// every live instance is well-formed, and none rests in `Stopping`.
    pub closed spec fn wf(&self) -> bool {
        &&& self.ids().no_duplicates()
        &&& self.retired.wf()
        &&& forall|i: int|
            0 <= i < self.instances@.len() ==> {
                &&& (#[trigger] self.instances@[i]).wf()
                &&& self.instances@[i].state != VmState::Stopping
                &&& !self.retired@.contains(self.instances@[i].id)
            }
    }

    /// `self` is a later state of the registry `earlier`: what was retired
    /// stays retired, what was live is still live or has been retired, and no
    /// instance has gone back to `Starting`.
    pub open spec fn follows(self, earlier: VmManager) -> bool {
        &&& forall|id: u128| earlier.retired().contains(id) ==> self.retired().contains(id)
        &&& forall|id: u128| #[trigger]
            earlier@.contains_key(id) ==> self@.contains_key(id) || self.retired().contains(id)
        &&& forall|id: u128|
            earlier@.contains_key(id) && #[trigger] self@.contains_key(id) && earlier@[id].state
                != VmState::Starting ==> self@[id].state != VmState::Starting
    }

    /// The two registries were made with the same settings.
    pub open spec fn same_settings(self, other: VmManager) -> bool {
        &&& self.config() == other.config()
        &&& self.policy() == other.policy()
        &&& self.work_root() == other.work_root()
    }

    /// The two registries hold the same instances, have retired the same
    /// identifiers, and were made with the same settings.
    pub open spec fn same_as(self, other: VmManager) -> bool {
        &&& self@ == other@
        &&& self.entries() == other.entries()
        &&& self.ids() == other.ids()
        &&& self.retired() == other.retired()
        &&& self.same_settings(other)
    }

    /// How the registration order and the map describe the same registry.
    pub proof fn lemma_entries_match_view(&self)
        requires
            self.wf(),
        ensures
            self@.dom().finite(),
            self@.dom().len() == self.len(),
            forall|i: int|
                0 <= i < self.entries().len() ==> self@.contains_key(
                    (#[trigger] self.entries()[i]).id,
                ) && self@[self.entries()[i].id] == self.entries()[i],
            forall|i: int, j: int|
                0 <= i < j < self.entries().len() ==> self.entries()[i].id != self.entries()[j].id,
            forall|id: u128| #[trigger]
                self@.contains_key(id) ==> exists|i: int|
                    0 <= i < self.entries().len() && self.entries()[i] == self@[id],
            forall|id: u128| #[trigger]
                self@.contains_key(id) ==> self@[id].id == id && self@[id].wf() && self@[id].state
                    != VmState::Stopping && !self.retired().contains(id),
            self.ids().len() == self.entries().len(),
            forall|i: int| 0 <= i < self.entries().len() ==> #[trigger] self.ids()[i] == self.entries()[i].id,
            forall|id: u128| #[trigger]
                self@.contains_key(id) ==> 0 <= self.rank(id) < self.entries().len()
                    && self.entries()[self.rank(id)] == self@[id],
    {
        let keys = self.ids();
        let vals = self.instances@;
        lemma_keyed_len(keys, vals);
        assert forall|id: u128| #[trigger] self@.contains_key(id) implies 0 <= self.rank(id)
            < self.entries().len() && self.entries()[self.rank(id)] == self@[id] by {
            lemma_keyed_slot(keys, vals, id);
        }
        assert forall|i: int| 0 <= i < vals.len() implies self@.contains_key(
            (#[trigger] vals[i]).id,
        ) && self@[vals[i].id] == vals[i] by {
            lemma_keyed_at(keys, vals, i);
        }
        assert forall|i: int, j: int| 0 <= i < j < vals.len() implies vals[i].id != vals[j].id by {
            assert(keys[i] != keys[j]);
        }
        assert forall|id: u128| #[trigger] self@.contains_key(id) implies (exists|i: int|
            0 <= i < vals.len() && vals[i] == self@[id]) && self@[id].id == id && self@[id].wf()
            && self@[id].state != VmState::Stopping && !self.retired().contains(id) by {
            lemma_keyed_slot(keys, vals, id);
            let i = keys.index_of(id);
            assert(vals[i] == self@[id]);
        }
    }

    /// An empty registry with the given settings.
    pub fn with_settings(config: VmConfig, policy: ReadinessPolicy, work_root: String) -> (manager:
        VmManager)
        ensures
            manager.wf(),
            manager@ == Map::<u128, VmInstance>::empty(),
            manager.entries() == Seq::<VmInstance>::empty(),
            manager.ids() == Seq::<u128>::empty(),
            manager.retired() == Set::<u128>::empty(),
            manager.config() == config,
            manager.policy() == policy,
            manager.work_root() == work_root@,
    {
        let manager = VmManager {
            config,
            policy,
            work_root,
            instances: Vec::new(),
            retired: IdQueue::new(),
        };
        assert(manager.ids() =~= Seq::<u128>::empty());
        assert(manager@ =~= Map::<u128, VmInstance>::empty());
        assert(manager.retired() =~= Set::<u128>::empty());
        manager
    }

    /// An empty registry with the default boot parameters and readiness
    /// policy, whose instances work below `/tmp/hyperdrive`.
    pub fn new() -> (manager: VmManager)
        ensures
            manager.wf(),
            manager@ == Map::<u128, VmInstance>::empty(),
            manager.entries() == Seq::<VmInstance>::empty(),
            manager.ids() == Seq::<u128>::empty(),
            manager.retired() == Set::<u128>::empty(),
            manager.config().vcpu_count == 1,
            manager.config().mem_size_mib == 128,
            manager.config().kernel_path@ == "/opt/firecracker/vmlinux.bin"@,
            manager.config().rootfs_path@ == "/opt/firecracker/rootfs.ext4"@,
            manager.config().v8_host_path@ == "/opt/firecracker/v8-host"@,
            manager.policy().poll_interval_ms == 100,
            manager.policy().boot_timeout_ms == 10_000,
            manager.work_root() == "/tmp/hyperdrive"@,
    {
        VmManager::with_settings(
            VmConfig::default(),
            ReadinessPolicy::default(),
            String::from_str("/tmp/hyperdrive"),
        )
    }

    /// The number of live instances.
    pub fn count(&self) -> (n: usize)
        ensures
            n == self.len(),
    {
        self.instances.len()
    }

    /// The readiness policy.
    pub fn readiness_policy(&self) -> (policy: ReadinessPolicy)
        ensures
            policy == self.policy(),
    {
        self.policy
    }

    /// The position at which `id` is registered.
    fn slot(&self, id: u128) -> (at: Option<usize>)
        requires
            self.wf(),
        ensures
            match at {
                Some(i) => {
                    &&& i < self.instances@.len()
                    &&& self.instances@[i as int].id == id
                    &&& self.ids()[i as int] == id
                    &&& self.ids().index_of(id) == i
                    &&& self@.contains_key(id)
                    &&& self@[id] == self.instances@[i as int]
                },
                None => !self@.contains_key(id),
            },
    {
        let mut i: usize = 0;
        while i < self.instances.len()
            invariant
                i <= self.instances@.len(),
                self.wf(),
                forall|j: int| 0 <= j < i ==> self.ids()[j] != id,
            decreases self.instances@.len() - i,
        {
            if self.instances[i].id == id {
                proof {
                    lemma_keyed_at(self.ids(), self.instances@, i as int);
                }
                return Some(i);
            }
            i += 1;
        }
        None
    }

    /// Whether `id` was destroyed.
    pub fn is_retired(&self, id: u128) -> (yes: bool)
        ensures
            yes == self.retired().contains(id),
    {
        self.retired.contains(id)
    }

    /// The live instance `id`.
    pub fn get(&self, id: u128) -> (found: Option<&VmInstance>)
        requires
            self.wf(),
        ensures
            match found {
                Some(vm) => self@.contains_key(id) && *vm == self@[id],
                None => !self@.contains_key(id),
            },
    {
        match self.slot(id) {
            Some(i) => Some(&self.instances[i]),
            None => None,
        }
    }

    /// The state of the live instance `id`.
    pub fn state_of(&self, id: u128) -> (state: Option<VmState>)
        requires
            self.wf(),
        ensures
            match state {
                Some(s) => self@.contains_key(id) && s == self@[id].state,
                None => !self@.contains_key(id),
            },
    {
        match self.slot(id) {
            Some(i) => Some(self.instances[i].state),
            None => None,
        }
    }

    /// The first live instance, in registration order, that is in `state`.
    pub fn first_in_state(&self, state: VmState) -> (found: Option<u128>)
        requires
            self.wf(),
        ensures
            match found {
                Some(id) => {
                    &&& self@.contains_key(id)
                    &&& self@[id].state == state
                    &&& exists|i: int|
                        {
                            &&& 0 <= i < self.entries().len()
                            &&& (#[trigger] self.entries()[i]).id == id
                            &&& forall|j: int| 0 <= j < i ==> (#[trigger] self.entries()[j]).state != state
                        }
                },
                None => forall|id: u128| #[trigger]
                    self@.contains_key(id) ==> self@[id].state != state,
            },
    {
        let mut i: usize = 0;
        while i < self.instances.len()
            invariant
                i <= self.instances@.len(),
                self.wf(),
                forall|j: int| 0 <= j < i ==> (#[trigger] self.instances@[j]).state != state,
            decreases self.instances@.len() - i,
        {
            if self.instances[i].state == state {
                proof {
                    lemma_keyed_at(self.ids(), self.instances@, i as int);
                    assert(self.entries()[i as int].id == self.instances@[i as int].id);
                }
                return Some(self.instances[i].id);
            }
            i += 1;
        }
        proof {
            self.lemma_entries_match_view();
        }
        None
    }

    /// Registers a starting instance under `id`, created at `now`, and says
    /// how to boot it. An identifier that is live or retired is refused:
    /// none is ever used twice.
    pub fn register(&mut self, id: u128, now: Timestamp) -> (result: Result<
        BootPlan,
        HyperdriveError,
    >)
        requires
            old(self).wf(),
        ensures
            final(self).wf(),
            final(self).follows(*old(self)),
            final(self).same_settings(*old(self)),
            final(self).retired() == old(self).retired(),
            match result {
                Ok(plan) => {
                    &&& !old(self)@.contains_key(id)
                    &&& !old(self).retired().contains(id)
                    &&& final(self)@.contains_key(id)
                    &&& is_fresh_instance(final(self)@[id], id, old(self).work_root(), now)
                    &&& final(self)@ == old(self)@.insert(id, final(self)@[id])
                    &&& final(self).entries() == old(self).entries().push(final(self)@[id])
                    &&& final(self).ids() == old(self).ids().push(id)
                    &&& plan.id == id
                    &&& plan.work_dir@ == work_dir_text(old(self).work_root(), id)
                    &&& plan.config == old(self).config()
                },
                Err(e) => {
                    &&& old(self)@.contains_key(id) || old(self).retired().contains(id)
                    &&& e.is_creation_failed("instance id already in use"@)
                    &&& final(self)@ == old(self)@
                    &&& final(self).entries() == old(self).entries()
                    &&& final(self).ids() == old(self).ids()
                },
            },
    {
        if self.slot(id).is_some() || self.retired.contains(id) {
            return Err(
                HyperdriveError::VmCreationFailed(String::from_str("instance id already in use")),
            );
        }
        let work_dir = work_dir_for(self.work_root.as_str(), id_text(id).as_str());
        let plan = BootPlan { id, work_dir: work_dir.clone(), config: self.config.clone() };
        let vm = VmInstance::with_identity(id, work_dir, now);
        let ghost keys = self.ids();
        let ghost vals = self.instances@;
        proof {
            lemma_keyed_push(keys, vals, id, vm);
            assert(!keys.contains(id)) by {
                if keys.contains(id) {
                    let i = choose|i: int| 0 <= i < keys.len() && keys[i] == id;
                    lemma_keyed_at(keys, vals, i);
                }
            }
        }
        self.instances.push(vm);
        proof {
            assert(self.ids() =~= keys.push(id));
            assert(self@ == old(self)@.insert(id, vm));
            assert(self@[id] == vm);
        }
        Ok(plan)
    }

    /// Registers a starting instance under a fresh random identifier,
    /// created now. It fails only if the identifier drawn is live or
    /// retired: where nothing is, it succeeds. See `register`.
    pub fn create_instance(&mut self) -> (result: Result<BootPlan, HyperdriveError>)
        requires
            old(self).wf(),
        ensures
            final(self).wf(),
            final(self).follows(*old(self)),
            final(self).same_settings(*old(self)),
            final(self).retired() == old(self).retired(),
            match result {
                Ok(plan) => {
                    &&& is_random_uuid(plan.id)
                    &&& !old(self)@.contains_key(plan.id)
                    &&& !old(self).retired().contains(plan.id)
                    &&& final(self)@.contains_key(plan.id)
                    &&& is_fresh_instance(
                        final(self)@[plan.id],
                        plan.id,
                        old(self).work_root(),
                        final(self)@[plan.id].created_at,
                    )
                    &&& final(self)@ == old(self)@.insert(plan.id, final(self)@[plan.id])
                    &&& final(self).entries() == old(self).entries().push(final(self)@[plan.id])
                    &&& final(self).ids() == old(self).ids().push(plan.id)
                    &&& plan.work_dir@ == work_dir_text(old(self).work_root(), plan.id)
                    &&& plan.config == old(self).config()
                },
                Err(e) => {
                    &&& exists|id: u128|
                        is_random_uuid(id) && (#[trigger] old(self)@.contains_key(id) || old(
                            self,
                        ).retired().contains(id))
                    &&& e.is_creation_failed("instance id already in use"@)
                    &&& final(self)@ == old(self)@
                    &&& final(self).entries() == old(self).entries()
                    &&& final(self).ids() == old(self).ids()
                },
            },
    {
        let id = fresh_id();
        let now = Timestamp::now();
        let result = self.register(id, now);
        proof {
            if result is Err {
                assert(old(self)@.contains_key(id) || old(self).retired().contains(id));
            }
        }
        result
    }

    /// What replacing the instance at one position means for the registry.
    proof fn lemma_replaced(before: VmManager, after: VmManager, i: int)
        requires
            before.wf(),
            0 <= i < before.instances@.len(),
            after.instances@ =~= before.instances@.update(i, after.instances@[i]),
            after.instances@[i].id == before.instances@[i].id,
            after.instances@[i].wf(),
            after.instances@[i].state != VmState::Stopping,
            before.instances@[i].state != VmState::Starting ==> after.instances@[i].state
                != VmState::Starting,
            after.retired == before.retired,
        ensures
            after.wf(),
            after.follows(before),
            after.retired() == before.retired(),
            after@.contains_key(before.instances@[i].id),
            after@[before.instances@[i].id] == after.instances@[i],
            before@.contains_key(before.instances@[i].id),
            before@[before.instances@[i].id] == before.instances@[i],
            after@ == before@.insert(before.instances@[i].id, after.instances@[i]),
            after.entries() == before.entries().update(i, after.instances@[i]),
            after.ids() == before.ids(),
            after.instances@[i] == before.instances@[i] ==> after@ == before@ && after.entries()
                == before.entries(),
    {
        let keys = before.ids();
        let vals = before.instances@;
        assert(after.ids() =~= keys);
        lemma_keyed_update(keys, vals, i, after.instances@[i]);
        lemma_keyed_at(keys, vals, i);
        lemma_keyed_at(keys, after.instances@, i);
        if after.instances@[i] == before.instances@[i] {
            assert(after.instances@ =~= before.instances@);
        }
        assert forall|id: u128| #[trigger]
            before@.contains_key(id) implies after@.contains_key(id) by {}
        assert forall|id: u128|
            before@.contains_key(id) && #[trigger] after@.contains_key(id) && before@[id].state
                != VmState::Starting implies after@[id].state != VmState::Starting by {}
    }

    /// What removing the instance at one position, and retiring its
    /// identifier, means for the registry.
    proof fn lemma_removed(before: VmManager, after: VmManager, i: int)
        requires
            before.wf(),
            0 <= i < before.instances@.len(),
            after.instances@ =~= before.instances@.remove(i),
            after.retired.wf(),
            forall|x: u128|
                after.retired@.contains(x) <==> (before.retired@.contains(x) || x
                    == before.instances@[i].id),
        ensures
            after.wf(),
            after.follows(before),
            after.retired() == before.retired().insert(before.instances@[i].id),
            before@.contains_key(before.instances@[i].id),
            before@[before.instances@[i].id] == before.instances@[i],
            after@ == before@.remove(before.instances@[i].id),
            after.entries() == before.entries().remove(i),
            after.ids() == before.ids().remove(i),
    {
        let keys = before.ids();
        let vals = before.instances@;
        let gone = vals[i].id;
        assert(after.ids() =~= keys.remove(i));
        lemma_keyed_remove(keys, vals, i);
        lemma_keyed_at(keys, vals, i);
        assert(after.retired() =~= before.retired().insert(gone));
        assert forall|j: int| 0 <= j < after.instances@.len() implies {
            &&& (#[trigger] after.instances@[j]).wf()
            &&& after.instances@[j].state != VmState::Stopping
            &&& !after.retired@.contains(after.instances@[j].id)
        } by {
            let k = if j < i {
                j
            } else {
                j + 1
            };
            assert(after.instances@[j] == vals[k]);
            assert(keys[k] != keys[i]);
        }
    }

    /// Records the hypervisor process of the live instance `id`.
    pub fn attach_process(&mut self, id: u128, process_id: u32) -> (result: Result<
        (),
        HyperdriveError,
    >)
        requires
            old(self).wf(),
        ensures
            final(self).wf(),
            final(self).follows(*old(self)),
            final(self).same_settings(*old(self)),
            final(self).retired() == old(self).retired(),
            final(self).len() == old(self).len(),
            final(self).ids() == old(self).ids(),
            match result {
                Ok(_) => {
                    &&& old(self)@.contains_key(id)
                    &&& final(self)@ == old(self)@.insert(
                        id,
                        VmInstance { process_id: Some(process_id), ..old(self)@[id] },
                    )
                    &&& final(self).entries() == old(self).entries().update(
                        old(self).rank(id),
                        final(self)@[id],
                    )
                },
                Err(e) => {
                    &&& !old(self)@.contains_key(id)
                    &&& e.is_not_ready("unknown instance"@)
                    &&& final(self)@ == old(self)@
                    &&& final(self).entries() == old(self).entries()
                },
            },
    {
        match self.slot(id) {
            None => Err(HyperdriveError::VmNotReady(String::from_str("unknown instance"))),
            Some(i) => {
                self.instances[i].process_id = Some(process_id);
                proof {
                    Self::lemma_replaced(*old(self), *self, i as int);
                }
                Ok(())
            },
        }
    }

    /// Moves the live instance `id` along one edge of its lifecycle. The
    /// edge into `Stopping` is refused here: an instance stops by being
    /// destroyed.
    pub fn advance(&mut self, id: u128, next: VmState) -> (result: Result<(), HyperdriveError>)
        requires
            old(self).wf(),
        ensures
            final(self).wf(),
            final(self).follows(*old(self)),
            final(self).same_settings(*old(self)),
            final(self).retired() == old(self).retired(),
            final(self).len() == old(self).len(),
            final(self).ids() == old(self).ids(),
            match result {
                Ok(_) => {
                    &&& old(self)@.contains_key(id)
                    &&& next != VmState::Stopping
                    &&& old(self)@[id].may_advance(next)
                    &&& final(self)@ == old(self)@.insert(
                        id,
                        VmInstance { state: next, ..old(self)@[id] },
                    )
                    &&& final(self).entries() == old(self).entries().update(
                        old(self).rank(id),
                        final(self)@[id],
                    )
                },
                Err(e) => {
                    &&& final(self)@ == old(self)@
                    &&& final(self).entries() == old(self).entries()
                    &&& if !old(self)@.contains_key(id) {
                        e.is_not_ready("unknown instance"@)
                    } else {
                        &&& next == VmState::Stopping || !old(self)@[id].may_advance(next)
                        &&& e.is_not_ready("illegal state transition"@)
                    }
                },
            },
    {
        match self.slot(id) {
            None => Err(HyperdriveError::VmNotReady(String::from_str("unknown instance"))),
            Some(i) => {
                match next {
                    VmState::Stopping => {
                        return Err(
                            HyperdriveError::VmNotReady(
                                String::from_str("illegal state transition"),
                            ),
                        );
                    },
                    _ => {},
                }
                let result = self.instances[i].advance(next);
                proof {
                    Self::lemma_replaced(*old(self), *self, i as int);
                }
                result
            },
        }
    }

    /// Hands the ready instance `id` to a caller: it becomes busy, last used
    /// at `now`.
    pub fn checkout(&mut self, id: u128, now: Timestamp) -> (result: Result<(), HyperdriveError>)
        requires
            old(self).wf(),
        ensures
            final(self).wf(),
            final(self).follows(*old(self)),
            final(self).same_settings(*old(self)),
            final(self).retired() == old(self).retired(),
            final(self).len() == old(self).len(),
            final(self).ids() == old(self).ids(),
            match result {
                Ok(_) => {
                    &&& old(self)@.contains_key(id)
                    &&& old(self)@[id].state == VmState::Ready
                    &&& final(self)@ == old(self)@.insert(
                        id,
                        VmInstance { state: VmState::Busy, last_used: now, ..old(self)@[id] },
                    )
                    &&& final(self).entries() == old(self).entries().update(
                        old(self).rank(id),
                        final(self)@[id],
                    )
                },
                Err(e) => {
                    &&& final(self)@ == old(self)@
                    &&& final(self).entries() == old(self).entries()
                    &&& if !old(self)@.contains_key(id) {
                        e.is_not_ready("unknown instance"@)
                    } else {
                        &&& old(self)@[id].state != VmState::Ready
                        &&& e.is_not_ready("illegal state transition"@)
                    }
                },
            },
    {
        match self.slot(id) {
            None => Err(HyperdriveError::VmNotReady(String::from_str("unknown instance"))),
            Some(i) => {
                let result = self.instances[i].checkout(now);
                proof {
                    Self::lemma_replaced(*old(self), *self, i as int);
                }
                result
            },
        }
    }

    /// Takes in the result of one readiness probe of the starting instance
    /// `id`, made at `now`: `address` is where the agent answered, if it did.
    /// An agent that answers makes the instance ready at that address. One
    /// that does not is probed again after the policy's pause, until the
    /// boot timeout has passed since the instance was created: then the
    /// instance has failed.
    pub fn report_probe(&mut self, id: u128, address: Option<(String, u16)>, now: Timestamp) -> (result:
        Result<ProbeStep, HyperdriveError>)
        requires
            old(self).wf(),
        ensures
            final(self).wf(),
            final(self).follows(*old(self)),
            final(self).same_settings(*old(self)),
            final(self).retired() == old(self).retired(),
            final(self).len() == old(self).len(),
            final(self).ids() == old(self).ids(),
            match result {
                Ok(step) => {
                    &&& old(self)@.contains_key(id)
                    &&& old(self)@[id].state == VmState::Starting
                    &&& match address {
                        Some(at) => {
                            &&& step == ProbeStep::Ready
                            &&& final(self)@ == old(self)@.insert(
                                id,
                                VmInstance {
                                    state: VmState::Ready,
                                    ip_address: Some(at.0),
                                    port: Some(at.1),
                                    ..old(self)@[id]
                                },
                            )
                            &&& final(self).entries() == old(self).entries().update(
                                old(self).rank(id),
                                final(self)@[id],
                            )
                        },
                        None => if now.millis_since(old(self)@[id].created_at) >= old(
                            self,
                        ).policy().boot_timeout_ms {
                            &&& step == ProbeStep::Failed
                            &&& final(self)@ == old(self)@.insert(
                                id,
                                VmInstance { state: VmState::Failed, ..old(self)@[id] },
                            )
                            &&& final(self).entries() == old(self).entries().update(
                                old(self).rank(id),
                                final(self)@[id],
                            )
                        } else {
                            &&& step == (ProbeStep::Retry {
                                after_ms: old(self).policy().poll_interval_ms,
                            })
                            &&& final(self)@ == old(self)@
                            &&& final(self).entries() == old(self).entries()
                        },
                    }
                },
                Err(e) => {
                    &&& final(self)@ == old(self)@
                    &&& final(self).entries() == old(self).entries()
                    &&& if !old(self)@.contains_key(id) {
                        e.is_not_ready("unknown instance"@)
                    } else {
                        &&& old(self)@[id].state != VmState::Starting
                        &&& e.is_not_ready("illegal state transition"@)
                    }
                },
            },
    {
        let i = match self.slot(id) {
            None => {
                return Err(HyperdriveError::VmNotReady(String::from_str("unknown instance")));
            },
            Some(i) => i,
        };
        match address {
            Some((ip, port)) => {
                let result = self.instances[i].mark_ready(ip, port);
                proof {
                    Self::lemma_replaced(*old(self), *self, i as int);
                }
                match result {
                    Ok(_) => Ok(ProbeStep::Ready),
                    Err(e) => Err(e),
                }
            },
            None => {
                match self.instances[i].state {
                    VmState::Starting => {},
                    _ => {
                        return Err(
                            HyperdriveError::VmNotReady(
                                String::from_str("illegal state transition"),
                            ),
                        );
                    },
                }
                let waited = now.elapsed_millis(&self.instances[i].created_at);
                if waited >= self.policy.boot_timeout_ms {
                    let result = self.instances[i].advance(VmState::Failed);
                    proof {
                        Self::lemma_replaced(*old(self), *self, i as int);
                    }
                    match result {
                        Ok(_) => Ok(ProbeStep::Failed),
                        Err(e) => Err(e),
                    }
                } else {
                    Ok(ProbeStep::Retry { after_ms: self.policy.poll_interval_ms })
                }
            },
        }
    }

    /// Begins one call on the live instance `id`. See
    /// `VmInstance::execute_function`.
    pub fn begin_call(&mut self, id: u128, function: &Function, payload: &str, now: Timestamp) -> (result:
        Result<AgentCall, HyperdriveError>)
        requires
            old(self).wf(),
        ensures
            final(self).wf(),
            final(self).follows(*old(self)),
            final(self).same_settings(*old(self)),
            final(self).retired() == old(self).retired(),
            final(self).len() == old(self).len(),
            final(self).ids() == old(self).ids(),
            match result {
                Ok(call) => {
                    &&& old(self)@.contains_key(id)
                    &&& old(self)@[id].accepts(payload@)
                    &&& call.url@ == agent_url_text(
                        old(self)@[id].ip_address->0@,
                        old(self)@[id].port->0,
                    )
                    &&& call.body@ == agent_body_text(function.code@, payload@)
                    &&& call.timeout_secs == EXECUTION_TIMEOUT_SECS
                    &&& final(self)@ == old(self)@.insert(
                        id,
                        VmInstance { state: VmState::Busy, last_used: now, ..old(self)@[id] },
                    )
                    &&& final(self).entries() == old(self).entries().update(
                        old(self).rank(id),
                        final(self)@[id],
                    )
                },
                Err(e) => {
                    &&& final(self)@ == old(self)@
                    &&& final(self).entries() == old(self).entries()
                    &&& if !old(self)@.contains_key(id) {
                        e.is_not_ready("unknown instance"@)
                    } else {
                        &&& !old(self)@[id].accepts(payload@)
                        &&& old(self)@[id].refuses_with(payload@, e)
                    }
                },
            },
    {
        match self.slot(id) {
            None => Err(HyperdriveError::VmNotReady(String::from_str("unknown instance"))),
            Some(i) => {
                let result = self.instances[i].execute_function(function, payload, now);
                proof {
                    Self::lemma_replaced(*old(self), *self, i as int);
                }
                result
            },
        }
    }

    /// Destroys the live instance `id`: it leaves the registry for good, and
    /// is handed back in state `Stopping` so that its process can be
    /// terminated and its scratch directory removed. Every live instance can
    /// be destroyed; one that is starting or busy fails first. An identifier
    /// that is not live is left alone, so destroying twice is harmless.
    pub fn destroy_instance(&mut self, id: u128) -> (gone: Option<VmInstance>)
        requires
            old(self).wf(),
        ensures
            final(self).wf(),
            final(self).follows(*old(self)),
            final(self).same_settings(*old(self)),
            !final(self)@.contains_key(id),
            match gone {
                Some(vm) => {
                    &&& old(self)@.contains_key(id)
                    &&& vm == (VmInstance { state: VmState::Stopping, ..old(self)@[id] })
                    &&& final(self)@ == old(self)@.remove(id)
                    &&& final(self).len() == old(self).len() - 1
                    &&& final(self).entries() == old(self).entries().remove(old(self).rank(id))
                    &&& final(self).ids() == old(self).ids().remove(old(self).rank(id))
                    &&& final(self).retired() == old(self).retired().insert(id)
                },
                None => {
                    &&& !old(self)@.contains_key(id)
                    &&& final(self)@ == old(self)@
                    &&& final(self).entries() == old(self).entries()
                    &&& final(self).ids() == old(self).ids()
                    &&& final(self).retired() == old(self).retired()
                },
            },
    {
        match self.slot(id) {
            None => None,
            Some(i) => {
                let mut vm = self.instances.remove(i);
                self.retired.push(id);
                proof {
                    Self::lemma_removed(*old(self), *self, i as int);
                }
                match vm.state {
                    VmState::Starting | VmState::Busy => {
                        let _ = vm.advance(VmState::Failed);
                    },
                    _ => {},
                }
                let _ = vm.advance(VmState::Stopping);
                Some(vm)
            },
        }
    }

    /// The inventory: one line for each live instance, in registration
    /// order. A snapshot, not a live view.
    pub fn list_active(&self) -> (lines: Vec<VmInfo>)
        requires
            self.wf(),
        ensures
            lines@.len() == self.len(),
            forall|i: int| 0 <= i < lines@.len() ==> self.entries()[i].describes(#[trigger] lines@[i]),
    {
        let mut lines: Vec<VmInfo> = Vec::new();
        let mut i: usize = 0;
        while i < self.instances.len()
            invariant
                i <= self.instances@.len(),
                lines@.len() == i,
                forall|j: int| 0 <= j < i ==> self.instances@[j].describes(#[trigger] lines@[j]),
            decreases self.instances@.len() - i,
        {
            lines.push(self.instances[i].info());
            i += 1;
        }
        lines
    }
}

/// Nothing follows a registry more closely than itself.
pub proof fn lemma_follows_reflexive(manager: VmManager)
    ensures
        manager.follows(manager),
{
}

/// A later state of a later state is a later state.
pub proof fn lemma_follows_transitive(first: VmManager, second: VmManager, third: VmManager)
    requires
        third.wf(),
        second.follows(first),
        third.follows(second),
    ensures
        third.follows(first),
{
    third.lemma_entries_match_view();
    assert forall|id: u128| #[trigger] first@.contains_key(id) implies third@.contains_key(id)
        || third.retired().contains(id) by {
        if second@.contains_key(id) {
        } else {
            assert(second.retired().contains(id));
        }
    }
    assert forall|id: u128|
        first@.contains_key(id) && #[trigger] third@.contains_key(id) && first@[id].state
            != VmState::Starting implies third@[id].state != VmState::Starting by {
        if second@.contains_key(id) {
        } else {
            assert(second.retired().contains(id));
            assert(third.retired().contains(id));
        }
    }
}

/// An identifier is never reused: once an instance has been destroyed, no
/// later state of the registry holds an instance under its identifier.
pub proof fn lemma_retired_never_returns(earlier: VmManager, later: VmManager, id: u128)
    requires
        later.wf(),
        later.follows(earlier),
        earlier.retired().contains(id),
    ensures
        !later@.contains_key(id),
{
    later.lemma_entries_match_view();
}

/// Readiness is monotonic: an instance seen in any state but `Starting` is
/// not seen in `Starting` in any later state of the registry.
pub proof fn lemma_started_never_starting_again(earlier: VmManager, later: VmManager, id: u128)
    requires
        later.follows(earlier),
        earlier@.contains_key(id),
        earlier@[id].state != VmState::Starting,
        later@.contains_key(id),
    ensures
        later@[id].state != VmState::Starting,
{
}

} // verus!
