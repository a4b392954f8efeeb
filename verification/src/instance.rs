//! One microVM: its identity, its address, and the lifecycle it moves through.

use crate::clock::{rfc3339_of, Timestamp};
use crate::ident::{fresh_id, id_text, is_random_uuid, uuid_hyphenated};
use crate::types::{HyperdriveError, VmInfo, VmState};
use vstd::prelude::*;
use vstd::string::*;

verus! {

/// One microVM, running or on its way there.
#[derive(Debug)]
pub struct VmInstance {
    /// Process-unique identifier, fixed at creation.
    pub id: u128,
    pub state: VmState,
    /// Host part of the execution agent's address, known once the guest is up.
    pub ip_address: Option<String>,
    /// Port part of the execution agent's address.
    pub port: Option<u16>,
    /// Handle of the hypervisor process, needed to stop the instance.
    pub process_id: Option<u32>,
    /// The instance's private scratch directory.
    pub work_dir: String,
    pub created_at: Timestamp,
    pub last_used: Timestamp,
}

impl VmInstance {
    /// Both parts of the agent's address are known.
    pub open spec fn has_address(&self) -> bool {
        self.ip_address is Some && self.port is Some
    }

    /// The address keeps step with the lifecycle: an instance that is
    /// ready or busy has one, and one that is still starting has none.
    pub open spec fn wf(&self) -> bool {
        &&& (self.state == VmState::Ready || self.state == VmState::Busy) ==> self.has_address()
        &&& self.state == VmState::Starting ==> self.ip_address is None && self.port is None
    }

    /// Whether the instance may move to `next`: the lifecycle has that edge,
    /// and nothing becomes `Ready` without an address.
    pub open spec fn may_advance(&self, next: VmState) -> bool {
        self.state.may_become(next) && (next == VmState::Ready ==> self.has_address())
    }

    /// The inventory line that describes the instance.
    pub open spec fn describes(&self, info: VmInfo) -> bool {
        &&& info.id@ == uuid_hyphenated(self.id)
        &&& info.state == self.state
        &&& info.ip_address == self.ip_address
        &&& info.port == self.port
        &&& info.created_at@ == rfc3339_of(
            self.created_at.seconds(),
            self.created_at.subsec_nanos(),
        )
        &&& info.last_used@ == rfc3339_of(self.last_used.seconds(), self.last_used.subsec_nanos())
    }

    /// A starting instance with the given identity, created at `now`.
    pub fn with_identity(id: u128, work_dir: String, now: Timestamp) -> (vm: VmInstance)
        ensures
            vm == (VmInstance {
                id,
                state: VmState::Starting,
                ip_address: None,
                port: None,
                process_id: None,
                work_dir,
                created_at: now,
                last_used: now,
            }),
            vm.wf(),
    {
        VmInstance {
            id,
            state: VmState::Starting,
            ip_address: None,
            port: None,
            process_id: None,
            work_dir,
            created_at: now,
            last_used: now,
        }
    }

    /// A starting instance with a fresh random identifier, created now.
    pub fn new(work_dir: String) -> (vm: VmInstance)
        ensures
            is_random_uuid(vm.id),
            vm == (VmInstance {
                id: vm.id,
                state: VmState::Starting,
                ip_address: None,
                port: None,
                process_id: None,
                work_dir,
                created_at: vm.created_at,
                last_used: vm.created_at,
            }),
            vm.wf(),
    {
        let id = fresh_id();
        let now = Timestamp::now();
        VmInstance::with_identity(id, work_dir, now)
    }

    /// Moves the instance along one edge of its lifecycle, or refuses and
    /// leaves it as it was.
    pub fn advance(&mut self, next: VmState) -> (result: Result<(), HyperdriveError>)
        ensures
            match result {
                Ok(_) => old(self).may_advance(next) && *final(self) == (VmInstance {
                    state: next,
                    ..*old(self)
                }),
                Err(e) => !old(self).may_advance(next) && e.is_not_ready(
                    "illegal state transition"@,
                ) && *final(self) == *old(self),
            },
            old(self).wf() ==> final(self).wf(),
    {
        let addressed = self.ip_address.is_some() && self.port.is_some();
        let ready = match next {
            VmState::Ready => true,
            _ => false,
        };
        if self.state.can_become(next) && (!ready || addressed) {
            self.state = next;
            Ok(())
        } else {
            Err(HyperdriveError::VmNotReady(String::from_str("illegal state transition")))
        }
    }

    /// Records that the guest's agent answered at `ip:port`: a starting
    /// instance becomes ready at that address. In any other state the report
    /// is refused and nothing changes.
    pub fn mark_ready(&mut self, ip: String, port: u16) -> (result: Result<(), HyperdriveError>)
        ensures
            match result {
                Ok(_) => old(self).state == VmState::Starting && *final(self) == (VmInstance {
                    state: VmState::Ready,
                    ip_address: Some(ip),
                    port: Some(port),
                    ..*old(self)
                }),
                Err(e) => old(self).state != VmState::Starting && e.is_not_ready(
                    "illegal state transition"@,
                ) && *final(self) == *old(self),
            },
            old(self).wf() ==> final(self).wf(),
    {
        match self.state {
            VmState::Starting => {
                self.ip_address = Some(ip);
                self.port = Some(port);
                self.state = VmState::Ready;
                Ok(())
            },
            _ => Err(HyperdriveError::VmNotReady(String::from_str("illegal state transition"))),
        }
    }

    /// Hands a ready instance to a caller: it becomes busy, last used at
    /// `now`. In any other state the request is refused and nothing changes.
    pub fn checkout(&mut self, now: Timestamp) -> (result: Result<(), HyperdriveError>)
        ensures
            match result {
                Ok(_) => old(self).state == VmState::Ready && *final(self) == (VmInstance {
                    state: VmState::Busy,
                    last_used: now,
                    ..*old(self)
                }),
                Err(e) => old(self).state != VmState::Ready && e.is_not_ready(
                    "illegal state transition"@,
                ) && *final(self) == *old(self),
            },
            old(self).wf() ==> final(self).wf(),
    {
        match self.state {
            VmState::Ready => {
                self.last_used = now;
                self.state = VmState::Busy;
                Ok(())
            },
            _ => Err(HyperdriveError::VmNotReady(String::from_str("illegal state transition"))),
        }
    }

    /// The inventory line of the instance.
    pub fn info(&self) -> (info: VmInfo)
        ensures
            self.describes(info),
    {
        VmInfo {
            id: id_text(self.id),
            state: self.state,
            ip_address: match &self.ip_address {
                Some(ip) => Some(ip.clone()),
                None => None,
            },
            port: self.port,
            created_at: self.created_at.to_rfc3339(),
            last_used: self.last_used.to_rfc3339(),
        }
    }
}

/// Every edge of the lifecycle leads away from `Starting`: an instance that
/// has been seen in any other state is never seen starting again.
pub proof fn lemma_starting_is_never_reentered(from: VmState, to: VmState)
    requires
        from.may_become(to),
    ensures
        to != VmState::Starting,
        from != VmState::Stopping,
{
}

} // verus!
