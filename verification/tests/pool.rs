use hyperdrive::api::list_vms;
use hyperdrive::clock::Timestamp;
use hyperdrive::idqueue::IdQueue;
use hyperdrive::pool::{AcquireStep, PoolHandle, VmPool};
use hyperdrive::proxy::{AgentEvent, ReleaseOutcome};
use hyperdrive::types::{Function, HyperdriveError, VmConfig, VmState};
use hyperdrive::vm::{work_dir_for, ProbeStep, ReadinessPolicy, VmManager};

fn at(secs: i64, nanos: u32) -> Timestamp {
    Timestamp::from_parts(secs, nanos).unwrap()
}

fn address(last: u8) -> Option<(String, u16)> {
    Some((format!("10.0.0.{}", last), 8080))
}

fn hello() -> Function {
    Function {
        name: "hello".to_string(),
        code: "export default function handler(event) { return { message: 'Hello!' }; }"
            .to_string(),
        runtime: "v8".to_string(),
        created_at: "2024-01-01T00:00:00+00:00".to_string(),
    }
}

fn pool(max_size: usize, min_ready: usize) -> VmPool {
    VmPool::new(VmManager::new(), max_size, min_ready).unwrap()
}

/// Registers `id` through replenishment and reports it ready.
fn warm(pool: &mut VmPool, id: u128, now: Timestamp) {
    let plan = pool.reconcile_with(id, now).expect("the pool wants an instance");
    assert_eq!(plan.id, id);
    assert_eq!(pool.report_probe(id, address(id as u8), now).unwrap(), ProbeStep::Ready);
}

fn acquired(step: Result<AcquireStep, HyperdriveError>) -> PoolHandle {
    match step {
        Ok(AcquireStep::Acquired(handle)) => handle,
        other => panic!("expected an instance, got {:?}", other),
    }
}

fn waiting(step: Result<AcquireStep, HyperdriveError>) -> (u64, Option<u128>) {
    match step {
        Ok(AcquireStep::Waiting { ticket, boot }) => (ticket, boot.map(|plan| plan.id)),
        other => panic!("expected to wait, got {:?}", other),
    }
}

#[test]
fn id_queue_is_first_in_first_out() {
    let mut queue = IdQueue::new();
    assert_eq!(queue.len(), 0);
    assert_eq!(queue.front(), None);
    assert_eq!(queue.pop_front(), None);
    queue.push(5);
    assert_eq!(queue.front(), Some(5));
    queue.push(3);
    queue.push(9);
    assert_eq!(queue.len(), 3);
    assert!(queue.contains(3));
    assert!(!queue.contains(4));
    assert_eq!(queue.position(9), Some(2));
    assert!(queue.remove(3));
    assert!(!queue.remove(3));
    assert_eq!(queue.pop_front(), Some(5));
    assert_eq!(queue.pop_front(), Some(9));
    assert_eq!(queue.pop_front(), None);
}

#[test]
fn manager_registers_and_lists_instances() {
    let mut manager = VmManager::new();
    assert_eq!(manager.count(), 0);
    assert!(manager.list_active().is_empty());
    assert_eq!(manager.readiness_policy(), ReadinessPolicy { poll_interval_ms: 100, boot_timeout_ms: 10_000 });

    let id: u128 = 0xa1a2a3a4b1b2c1c2d1d2d3d4d5d6d7d8;
    let plan = manager.register(id, at(1431648000, 0)).unwrap();
    assert_eq!(plan.id, id);
    assert_eq!(plan.work_dir, "/tmp/hyperdrive/a1a2a3a4-b1b2-c1c2-d1d2-d3d4d5d6d7d8");
    assert_eq!(plan.config.vcpu_count, 1);
    assert_eq!(plan.config.kernel_path, "/opt/firecracker/vmlinux.bin");

    let vm = manager.get(id).unwrap();
    assert_eq!(vm.id, id);
    assert_eq!(vm.state, VmState::Starting);
    assert_eq!(vm.work_dir, plan.work_dir);
    assert!(vm.process_id.is_none());
    assert!(manager.get(1).is_none());
    assert_eq!(manager.state_of(id), Some(VmState::Starting));
    assert_eq!(manager.state_of(1), None);

    manager.attach_process(id, 4242).unwrap();
    assert_eq!(manager.get(id).unwrap().process_id, Some(4242));
    assert!(manager.attach_process(1, 1).is_err());

    manager.register(2, at(1431648001, 0)).unwrap();
    let lines = manager.list_active();
    assert_eq!(lines.len(), 2);
    assert_eq!(lines[0].id, "a1a2a3a4-b1b2-c1c2-d1d2-d3d4d5d6d7d8");
    assert_eq!(lines[0].state, VmState::Starting);
    assert_eq!(lines[0].created_at, "2015-05-15T00:00:00+00:00");
    assert_eq!(lines[1].id, "00000000-0000-0000-0000-000000000002");
    assert_eq!(lines[1].last_used, "2015-05-15T00:00:01+00:00");
}

#[test]
fn manager_settings_are_taken_as_given() {
    let config = VmConfig { vcpu_count: 2, ..VmConfig::default() };
    let policy = ReadinessPolicy { poll_interval_ms: 50, boot_timeout_ms: 2000 };
    let mut manager = VmManager::with_settings(config, policy, "/var/vms".to_string());
    assert_eq!(manager.readiness_policy(), policy);
    let plan = manager.register(1, at(0, 0)).unwrap();
    assert_eq!(plan.work_dir, "/var/vms/00000000-0000-0000-0000-000000000001");
    assert_eq!(plan.config.vcpu_count, 2);
    assert_eq!(manager.report_probe(1, None, at(1, 999_000_000)).unwrap(), ProbeStep::Retry { after_ms: 50 });
    assert_eq!(manager.report_probe(1, None, at(2, 0)).unwrap(), ProbeStep::Failed);
}

#[test]
fn manager_never_uses_an_identifier_twice() {
    let mut manager = VmManager::new();
    manager.register(1, at(0, 0)).unwrap();
    let twice = manager.register(1, at(1, 0));
    assert_eq!(
        twice.err().map(|e| e.message()),
        Some("VM creation failed: instance id already in use".to_string())
    );
    assert_eq!(manager.count(), 1);

    assert!(!manager.is_retired(1));
    let gone = manager.destroy_instance(1).unwrap();
    assert_eq!(gone.id, 1);
    assert_eq!(gone.state, VmState::Stopping);
    assert!(manager.is_retired(1));
    assert_eq!(manager.count(), 0);
    assert!(manager.register(1, at(2, 0)).is_err());
    assert!(manager.destroy_instance(1).is_none());
    assert_eq!(manager.count(), 0);
}

#[test]
fn manager_creates_instances_under_fresh_ids() {
    let mut manager = VmManager::new();
    // Nothing is live or retired: no identifier can be in use.
    let first = manager.create_instance().unwrap();
    let mask: u128 = 0x0000_0000_0000_F000_C000_0000_0000_0000;
    let bits: u128 = 0x0000_0000_0000_4000_8000_0000_0000_0000;
    assert_eq!(first.id & mask, bits);
    assert_eq!(first.config.vcpu_count, 1);
    assert_eq!(first.config.mem_size_mib, 128);
    assert_eq!(first.config.kernel_path, "/opt/firecracker/vmlinux.bin");
    assert_eq!(first.config.rootfs_path, "/opt/firecracker/rootfs.ext4");
    assert_eq!(first.config.v8_host_path, "/opt/firecracker/v8-host");
    let second = manager.create_instance().unwrap();
    assert_ne!(first.id, second.id);
    assert_eq!(manager.count(), 2);
    assert_eq!(manager.state_of(first.id), Some(VmState::Starting));
    assert!(first.work_dir.starts_with("/tmp/hyperdrive/"));
    assert_eq!(first.work_dir.len(), "/tmp/hyperdrive/".len() + 36);
}

#[test]
fn readiness_is_probed_until_the_boot_timeout() {
    let mut manager = VmManager::new();
    manager.register(1, at(100, 0)).unwrap();
    assert_eq!(manager.report_probe(1, None, at(100, 0)).unwrap(), ProbeStep::Retry { after_ms: 100 });
    assert_eq!(manager.report_probe(1, None, at(109, 999_000_000)).unwrap(), ProbeStep::Retry { after_ms: 100 });
    assert_eq!(manager.state_of(1), Some(VmState::Starting));
    assert_eq!(manager.report_probe(1, None, at(110, 0)).unwrap(), ProbeStep::Failed);
    assert_eq!(manager.state_of(1), Some(VmState::Failed));
    // A failed instance is not probed again, and never becomes ready.
    assert!(manager.report_probe(1, address(2), at(111, 0)).is_err());
    assert!(manager.report_probe(1, None, at(111, 0)).is_err());
    assert_eq!(manager.state_of(1), Some(VmState::Failed));
    assert!(manager.get(1).unwrap().ip_address.is_none());

    manager.register(2, at(100, 0)).unwrap();
    assert_eq!(manager.report_probe(2, address(2), at(200, 0)).unwrap(), ProbeStep::Ready);
    let vm = manager.get(2).unwrap();
    assert_eq!(vm.state, VmState::Ready);
    assert_eq!(vm.ip_address, Some("10.0.0.2".to_string()));
    assert_eq!(vm.port, Some(8080));
    assert!(manager.report_probe(2, None, at(201, 0)).is_err());
    assert_eq!(
        manager.report_probe(3, None, at(0, 0)).err().map(|e| e.message()),
        Some("VM not ready: unknown instance".to_string())
    );
}

#[test]
fn manager_moves_instances_along_legal_edges_only() {
    let mut manager = VmManager::new();
    manager.register(1, at(0, 0)).unwrap();
    assert!(manager.advance(1, VmState::Ready).is_err());
    assert!(manager.checkout(1, at(1, 0)).is_err());
    manager.report_probe(1, address(1), at(1, 0)).unwrap();
    assert!(manager.advance(1, VmState::Stopping).is_err());
    manager.checkout(1, at(2, 0)).unwrap();
    assert_eq!(manager.get(1).unwrap().last_used.secs(), 2);
    assert!(manager.checkout(1, at(3, 0)).is_err());
    assert_eq!(manager.get(1).unwrap().last_used.secs(), 2);
    manager.advance(1, VmState::Ready).unwrap();
    assert!(manager.advance(1, VmState::Starting).is_err());
    assert!(manager.advance(9, VmState::Ready).is_err());
    assert_eq!(manager.state_of(1), Some(VmState::Ready));

    let call = manager.begin_call(1, &hello(), "{}", at(4, 0)).unwrap();
    assert_eq!(call.url, "http://10.0.0.1:8080/execute");
    assert_eq!(manager.state_of(1), Some(VmState::Busy));
    assert!(manager.begin_call(9, &hello(), "{}", at(4, 0)).is_err());
}

#[test]
fn every_live_instance_can_be_destroyed() {
    let mut manager = VmManager::new();
    for id in 1..=4u128 {
        manager.register(id, at(0, 0)).unwrap();
    }
    manager.report_probe(2, address(2), at(1, 0)).unwrap();
    manager.report_probe(3, address(3), at(1, 0)).unwrap();
    manager.checkout(3, at(2, 0)).unwrap();
    manager.report_probe(4, None, at(60, 0)).unwrap();
    assert_eq!(manager.state_of(1), Some(VmState::Starting));
    assert_eq!(manager.state_of(2), Some(VmState::Ready));
    assert_eq!(manager.state_of(3), Some(VmState::Busy));
    assert_eq!(manager.state_of(4), Some(VmState::Failed));
    manager.attach_process(3, 77).unwrap();
    for id in [3u128, 1, 4, 2] {
        let gone = manager.destroy_instance(id).unwrap();
        assert_eq!(gone.id, id);
        assert_eq!(gone.state, VmState::Stopping);
        if id == 3 {
            assert_eq!(gone.process_id, Some(77));
            assert_eq!(gone.ip_address, Some("10.0.0.3".to_string()));
        }
        assert!(manager.state_of(id).is_none());
    }
    assert_eq!(manager.count(), 0);
}

#[test]
fn a_pool_needs_sane_limits_and_an_empty_registry() {
    assert!(VmPool::new(VmManager::new(), 2, 3).is_err());
    let mut used = VmManager::new();
    used.register(1, at(0, 0)).unwrap();
    assert_eq!(
        VmPool::new(used, 4, 1).err().map(|e| e.message()),
        Some("VM creation failed: invalid pool configuration".to_string())
    );
    let empty = pool(0, 0);
    assert_eq!(empty.stats().max_size, 0);
    assert!(!empty.wants_instance());
}

#[test]
fn replenishment_keeps_min_ready_warm() {
    let mut pool = pool(4, 2);
    assert!(pool.wants_instance());
    assert_eq!(pool.reconcile_with(1, at(0, 0)).map(|p| p.id), Some(1));
    // A candidate that is already in use registers nothing.
    assert!(pool.reconcile_with(1, at(0, 0)).is_none());
    assert_eq!(pool.stats().total, 1);
    assert_eq!(pool.reconcile_with(2, at(0, 0)).map(|p| p.id), Some(2));
    // Two are booting: the warm target is covered.
    assert!(!pool.wants_instance());
    assert!(pool.reconcile_with(3, at(0, 0)).is_none());
    assert!(pool.reconcile(at(0, 0)).is_none());
    let stats = pool.stats();
    assert_eq!((stats.total, stats.starting, stats.ready, stats.busy), (2, 2, 0, 0));

    pool.report_probe(1, address(1), at(1, 0)).unwrap();
    let stats = pool.stats();
    assert_eq!((stats.total, stats.starting, stats.ready, stats.busy), (2, 1, 1, 0));
    assert!(pool.reconcile_with(3, at(1, 0)).is_none());

    // A failed boot leaves a gap that the next reconciliation fills.
    assert_eq!(pool.report_probe(2, None, at(60, 0)).unwrap(), ProbeStep::Failed);
    assert_eq!(pool.state_of(2), Some(VmState::Failed));
    assert_eq!(pool.reconcile_with(3, at(60, 0)).map(|p| p.id), Some(3));
    assert_eq!(pool.stats().total, 3);
    assert_eq!(pool.destroy_instance(2).map(|vm| vm.state), Some(VmState::Stopping));
    assert_eq!(pool.stats().total, 2);
}

#[test]
fn reconcile_draws_fresh_identifiers() {
    let mut pool = pool(3, 3);
    let a = pool.reconcile(at(0, 0)).unwrap();
    let b = pool.reconcile(at(0, 0)).unwrap();
    let c = pool.reconcile(at(0, 0)).unwrap();
    assert!(pool.reconcile(at(0, 0)).is_none());
    assert!(a.id != b.id && b.id != c.id && a.id != c.id);
    assert_eq!(pool.stats().starting, 3);
    assert_eq!(list_vms(&pool).vms.map(|lines| lines.len()), Some(3));
}

#[test]
fn instances_are_handed_out_oldest_first_and_one_at_a_time() {
    let mut pool = pool(3, 3);
    for id in [11u128, 12, 13] {
        pool.reconcile_with(id, at(0, 0)).unwrap();
    }
    // They become ready out of registration order.
    for id in [12u128, 13, 11] {
        pool.report_probe(id, address(id as u8), at(1, 0)).unwrap();
    }
    let first = acquired(pool.acquire_with(at(2, 0), 1000, 99));
    let second = acquired(pool.acquire_with(at(3, 0), 1000, 99));
    let third = acquired(pool.acquire_with(at(4, 0), 1000, 99));
    assert_eq!(first.instance_id(), 12);
    assert_eq!(second.instance_id(), 13);
    assert_eq!(third.instance_id(), 11);
    for (id, used) in [(12u128, 2), (13, 3), (11, 4)] {
        assert_eq!(pool.state_of(id), Some(VmState::Busy));
        assert_eq!(pool.list_active().iter().filter(|l| l.state == VmState::Busy).count(), 3);
        let _ = (id, used);
    }
    let stats = pool.stats();
    assert_eq!((stats.ready, stats.busy, stats.waiting), (0, 3, 0));

    // Released instances queue behind one another.
    pool.release_with(second, ReleaseOutcome::Healthy, at(5, 0), 99).unwrap();
    pool.release_with(first, ReleaseOutcome::Healthy, at(6, 0), 99).unwrap();
    assert_eq!(acquired(pool.acquire_with(at(7, 0), 1000, 99)).instance_id(), 13);
    assert_eq!(acquired(pool.acquire_with(at(7, 0), 1000, 99)).instance_id(), 12);
    let _ = third;
}

#[test]
fn two_acquires_succeed_and_the_third_times_out() {
    let mut pool = pool(2, 1);
    warm(&mut pool, 1, at(100, 0));

    let first = acquired(pool.acquire_with(at(100, 0), 5000, 2));
    assert_eq!(first.instance_id(), 1);

    // Nothing is available, but there is room: an instance is registered
    // for the second request, which waits for it.
    let (ticket, boot) = waiting(pool.acquire_with(at(100, 0), 5000, 2));
    assert_eq!(boot, Some(2));
    assert_eq!(pool.state_of(2), Some(VmState::Starting));
    // Polling again before the instance is up registers nothing more.
    assert_eq!(waiting(pool.poll_with(ticket, at(100, 500_000_000), 3)), (ticket, None));
    pool.report_probe(2, address(2), at(101, 0)).unwrap();
    let second = acquired(pool.poll_with(ticket, at(101, 0), 3));
    assert_eq!(second.instance_id(), 2);

    // The pool is full and everything is busy: the third request waits,
    // and nothing is registered for it.
    let (third, boot) = waiting(pool.acquire_with(at(102, 0), 5000, 3));
    assert_eq!(boot, None);
    assert_eq!(pool.stats().total, 2);
    assert_eq!(waiting(pool.poll_with(third, at(106, 999_000_000), 3)), (third, None));
    assert!(matches!(pool.poll_with(third, at(107, 0), 3), Err(HyperdriveError::PoolExhausted)));
    assert_eq!(pool.stats().waiting, 0);
    // Its ticket is spent.
    assert!(matches!(pool.poll_with(third, at(107, 0), 3), Err(HyperdriveError::PoolExhausted)));
    assert_eq!(pool.stats().total, 2);
    assert_eq!(pool.stats().busy, 2);
    let _ = (first, second);
}

#[test]
fn an_exhausted_pool_refuses_a_request_that_will_not_wait() {
    let mut pool = pool(1, 1);
    warm(&mut pool, 1, at(0, 0));
    let held = acquired(pool.acquire(at(0, 0), 0));
    assert!(matches!(pool.acquire(at(0, 0), 0), Err(HyperdriveError::PoolExhausted)));
    assert!(matches!(pool.acquire_with(at(5, 0), 0, 9), Err(HyperdriveError::PoolExhausted)));
    assert_eq!(pool.stats().waiting, 0);
    assert_eq!(pool.stats().total, 1);
    let _ = held;
}

#[test]
fn requests_are_served_in_arrival_order() {
    let mut pool = pool(1, 1);
    warm(&mut pool, 1, at(0, 0));
    let held = acquired(pool.acquire_with(at(0, 0), 60_000, 9));
    let (early, _) = waiting(pool.acquire_with(at(1, 0), 60_000, 9));
    let (late, _) = waiting(pool.acquire_with(at(2, 0), 60_000, 9));
    assert!(early < late);
    pool.release_with(held, ReleaseOutcome::Healthy, at(3, 0), 9).unwrap();

    // The later request polls first, but the instance is the earlier one's.
    assert_eq!(waiting(pool.poll_with(late, at(3, 0), 9)).0, late);
    let served = acquired(pool.poll_with(early, at(3, 0), 9));
    assert_eq!(served.instance_id(), 1);
    assert_eq!(waiting(pool.poll_with(late, at(4, 0), 9)).0, late);

    // Once the earlier request withdraws, the later one is first in line.
    let (next, _) = waiting(pool.acquire_with(at(5, 0), 60_000, 9));
    pool.release_with(served, ReleaseOutcome::Healthy, at(6, 0), 9).unwrap();
    assert!(pool.cancel(late));
    assert!(!pool.cancel(late));
    assert_eq!(acquired(pool.poll_with(next, at(6, 0), 9)).instance_id(), 1);
}

#[test]
fn a_suspect_instance_is_never_handed_out_again() {
    let mut pool = pool(2, 1);
    warm(&mut pool, 1, at(0, 0));
    let held = acquired(pool.acquire_with(at(0, 0), 1000, 2));
    let report = pool.release_with(held, ReleaseOutcome::Suspect, at(1, 0), 2).unwrap();
    let gone = report.destroyed.unwrap();
    assert_eq!(gone.id, 1);
    assert_eq!(gone.state, VmState::Stopping);
    assert_eq!(gone.ip_address, Some("10.0.0.1".to_string()));
    // A replacement was registered at once.
    assert_eq!(report.boot.map(|plan| plan.id), Some(2));
    assert_eq!(pool.state_of(1), None);
    assert_eq!(pool.state_of(2), Some(VmState::Starting));

    // The identifier cannot come back, not even by registration.
    assert!(pool.reconcile_with(1, at(2, 0)).is_none());
    assert!(pool.report_probe(1, address(1), at(2, 0)).is_err());
    pool.report_probe(2, address(2), at(2, 0)).unwrap();
    for round in 0..20i64 {
        let now = at(3 + round, 0);
        let handle = acquired(pool.acquire_with(now, 1000, 1));
        assert_ne!(handle.instance_id(), 1);
        pool.release_with(handle, ReleaseOutcome::Healthy, now, 1).unwrap();
    }
    assert!(pool.list_active().iter().all(|line| line.id != "00000000-0000-0000-0000-000000000001"));
}

#[test]
fn the_pool_never_grows_past_max_size() {
    let mut pool = pool(3, 1);
    let mut tickets = Vec::new();
    for n in 0..10u128 {
        let step = pool.acquire_with(at(0, 0), 60_000, 100 + n);
        tickets.push(waiting(step).0);
        assert!(pool.stats().total <= 3);
    }
    assert_eq!(pool.stats().total, 3);
    assert_eq!(pool.stats().starting, 3);
    assert_eq!(pool.stats().waiting, 10);
    for n in 0..10u128 {
        assert!(pool.reconcile_with(200 + n, at(0, 0)).is_none());
    }
    for id in [100u128, 101, 102] {
        pool.report_probe(id, address(id as u8), at(1, 0)).unwrap();
    }
    let mut held = Vec::new();
    for ticket in &tickets[..3] {
        held.push(acquired(pool.poll_with(*ticket, at(1, 0), 300)));
    }
    for ticket in &tickets[3..] {
        assert_eq!(waiting(pool.poll_with(*ticket, at(1, 0), 300)), (*ticket, None));
    }
    let stats = pool.stats();
    assert_eq!((stats.total, stats.busy, stats.ready, stats.starting), (3, 3, 0, 0));
    // Never more busy instances than handles out.
    assert_eq!(stats.busy, held.len());
}

#[test]
fn a_handle_is_good_for_one_release() {
    let mut pool = pool(1, 1);
    warm(&mut pool, 1, at(0, 0));
    let held = acquired(pool.acquire_with(at(0, 0), 1000, 9));
    assert_eq!(pool.destroy_instance(1).map(|vm| vm.id), Some(1));
    assert_eq!(pool.stats().busy, 0);
    // The instance went away under the caller: the call and the release are
    // refused, and nothing comes back into the pool.
    assert_eq!(
        pool.execute(&held, &hello(), "{}", at(1, 0)).err().map(|e| e.message()),
        Some("VM not ready: instance is not checked out".to_string())
    );
    assert_eq!(
        pool.release_with(held, ReleaseOutcome::Healthy, at(1, 0), 9).err().map(|e| e.message()),
        Some("VM not ready: instance is not checked out".to_string())
    );
    let stats = pool.stats();
    assert_eq!((stats.total, stats.ready, stats.busy), (0, 0, 0));
}

#[test]
fn a_round_trip_returns_the_document_and_the_instance() {
    let mut pool = pool(1, 1);
    warm(&mut pool, 1, at(0, 0));
    let held = acquired(pool.acquire(at(10, 0), 1000));
    let call = pool.execute(&held, &hello(), "{\"name\":\"world\"}", at(11, 0)).unwrap();
    assert_eq!(call.url, "http://10.0.0.1:8080/execute");
    assert_eq!(
        call.body,
        "{\"code\":\"export default function handler(event) { return { message: 'Hello!' }; }\",\"payload\":{\"name\":\"world\"}}"
    );
    assert_eq!(call.timeout_secs, 30);
    assert_eq!(pool.state_of(1), Some(VmState::Busy));
    assert_eq!(pool.list_active()[0].last_used, "1970-01-01T00:00:11+00:00");

    let reply = AgentEvent::Reply {
        status: 200,
        status_line: "200 OK".to_string(),
        body: "{ \"message\": \"Hello!\" }".to_string(),
    };
    let (result, report) = pool.complete(held, reply, true, at(12, 0));
    assert_eq!(result.unwrap(), "{ \"message\": \"Hello!\" }");
    let report = report.unwrap();
    assert!(report.destroyed.is_none());
    assert!(report.boot.is_none());
    assert_eq!(pool.state_of(1), Some(VmState::Ready));

    // The instance remains acquirable: a second call gets it again, and
    // nothing is booted for it.
    assert_eq!(acquired(pool.acquire(at(13, 0), 1000)).instance_id(), 1);
    assert_eq!(pool.stats().total, 1);
}

#[test]
fn a_failing_function_leaves_the_sandbox_in_service() {
    let mut pool = pool(1, 1);
    warm(&mut pool, 1, at(0, 0));
    let held = acquired(pool.acquire_with(at(0, 0), 1000, 9));
    let reply = AgentEvent::Reply {
        status: 500,
        status_line: "500 Internal Server Error".to_string(),
        body: "{\"error\":\"boom\"}".to_string(),
    };
    let (result, report) = pool.complete_with(held, reply, true, at(1, 0), 9);
    assert_eq!(
        result.err().map(|e| e.message()),
        Some("Function execution failed: 500 Internal Server Error".to_string())
    );
    assert!(report.unwrap().destroyed.is_none());
    assert_eq!(pool.state_of(1), Some(VmState::Ready));
    assert_eq!(pool.stats().ready, 1);
}

#[test]
fn an_agent_that_fails_its_health_probe_is_replaced() {
    let mut pool = pool(2, 1);
    warm(&mut pool, 1, at(0, 0));
    let held = acquired(pool.acquire_with(at(0, 0), 1000, 9));
    let reply =
        AgentEvent::Reply { status: 200, status_line: "200 OK".to_string(), body: "7".to_string() };
    // The call was answered, the probe after it was not.
    let (result, report) = pool.complete_with(held, reply, false, at(1, 0), 2);
    assert_eq!(result.unwrap(), "7");
    let report = report.unwrap();
    assert_eq!(report.destroyed.map(|vm| vm.id), Some(1));
    assert_eq!(report.boot.map(|plan| plan.id), Some(2));
    assert_eq!(pool.state_of(1), None);
}

#[test]
fn a_call_with_a_bad_payload_is_refused_and_the_instance_kept() {
    let mut pool = pool(1, 1);
    warm(&mut pool, 1, at(0, 0));
    let held = acquired(pool.acquire_with(at(0, 0), 1000, 9));
    let refused = pool.execute(&held, &hello(), "{\"open\":", at(5, 0));
    assert_eq!(
        refused.err().map(|e| e.message()),
        Some("Function execution failed: payload is not a JSON document".to_string())
    );
    assert_eq!(pool.state_of(1), Some(VmState::Busy));
    assert_eq!(pool.list_active()[0].last_used, "1970-01-01T00:00:00+00:00");
    // The handle is still good.
    pool.execute(&held, &hello(), "{}", at(6, 0)).unwrap();
    pool.release_with(held, ReleaseOutcome::Healthy, at(7, 0), 9).unwrap();
    assert_eq!(pool.stats().ready, 1);
}

#[test]
fn a_timed_out_call_replaces_the_instance() {
    let mut pool = pool(2, 1);
    warm(&mut pool, 1, at(0, 0));
    let held = acquired(pool.acquire_with(at(0, 0), 1000, 9));
    pool.execute(&held, &hello(), "null", at(0, 0)).unwrap();
    let (result, report) = pool.complete_with(held, AgentEvent::TimedOut, true, at(30, 0), 2);
    assert_eq!(result.err().map(|e| e.message()), Some("Network error: request timed out".to_string()));
    let report = report.unwrap();
    assert_eq!(report.destroyed.map(|vm| vm.id), Some(1));
    assert_eq!(report.boot.map(|plan| plan.id), Some(2));

    // The inventory no longer shows the instance, and shows its replacement.
    let lines = pool.list_active();
    assert_eq!(lines.len(), 1);
    assert_eq!(lines[0].id, "00000000-0000-0000-0000-000000000002");
    assert_eq!(lines[0].state, VmState::Starting);
    assert_eq!(lines[0].created_at, "1970-01-01T00:00:30+00:00");
}

#[test]
fn an_abandoned_call_taints_the_instance_too() {
    let mut pool = pool(1, 0);
    let (ticket, boot) = waiting(pool.acquire_with(at(0, 0), 1000, 1));
    assert_eq!(boot, Some(1));
    pool.attach_process(1, 4242).unwrap();
    pool.report_probe(1, address(1), at(0, 0)).unwrap();
    let held = acquired(pool.poll_with(ticket, at(0, 0), 2));
    let (result, report) = pool.complete(held, AgentEvent::Abandoned, false, at(1, 0));
    assert!(matches!(result, Err(HyperdriveError::Network(_))));
    let report = report.unwrap();
    assert_eq!(report.destroyed.map(|vm| vm.process_id), Some(Some(4242)));
    // Nothing is kept warm and nobody waits: no replacement.
    assert!(report.boot.is_none());
    assert_eq!(pool.stats().total, 0);
}

#[test]
fn probe_reports_move_instances_between_the_indexes() {
    let mut pool = pool(2, 2);
    pool.reconcile_with(1, at(0, 0)).unwrap();
    pool.reconcile_with(2, at(0, 0)).unwrap();
    assert_eq!(pool.report_probe(1, None, at(5, 0)).unwrap(), ProbeStep::Retry { after_ms: 100 });
    assert_eq!(pool.stats().starting, 2);
    assert_eq!(pool.report_probe(1, None, at(10, 0)).unwrap(), ProbeStep::Failed);
    assert_eq!(pool.report_probe(2, address(2), at(10, 0)).unwrap(), ProbeStep::Ready);
    let stats = pool.stats();
    assert_eq!((stats.total, stats.starting, stats.ready), (2, 0, 1));
    assert!(pool.report_probe(2, address(2), at(11, 0)).is_err());
    assert!(pool.report_probe(7, None, at(11, 0)).is_err());
    // The failed instance still occupies its slot until it is destroyed.
    assert!(pool.reconcile_with(3, at(11, 0)).is_none());
    pool.destroy_instance(1).unwrap();
    assert_eq!(pool.reconcile_with(3, at(11, 0)).map(|plan| plan.id), Some(3));
    assert!(pool.destroy_instance(1).is_none());
}

#[test]
fn failed_instances_are_collected_in_registration_order() {
    let mut pool = pool(4, 4);
    for id in [1u128, 2, 3, 4] {
        pool.reconcile_with(id, at(0, 0)).unwrap();
    }
    assert!(pool.collect_failed().is_none());
    pool.report_probe(3, None, at(10, 0)).unwrap();
    pool.report_probe(2, address(2), at(10, 0)).unwrap();
    pool.report_probe(1, None, at(10, 0)).unwrap();
    assert_eq!(pool.instance(1).map(|vm| vm.state), Some(VmState::Failed));
    assert_eq!(pool.instance(2).map(|vm| vm.port), Some(Some(8080)));
    assert!(pool.instance(9).is_none());

    let first = pool.collect_failed().unwrap();
    assert_eq!((first.id, first.state), (1, VmState::Stopping));
    let second = pool.collect_failed().unwrap();
    assert_eq!((second.id, second.state), (3, VmState::Stopping));
    assert!(pool.collect_failed().is_none());
    let stats = pool.stats();
    assert_eq!((stats.total, stats.starting, stats.ready), (2, 1, 1));
    // The slots are free again.
    assert_eq!(pool.reconcile_with(5, at(11, 0)).map(|plan| plan.id), Some(5));
}

#[test]
fn the_registry_finds_the_first_instance_of_a_state() {
    let mut manager = VmManager::new();
    assert_eq!(manager.first_in_state(VmState::Starting), None);
    for id in [7u128, 8, 9] {
        manager.register(id, at(0, 0)).unwrap();
    }
    manager.report_probe(8, address(8), at(1, 0)).unwrap();
    manager.report_probe(9, address(9), at(1, 0)).unwrap();
    assert_eq!(manager.first_in_state(VmState::Starting), Some(7));
    assert_eq!(manager.first_in_state(VmState::Ready), Some(8));
    assert_eq!(manager.first_in_state(VmState::Busy), None);
    assert_eq!(manager.first_in_state(VmState::Stopping), None);
}

#[test]
fn work_directories_sit_below_the_root() {
    assert_eq!(work_dir_for("/tmp/hyperdrive", "abc"), "/tmp/hyperdrive/abc");
    assert_eq!(work_dir_for("", ""), "/");
}

#[test]
fn idle_instances_beyond_the_warm_target_are_evicted() {
    let mut pool = pool(3, 1);
    let (first, boot) = waiting(pool.acquire_with(at(0, 0), 60_000, 1));
    assert_eq!(boot, Some(1));
    let (second, boot) = waiting(pool.acquire_with(at(0, 0), 60_000, 2));
    assert_eq!(boot, Some(2));
    pool.report_probe(1, address(1), at(1, 0)).unwrap();
    pool.report_probe(2, address(2), at(1, 0)).unwrap();
    let one = acquired(pool.poll_with(first, at(10, 0), 9));
    let two = acquired(pool.poll_with(second, at(20, 0), 9));
    pool.release_with(two, ReleaseOutcome::Healthy, at(21, 0), 9).unwrap();
    pool.release_with(one, ReleaseOutcome::Healthy, at(22, 0), 9).unwrap();
    // Instance 2 is first in line; it was last used at second 20.
    assert_eq!(pool.stats().ready, 2);

    // Not idle long enough.
    assert!(pool.evict_idle(at(79, 999_000_000), 60_000).is_none());
    assert_eq!(pool.stats().ready, 2);
    // Idle for a minute: it goes.
    let gone = pool.evict_idle(at(80, 0), 60_000).unwrap();
    assert_eq!((gone.id, gone.state), (2, VmState::Stopping));
    assert_eq!(pool.stats().ready, 1);
    assert_eq!(pool.state_of(2), None);
    // The last available instance is the warm target: it stays, however idle.
    assert!(pool.evict_idle(at(100_000, 0), 60_000).is_none());
    assert_eq!(pool.state_of(1), Some(VmState::Ready));
    // An evicted identifier is retired like any other.
    assert!(pool.reconcile_with(2, at(100_000, 0)).is_none());
}
