use sse_bridge::dispatcher::delivery_targets;
use sse_bridge::errors::BridgeError;
use sse_bridge::registry::Registry;
use sse_bridge::routing_key::{MyString, RoutingKey};
use sse_bridge::sweeper::{shutdown_cancellations, SweepCycle};

fn key(s: &str) -> RoutingKey {
    RoutingKey::encode(&MyString(String::from(s))).unwrap()
}

// Drives one full sweep cycle: each connection's probe outcome is taken
// from `failing`, which names the outbound handles whose push fails,
// and every owed cancellation is issued with the given outcome.
fn run_sweep(
    reg: &mut Registry,
    failing: &[u64],
    cancel_outcome: Result<(), BridgeError>,
) -> Vec<String> {
    let mut cycle = SweepCycle::start(reg);
    while let Some(outbound) = cycle.next_probe() {
        if failing.contains(&outbound) {
            cycle.record_probe(Err(BridgeError::SendFailure));
        } else {
            cycle.record_probe(Ok(()));
        }
    }
    cycle.begin_evicting();
    let mut cancelled = Vec::new();
    while let Some(token) = cycle.next_cancellation() {
        cancelled.push(token);
        cycle.record_cancellation(cancel_outcome);
    }
    cycle.commit(reg);
    cancelled
}

#[test]
fn failing_connection_is_evicted_and_cancelled_once() {
    // register C1 and C2 under "orders"; make C2's outbound fail; after
    // one sweep cycle only C1 remains, and C2's token was cancelled
    // exactly once; a subsequent broadcast reaches only C1.
    let mut reg = Registry::new();
    let c1 = reg.register(key("orders"), 10, String::from("tag-1"), 0);
    reg.register(key("orders"), 11, String::from("tag-2"), 0);
    let cancelled = run_sweep(&mut reg, &[11], Ok(()));
    assert_eq!(cancelled, vec![String::from("tag-2")]);
    let snap = reg.snapshot();
    assert_eq!(snap.len(), 1);
    assert_eq!(snap[0].id, c1);
    let targets = delivery_targets(&reg, &MyString(String::from("orders"))).unwrap();
    assert_eq!(targets.len(), 1);
    assert_eq!(targets[0].outbound, 10);
}

#[test]
fn healthy_connections_survive_a_sweep() {
    let mut reg = Registry::new();
    reg.register(key("orders"), 10, String::from("tag-1"), 0);
    reg.register(key("invoices"), 11, String::from("tag-2"), 0);
    let cancelled = run_sweep(&mut reg, &[], Ok(()));
    assert!(cancelled.is_empty());
    assert_eq!(reg.len(), 2);
}

#[test]
fn cancel_failure_does_not_block_eviction() {
    let mut reg = Registry::new();
    reg.register(key("orders"), 10, String::from("tag-1"), 0);
    reg.register(key("orders"), 11, String::from("tag-2"), 0);
    let cancelled = run_sweep(&mut reg, &[10, 11], Err(BridgeError::CancelFailure));
    assert_eq!(
        cancelled,
        vec![String::from("tag-1"), String::from("tag-2")]
    );
    assert_eq!(reg.len(), 0);
}

#[test]
fn registration_during_sweep_is_not_lost() {
    // a client registered after the sweep's snapshot was taken, but
    // before the sweep commits, is present after the commit.
    let mut reg = Registry::new();
    reg.register(key("orders"), 10, String::from("tag-1"), 0);
    let mut cycle = SweepCycle::start(&reg);
    // the snapshot is taken; a new client arrives now
    let late = reg.register(key("orders"), 11, String::from("tag-2"), 1);
    // the snapshotted connection fails its probe
    while let Some(_outbound) = cycle.next_probe() {
        cycle.record_probe(Err(BridgeError::SendFailure));
    }
    cycle.begin_evicting();
    let mut cancelled = Vec::new();
    while let Some(token) = cycle.next_cancellation() {
        cancelled.push(token);
        cycle.record_cancellation(Ok(()));
    }
    cycle.commit(&mut reg);
    assert_eq!(cancelled, vec![String::from("tag-1")]);
    let snap = reg.snapshot();
    assert_eq!(snap.len(), 1);
    assert_eq!(snap[0].id, late);
    assert_eq!(snap[0].subscription_token, String::from("tag-2"));
}

#[test]
fn empty_registry_sweep_is_a_no_op() {
    let mut reg = Registry::new();
    let cancelled = run_sweep(&mut reg, &[], Ok(()));
    assert!(cancelled.is_empty());
    assert_eq!(reg.len(), 0);
}

#[test]
fn shutdown_drains_every_live_subscription() {
    let mut reg = Registry::new();
    reg.register(key("orders"), 10, String::from("tag-1"), 0);
    reg.register(key("invoices"), 11, String::from("tag-2"), 0);
    let tokens = shutdown_cancellations(&reg);
    assert_eq!(tokens, vec![String::from("tag-1"), String::from("tag-2")]);
}
