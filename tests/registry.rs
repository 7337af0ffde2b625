use iroh_node::record::ProfileEvent;
use iroh_node::registry::{GossipEvent, GossipOutcome, GossipPayload, Registry, RegistryError};

fn rec(name: &str, cid: &str, at: i64) -> ProfileEvent {
    ProfileEvent::new(
        name.to_string(),
        "did:1".to_string(),
        cid.to_string(),
        at,
        format!("sig-{}", at),
    )
}

#[test]
fn older_update_is_rejected() {
    let mut reg = Registry::new();
    assert_eq!(reg.publish(rec("alice", "H", 100)), Ok(true));
    assert_eq!(reg.publish(rec("alice", "H2", 50)), Ok(false));
    let got = reg.lookup(&"alice".to_string()).unwrap();
    assert_eq!(got.updated_at, 100);
    assert_eq!(got.proof_cid, "H");
    assert_eq!(got.sig, "sig-100");
}

#[test]
fn newer_update_replaces() {
    let mut reg = Registry::new();
    reg.publish(rec("alice", "H", 100)).unwrap();
    assert_eq!(reg.publish(rec("alice", "H3", 101)), Ok(true));
    assert_eq!(reg.lookup(&"alice".to_string()).unwrap().proof_cid, "H3");
}

#[test]
fn tie_keeps_current() {
    let mut reg = Registry::new();
    reg.publish(rec("bob", "first", 7)).unwrap();
    assert_eq!(reg.merge(rec("bob", "second", 7)), false);
    assert_eq!(reg.lookup(&"bob".to_string()).unwrap().proof_cid, "first");
}

#[test]
fn empty_name_is_invalid() {
    let mut reg = Registry::new();
    assert_eq!(reg.publish(rec("", "H", 1)), Err(RegistryError::InvalidRecord));
    assert_eq!(reg.len(), 0);
}

#[test]
fn missing_name_is_not_found() {
    let reg = Registry::new();
    assert_eq!(reg.lookup(&"carol".to_string()).unwrap_err(), RegistryError::NotFound);
}

#[test]
fn repeated_and_reordered_delivery_converges() {
    let mut a = Registry::new();
    a.merge(rec("alice", "new", 10));
    a.merge(rec("alice", "old", 5));
    a.merge(rec("alice", "new", 10));
    let mut b = Registry::new();
    b.merge(rec("alice", "old", 5));
    b.merge(rec("alice", "new", 10));
    b.merge(rec("alice", "old", 5));
    let x = a.lookup(&"alice".to_string()).unwrap();
    let y = b.lookup(&"alice".to_string()).unwrap();
    assert_eq!(x.proof_cid, "new");
    assert_eq!(y.proof_cid, "new");
    assert_eq!(a.len(), 1);
    assert_eq!(b.len(), 1);
}

#[test]
fn two_nodes_exchanging_disjoint_names_agree() {
    let mine = vec![rec("alice", "a1", 1), rec("bob", "b1", 2)];
    let theirs = vec![rec("carol", "c1", 3), rec("dave", "d1", 4)];
    let mut here = Registry::new();
    let mut there = Registry::new();
    for r in &mine {
        here.publish(r.copy_value()).unwrap();
    }
    for r in &theirs {
        there.publish(r.copy_value()).unwrap();
    }
    for r in &theirs {
        here.apply_gossip(GossipEvent::Received(GossipPayload::Record(r.copy_value())));
    }
    for r in &mine {
        there.apply_gossip(GossipEvent::Received(GossipPayload::Record(r.copy_value())));
    }
    assert_eq!(here.len(), 4);
    assert_eq!(there.len(), 4);
    for name in ["alice", "bob", "carol", "dave"] {
        let x = here.lookup(&name.to_string()).unwrap();
        let y = there.lookup(&name.to_string()).unwrap();
        assert_eq!(x.proof_cid, y.proof_cid);
        assert_eq!(x.updated_at, y.updated_at);
    }
}

#[test]
fn gossip_events_other_than_records_change_nothing() {
    let mut reg = Registry::new();
    reg.publish(rec("alice", "H", 100)).unwrap();
    assert_eq!(reg.apply_gossip(GossipEvent::Received(GossipPayload::Unrecognized)), GossipOutcome::Ignored);
    assert_eq!(reg.apply_gossip(GossipEvent::Lagged), GossipOutcome::Lagged);
    assert_eq!(reg.apply_gossip(GossipEvent::NeighborUp([1u8; 32])), GossipOutcome::Membership);
    assert_eq!(reg.apply_gossip(GossipEvent::NeighborDown([1u8; 32])), GossipOutcome::Membership);
    assert_eq!(reg.apply_gossip(GossipEvent::Error), GossipOutcome::Failed);
    assert_eq!(reg.len(), 1);
    assert_eq!(reg.lookup(&"alice".to_string()).unwrap().proof_cid, "H");
}

#[test]
fn gossiped_record_with_empty_name_is_merged() {
    let mut reg = Registry::new();
    let ev = GossipEvent::Received(GossipPayload::Record(rec("", "X", 500)));
    assert_eq!(reg.apply_gossip(ev), GossipOutcome::Merged);
    assert_eq!(reg.lookup(&String::new()).unwrap().proof_cid, "X");
}

#[test]
fn gossip_record_outcomes() {
    let mut reg = Registry::new();
    let ev = |r: ProfileEvent| GossipEvent::Received(GossipPayload::Record(r));
    assert_eq!(reg.apply_gossip(ev(rec("erin", "e1", 3))), GossipOutcome::Merged);
    assert_eq!(reg.apply_gossip(ev(rec("erin", "e0", 2))), GossipOutcome::Stale);
    assert_eq!(reg.apply_gossip(ev(rec("erin", "e2", 4))), GossipOutcome::Merged);
    assert_eq!(reg.lookup(&"erin".to_string()).unwrap().proof_cid, "e2");
}

#[test]
fn reordered_delivery_with_distinct_timestamps_converges() {
    let records = vec![rec("alice", "a1", 1), rec("alice", "a2", 2), rec("bob", "b1", 5), rec("alice", "a3", 3)];
    let mut here = Registry::new();
    let mut there = Registry::new();
    for r in &records {
        here.merge(r.copy_value());
    }
    for i in [3usize, 2, 0, 1, 3, 0] {
        there.merge(records[i].copy_value());
    }
    there.merge(records[1].copy_value());
    for name in ["alice", "bob"] {
        let x = here.lookup(&name.to_string()).unwrap();
        let y = there.lookup(&name.to_string()).unwrap();
        assert_eq!(x.proof_cid, y.proof_cid);
    }
    assert_eq!(here.lookup(&"alice".to_string()).unwrap().proof_cid, "a3");
}

#[test]
fn equal_timestamps_in_other_order_diverge() {
    let mut here = Registry::new();
    let mut there = Registry::new();
    here.merge(rec("n", "first", 9));
    here.merge(rec("n", "second", 9));
    there.merge(rec("n", "second", 9));
    there.merge(rec("n", "first", 9));
    assert_eq!(here.lookup(&"n".to_string()).unwrap().proof_cid, "first");
    assert_eq!(there.lookup(&"n".to_string()).unwrap().proof_cid, "second");
}

#[test]
fn many_repeats_among_older_records_keep_the_newest() {
    let newest = || rec("alice", "new", 10);
    let mut a = Registry::new();
    for r in [rec("alice", "o1", 3), newest(), rec("alice", "o2", 9), newest(), newest()] {
        a.merge(r);
    }
    let mut b = Registry::new();
    for r in [newest(), rec("alice", "o2", 9), rec("alice", "o1", 3)] {
        b.merge(r);
    }
    assert_eq!(a.lookup(&"alice".to_string()).unwrap().proof_cid, "new");
    assert_eq!(b.lookup(&"alice".to_string()).unwrap().proof_cid, "new");
    assert_eq!(a.len(), 1);
    assert_eq!(b.len(), 1);
}
