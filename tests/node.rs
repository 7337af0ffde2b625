use iroh_node::node::{Node, PublishReport, Replication, TopicState};
use iroh_node::record::ProfileEvent;
use iroh_node::registry::RegistryError;
use iroh_node::replication::{QueueError, ReplicationQueue};
use iroh_node::router::{ProtocolHandler, ProtocolRouter, RouterError};
use iroh_node::topic::{registry_topic, topic_id, REGISTRY_TOPIC_NAME};
use iroh_node::digest::ContentHash;

fn rec(name: &str, at: i64) -> ProfileEvent {
    ProfileEvent::new(name.to_string(), "did:1".to_string(), "H".to_string(), at, "s".to_string())
}

#[test]
fn node_without_topic_serves_local_api() {
    let mut node = Node::new(4);
    node.set_joined(false);
    let report = node.publish(rec("alice", 100), b"msg".to_vec()).unwrap();
    assert_eq!(report, PublishReport { replaced: true, replication: Replication::Offline });
    assert_eq!(node.lookup(&"alice".to_string()).unwrap().updated_at, 100);
    assert_eq!(node.next_outgoing(), None);
}

#[test]
fn joined_node_queues_broadcasts_in_order() {
    let mut node = Node::new(2);
    node.set_joined(true);
    assert_eq!(node.topic_state(), TopicState::Joined);
    assert_eq!(node.publish(rec("a", 1), b"one".to_vec()).unwrap().replication, Replication::Queued);
    assert_eq!(node.publish(rec("b", 1), b"two".to_vec()).unwrap().replication, Replication::Queued);
    let third = node.publish(rec("c", 1), b"three".to_vec()).unwrap();
    assert_eq!(third.replication, Replication::QueueFull);
    assert_eq!(node.lookup(&"c".to_string()).unwrap().updated_at, 1);
    assert_eq!(node.next_outgoing(), Some(b"one".to_vec()));
    assert_eq!(node.next_outgoing(), Some(b"two".to_vec()));
    assert_eq!(node.next_outgoing(), None);
}

#[test]
fn broadcasts_wait_while_joining() {
    let mut node = Node::new(2);
    assert_eq!(node.topic_state(), TopicState::Joining);
    let report = node.publish(rec("early", 5), b"early".to_vec()).unwrap();
    assert_eq!(report.replication, Replication::Queued);
    node.set_joined(true);
    assert_eq!(node.next_outgoing(), Some(b"early".to_vec()));
}

#[test]
fn node_refuses_invalid_record() {
    let mut node = Node::new(2);
    node.set_joined(true);
    assert_eq!(node.publish(rec("", 1), b"x".to_vec()).unwrap_err(), RegistryError::InvalidRecord);
    assert_eq!(node.next_outgoing(), None);
}

#[test]
fn queue_reports_full() {
    let mut q = ReplicationQueue::new(1);
    assert_eq!(q.capacity(), 1);
    assert_eq!(q.enqueue(vec![1]), Ok(()));
    assert_eq!(q.enqueue(vec![2]), Err(QueueError::QueueFull));
    assert_eq!(q.len(), 1);
    assert_eq!(q.dequeue(), Some(vec![1]));
    assert_eq!(q.dequeue(), None);
}

#[test]
fn router_dispatches_by_protocol() {
    let router = ProtocolRouter::new()
        .accept(b"/blobs/1".to_vec(), ProtocolHandler::Blobs)
        .accept(b"/gossip/1".to_vec(), ProtocolHandler::Gossip);
    assert_eq!(router.dispatch(b"/blobs/1"), Ok(ProtocolHandler::Blobs));
    assert_eq!(router.dispatch(b"/gossip/1"), Ok(ProtocolHandler::Gossip));
    assert_eq!(router.dispatch(b"/other"), Err(RouterError::UnknownProtocol));
    let router = router.accept(b"/blobs/1".to_vec(), ProtocolHandler::Gossip);
    assert_eq!(router.dispatch(b"/blobs/1"), Ok(ProtocolHandler::Gossip));
}

#[test]
fn registry_topic_is_digest_of_its_name() {
    assert_eq!(REGISTRY_TOPIC_NAME, "did_profile_registry");
    assert_eq!(registry_topic(), ContentHash::of(b"did_profile_registry"));
    assert_eq!(topic_id("did_profile_registry"), registry_topic());
    assert_ne!(topic_id("another"), registry_topic());
}
