use tynkerbase_client::deploy::Node;
use tynkerbase_client::liveness::{reduce_liveness, status_label};

#[test]
fn liveness_has_each_identifier_once() {
    let nodes = vec![Node::new("n1", "a", "1.1.1.1"), Node::new("n2", "b", "2.2.2.2"), Node::new("n3", "c", "x")];
    let states = reduce_liveness(&nodes, &vec![true, false, true]);
    assert_eq!(states.len(), 3);
    assert_eq!(states.get("n1"), Some(true));
    assert_eq!(states.get("n2"), Some(false));
    assert_eq!(states.get("n3"), Some(true));
    assert_eq!(states.get("n4"), None);
    assert_eq!(status_label(&states, "n1"), "active");
    assert_eq!(status_label(&states, "n2"), "inactive");
    assert_eq!(status_label(&states, "n4"), "inactive");
}

#[test]
fn liveness_of_empty_registry_is_empty() {
    let states = reduce_liveness(&vec![], &vec![]);
    assert_eq!(states.len(), 0);
}

#[test]
fn liveness_duplicate_identifier_last_probe_wins() {
    let nodes = vec![Node::new("n1", "a", "1.1.1.1"), Node::new("n1", "b", "2.2.2.2")];
    let states = reduce_liveness(&nodes, &vec![true, false]);
    assert_eq!(states.len(), 1);
    assert_eq!(states.get("n1"), Some(false));
}
