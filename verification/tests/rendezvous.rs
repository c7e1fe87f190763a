use std::collections::hash_map::DefaultHasher;
use std::collections::HashMap;
use std::hash::{Hash, Hasher};
use bayard::rendezvous::hash::{DefaultNodeHasher, NodeHasher, RendezvousNodes};
use bayard::rendezvous::node::{IdNode, KeyValueNode};

fn ids<'a>(nodes: &[&'a String]) -> Vec<&'a str> {
    nodes.iter().map(|n| n.as_str()).collect()
}

fn sample_nodes() -> RendezvousNodes<String, DefaultNodeHasher> {
    let mut nodes = RendezvousNodes::default();
    nodes.insert("foo".to_string());
    nodes.insert("bar".to_string());
    nodes.insert("baz".to_string());
    nodes.insert("qux".to_string());
    nodes
}

#[test]
fn it_works() {
    let mut nodes = sample_nodes();
    assert_eq!(ids(&nodes.calc_candidates(&1)), ["bar", "baz", "foo", "qux"]);
    assert_eq!(ids(&nodes.calc_candidates("key")), ["qux", "bar", "foo", "baz"]);

    nodes.remove("baz");
    assert_eq!(ids(&nodes.calc_candidates(&1)), ["bar", "foo", "qux"]);
    assert_eq!(ids(&nodes.calc_candidates("key")), ["qux", "bar", "foo"]);

    nodes.remove("bar");
    assert_eq!(ids(&nodes.calc_candidates(&1)), ["foo", "qux"]);
    assert_eq!(ids(&nodes.calc_candidates("key")), ["qux", "foo"]);

    nodes.insert("bar".to_string());
    nodes.insert("baz".to_string());
    let mut counts = HashMap::new();
    for item in 0..1000 {
        let node = nodes.calc_candidates(&item)[0];
        *counts.entry(node.to_string()).or_insert(0) += 1;
    }
    assert_eq!(counts["foo"], 246);
    assert_eq!(counts["bar"], 266);
    assert_eq!(counts["baz"], 237);
    assert_eq!(counts["qux"], 251);
}

#[test]
fn kv_nodes() {
    let mut nodes = RendezvousNodes::default();
    nodes.insert(KeyValueNode::new("foo".to_string(), ()));
    nodes.insert(KeyValueNode::new("bar".to_string(), ()));
    nodes.insert(KeyValueNode::new("baz".to_string(), ()));
    nodes.insert(KeyValueNode::new("qux".to_string(), ()));
    assert_eq!(
        nodes
            .calc_candidates(&1)
            .iter()
            .map(|n| n.key.as_str())
            .collect::<Vec<_>>(),
        ["bar", "baz", "foo", "qux"]
    );
    assert_eq!(
        nodes
            .calc_candidates("key")
            .iter()
            .map(|n| n.key.as_str())
            .collect::<Vec<_>>(),
        ["qux", "bar", "foo", "baz"]
    );
}

#[test]
fn calc_top_n_candidates() {
    let nodes = sample_nodes();
    assert_eq!(ids(&nodes.calc_top_n_candidates(&1, 1)), ["bar"]);
    assert_eq!(ids(&nodes.calc_top_n_candidates(&1, 2)), ["bar", "baz"]);
    assert_eq!(ids(&nodes.calc_top_n_candidates(&1, 3)), ["bar", "baz", "foo"]);
    assert_eq!(ids(&nodes.calc_top_n_candidates(&1, 4)), ["bar", "baz", "foo", "qux"]);
    assert_eq!(ids(&nodes.calc_top_n_candidates(&1, 5)), ["bar", "baz", "foo", "qux"]);
}

#[test]
fn rotate_candidate() {
    let mut nodes = sample_nodes();
    assert_eq!(nodes.rotate_candidate(&1, 3).map(|n| n.as_str()), Some("bar"));
    assert_eq!(nodes.rotate_candidate(&1, 3).map(|n| n.as_str()), Some("baz"));
    assert_eq!(nodes.rotate_candidate(&1, 3).map(|n| n.as_str()), Some("foo"));
    assert_eq!(nodes.rotate_candidate(&1, 3).map(|n| n.as_str()), Some("bar"));
    assert_eq!(nodes.rotate_candidate(&1, 3).map(|n| n.as_str()), Some("baz"));
    assert_eq!(nodes.rotate_candidate(&1, 3).map(|n| n.as_str()), Some("foo"));
}

#[test]
fn id_nodes_rank_like_their_identifiers() {
    let mut nodes = RendezvousNodes::default();
    for id in ["foo", "bar", "baz", "qux"] {
        nodes.insert(IdNode::new(id.to_string()));
    }
    assert_eq!(
        nodes
            .calc_candidates("key")
            .iter()
            .map(|n| n.get().as_str())
            .collect::<Vec<_>>(),
        ["qux", "bar", "foo", "baz"]
    );
}

#[test]
fn top_n_candidates_are_a_prefix_of_the_candidates() {
    let nodes = sample_nodes();
    assert_eq!(ids(&nodes.calc_top_n_candidates("key", 0)), Vec::<&str>::new());
    assert_eq!(ids(&nodes.calc_top_n_candidates("key", 1)), ["qux"]);
    assert_eq!(ids(&nodes.calc_top_n_candidates("key", 2)), ["qux", "bar"]);
    assert_eq!(ids(&nodes.calc_top_n_candidates("key", 3)), ["qux", "bar", "foo"]);
    assert_eq!(ids(&nodes.calc_top_n_candidates("key", 5)), ["qux", "bar", "foo", "baz"]);
}

#[test]
fn rotate_candidate_cycles_through_the_top_candidates() {
    let mut nodes = sample_nodes();
    let mut seen = Vec::new();
    for _ in 0..6 {
        seen.push(nodes.rotate_candidate("key", 3).unwrap().clone());
    }
    assert_eq!(seen, ["qux", "bar", "foo", "qux", "bar", "foo"]);
}

#[test]
fn insertion_order_does_not_change_the_ranking() {
    let mut nodes = RendezvousNodes::default();
    nodes.insert("qux".to_string());
    nodes.insert("baz".to_string());
    nodes.insert("foo".to_string());
    nodes.insert("bar".to_string());
    assert_eq!(ids(&nodes.calc_candidates("key")), ["qux", "bar", "foo", "baz"]);
}

#[test]
fn inserting_an_existing_identifier_replaces_the_node() {
    let mut nodes = sample_nodes();
    let replaced = nodes.insert("foo".to_string());
    assert_eq!(replaced, Some("foo".to_string()));
    assert_eq!(nodes.len(), 4);
    assert_eq!(nodes.insert("quux".to_string()), None);
    assert_eq!(nodes.len(), 5);
}

#[test]
fn remove_contains_len_and_clear() {
    let mut nodes = sample_nodes();
    assert!(nodes.contains("bar"));
    assert_eq!(nodes.remove("bar"), Some("bar".to_string()));
    assert!(!nodes.contains("bar"));
    assert_eq!(nodes.remove("bar"), None);
    assert_eq!(nodes.len(), 3);
    assert!(!nodes.is_empty());
    nodes.clear();
    assert!(nodes.is_empty());
    assert_eq!(nodes.calc_candidates("key").len(), 0);
}

#[test]
fn default_hasher_feeds_the_item_then_the_node() {
    let mut hasher = DefaultHasher::new();
    "key".hash(&mut hasher);
    "foo".hash(&mut hasher);
    let expected = hasher.finish();
    assert_eq!(DefaultNodeHasher::new().hash("foo", "key"), expected);
}

#[test]
fn default_hasher_feeds_an_integer_item_then_the_node() {
    let mut hasher = DefaultHasher::new();
    7i32.hash(&mut hasher);
    "foo".hash(&mut hasher);
    let expected = hasher.finish();
    assert_eq!(DefaultNodeHasher::new().hash("foo", &7i32), expected);
}
