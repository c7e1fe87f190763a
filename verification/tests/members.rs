use bayard::client::{refresh_members, replica_addrs, shard_targets};
use bayard::index::shard::Shard;
use bayard::index::shards::Shards;
use bayard::cluster::member::Member;
use bayard::cluster::members::Members;
use bayard::cluster::membership::{apply_events_to, remote_members, MembershipEvent};
use bayard::cluster::metadata::Metadata;
use bayard::service::cluster::get_nodes;

fn member(addr: &str, grpc: &str, version: i64) -> Member {
    let mut m = Member::new_with_metadata(
        addr.to_string(),
        Metadata::new(Some(grpc.to_string()), None),
    );
    m.version = version;
    m
}

fn addrs(members: &Members) -> Vec<String> {
    members.iter().iter().map(|m| m.addr.clone()).collect()
}

fn sample_members() -> Members {
    Members::init(vec![
        member("0.0.0.0:9901", "0.0.0.0:9911", 1),
        member("0.0.0.0:9902", "0.0.0.0:9912", 1),
        member("0.0.0.0:9903", "0.0.0.0:9913", 1),
    ])
}

#[test]
fn init_collects_distinct_members_in_order() {
    let members = Members::init(vec![
        member("0.0.0.0:9901", "0.0.0.0:9911", 1),
        member("0.0.0.0:9902", "0.0.0.0:9912", 1),
        member("0.0.0.0:9901", "0.0.0.0:9911", 2),
    ]);
    assert_eq!(members.len(), 2);
    assert_eq!(addrs(&members), ["0.0.0.0:9901", "0.0.0.0:9902"]);
    assert_eq!(members.get("0.0.0.0:9901").unwrap().version, 1);
}

#[test]
fn push_reports_only_changes() {
    let mut members = Members::new();
    let added = members.push(member("0.0.0.0:9901", "0.0.0.0:9911", 1));
    assert_eq!(added.unwrap().addr, "0.0.0.0:9901");

    assert!(members.push(member("0.0.0.0:9901", "0.0.0.0:9911", 7)).is_none());
    assert_eq!(members.get("0.0.0.0:9901").unwrap().version, 1);

    let updated = members.push(member("0.0.0.0:9901", "0.0.0.0:9999", 7)).unwrap();
    assert_eq!(updated.version, 1);
    assert_eq!(
        updated.metadata.unwrap().grpc_address,
        Some("0.0.0.0:9999".to_string())
    );
    assert_eq!(members.len(), 1);
}

#[test]
fn remove_contains_and_get() {
    let mut members = sample_members();
    assert!(members.contains("0.0.0.0:9902"));
    let removed = members.remove("0.0.0.0:9902").unwrap();
    assert_eq!(removed.addr, "0.0.0.0:9902");
    assert!(!members.contains("0.0.0.0:9902"));
    assert!(members.get("0.0.0.0:9902").is_none());
    assert!(members.remove("0.0.0.0:9902").is_none());
    assert_eq!(addrs(&members), ["0.0.0.0:9901", "0.0.0.0:9903"]);
    assert!(!members.is_empty());
    assert!(Members::default().is_empty());
}

#[test]
fn lookups_are_distinct_members_that_do_not_depend_on_join_order() {
    let a = sample_members();
    let b = Members::init(vec![
        member("0.0.0.0:9903", "0.0.0.0:9913", 1),
        member("0.0.0.0:9901", "0.0.0.0:9911", 1),
        member("0.0.0.0:9902", "0.0.0.0:9912", 1),
    ]);
    for key in ["shard-1", "shard-2", "doc-42", ""] {
        let from_a: Vec<String> = a.lookup_members(key, 2).iter().map(|m| m.addr.clone()).collect();
        let from_b: Vec<String> = b.lookup_members(key, 2).iter().map(|m| m.addr.clone()).collect();
        assert_eq!(from_a, from_b);
        assert_eq!(from_a.len(), 2);
        assert_ne!(from_a[0], from_a[1]);
        assert_eq!(
            a.lookup_member(key).unwrap().addr,
            a.lookup_members(key, 1)[0].addr
        );
    }
    assert_eq!(a.lookup_members("shard-1", 10).len(), 3);
    assert!(Members::new().lookup_member("shard-1").is_none());
}

#[test]
fn removing_a_member_keeps_the_order_of_the_others() {
    let mut members = sample_members();
    let before: Vec<String> = members
        .lookup_members("shard-1", 3)
        .iter()
        .map(|m| m.addr.clone())
        .collect();
    let leaver = before[1].clone();
    members.remove(&leaver);
    let after: Vec<String> = members
        .lookup_members("shard-1", 3)
        .iter()
        .map(|m| m.addr.clone())
        .collect();
    let expected: Vec<String> = before.into_iter().filter(|a| *a != leaver).collect();
    assert_eq!(after, expected);
}

#[test]
fn rotate_node_cycles_through_the_top_members() {
    let mut members = sample_members();
    let top: Vec<String> = members
        .lookup_members("shard-1", 2)
        .iter()
        .map(|m| m.addr.clone())
        .collect();
    let mut seen = Vec::new();
    for _ in 0..4 {
        seen.push(members.rotate_node("shard-1", 2).unwrap().addr.clone());
    }
    assert_eq!(seen, [top[0].clone(), top[1].clone(), top[0].clone(), top[1].clone()]);
}

#[test]
fn clone_keeps_the_members() {
    let members = sample_members();
    let copy = members.clone();
    assert_eq!(addrs(&copy), addrs(&members));
}

#[test]
fn same_prefix_and_renew() {
    let a = member("0.0.0.0:9901", "0.0.0.0:9911", 1);
    let b = member("0.0.0.0:9901", "0.0.0.0:9999", 5);
    let c = member("0.0.0.0:9902", "0.0.0.0:9911", 1);
    assert!(a.has_same_prefix(&b));
    assert!(!a.has_same_prefix(&c));
    let renewed = a.renew().unwrap();
    assert_eq!(renewed.addr, a.addr);
    assert_eq!(renewed.metadata.unwrap().grpc_address, Some("0.0.0.0:9911".to_string()));
    assert!(Member::new("0.0.0.0:9901".to_string()).metadata.is_none());
}

#[test]
fn events_apply_most_recent_first_and_report_changes() {
    let mut members = Members::init(vec![member("0.0.0.0:9901", "0.0.0.0:9911", 1)]);
    let events = vec![
        MembershipEvent::MemberDown(member("0.0.0.0:9902", "0.0.0.0:9912", 1)),
        MembershipEvent::MemberUp(member("0.0.0.0:9902", "0.0.0.0:9912", 1)),
        MembershipEvent::Other,
    ];
    // The most recent event comes first: 9902 joins, then leaves.
    assert!(apply_events_to(&mut members, events));
    assert_eq!(addrs(&members), ["0.0.0.0:9901"]);

    let events = vec![
        MembershipEvent::MemberUp(member("0.0.0.0:9901", "0.0.0.0:9911", 3)),
        MembershipEvent::MemberDown(member("0.0.0.0:9909", "0.0.0.0:9919", 1)),
        MembershipEvent::Other,
    ];
    assert!(!apply_events_to(&mut members, events));
    assert_eq!(addrs(&members), ["0.0.0.0:9901"]);
}

#[test]
fn remote_members_leave_out_the_local_member() {
    let members = sample_members();
    let local = member("0.0.0.0:9902", "0.0.0.0:9912", 1);
    let remote: Vec<String> = remote_members(&members, &local)
        .iter()
        .map(|m| m.addr.clone())
        .collect();
    assert_eq!(remote, ["0.0.0.0:9901", "0.0.0.0:9903"]);

    let other_version = member("0.0.0.0:9902", "0.0.0.0:9912", 2);
    assert_eq!(remote_members(&members, &other_version).len(), 3);
}

#[test]
fn replicas_and_targets_follow_the_ranking() {
    let members = sample_members();
    let expected: Vec<String> = members
        .lookup_members("s1", 2)
        .iter()
        .map(|m| m.addr.clone())
        .collect();
    assert_eq!(replica_addrs(&members, "s1", 2), expected);
    assert_eq!(replica_addrs(&members, "s1", 0), Vec::<String>::new());

    let shards = Shards::init(vec![Shard::new("s1".to_string()), Shard::new("s2".to_string())]);
    let targets = shard_targets(&shards, &members, 2);
    assert_eq!(targets.len(), 2);
    assert_eq!(targets[0].shard_id, "s1");
    assert_eq!(targets[0].addrs, expected);
    assert_eq!(targets[1].shard_id, "s2");
    assert_eq!(targets[1].addrs, replica_addrs(&members, "s2", 2));
}

#[test]
fn refreshing_members_adds_the_reachable_and_drops_the_missing() {
    let mut current = sample_members();
    let received = Members::init(vec![
        member("0.0.0.0:9901", "0.0.0.0:9911", 1),
        member("0.0.0.0:9904", "0.0.0.0:9914", 1),
    ]);
    let accepted = vec![member("0.0.0.0:9904", "0.0.0.0:9914", 1)];
    let left = refresh_members(&mut current, accepted, &received);
    assert_eq!(left, ["0.0.0.0:9902", "0.0.0.0:9903"]);
    assert_eq!(addrs(&current), ["0.0.0.0:9901", "0.0.0.0:9904"]);
}

#[test]
fn get_nodes_lists_the_local_member_first() {
    let members = sample_members();
    let local = Member::new("0.0.0.0:9902".to_string());
    let mut local = local;
    local.version = 1;
    local.metadata = Some(Metadata::new(Some("0.0.0.0:9912".to_string()), None));
    let nodes = get_nodes(&local, &members);
    let listed: Vec<&str> = nodes.iter().map(|n| n.address.as_str()).collect();
    assert_eq!(listed, ["0.0.0.0:9902", "0.0.0.0:9901", "0.0.0.0:9903"]);
    let first = nodes[0].metadata.as_ref().unwrap();
    assert_eq!(first.grpc_address, "0.0.0.0:9912");
    assert_eq!(first.http_address, "");

    let bare = Member::new("0.0.0.0:9999".to_string());
    let nodes = get_nodes(&bare, &members);
    assert_eq!(nodes.len(), 4);
    assert!(nodes[0].metadata.is_none());
    assert_eq!(nodes[3].metadata.as_ref().unwrap().grpc_address, "0.0.0.0:9913");
}
