use bayard::node::index::extract_index_name;
use bayard::node::NodeErrorKind;
use bayard::cluster::member::Member;
use bayard::cluster::members::Members;
use bayard::cluster::message::MessageKind;
use bayard::cluster::metadata::Metadata as MemberMetadata;
use bayard::index::metadata::Metadata;
use bayard::index::shard::Shard;
use bayard::index::shards::Shards;
use bayard::proto::index::sort::Order;
use bayard::proto::index::CollectionKind;
use bayard::node::{
    assign_shard, assign_shards, is_assigned_shard, merge_index_metadata, not_listed,
    plan_message, plan_search, shard_id_list, SortFieldInfo, SortFieldType, SortRequest,
};

#[test]
fn test_extract_index_name() {
    let index_name = extract_index_name("/tmp/indices/test_index").unwrap();
    assert_eq!(&index_name, "test_index");

    let index_name = extract_index_name("/tmp/indices/test_index/").unwrap();
    assert_eq!(&index_name, "test_index");

    let index_name = extract_index_name("/tmp/indices/test_index/shards").unwrap();
    assert_eq!(&index_name, "test_index");

    let index_name = extract_index_name("/tmp/indices/test_index/shards/").unwrap();
    assert_eq!(&index_name, "test_index");

    let index_name = extract_index_name("/tmp/indices/test_index/shards/test_shard").unwrap();
    assert_eq!(&index_name, "test_index");

    let index_name = extract_index_name("/tmp/indices/test_index/shards/test_shard/").unwrap();
    assert_eq!(&index_name, "test_index");

    let index_name = extract_index_name("/tmp/indices/test_index/shards/test_shard/meta.json").unwrap();
    assert_eq!(&index_name, "test_index");

    let index_name = extract_index_name("/tmp/tmp2/indices/test_index").unwrap();
    assert_eq!(&index_name, "test_index");

    let index_name = extract_index_name("/tmp/tmp2/indices/test_index/").unwrap();
    assert_eq!(&index_name, "test_index");

    let index_name = extract_index_name("/tmp/tmp2/indices/test_index/shards").unwrap();
    assert_eq!(&index_name, "test_index");

    let index_name = extract_index_name("/tmp/tmp2/indices/test_index/shards/").unwrap();
    assert_eq!(&index_name, "test_index");

    let index_name = extract_index_name("/tmp/tmp2/indices/test_index/shards/test_shard").unwrap();
    assert_eq!(&index_name, "test_index");

    let index_name = extract_index_name("/tmp/tmp2/indices/test_index/shards/test_shard/").unwrap();
    assert_eq!(&index_name, "test_index");

    let index_name = extract_index_name("/tmp/tmp2/indices/test_index/shards/test_shard/meta.json").unwrap();
    assert_eq!(&index_name, "test_index");

    let index_name = extract_index_name("/indices/test_index").unwrap();
    assert_eq!(&index_name, "test_index");

    let index_name = extract_index_name("/indices/test_index/").unwrap();
    assert_eq!(&index_name, "test_index");

    let index_name = extract_index_name("/indices/test_index/shards").unwrap();
    assert_eq!(&index_name, "test_index");

    let index_name = extract_index_name("/indices/test_index/shards/").unwrap();
    assert_eq!(&index_name, "test_index");

    let index_name = extract_index_name("/indices/test_index/shards/test_shard").unwrap();
    assert_eq!(&index_name, "test_index");

    let index_name = extract_index_name("/indices/test_index/shards/test_shard/").unwrap();
    assert_eq!(&index_name, "test_index");

    let index_name = extract_index_name("/indices/test_index/shards/test_shard/meta.json").unwrap();
    assert_eq!(&index_name, "test_index");
}

#[test]
fn extract_index_name_takes_the_last_indices_component() {
    let index_name = extract_index_name("/data/indices/old/indices/new/shards").unwrap();
    assert_eq!(&index_name, "new");
}

#[test]
fn extract_index_name_rejects_paths_outside_indices() {
    let error = extract_index_name("/tmp/other/test_index").unwrap_err();
    assert_eq!(error.kind(), NodeErrorKind::InvalidPath);

    let error = extract_index_name("/tmp/indices/").unwrap_err();
    assert_eq!(error.kind(), NodeErrorKind::InvalidPath);
}


fn cluster() -> Members {
    Members::init(vec![
        Member::new_with_metadata("10.0.0.1:9901".to_string(), MemberMetadata::default()),
        Member::new_with_metadata("10.0.0.2:9901".to_string(), MemberMetadata::default()),
        Member::new_with_metadata("10.0.0.3:9901".to_string(), MemberMetadata::default()),
    ])
}

fn shards(ids: &[&str]) -> Shards {
    Shards::init(ids.iter().map(|id| Shard::new(id.to_string())).collect())
}

#[test]
fn a_shard_is_assigned_to_its_top_replicas() {
    let members = cluster();
    for shard_id in ["s1", "s2", "s3", "s4"] {
        let holders: Vec<String> = members
            .lookup_members(shard_id, 2)
            .iter()
            .map(|m| m.addr.clone())
            .collect();
        for m in members.iter() {
            assert_eq!(
                is_assigned_shard(&members, shard_id, 2, &m.addr),
                holders.contains(&m.addr)
            );
        }
        assert!(!is_assigned_shard(&members, shard_id, 2, "10.0.0.9:9901"));
        assert!(!is_assigned_shard(&members, shard_id, 0, &holders[0]));
    }
}

#[test]
fn assignment_splits_the_shards_of_an_index() {
    let members = cluster();
    let index_shards = shards(&["s1", "s2", "s3", "s4", "s5"]);
    let mut total = 0;
    for m in members.iter() {
        let assignment = assign_shards(&index_shards, &members, 2, &m.addr);
        assert_eq!(assignment.assigned.len() + assignment.unassigned.len(), 5);
        for id in &assignment.assigned {
            assert!(is_assigned_shard(&members, id, 2, &m.addr));
        }
        for id in &assignment.unassigned {
            assert!(!is_assigned_shard(&members, id, 2, &m.addr));
        }
        total += assignment.assigned.len();
    }
    // Each shard lives on exactly two of the three members.
    assert_eq!(total, 10);
}

#[test]
fn stale_names_are_those_no_longer_listed() {
    let held = vec!["a".to_string(), "b".to_string(), "c".to_string()];
    let known = shard_id_list(&shards(&["b", "d"]));
    assert_eq!(known, ["b", "d"]);
    assert_eq!(not_listed(&held, &known), ["a", "c"]);
    assert_eq!(not_listed(&held, &held), Vec::<String>::new());
}

#[test]
fn message_steps() {
    let steps = plan_message(MessageKind::CreateIndex, false, false);
    assert!(steps.create_index_dir && steps.write_metadata && !steps.remove_metadata);
    let steps = plan_message(MessageKind::CreateIndex, true, true);
    assert!(!steps.create_index_dir && !steps.write_metadata && !steps.remove_metadata);
    let steps = plan_message(MessageKind::DeleteIndex, true, true);
    assert!(!steps.create_index_dir && !steps.write_metadata && steps.remove_metadata);
    let steps = plan_message(MessageKind::DeleteIndex, true, false);
    assert!(!steps.remove_metadata);
    let steps = plan_message(MessageKind::ModifyIndex, true, true);
    assert!(!steps.create_index_dir && steps.write_metadata && !steps.remove_metadata);
    let steps = plan_message(MessageKind::ModifyIndex, false, false);
    assert!(!steps.write_metadata);
    let steps = plan_message(MessageKind::Unknown, false, false);
    assert!(!steps.create_index_dir && !steps.write_metadata && !steps.remove_metadata);
}

fn metadata(threads: usize, mem: usize, replicas: usize, ids: &[&str]) -> Metadata<(), (), ()> {
    Metadata::new_with_shards((), (), (), threads, mem, replicas, ids.len(), shards(ids)).unwrap()
}

#[test]
fn merging_index_metadata_takes_the_requested_counts() {
    let mut current = metadata(1, 100, 1, &["a", "b", "c"]);
    let requested = metadata(2, 100, 3, &["x"]);
    assert_eq!(merge_index_metadata(&mut current, &requested).unwrap(), true);
    assert_eq!(current.writer_threads().unwrap(), 2);
    assert_eq!(current.writer_mem_size().unwrap(), 100);
    assert_eq!(current.num_replicas().unwrap(), 3);
    assert_eq!(current.num_shards().unwrap(), 1);
    let ids: Vec<String> = current.shards().unwrap().iter().iter().map(|s| s.id.clone()).collect();
    assert_eq!(ids, ["a"]);

    let same = metadata(2, 100, 3, &["y"]);
    assert_eq!(merge_index_metadata(&mut current, &same).unwrap(), false);
}

#[test]
fn merging_a_zero_count_is_refused() {
    let mut current = metadata(1, 100, 1, &["a"]);
    let requested = metadata(1, 0, 1, &["a"]);
    let error = merge_index_metadata(&mut current, &requested).unwrap_err();
    assert_eq!(error.kind(), bayard::node::NodeErrorKind::MetadataError);
}

#[test]
fn documents_go_to_the_top_shard() {
    let index_shards = shards(&["s1", "s2", "s3"]);
    let expected = index_shards.lookup_shard("doc-1").unwrap().id.clone();
    let shard = assign_shard(&Some(index_shards), "doc-1").unwrap();
    assert_eq!(shard.id, expected);

    let error = assign_shard(&None, "doc-1").unwrap_err();
    assert_eq!(error.kind(), bayard::node::NodeErrorKind::ShardNotFound);
    let error = assign_shard(&Some(Shards::new()), "doc-1").unwrap_err();
    assert_eq!(error.kind(), bayard::node::NodeErrorKind::ShardNotFound);
}

#[test]
fn search_plans() {
    let plan = plan_search(1, None).unwrap();
    assert_eq!(plan.kind, CollectionKind::CountAndTopDocs);
    assert!(plan.sort_by.is_none());

    let info = |field_type, is_fast| SortFieldInfo {
        field_type,
        is_fast,
        type_text: format!("{:?}/{}", field_type, is_fast),
    };
    let request = |field: Option<SortFieldInfo>, order| SortRequest {
        name: "price".to_string(),
        field,
        order,
    };
    let fast_i64 = info(SortFieldType::I64, true);
    let plan = plan_search(3, Some(request(Some(fast_i64.clone()), 2))).unwrap();
    assert_eq!(plan.kind, CollectionKind::TopDocs);
    let by = plan.sort_by.unwrap();
    assert_eq!(by.field_type, SortFieldType::I64);
    assert_eq!(by.order, Order::Desc);

    let error = plan_search(9, None).unwrap_err();
    assert_eq!(error.kind(), NodeErrorKind::SearchFailre);
    assert_eq!(error.source_text(), "Collection kind not found.");
    let error = plan_search(1, Some(request(None, 1))).unwrap_err();
    assert_eq!(error.kind(), NodeErrorKind::IndexSearchFailure);
    assert_eq!(error.source_text(), "Sort field \"price\" does not exist.");
    let slow = info(SortFieldType::U64, false);
    let error = plan_search(1, Some(request(Some(slow), 1))).unwrap_err();
    assert_eq!(error.kind(), NodeErrorKind::SearchFailre);
    assert_eq!(error.source_text(), "Sort fields U64/false must be fast field.");
    let text = info(SortFieldType::Other, true);
    let error = plan_search(1, Some(request(Some(text), 1))).unwrap_err();
    assert_eq!(error.kind(), NodeErrorKind::SearchFailre);
    assert_eq!(error.source_text(), "Sort field \"price\" is not supported.");
    let error = plan_search(1, Some(request(Some(fast_i64.clone()), 0))).unwrap_err();
    assert_eq!(error.kind(), NodeErrorKind::SearchFailre);
    assert_eq!(error.source_text(), "Sort field \"price\" is not supported.");
    let error = plan_search(1, Some(request(Some(fast_i64), -7))).unwrap_err();
    assert_eq!(error.kind(), NodeErrorKind::SearchFailre);
    assert_eq!(error.source_text(), "Sort order -7 is not supported.");
}
