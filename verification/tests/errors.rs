use bayard::index::analyzer::analyzer_kinds;
use bayard::client::route_documents;
use bayard::index::shard::Shard;
use bayard::index::shards::Shards;
use bayard::client::{ClientErrorKind, MergeOrder, merge_order, result_window, shard_hits};
use bayard::cluster::membership::MembershipErrorKind;
use bayard::cluster::message::MessageErrorKind;
use bayard::index::analyzer::AnalyzerErrorKind;
use bayard::index::metadata::MetadataErrorKind;
use bayard::index::metastore::{plan_metastore_event, FileEvent, MetastoreAction, MetastoreErrorKind};
use bayard::node::NodeErrorKind;
use bayard::search::query::QueryFactoryErrorKind;
use bayard::service::healthcheck::{HealthCheckService, LivenessState, ReadinessState};
use bayard::service::ServiceErrorKind;

#[test]
fn context_replaces_the_description_and_heads_the_causes() {
    let error = ClientErrorKind::MetadataNotFound.with_error("no metadata".to_string());
    assert_eq!(error.kind(), ClientErrorKind::MetadataNotFound);
    assert_eq!(error.source_text(), "no metadata");
    assert!(error.cause_texts().is_empty());
    let error = error.add_context("lookup").add_context("search");
    assert_eq!(error.kind(), ClientErrorKind::MetadataNotFound);
    assert_eq!(error.source_text(), "search");
    assert_eq!(error.cause_texts(), ["lookup", "no metadata"]);

    let error = MembershipErrorKind::BroadcastFailure.with_error("full".to_string()).add_context("x");
    assert_eq!(error.kind(), MembershipErrorKind::BroadcastFailure);
    assert_eq!(error.source_text(), "x");
    assert_eq!(error.cause_texts(), ["full"]);

    let error = MessageErrorKind::ReadError.with_error("eof".to_string()).add_context("read");
    assert_eq!(error.kind(), MessageErrorKind::ReadError);
    assert_eq!(error.source_text(), "read");
    assert_eq!(error.cause_texts(), ["eof"]);

    let error = AnalyzerErrorKind::ParseFailure.with_error(String::new()).add_context("a");
    assert_eq!(error.kind(), AnalyzerErrorKind::ParseFailure);
    assert_eq!(error.source_text(), "a");
    assert_eq!(error.cause_texts(), [""]);

    let error = MetadataErrorKind::SaveFailure.with_error("disk".to_string());
    assert_eq!(error.message(), "MetadataError(kind=SaveFailure, source=disk)");
    let error = error.add_context("meta.json");
    assert_eq!(error.source_text(), "meta.json");
    assert_eq!(error.message(), "MetadataError(kind=SaveFailure, source=meta.json)");

    let error = MetastoreErrorKind::DirectoryReadFailure.with_error("gone".to_string());
    assert_eq!(error.kind(), MetastoreErrorKind::DirectoryReadFailure);

    let error = NodeErrorKind::IndexNotFound.with_error("missing".to_string()).add_context("opening index");
    assert_eq!(error.kind(), NodeErrorKind::IndexNotFound);
    assert_eq!(error.source_text(), "opening index");
    assert_eq!(error.cause_texts(), ["missing"]);

    let error = QueryFactoryErrorKind::CreateError.with_error("bad".to_string());
    assert_eq!(error.kind(), QueryFactoryErrorKind::CreateError);

    let error = ServiceErrorKind::GetReplicasFailure.with_error("none".to_string()).add_context("s");
    assert_eq!(error.kind(), ServiceErrorKind::GetReplicasFailure);
    assert_eq!(error.source_text(), "s");
    assert_eq!(error.cause_texts(), ["none"]);
}

#[test]
fn health_checks_answer_alive_and_ready() {
    let service = HealthCheckService::new();
    assert_eq!(service.liveness(), LivenessState::Alive);
    assert_eq!(service.readiness(), ReadinessState::Ready);
    assert_eq!(HealthCheckService::default().liveness(), LivenessState::Alive);
}

#[test]
fn merge_orders() {
    assert_eq!(merge_order(None).unwrap(), MergeOrder::ByScore);
    assert_eq!(merge_order(Some(1)).unwrap(), MergeOrder::Ascending);
    assert_eq!(merge_order(Some(2)).unwrap(), MergeOrder::Descending);
    assert_eq!(merge_order(Some(0)).unwrap_err(), "Unsupported sort order: 0");
    assert_eq!(merge_order(Some(5)).unwrap_err(), "Failed to parse sort order: 5");
    assert_eq!(merge_order(Some(-12)).unwrap_err(), "Failed to parse sort order: -12");
}

#[test]
fn result_windows() {
    assert_eq!(result_window(10, 0, 3), (0, 3));
    assert_eq!(result_window(10, 8, 3), (8, 10));
    assert_eq!(result_window(10, 7, 3), (7, 10));
    assert_eq!(result_window(10, 10, 3), (10, 10));
    assert_eq!(result_window(0, 0, 0), (0, 0));
    assert_eq!(result_window(10, 2, -1), (2, 10));
    assert_eq!(result_window(10, 2, i32::MAX), (2, 10));
    assert_eq!(shard_hits(5, 10), 15);
}

#[test]
fn metastore_events() {
    let path = "/data/indices/books/meta.json";
    match plan_metastore_event(path, FileEvent::Written) {
        MetastoreAction::Load(name) => assert_eq!(name, "books"),
        other => panic!("unexpected {:?}", other),
    }
    match plan_metastore_event(path, FileEvent::Removed) {
        MetastoreAction::Remove(name) => assert_eq!(name, "books"),
        other => panic!("unexpected {:?}", other),
    }
    assert!(matches!(plan_metastore_event(path, FileEvent::Other), MetastoreAction::Ignore));
    assert!(matches!(
        plan_metastore_event("/data/indices/books/shards/s1/meta.json", FileEvent::Written),
        MetastoreAction::Ignore
    ));
    assert!(matches!(
        plan_metastore_event("/data/indices/books/meta.json.tmp", FileEvent::Written),
        MetastoreAction::Ignore
    ));
}

#[test]
fn documents_are_routed_to_their_top_shard() {
    let shards = Shards::init(vec![
        Shard::new("s1".to_string()),
        Shard::new("s2".to_string()),
        Shard::new("s3".to_string()),
    ]);
    let ids = vec![Some("doc-1".to_string()), None, Some("doc-2".to_string())];
    let routes = route_documents(&shards, &ids);
    assert_eq!(routes.len(), 3);
    assert_eq!(routes[0], Some(shards.lookup_shard("doc-1").unwrap().id.clone()));
    assert_eq!(routes[1], None);
    assert_eq!(routes[2], Some(shards.lookup_shard("doc-2").unwrap().id.clone()));
    assert_eq!(route_documents(&Shards::new(), &ids), vec![None, None, None]);
}

#[test]
fn analyzer_errors_print_the_refusing_kind_error() {
    let error = analyzer_kinds("morse", &vec![]).unwrap_err();
    assert_eq!(error.kind(), AnalyzerErrorKind::ParseFailure);
    assert_eq!(
        error.source_text(),
        "TokenizerFactoryError(kind=InvalidTokenizerKind, source=Unknown tokenizer kind: morse)"
    );
    assert_eq!(error.cause_texts(), ["Unknown tokenizer kind: morse"]);
    let filters = vec!["lower_case".to_string(), "shout".to_string(), "upper".to_string()];
    let error = analyzer_kinds("raw", &filters).unwrap_err();
    assert_eq!(
        error.source_text(),
        "FilterFactoryError(kind=InvalidFilterKind, source=Unknown filter kind: shout)"
    );
}

#[test]
fn errors_print_their_type_kind_and_description() {
    let error = NodeErrorKind::IndexNotFound.with_error("missing".to_string()).add_context("opening index");
    assert_eq!(error.message(), "NodeError(kind=IndexNotFound, source=opening index)");
    let error = NodeErrorKind::InvalidPath.with_error("bad path".to_string());
    assert_eq!(error.message(), "NodeError(kind=InvalidPath, source=bad path)");
    let error = bayard::cluster::message::MessageKind::from_u8(200).unwrap_err();
    assert_eq!(
        error.message(),
        "MessageError(kind=InvalidMessageKind, source=Unknown message kind: 200)"
    );
    let error = MessageErrorKind::ReadError.with_error("eof".to_string());
    assert_eq!(error.message(), "MessageError(kind=ReadError, source=eof)");
    let error = QueryFactoryErrorKind::InvalidArgument
        .with_error("No default search fields provided.".to_string());
    assert_eq!(
        error.message(),
        "QueryFactoryError(kind=InvalidArgument, source=No default search fields provided.)"
    );
    let error = ClientErrorKind::MetadataNotFound.with_error("no metadata".to_string());
    assert_eq!(error.message(), "ClientError(kind=MetadataNotFound, source=no metadata)");
    let error = MetadataErrorKind::InvalidArgument
        .with_error("Writer threads must be greater than 0".to_string());
    assert_eq!(
        error.message(),
        "MetadataError(kind=InvalidArgument, source=Writer threads must be greater than 0)"
    );
    let error = ServiceErrorKind::GetReplicasFailure.with_error("none".to_string());
    assert_eq!(error.message(), "ServerError(kind=GetReplicasFailure, source=none)");
    let error = MembershipErrorKind::BroadcastFailure.with_error("full".to_string());
    assert_eq!(error.message(), "MembershipError(kind=BroadcastFailure, source=full)");
    let error = MetastoreErrorKind::DirectoryReadFailure.with_error("gone".to_string());
    assert_eq!(error.message(), "MetastoreError(kind=DirectoryReadFailure, source=gone)");
    let error = AnalyzerErrorKind::ParseFailure.with_error("x".to_string());
    assert_eq!(error.message(), "AnalyzerError(kind=ParseFailure, source=x)");
}
