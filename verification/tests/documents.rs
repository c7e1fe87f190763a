use bayard::client::{document_route, split_documents};
use bayard::index::shard::Shard;
use bayard::index::shards::Shards;
use bayard::node::{document_from_reading, prepare_document, NodeErrorKind};

fn sample_shards() -> Shards {
    Shards::init(vec![
        Shard::new("s1".to_string()),
        Shard::new("s2".to_string()),
        Shard::new("s3".to_string()),
    ])
}

fn doc(text: &str) -> Vec<u8> {
    text.as_bytes().to_vec()
}

#[test]
fn documents_are_routed_by_their_json_id() {
    let shards = sample_shards();
    let expected = shards.lookup_shard("doc-1").unwrap().id.clone();
    assert_eq!(document_route(&shards, br#"{"id":"doc-1","fields":{}}"#), Some(expected));
    assert_eq!(document_route(&shards, br#"{"fields":{}}"#), None);
    assert_eq!(document_route(&shards, br#"{"id":7}"#), None);
    assert_eq!(document_route(&shards, b"not json"), None);
    assert_eq!(document_route(&Shards::new(), br#"{"id":"doc-1"}"#), None);
}

#[test]
fn documents_are_split_into_one_batch_per_shard() {
    let shards = sample_shards();
    let docs: Vec<Vec<u8>> = (0..20)
        .map(|i| doc(&format!(r#"{{"id":"doc-{}","fields":{{"n":{}}}}}"#, i, i)))
        .chain(vec![doc("oops"), doc(r#"{"fields":{}}"#)])
        .collect();
    let batches = split_documents(&shards, docs.clone());
    let mut total = 0;
    let mut seen = Vec::new();
    for (shard_id, batch) in &batches {
        assert!(!batch.is_empty());
        assert!(!seen.contains(shard_id));
        seen.push(shard_id.clone());
        let expected: Vec<Vec<u8>> = docs
            .iter()
            .filter(|d| document_route(&shards, d).as_ref() == Some(shard_id))
            .cloned()
            .collect();
        assert_eq!(batch, &expected);
        total += batch.len();
    }
    assert_eq!(total, 20);
    assert!(split_documents(&Shards::new(), docs).is_empty());
}

#[test]
fn a_node_reads_the_id_and_the_fields_of_a_document() {
    let (id, fields) = prepare_document(br#"{"id":"1","fields":{"title":"Rust"}}"#)
        .unwrap()
        .unwrap();
    assert_eq!(id, "1");
    assert_eq!(fields, r#"{"title":"Rust"}"#);

    assert!(prepare_document(b"[1,2]").unwrap().is_none());

    let error = prepare_document(br#"{"fields":{}}"#).unwrap_err();
    assert_eq!(error.kind(), NodeErrorKind::DocumentDeserializationFailure);
    assert_eq!(error.source_text(), "Document ID not found.");

    let error = prepare_document(br#"{"id":"1","fields":3}"#).unwrap_err();
    assert_eq!(error.kind(), NodeErrorKind::DocumentDeserializationFailure);
    assert_eq!(error.source_text(), "Document fields not found.");

    let error = prepare_document(b"{").unwrap_err();
    assert_eq!(error.kind(), NodeErrorKind::DocumentDeserializationFailure);
    assert!(!error.source_text().is_empty());
}

#[test]
fn a_reading_is_turned_into_the_document_or_its_error() {
    let error = document_from_reading(Ok(true), Some("1".to_string()), Some(Err("bad".to_string())))
        .unwrap_err();
    assert_eq!(error.kind(), NodeErrorKind::DocumentSerializationFailure);
    assert_eq!(error.source_text(), "bad");
    let error = document_from_reading(Err("eof".to_string()), None, None).unwrap_err();
    assert_eq!(error.kind(), NodeErrorKind::DocumentDeserializationFailure);
    assert_eq!(error.source_text(), "eof");
    assert!(document_from_reading(Ok(false), Some("1".to_string()), None).unwrap().is_none());
    let error = document_from_reading(Ok(true), None, Some(Ok("{}".to_string()))).unwrap_err();
    assert_eq!(error.source_text(), "Document ID not found.");
    assert_eq!(
        document_from_reading(Ok(true), Some("a".to_string()), Some(Ok("{}".to_string())))
            .unwrap()
            .unwrap(),
        ("a".to_string(), "{}".to_string())
    );
}
