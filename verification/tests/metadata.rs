use bayard::index::metadata::{
    generate_shard_id, Metadata, MetadataErrorKind, DEFAULT_NUM_REPLICAS, DEFAULT_NUM_SHARDS,
    DEFAULT_WRITER_MEM_SIZE, DEFAULT_WRITER_THREADS,
};
use bayard::index::shard::Shard;
use bayard::index::shards::Shards;
use serde_json::Value;
use tantivy::schema::Schema;
use tantivy::IndexSettings;

type IndexMetadata = Metadata<Schema, Value, IndexSettings>;

const SCHEMA_JSON: &str = r#"
[
    {
        "name": "name",
        "type": "text",
        "options": {
            "indexing": {
                "record": "position",
                "fieldnorms": false,
                "tokenizer": "default"
            },
            "stored": true
        }
    }
]
"#;

const ANALYZERS_JSON: &str = r#"
{
    "default": {
        "tokenizer": {
            "name": "simple"
        },
        "filters": [
            {
                "name": "remove_long",
                "args": {
                    "length_limit": 40
                }
            },
            {
                "name": "ascii_folding"
            },
            {
                "name": "lower_case"
            }
        ]
    }
}
"#;

const INDEX_SETTINGS_JSON: &str = r#"
{
    "sort_by_field": null,
    "docstore_compression": "none",
    "docstore_blocksize": 16384
}
"#;

fn schema() -> Schema {
    serde_json::from_str::<Schema>(SCHEMA_JSON).unwrap()
}

fn analyzers() -> Value {
    serde_json::from_str::<Value>(ANALYZERS_JSON).unwrap()
}

fn index_settings() -> IndexSettings {
    serde_json::from_str::<IndexSettings>(INDEX_SETTINGS_JSON).unwrap()
}

fn sample_metadata(shards: Option<Shards>, num_shards: usize) -> IndexMetadata {
    Metadata::from_parts(
        schema(),
        analyzers(),
        Some(index_settings()),
        Some(1),
        Some(500000000),
        Some(2),
        Some(num_shards),
        shards,
    )
    .unwrap()
}

fn is_alphanumeric(id: &str) -> bool {
    id.chars().all(|c| c.is_ascii_alphanumeric())
}

#[test]
fn test_generate_shard_id() {
    let shard_id = generate_shard_id();

    assert_eq!(shard_id.len(), 8);
}

#[test]
fn generated_shard_ids_are_alphanumeric() {
    for _ in 0..20 {
        let shard_id = generate_shard_id();
        assert!(is_alphanumeric(&shard_id));
    }
}

#[test]
fn test_index_metadata_from_slice() {
    let meta = sample_metadata(None, 2);
    assert_eq!(meta.writer_threads().unwrap(), 1);
    assert_eq!(meta.writer_mem_size().unwrap(), 500000000);
    assert_eq!(meta.num_replicas().unwrap(), 2);
    assert_eq!(meta.num_shards().unwrap(), 2);
    assert_eq!(meta.shards().unwrap().len(), 2);

    let shards = Shards::init(vec![
        Shard::new("shard-1".to_string()),
        Shard::new("shard-2".to_string()),
        Shard::new("shard-3".to_string()),
    ]);
    let meta = sample_metadata(Some(shards), 3);
    assert_eq!(meta.writer_threads().unwrap(), 1);
    assert_eq!(meta.writer_mem_size().unwrap(), 500000000);
    assert_eq!(meta.num_replicas().unwrap(), 2);
    assert_eq!(meta.num_shards().unwrap(), 3);
    let shards = meta.shards().unwrap();
    assert_eq!(shards.len(), 3);
    assert!(shards.contains(&"shard-1".to_string()));
    assert!(shards.contains(&"shard-2".to_string()));
    assert!(shards.contains(&"shard-3".to_string()));
}

#[test]
fn test_index_metadata_set_schema() {
    let mut meta = sample_metadata(None, 2);

    let schema = meta.schema().unwrap();
    assert_eq!(schema.num_fields(), 1);

    let new_schema_json_str = r#"
    [
        {
            "name": "name",
            "type": "text",
            "options": {
                "indexing": {
                    "record": "position",
                    "fieldnorms": false,
                    "tokenizer": "default"
                },
                "stored": true
            }
        },
        {
            "name": "description",
            "type": "text",
            "options": {
                "indexing": {
                    "record": "position",
                    "fieldnorms": false,
                    "tokenizer": "default"
                },
                "stored": true
            }
        }
    ]
    "#;
    let new_schema = serde_json::from_str::<Schema>(new_schema_json_str).unwrap();
    let new_schema = meta.set_schema(new_schema).unwrap();
    assert_eq!(new_schema.num_fields(), 2);
    assert_eq!(meta.schema().unwrap().num_fields(), 2);
}

#[test]
fn test_index_metadata_set_index_settings() {
    let mut meta = sample_metadata(None, 2);

    let index_settings = meta.index_settings().unwrap();
    assert_eq!(index_settings.docstore_blocksize, 16384);

    let new_index_settings_json_str = r#"
    {
        "sort_by_field": null,
        "docstore_compression": "none",
        "docstore_blocksize": 10000
    }
    "#;
    let new_index_settings =
        serde_json::from_str::<IndexSettings>(new_index_settings_json_str).unwrap();
    let new_index_settings = meta.set_index_settings(new_index_settings).unwrap();
    assert_eq!(new_index_settings.docstore_blocksize, 10000);
}

#[test]
fn test_index_metadata_set_analyzers() {
    let mut meta = sample_metadata(None, 2);

    let analyzers = meta.analyzers().unwrap();
    assert_eq!(analyzers.get("default").is_some(), true);

    let new_analyzers_json_str = r#"
    {
        "default": {
            "tokenizer": {
                "name": "whitespace"
            }
        }
    }
    "#;
    let new_analyzers = serde_json::from_str::<Value>(new_analyzers_json_str).unwrap();
    let new_analyzers = meta.set_analyzers(new_analyzers).unwrap();
    assert_eq!(new_analyzers.get("default").is_some(), true);
}

#[test]
fn test_index_metadata_set_writer_threads() {
    let mut meta = sample_metadata(None, 2);
    assert_eq!(meta.writer_threads().unwrap(), 1);

    let new_writer_threads = meta.set_writer_threads(3).unwrap();
    assert_eq!(new_writer_threads, 3);
    assert_eq!(meta.writer_threads().unwrap(), 3);
}

#[test]
fn test_index_metadata_set_writer_mem_size() {
    let mut meta = sample_metadata(None, 2);
    assert_eq!(meta.writer_mem_size().unwrap(), 500000000);

    let new_writer_mem_size = meta.set_writer_mem_size(100000000).unwrap();
    assert_eq!(new_writer_mem_size, 100000000);
    assert_eq!(meta.writer_mem_size().unwrap(), 100000000);
}

#[test]
fn test_index_metadata_set_replicas() {
    let mut meta = sample_metadata(None, 2);
    assert_eq!(meta.num_replicas().unwrap(), 2);

    let new_replicas = meta.set_num_replicas(1).unwrap();
    assert_eq!(new_replicas, 1);
    assert_eq!(meta.num_replicas().unwrap(), 1);
}

#[test]
fn test_index_metadata_set_shards() {
    let shards = Shards::init(vec![
        Shard::new("shard-1".to_string()),
        Shard::new("shard-2".to_string()),
    ]);
    let mut meta = sample_metadata(Some(shards), 2);
    assert_eq!(meta.num_shards().unwrap(), 2);

    let new_shards = meta.set_num_shards(1).unwrap();
    assert_eq!(new_shards, 1);
    assert_eq!(meta.num_shards().unwrap(), 1);
    let shards = meta.shards().unwrap();
    assert_eq!(shards.len(), 1);
    assert!(shards.contains(&"shard-1".to_string()));

    let new_shards = meta
        .set_shards(Shards::init(vec![
            Shard::new("shard-1".to_string()),
            Shard::new("shard-2".to_string()),
            Shard::new("shard-3".to_string()),
        ]))
        .unwrap();
    assert_eq!(new_shards.len(), 3);
    assert!(new_shards.contains(&"shard-1".to_string()));
    assert!(new_shards.contains(&"shard-2".to_string()));
    assert!(new_shards.contains(&"shard-3".to_string()));

    assert_eq!(meta.num_shards().unwrap(), 3);
    let shards = meta.shards().unwrap();
    assert_eq!(shards.len(), 3);
    assert!(shards.contains(&"shard-1".to_string()));
    assert!(shards.contains(&"shard-2".to_string()));
    assert!(shards.contains(&"shard-3".to_string()));
}

#[test]
fn test_index_metadata_defaults() {
    let meta: IndexMetadata =
        Metadata::from_parts(schema(), analyzers(), None, None, None, None, None, None).unwrap();
    assert_eq!(meta.writer_threads().unwrap(), DEFAULT_WRITER_THREADS);
    assert_eq!(meta.writer_mem_size().unwrap(), DEFAULT_WRITER_MEM_SIZE);
    assert_eq!(meta.num_replicas().unwrap(), DEFAULT_NUM_REPLICAS);
    assert_eq!(meta.num_shards().unwrap(), DEFAULT_NUM_SHARDS);
    assert_eq!(meta.shards().unwrap().len(), DEFAULT_NUM_SHARDS);
}

#[test]
fn default_counts_are_one_thread_hundred_megabytes_one_replica_one_shard() {
    assert_eq!(DEFAULT_WRITER_THREADS, 1);
    assert_eq!(DEFAULT_WRITER_MEM_SIZE, 100_000_000);
    assert_eq!(DEFAULT_NUM_REPLICAS, 1);
    assert_eq!(DEFAULT_NUM_SHARDS, 1);
}

#[test]
fn zero_counts_are_refused_and_change_nothing() {
    let mut meta = sample_metadata(None, 2);
    let shard_ids: Vec<String> = meta.shards().unwrap().iter().iter().map(|s| s.id.clone()).collect();

    let error = meta.set_writer_threads(0).unwrap_err();
    assert_eq!(error.kind(), MetadataErrorKind::InvalidArgument);
    let error = meta.set_writer_mem_size(0).unwrap_err();
    assert_eq!(error.kind(), MetadataErrorKind::InvalidArgument);
    let error = meta.set_num_replicas(0).unwrap_err();
    assert_eq!(error.kind(), MetadataErrorKind::InvalidArgument);
    let error = meta.set_num_shards(0).unwrap_err();
    assert_eq!(error.kind(), MetadataErrorKind::InvalidArgument);

    assert_eq!(meta.writer_threads().unwrap(), 1);
    assert_eq!(meta.writer_mem_size().unwrap(), 500000000);
    assert_eq!(meta.num_replicas().unwrap(), 2);
    assert_eq!(meta.num_shards().unwrap(), 2);
    let after: Vec<String> = meta.shards().unwrap().iter().iter().map(|s| s.id.clone()).collect();
    assert_eq!(after, shard_ids);
}

#[test]
fn growing_the_shard_count_keeps_the_existing_shards_first() {
    let shards = Shards::init(vec![Shard::new("shard-1".to_string())]);
    let mut meta = sample_metadata(Some(shards), 1);

    assert_eq!(meta.set_num_shards(4).unwrap(), 4);
    assert_eq!(meta.num_shards().unwrap(), 4);
    let shards = meta.shards().unwrap();
    assert_eq!(shards.len(), 4);
    let ids: Vec<String> = shards.iter().iter().map(|s| s.id.clone()).collect();
    assert_eq!(ids[0], "shard-1");
    for id in &ids[1..] {
        assert_eq!(id.len(), 8);
        assert!(is_alphanumeric(id));
    }
}

#[test]
fn given_shards_win_over_the_shard_count() {
    let shards = Shards::init(vec![
        Shard::new("a".to_string()),
        Shard::new("b".to_string()),
    ]);
    let meta: IndexMetadata =
        Metadata::new_with_shards(schema(), analyzers(), index_settings(), 1, 1, 1, 5, shards)
            .unwrap();
    assert_eq!(meta.num_shards().unwrap(), 2);
    assert_eq!(meta.shards().unwrap().len(), 2);
}

#[test]
fn new_generates_the_requested_shards() {
    let meta: IndexMetadata =
        Metadata::new(schema(), analyzers(), index_settings(), 2, 1000, 3, 3);
    assert_eq!(meta.writer_threads().unwrap(), 2);
    assert_eq!(meta.writer_mem_size().unwrap(), 1000);
    assert_eq!(meta.num_replicas().unwrap(), 3);
    assert_eq!(meta.num_shards().unwrap(), 3);
    let shards = meta.shards().unwrap();
    assert_eq!(shards.len(), 3);
    for shard in shards.iter() {
        assert_eq!(shard.id.len(), 8);
    }
}
