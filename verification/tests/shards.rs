use bayard::index::shard::{Shard, State};
use bayard::index::shards::Shards;

#[test]
fn test_insert() {
    let mut shards = Shards::new();

    let shard = Shard::new("foo".to_string());
    assert!(shards.push(shard).is_some());

    let shard2 = Shard::new("bar".to_string());
    assert!(shards.push(shard2).is_some());

    let shard3 = Shard::new("bar".to_string());
    assert!(!shards.push(shard3).is_some());
}

#[test]
fn test_remove() {
    let mut shards = Shards::new();

    let shard = Shard::new("foo".to_string());
    shards.push(shard);

    let shard2 = Shard::new("bar".to_string());
    shards.push(shard2.clone());

    assert!(shards.remove(&shard2.id).is_some());

    assert!(shards.remove(&shard2.id).is_none());
}

#[test]
fn test_contains() {
    let mut shards = Shards::new();

    let shard = Shard::new("foo".to_string());
    shards.push(shard);

    assert!(shards.contains(&"foo".to_string()));

    assert!(!shards.contains(&"bar".to_string()));
}

#[test]
fn test_iter() {
    let mut shards = Shards::new();

    let shard1 = Shard::new("foo".to_string());
    shards.push(shard1);

    let shard2 = Shard::new("bar".to_string());
    shards.push(shard2);

    let shards_iter = shards.iter().iter();
    let shard_ids = shards_iter
        .map(|shard| shard.id.clone())
        .collect::<Vec<_>>();
    assert!(shard_ids.contains(&"foo".to_string()));
    assert!(shard_ids.contains(&"bar".to_string()));
    assert!(!shard_ids.contains(&"baz".to_string()));
}

#[test]
fn test_get() {
    let mut shards = Shards::new();

    let shard = Shard::new("foo".to_string());
    shards.push(shard);

    let shard = shards.get(&"foo".to_string());
    assert_eq!(shard.unwrap().id, "foo".to_string());

    let shard = shards.get(&"bar".to_string());
    assert!(shard.is_none());
}

#[test]
fn test_len() {
    let mut shards = Shards::new();

    let shard = Shard::new("foo".to_string());
    shards.push(shard);
    assert_eq!(shards.len(), 1);

    let shard2 = Shard::new("bar".to_string());
    shards.push(shard2.clone());
    assert_eq!(shards.len(), 2);

    let shard3 = Shard::new("bar".to_string());
    shards.push(shard3);
    assert_eq!(shards.len(), 2);

    shards.remove(&shard2.id);
    assert_eq!(shards.len(), 1);

    shards.remove(&shard2.id);
    assert_eq!(shards.len(), 1);
}

#[test]
fn test_is_empty() {
    let mut shards = Shards::new();
    assert!(shards.is_empty());

    let shard1 = Shard::new("foo".to_string());
    shards.push(shard1.clone());
    assert!(!shards.is_empty());

    shards.remove(&shard1.id);
    assert!(shards.is_empty());
}

#[test]
fn test_lookup_shards() {
    let mut shards = Shards::new();

    let shard1 = Shard::new("foo".to_string());
    shards.push(shard1);

    let shard2 = Shard::new("bar".to_string());
    shards.push(shard2);

    let shard3 = Shard::new("baz".to_string());
    shards.push(shard3);

    let mut shards_iter = shards.lookup_shards("hoge", 2).into_iter();
    assert_eq!(shards_iter.next().unwrap().id, "foo".to_string());
    assert_eq!(shards_iter.next().unwrap().id, "baz".to_string());
    assert!(shards_iter.next().is_none());

    let mut shards_iter = shards.lookup_shards("fuga", 2).into_iter();
    assert_eq!(shards_iter.next().unwrap().id, "baz".to_string());
    assert_eq!(shards_iter.next().unwrap().id, "foo".to_string());
    assert!(shards_iter.next().is_none());

    let mut shards_iter = shards.lookup_shards("piyo", 2).into_iter();
    assert_eq!(shards_iter.next().unwrap().id, "bar".to_string());
    assert_eq!(shards_iter.next().unwrap().id, "foo".to_string());
    assert!(shards_iter.next().is_none());
}

#[test]
fn test_lookup_shard() {
    let mut shards = Shards::new();

    let shard1 = Shard::new("foo".to_string());
    shards.push(shard1);

    let shard2 = Shard::new("bar".to_string());
    shards.push(shard2);

    let shard3 = Shard::new("baz".to_string());
    shards.push(shard3);

    let shard = shards.lookup_shard("hoge");
    assert_eq!(shard.unwrap().id, "foo".to_string());

    let shard = shards.lookup_shard("fuga");
    assert_eq!(shard.unwrap().id, "baz".to_string());

    let shard = shards.lookup_shard("piyo");
    assert_eq!(shard.unwrap().id, "bar".to_string());
}

#[test]
fn test_lookup_filterd_shards() {
    let mut shards = Shards::new();

    let mut shard1 = Shard::new("foo".to_string());
    shard1.state = State::Serving;
    shards.push(shard1);

    let mut shard2 = Shard::new("bar".to_string());
    shard2.state = State::Draining;
    shards.push(shard2);

    let mut shard3 = Shard::new("baz".to_string());
    shard3.state = State::Drained;
    shards.push(shard3);

    let mut shards_iter = shards.lookup_shards("hoge", 2).into_iter();
    assert_eq!(shards_iter.next().unwrap().id, "foo".to_string());
    assert_eq!(shards_iter.next().unwrap().id, "baz".to_string());
    assert!(shards_iter.next().is_none());

    let mut shards_iter = shards.lookup_shards("fuga", 2).into_iter();
    assert_eq!(shards_iter.next().unwrap().id, "baz".to_string());
    assert_eq!(shards_iter.next().unwrap().id, "foo".to_string());
    assert!(shards_iter.next().is_none());

    let mut shards_iter = shards.lookup_shards("piyo", 2).into_iter();
    assert_eq!(shards_iter.next().unwrap().id, "bar".to_string());
    assert_eq!(shards_iter.next().unwrap().id, "foo".to_string());
    assert!(shards_iter.next().is_none());
}

#[test]
fn lookup_serving_shard_is_top_candidate_only_when_serving() {
    let mut shards = Shards::new();
    let mut foo = Shard::new("foo".to_string());
    foo.state = State::Draining;
    shards.push(foo);
    shards.push(Shard::new("bar".to_string()));
    shards.push(Shard::new("baz".to_string()));

    // "foo" ranks first for "hoge" but is draining.
    assert!(shards.lookup_serving_shard("hoge").is_none());
    assert_eq!(shards.lookup_draining_shards("hoge", 3).len(), 1);
    assert_eq!(shards.lookup_serving_shards("hoge", 3).len(), 2);
    assert_eq!(shards.serving_shards_len(), 2);
    assert_eq!(shards.draining_shards_len(), 1);
    assert_eq!(shards.drained_shards_len(), 0);
}

#[test]
fn pop_removes_the_most_recent_shard() {
    let mut shards = Shards::init(vec![
        Shard::new("a".to_string()),
        Shard::new("b".to_string()),
        Shard::new("a".to_string()),
    ]);
    assert_eq!(shards.len(), 2);
    assert_eq!(shards.pop().unwrap().id, "b");
    assert_eq!(shards.pop().unwrap().id, "a");
    assert!(shards.pop().is_none());
}
