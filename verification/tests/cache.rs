use bobot_impl::modules::sticker::entities::tags::ModelRedis;
use bobot_impl::persist::cache::{
    copy_bytes, create_list_pipeline, decode_list, drain_pipeline, drained_items, encode_list,
    list_pipeline, tags_round_trip, CacheError, Command, Pipeline, Reply,
};
use bobot_impl::persist::memory::{copy_list, MemoryCache};
use bobot_impl::persist::redis::{CodecError, RedisStr};

fn tag(sticker: &str, owner: i64, text: &str) -> ModelRedis {
    ModelRedis { sticker_id: sticker.to_string(), owner_id: owner, tag: text.to_string() }
}

fn encoded(staged: &ModelRedis) -> Vec<u8> {
    RedisStr::new(staged).unwrap().as_bytes().clone()
}

#[test]
fn new_pipeline_is_empty_and_not_atomic() {
    let batch = Pipeline::new();
    assert!(!batch.is_atomic());
    assert!(batch.commands().is_empty());
}

#[test]
fn pipeline_keeps_commands_in_order() {
    let batch = Pipeline::new()
        .get("a")
        .set("b", &vec![1, 2])
        .del("c")
        .lpush("d", &RedisStr::from_bytes(vec![3]))
        .lrange("e");
    assert!(!batch.is_atomic());
    assert_eq!(
        batch.commands(),
        &vec![
            Command::Get("a".to_string()),
            Command::Put("b".to_string(), vec![1, 2]),
            Command::Del("c".to_string()),
            Command::Lpush("d".to_string(), vec![3]),
            Command::Lrange("e".to_string()),
        ]
    );
}

#[test]
fn atomic_marks_the_batch_and_keeps_its_commands() {
    let batch = Pipeline::new().del("k").atomic();
    assert!(batch.is_atomic());
    assert_eq!(batch.commands(), &vec![Command::Del("k".to_string())]);
}

#[test]
fn list_pipeline_removes_then_pushes() {
    let items = vec![RedisStr::from_bytes(vec![1]), RedisStr::from_bytes(vec![2, 2])];
    let batch = list_pipeline("tags", &items);
    assert!(batch.is_atomic());
    assert_eq!(
        batch.commands(),
        &vec![
            Command::Del("tags".to_string()),
            Command::Lpush("tags".to_string(), vec![1]),
            Command::Lpush("tags".to_string(), vec![2, 2]),
        ]
    );
}

#[test]
fn list_pipeline_of_nothing_only_removes() {
    let batch = list_pipeline("tags", &vec![]);
    assert!(batch.is_atomic());
    assert_eq!(batch.commands(), &vec![Command::Del("tags".to_string())]);
}

#[test]
fn create_list_pipeline_pushes_the_encodings() {
    let tags = vec![tag("s", 1, "a"), tag("s", 1, "b")];
    let batch = create_list_pipeline("k", &tags).unwrap();
    assert!(batch.is_atomic());
    assert_eq!(
        batch.commands(),
        &vec![
            Command::Del("k".to_string()),
            Command::Lpush("k".to_string(), encoded(&tags[0])),
            Command::Lpush("k".to_string(), encoded(&tags[1])),
        ]
    );
}

#[test]
fn drain_pipeline_reads_then_removes() {
    let batch = drain_pipeline("k");
    assert!(batch.is_atomic());
    assert_eq!(
        batch.commands(),
        &vec![Command::Lrange("k".to_string()), Command::Del("k".to_string())]
    );
}

#[test]
fn drained_items_come_oldest_first() {
    let replies = vec![Reply::Bulk(vec![vec![3], vec![2], vec![1]]), Reply::Int(1)];
    let items = drained_items(&replies).unwrap();
    assert_eq!(
        items,
        vec![RedisStr::from_bytes(vec![1]), RedisStr::from_bytes(vec![2]), RedisStr::from_bytes(vec![3])]
    );
}

#[test]
fn drained_items_of_an_empty_list() {
    let replies = vec![Reply::Bulk(vec![]), Reply::Int(0)];
    assert_eq!(drained_items(&replies), Ok(vec![]));
}

#[test]
fn answers_of_another_shape_are_refused() {
    assert_eq!(drained_items(&vec![]), Err(CacheError::WrongType));
    assert_eq!(drained_items(&vec![Reply::Bulk(vec![])]), Err(CacheError::WrongType));
    assert_eq!(drained_items(&vec![Reply::WrongType, Reply::Int(1)]), Err(CacheError::WrongType));
    assert_eq!(drained_items(&vec![Reply::Bulk(vec![]), Reply::Okay]), Err(CacheError::WrongType));
    assert_eq!(
        drained_items(&vec![Reply::Bulk(vec![]), Reply::Int(0), Reply::Int(0)]),
        Err(CacheError::WrongType)
    );
}

#[test]
fn encode_list_keeps_the_order() {
    let tags = vec![tag("s", 1, "a"), tag("s", 2, "b"), tag("t", 3, "c")];
    let items = encode_list(&tags).unwrap();
    assert_eq!(items.len(), 3);
    for i in 0..3 {
        assert_eq!(items[i].as_bytes(), &encoded(&tags[i]));
    }
}

#[test]
fn decode_list_decodes_every_item() {
    let tags = vec![tag("s", 1, "a"), tag("s", 2, "b")];
    let items = encode_list(&tags).unwrap();
    assert_eq!(decode_list(&items), Ok(tags));
    assert_eq!(decode_list(&vec![]), Ok(vec![]));
}

#[test]
fn one_bad_item_fails_the_whole_list() {
    let mut items = encode_list(&vec![tag("s", 1, "a"), tag("s", 2, "b")]).unwrap();
    items.insert(1, RedisStr::from_bytes(vec![0xc0]));
    assert_eq!(decode_list(&items), Err(CodecError::Decode));
    items.remove(1);
    items.push(RedisStr::from_bytes(vec![]));
    assert_eq!(decode_list(&items), Err(CodecError::Decode));
}

#[test]
fn copies_are_equal() {
    assert_eq!(copy_bytes(&vec![5, 6, 7]), vec![5, 6, 7]);
    assert_eq!(copy_bytes(&vec![]), Vec::<u8>::new());
    assert_eq!(copy_list(&vec![vec![1], vec![], vec![2, 3]]), vec![vec![1], vec![], vec![2, 3]]);
}

#[test]
fn created_list_drains_in_push_order_and_is_gone() {
    let mut cache = MemoryCache::new();
    let tags = vec![tag("s", 1, "a"), tag("s", 1, "b"), tag("s", 1, "c")];
    assert_eq!(cache.create_list("k", &tags), Ok(()));
    assert_eq!(cache.drain_list("k"), Ok(tags));
    assert_eq!(cache.drain_list("k"), Ok(vec![]));
}

#[test]
fn create_list_replaces_an_earlier_list() {
    let mut cache = MemoryCache::new();
    cache.create_list("k", &vec![tag("old", 1, "x"), tag("old", 1, "y")]).unwrap();
    cache.create_list("k", &vec![tag("new", 2, "z")]).unwrap();
    assert_eq!(cache.drain_list("k"), Ok(vec![tag("new", 2, "z")]));
}

#[test]
fn create_list_replaces_a_single_value() {
    let mut cache = MemoryCache::new();
    cache.set("k", &vec![1, 2, 3]);
    cache.create_list("k", &vec![tag("s", 2, "z")]).unwrap();
    assert_eq!(cache.get("k"), Err(CacheError::WrongType));
    assert_eq!(cache.drain_list("k"), Ok(vec![tag("s", 2, "z")]));
}

#[test]
fn create_list_of_nothing_leaves_no_list() {
    let mut cache = MemoryCache::new();
    cache.create_list("k", &vec![tag("s", 1, "a")]).unwrap();
    cache.create_list("k", &vec![]).unwrap();
    assert_eq!(cache.get("k"), Ok(None));
    assert_eq!(cache.drain_list("k"), Ok(vec![]));
}

#[test]
fn lists_at_other_keys_are_untouched() {
    let mut cache = MemoryCache::new();
    cache.create_list("a", &vec![tag("s", 1, "a")]).unwrap();
    cache.create_list("b", &vec![tag("s", 1, "b")]).unwrap();
    assert_eq!(cache.drain_list("a"), Ok(vec![tag("s", 1, "a")]));
    assert_eq!(cache.drain_list("b"), Ok(vec![tag("s", 1, "b")]));
}

#[test]
fn draining_a_single_value_is_refused_and_clears_it() {
    let mut cache = MemoryCache::new();
    cache.set("k", &vec![1]);
    assert_eq!(cache.drain_list("k"), Err(CacheError::WrongType));
    assert_eq!(cache.get("k"), Ok(None));
}

#[test]
fn draining_a_list_with_a_bad_item_returns_no_tag() {
    let mut cache = MemoryCache::new();
    cache.create_list("k", &vec![tag("s", 1, "a")]).unwrap();
    let replies = cache.pipe(|batch| batch.lpush("k", &RedisStr::from_bytes(vec![0xc1])));
    assert_eq!(replies, vec![Reply::Int(2)]);
    assert_eq!(cache.drain_list("k"), Err(CacheError::Decode));
    assert_eq!(cache.drain_list("k"), Ok(vec![]));
}

#[test]
fn staging_one_tag_at_a_time_keeps_the_order() {
    let mut cache = MemoryCache::new();
    for text in ["a", "b", "c"] {
        let item = RedisStr::new(&tag("s", 1, text)).unwrap();
        cache.pipe(|batch| batch.atomic().lpush("k", &item));
    }
    assert_eq!(cache.drain_list("k"), Ok(vec![tag("s", 1, "a"), tag("s", 1, "b"), tag("s", 1, "c")]));
}

#[test]
fn single_values_are_read_written_and_removed() {
    let mut cache = MemoryCache::new();
    assert_eq!(cache.get("k"), Ok(None));
    cache.set("k", &vec![1, 2]);
    assert_eq!(cache.get("k"), Ok(Some(vec![1, 2])));
    cache.set("k", &vec![3]);
    assert_eq!(cache.get("k"), Ok(Some(vec![3])));
    assert_eq!(cache.get("other"), Ok(None));
    cache.del("k");
    assert_eq!(cache.get("k"), Ok(None));
    cache.del("k");
    cache.set("k", &vec![]);
    assert_eq!(cache.get("k"), Ok(Some(vec![])));
}

#[test]
fn every_command_is_answered() {
    let mut cache = MemoryCache::new();
    let replies = cache.pipe(|batch| {
        batch
            .get("v")
            .set("v", &vec![7])
            .get("v")
            .lrange("v")
            .lpush("v", &RedisStr::from_bytes(vec![1]))
            .lrange("l")
            .lpush("l", &RedisStr::from_bytes(vec![1]))
            .lpush("l", &RedisStr::from_bytes(vec![2]))
            .lrange("l")
            .get("l")
            .del("l")
            .del("l")
            .lrange("l")
    });
    assert_eq!(
        replies,
        vec![
            Reply::Nil,
            Reply::Okay,
            Reply::Data(vec![7]),
            Reply::WrongType,
            Reply::WrongType,
            Reply::Bulk(vec![]),
            Reply::Int(1),
            Reply::Int(2),
            Reply::Bulk(vec![vec![2], vec![1]]),
            Reply::WrongType,
            Reply::Int(1),
            Reply::Int(0),
            Reply::Bulk(vec![]),
        ]
    );
}

#[test]
fn apply_answers_one_command() {
    let mut cache = MemoryCache::new();
    assert_eq!(cache.apply(&Command::Put("k".to_string(), vec![1])), Reply::Okay);
    assert_eq!(cache.apply(&Command::Get("k".to_string())), Reply::Data(vec![1]));
    assert_eq!(cache.apply(&Command::Del("k".to_string())), Reply::Int(1));
    assert_eq!(cache.apply(&Command::Get("k".to_string())), Reply::Nil);
}

#[test]
fn execute_runs_a_batch() {
    let mut cache = MemoryCache::new();
    let batch = Pipeline::new().set("a", &vec![1]).get("a");
    assert_eq!(cache.execute(&batch), vec![Reply::Okay, Reply::Data(vec![1])]);
}

#[test]
fn failing_builder_sends_nothing() {
    let mut cache = MemoryCache::new();
    cache.set("k", &vec![1]);
    let result: Result<Vec<Reply>, &str> = cache.try_pipe(|batch| {
        let _ = batch.del("k");
        Err("cannot encode")
    });
    assert_eq!(result, Err("cannot encode"));
    assert_eq!(cache.get("k"), Ok(Some(vec![1])));
}

#[test]
fn succeeding_builder_is_carried_out() {
    let mut cache = MemoryCache::new();
    cache.set("k", &vec![1]);
    let result: Result<Vec<Reply>, &str> = cache.try_pipe(|batch| Ok(batch.get("k").del("k")));
    assert_eq!(result, Ok(vec![Reply::Data(vec![1]), Reply::Int(1)]));
    assert_eq!(cache.get("k"), Ok(None));
}

#[test]
fn tags_come_back_from_their_encoding() {
    let tags = vec![tag("s", 1, "a"), tag("", -5, ""), tag("AgADBAADr6cxG", i64::MAX, "gr\u{00fc}n \u{1F431}")];
    assert!(tags_round_trip(&tags));
    assert!(tags_round_trip(&vec![]));
}

#[test]
fn every_tag_is_encoded() {
    let long = "x".repeat(70_000);
    let tags = vec![tag(&long, i64::MIN, &long), tag("", 0, "")];
    let items = encode_list(&tags).unwrap();
    assert_eq!(items.len(), 2);
    assert_eq!(decode_list(&items), Ok(tags));
}
