use std::cell::{Cell, RefCell};
use std::collections::HashMap;
use tuige::bitmap::Bitmap;
use tuige::codec::{decode, encode};
use tuige::populate::{thaw, PopulateError, Source, Step};
use tuige::store::Cache;
use tuige::value::{RawCacheValue, RawEmote, Value};

fn client(text: &str) -> RawCacheValue {
    RawCacheValue::ClientId(text.to_string())
}

fn webp_image(seed: u8) -> Vec<u8> {
    let rgba = (0..16).map(|i| (i as u8).wrapping_add(seed)).collect();
    Bitmap::from_rgba(2, 2, rgba).unwrap().encode_webp().unwrap()
}

fn no_disk(_key: &str) -> Option<Vec<u8>> {
    panic!("the cold tier is not in use")
}

fn no_write(_key: &str, _file: &[u8]) -> bool {
    panic!("the cold tier is not in use")
}

fn never() -> Result<RawCacheValue, String> {
    panic!("the producer is not to be invoked")
}

#[test]
fn unseen_key_invokes_the_producer_once() {
    let mut cache = Cache::new("dir".to_string());
    let calls = Cell::new(0);
    let producer = || {
        calls.set(calls.get() + 1);
        Ok::<_, String>(client("abc123"))
    };
    let got = cache.populate("A", false, no_disk, producer, no_write).unwrap();
    assert_eq!(got.value, &Value::ClientId("abc123".to_string()));
    assert_eq!(got.source, Source::Producer { persisted: None, soft_miss: false });
    assert_eq!(calls.get(), 1);
}

#[test]
fn second_call_is_served_without_the_producer() {
    let mut cache = Cache::new("dir".to_string());
    let first = cache
        .populate("A", false, no_disk, || Ok::<_, String>(client("abc123")), no_write)
        .unwrap();
    assert_eq!(first.value, &Value::ClientId("abc123".to_string()));
    let second = cache.populate("A", false, no_disk, never, no_write).unwrap();
    assert_eq!(second.value, &Value::ClientId("abc123".to_string()));
    assert_eq!(second.source, Source::Hot);
}

#[test]
fn hot_hit_asks_neither_tier_nor_producer() {
    let mut cache = Cache::new("dir".to_string());
    cache.insert("A".to_string(), Value::UserId("1".to_string()));
    let got = cache.populate("A", true, no_disk, never, no_write).unwrap();
    assert_eq!(got.value, &Value::UserId("1".to_string()));
    assert_eq!(got.source, Source::Hot);
}

#[test]
fn disk_miss_then_hit() {
    let disk: RefCell<HashMap<String, Vec<u8>>> = RefCell::new(HashMap::new());
    let read = |key: &str| disk.borrow().get(key).cloned();
    let write = |key: &str, file: &[u8]| {
        disk.borrow_mut().insert(key.to_string(), file.to_vec());
        true
    };
    let calls = Cell::new(0);
    let producer = || {
        calls.set(calls.get() + 1);
        let emote = RawEmote::new("Kappa".to_string(), webp_image(3));
        Ok::<_, String>(RawCacheValue::EmoteSet(vec![emote]))
    };

    let mut cache = Cache::new("dir".to_string());
    let first = cache.populate("emotes", true, read, producer, write).unwrap();
    assert_eq!(first.source, Source::Producer { persisted: Some(true), soft_miss: false });
    let expected = Value::from_raw(&RawCacheValue::EmoteSet(vec![RawEmote::new(
        "Kappa".to_string(),
        webp_image(3),
    )]))
    .unwrap();
    assert_eq!(first.value, &expected);
    assert_eq!(calls.get(), 1);
    assert!(disk.borrow().contains_key("emotes"));

    let mut fresh = Cache::new("dir".to_string());
    let second = fresh.populate("emotes", true, read, never, no_write).unwrap();
    assert_eq!(second.source, Source::Cold);
    assert_eq!(second.value, &expected);
    assert_eq!(calls.get(), 1);
}

#[test]
fn cold_hit_fills_the_hot_tier() {
    let file = encode(&client("from disk"));
    let mut cache = Cache::new("dir".to_string());
    let got = cache.populate("k", true, |_: &str| Some(file.clone()), never, no_write).unwrap();
    assert_eq!(got.source, Source::Cold);
    assert_eq!(cache.lookup("k"), Some(&Value::ClientId("from disk".to_string())));
}

#[test]
fn corrupt_file_is_a_miss_and_is_overwritten() {
    let disk: RefCell<HashMap<String, Vec<u8>>> = RefCell::new(HashMap::new());
    disk.borrow_mut().insert("k".to_string(), b"\x01\x00 garbage".to_vec());
    let read = |key: &str| disk.borrow().get(key).cloned();
    let write = |key: &str, file: &[u8]| {
        disk.borrow_mut().insert(key.to_string(), file.to_vec());
        true
    };
    let calls = Cell::new(0);
    let producer = || {
        calls.set(calls.get() + 1);
        Ok::<_, String>(client("fresh"))
    };
    let mut cache = Cache::new("dir".to_string());
    let got = cache.populate("k", true, read, producer, write).unwrap();
    assert_eq!(got.value, &Value::ClientId("fresh".to_string()));
    assert_eq!(got.source, Source::Producer { persisted: Some(true), soft_miss: true });
    assert_eq!(calls.get(), 1);
    let kept = disk.borrow().get("k").cloned().unwrap();
    assert_eq!(decode(&kept), Some(client("fresh")));
}

#[test]
fn file_with_a_broken_image_is_a_miss() {
    let broken = encode(&RawCacheValue::EmoteSet(vec![RawEmote::new(
        "bad".to_string(),
        vec![0, 1, 2],
    )]));
    assert!(decode(&broken).is_some());
    assert_eq!(thaw(&broken), None);
    let mut cache = Cache::new("dir".to_string());
    let got = cache
        .populate(
            "k",
            true,
            |_: &str| Some(broken.clone()),
            || Ok::<_, String>(client("fresh")),
            |_: &str, _: &[u8]| true,
        )
        .unwrap();
    assert_eq!(got.source, Source::Producer { persisted: Some(true), soft_miss: true });
}

#[test]
fn producer_failure_ends_the_call_and_changes_nothing() {
    let written = Cell::new(false);
    let mut cache = Cache::new("dir".to_string());
    let outcome = cache.populate(
        "k",
        true,
        |_: &str| None,
        || Err::<RawCacheValue, _>("network down".to_string()),
        |_: &str, _: &[u8]| {
            written.set(true);
            true
        },
    );
    match outcome {
        Err(PopulateError::Producer(e)) => assert_eq!(e, "network down"),
        _ => panic!("the producer's failure is the outcome"),
    }
    assert!(!written.get());
    assert!(!cache.contains("k"));
}

#[test]
fn write_failure_does_not_end_the_call() {
    let mut cache = Cache::new("dir".to_string());
    let got = cache
        .populate(
            "k",
            true,
            |_: &str| None,
            || Ok::<_, String>(client("kept hot")),
            |_: &str, _: &[u8]| false,
        )
        .unwrap();
    assert_eq!(got.value, &Value::ClientId("kept hot".to_string()));
    assert_eq!(got.source, Source::Producer { persisted: Some(false), soft_miss: false });
    assert!(cache.contains("k"));
}

#[test]
fn value_without_runtime_form_is_refused() {
    let written = Cell::new(false);
    let mut cache = Cache::new("dir".to_string());
    let outcome = cache.populate(
        "k",
        true,
        |_: &str| None,
        || {
            Ok::<_, String>(RawCacheValue::EmoteSet(vec![RawEmote::new(
                "bad".to_string(),
                vec![9, 9, 9],
            )]))
        },
        |_: &str, _: &[u8]| {
            written.set(true);
            true
        },
    );
    assert!(matches!(outcome, Err(PopulateError::Unusable)));
    assert!(!written.get());
    assert!(!cache.contains("k"));
}

#[test]
fn file_handed_to_the_cold_tier_is_the_encoded_value() {
    let handed: RefCell<Vec<(String, Vec<u8>)>> = RefCell::new(Vec::new());
    let mut cache = Cache::new("dir".to_string());
    cache
        .populate(
            "the key",
            true,
            |_: &str| None,
            || Ok::<_, String>(client("abc")),
            |key: &str, file: &[u8]| {
                handed.borrow_mut().push((key.to_string(), file.to_vec()));
                true
            },
        )
        .unwrap();
    assert_eq!(*handed.borrow(), vec![("the key".to_string(), encode(&client("abc")))]);
}

#[test]
fn read_cache_says_what_comes_next() {
    let mut cache = Cache::new("dir".to_string());
    assert!(matches!(cache.read_cache(true, "k"), Step::ReadDisk));
    assert!(matches!(cache.read_cache(false, "k"), Step::Produce));
    cache.insert("k".to_string(), Value::UserId("5".to_string()));
    match cache.read_cache(true, "k") {
        Step::Hit(value) => assert_eq!(value, &Value::UserId("5".to_string())),
        _ => panic!("the key is in the hot tier"),
    }
}

#[test]
fn load_disk_takes_a_good_file_and_passes_over_a_bad_one() {
    let mut cache = Cache::new("dir".to_string());
    assert_eq!(cache.load_disk("k", b"nonsense"), None);
    assert!(!cache.contains("k"));
    let file = encode(&client("c"));
    assert_eq!(cache.load_disk("k", &file), Some(&Value::ClientId("c".to_string())));
    assert!(cache.contains("k"));
}

#[test]
fn write_cache_hands_out_the_file_only_with_the_cold_tier() {
    let mut cache = Cache::new("dir".to_string());
    let raw = client("c");
    let written = cache.write_cache(false, "a", &raw).unwrap();
    assert_eq!(written.value, &Value::ClientId("c".to_string()));
    assert_eq!(written.persist, None);
    let written = cache.write_cache(true, "b", &raw).unwrap();
    assert_eq!(written.persist, Some(encode(&raw)));
    assert!(cache.contains("a") && cache.contains("b"));
}

#[test]
fn write_cache_refuses_a_value_without_runtime_form() {
    let mut cache = Cache::new("dir".to_string());
    let raw = RawCacheValue::EmoteSet(vec![RawEmote::new("bad".to_string(), vec![1])]);
    assert!(cache.write_cache(true, "k", &raw).is_none());
    assert!(!cache.contains("k"));
}

#[test]
fn steps_make_a_whole_call() {
    let mut disk: HashMap<String, Vec<u8>> = HashMap::new();
    let mut produced = 0;
    for round in 0..2 {
        let mut cache = Cache::new("dir".to_string());
        let hit = match cache.read_cache(true, "k") {
            Step::Hit(_) => true,
            Step::ReadDisk => match disk.get("k") {
                Some(file) => cache.load_disk("k", file).is_some(),
                None => false,
            },
            Step::Produce => false,
        };
        if !hit {
            produced += 1;
            let written = cache.write_cache(true, "k", &client("v")).unwrap();
            if let Some(file) = written.persist {
                disk.insert("k".to_string(), file);
            }
        }
        assert_eq!(cache.lookup("k"), Some(&Value::ClientId("v".to_string())), "round {round}");
    }
    assert_eq!(produced, 1);
}

#[test]
fn produced_set_with_a_name_twice_is_refused_and_not_persisted() {
    let written = Cell::new(false);
    let mut cache = Cache::new("dir".to_string());
    let outcome = cache.populate(
        "k",
        true,
        |_: &str| None,
        || {
            Ok::<_, String>(RawCacheValue::EmoteSet(vec![
                RawEmote::new("same".to_string(), webp_image(1)),
                RawEmote::new("same".to_string(), webp_image(2)),
            ]))
        },
        |_: &str, _: &[u8]| {
            written.set(true);
            true
        },
    );
    assert!(matches!(outcome, Err(PopulateError::Unusable)));
    assert!(!written.get());
    assert!(!cache.contains("k"));
}

#[test]
fn file_of_a_set_with_a_name_twice_is_a_soft_miss() {
    let twice = encode(&RawCacheValue::EmoteSet(vec![
        RawEmote::new("same".to_string(), webp_image(1)),
        RawEmote::new("same".to_string(), webp_image(2)),
    ]));
    assert_eq!(thaw(&twice), None);
    let mut cache = Cache::new("dir".to_string());
    let got = cache
        .populate(
            "k",
            true,
            |_: &str| Some(twice.clone()),
            || Ok::<_, String>(client("fresh")),
            |_: &str, _: &[u8]| true,
        )
        .unwrap();
    assert_eq!(got.source, Source::Producer { persisted: Some(true), soft_miss: true });
    assert!(got.value.is_well_formed());
}
