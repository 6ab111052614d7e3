use tuige::response::{GlobalEmoteData, User, UserData, Validate};
use tuige::value::RawCacheValue;

fn catalog_emote(images: &[(&str, &str)]) -> GlobalEmoteData {
    GlobalEmoteData {
        name: "Kappa".to_string(),
        id: "25".to_string(),
        images: images.iter().map(|(k, v)| (k.to_string(), v.to_string())).collect(),
    }
}

#[test]
fn validation_is_cached_as_the_client_id() {
    let answer = Validate { client_id: "abc123".to_string() };
    assert_eq!(answer.into_raw(), RawCacheValue::ClientId("abc123".to_string()));
}

#[test]
fn user_lookup_is_cached_as_the_first_id() {
    let answer = User {
        data: vec![UserData { id: "11".to_string() }, UserData { id: "22".to_string() }],
    };
    assert_eq!(answer.to_raw(), Some(RawCacheValue::UserId("11".to_string())));
}

#[test]
fn user_lookup_without_a_user_gives_nothing() {
    assert_eq!(User { data: vec![] }.to_raw(), None);
}

#[test]
fn image_url_finds_the_size() {
    let e = catalog_emote(&[("url_2x", "two"), ("url_1x", "one"), ("url_4x", "four")]);
    assert_eq!(e.image_url("url_1x"), Some("one"));
    assert_eq!(e.image_url("url_4x"), Some("four"));
}

#[test]
fn image_url_of_a_missing_size_is_none() {
    let e = catalog_emote(&[("url_2x", "two")]);
    assert_eq!(e.image_url("url_1x"), None);
    assert_eq!(catalog_emote(&[]).image_url("url_1x"), None);
}

#[test]
fn image_url_takes_the_first_of_two() {
    let e = catalog_emote(&[("url_1x", "first"), ("url_1x", "second")]);
    assert_eq!(e.image_url("url_1x"), Some("first"));
}

#[test]
fn image_url_matches_the_whole_size() {
    let e = catalog_emote(&[("url_1", "short"), ("url_1xx", "long")]);
    assert_eq!(e.image_url("url_1x"), None);
}
