use tuige::codec::{decode, encode, WIRE_VERSION};
use tuige::value::{RawCacheValue, RawEmote};

fn raw_emote(name: &str, data: &[u8]) -> RawEmote {
    RawEmote::new(name.to_string(), data.to_vec())
}

#[test]
fn round_trip_client_id() {
    let v = RawCacheValue::ClientId("abc123".to_string());
    assert_eq!(decode(&encode(&v)), Some(v));
}

#[test]
fn round_trip_user_id() {
    let v = RawCacheValue::UserId("4242".to_string());
    assert_eq!(decode(&encode(&v)), Some(v));
}

#[test]
fn round_trip_empty_text() {
    let v = RawCacheValue::ClientId(String::new());
    assert_eq!(decode(&encode(&v)), Some(v));
}

#[test]
fn round_trip_text_beyond_ascii() {
    let v = RawCacheValue::UserId("zażółć 🦀 gęślą".to_string());
    assert_eq!(decode(&encode(&v)), Some(v));
}

#[test]
fn round_trip_emote_set_of_none() {
    let v = RawCacheValue::EmoteSet(vec![]);
    assert_eq!(decode(&encode(&v)), Some(v));
}

#[test]
fn round_trip_emote_set_of_one() {
    let v = RawCacheValue::EmoteSet(vec![raw_emote("Kappa", &[1, 2, 3])]);
    assert_eq!(decode(&encode(&v)), Some(v));
}

#[test]
fn round_trip_emote_set_of_many() {
    let mut emotes = Vec::new();
    for i in 0..40u32 {
        let data: Vec<u8> = (0..i * 7).map(|b| (b % 251) as u8).collect();
        emotes.push(RawEmote::new(format!("emote{i}"), data));
    }
    emotes.push(raw_emote("", &[]));
    let v = RawCacheValue::EmoteSet(emotes);
    assert_eq!(decode(&encode(&v)), Some(v));
}

#[test]
fn variants_are_told_apart() {
    let client = encode(&RawCacheValue::ClientId("x".to_string()));
    let user = encode(&RawCacheValue::UserId("x".to_string()));
    assert_ne!(client, user);
    assert_eq!(decode(&client), Some(RawCacheValue::ClientId("x".to_string())));
    assert_eq!(decode(&user), Some(RawCacheValue::UserId("x".to_string())));
}

#[test]
fn client_id_bytes_are_exact() {
    let bytes = encode(&RawCacheValue::ClientId("ab".to_string()));
    assert_eq!(bytes, vec![1, 0, 2, 0, 0, 0, 0, 0, 0, 0, b'a', b'b']);
}

#[test]
fn user_id_bytes_are_exact() {
    let bytes = encode(&RawCacheValue::UserId("é".to_string()));
    assert_eq!(bytes, vec![1, 1, 2, 0, 0, 0, 0, 0, 0, 0, 0xc3, 0xa9]);
}

#[test]
fn emote_set_bytes_are_exact() {
    let bytes = encode(&RawCacheValue::EmoteSet(vec![raw_emote("K", &[9, 8])]));
    let expected = vec![
        1, 2, // version, tag
        1, 0, 0, 0, 0, 0, 0, 0, b'K', // name
        2, 0, 0, 0, 0, 0, 0, 0, 9, 8, // data
    ];
    assert_eq!(bytes, expected);
}

#[test]
fn empty_emote_set_is_two_bytes() {
    assert_eq!(encode(&RawCacheValue::EmoteSet(vec![])), vec![WIRE_VERSION, 2]);
}

#[test]
fn decode_rejects_nothing_at_all() {
    assert_eq!(decode(&[]), None);
    assert_eq!(decode(&[1]), None);
}

#[test]
fn decode_rejects_another_version() {
    let mut bytes = encode(&RawCacheValue::ClientId("abc".to_string()));
    bytes[0] = 2;
    assert_eq!(decode(&bytes), None);
    bytes[0] = 0;
    assert_eq!(decode(&bytes), None);
}

#[test]
fn decode_rejects_an_unknown_tag() {
    let mut bytes = encode(&RawCacheValue::ClientId("abc".to_string()));
    bytes[1] = 3;
    assert_eq!(decode(&bytes), None);
    bytes[1] = 255;
    assert_eq!(decode(&bytes), None);
}

#[test]
fn decode_rejects_every_truncation() {
    let full = encode(&RawCacheValue::EmoteSet(vec![
        raw_emote("Kappa", &[1, 2, 3, 4]),
        raw_emote("LUL", &[5, 6]),
    ]));
    let whole_emotes = [2usize, 2 + 8 + 5 + 8 + 4];
    for cut in 0..full.len() {
        let decoded = decode(&full[..cut]);
        if whole_emotes.contains(&cut) {
            assert!(decoded.is_some(), "a cut after a whole emote is a shorter set");
        } else {
            assert_eq!(decoded, None, "cut at {cut}");
        }
    }
}

#[test]
fn decode_rejects_truncated_text() {
    let full = encode(&RawCacheValue::ClientId("abcdef".to_string()));
    for cut in 0..full.len() {
        assert_eq!(decode(&full[..cut]), None, "cut at {cut}");
    }
}

#[test]
fn decode_rejects_bytes_left_over() {
    let mut bytes = encode(&RawCacheValue::UserId("abc".to_string()));
    bytes.push(0);
    assert_eq!(decode(&bytes), None);
}

#[test]
fn decode_rejects_text_that_is_not_utf8() {
    let bytes = vec![1, 0, 2, 0, 0, 0, 0, 0, 0, 0, 0xff, 0xfe];
    assert_eq!(decode(&bytes), None);
    let name = vec![1, 2, 1, 0, 0, 0, 0, 0, 0, 0, 0x80, 0, 0, 0, 0, 0, 0, 0, 0];
    assert_eq!(decode(&name), None);
}

#[test]
fn decode_rejects_a_length_past_the_end() {
    let bytes = vec![1, 0, 0xff, 0xff, 0xff, 0xff, 0xff, 0xff, 0xff, 0xff, b'a'];
    assert_eq!(decode(&bytes), None);
    let bytes = vec![1, 1, 2, 0, 0, 0, 0, 0, 0, 0, b'a'];
    assert_eq!(decode(&bytes), None);
}

#[test]
fn decode_accepts_payload_bytes_of_any_kind() {
    let data: Vec<u8> = (0..=255).collect();
    let v = RawCacheValue::EmoteSet(vec![RawEmote::new("all".to_string(), data)]);
    assert_eq!(decode(&encode(&v)), Some(v));
}

#[test]
fn decoded_file_encodes_to_itself() {
    let bytes = vec![1, 2, 0, 0, 0, 0, 0, 0, 0, 0, 1, 0, 0, 0, 0, 0, 0, 0, 7];
    let value = decode(&bytes).expect("a set of one nameless emote");
    assert_eq!(value, RawCacheValue::EmoteSet(vec![raw_emote("", &[7])]));
    assert_eq!(encode(&value), bytes);
}

#[test]
fn decode_rejects_an_emote_set_with_a_name_twice() {
    let twice = RawCacheValue::EmoteSet(vec![
        raw_emote("Kappa", &[1]),
        raw_emote("LUL", &[2]),
        raw_emote("Kappa", &[3]),
    ]);
    assert!(!twice.is_well_formed());
    assert_eq!(decode(&encode(&twice)), None);
    let once = RawCacheValue::EmoteSet(vec![raw_emote("Kappa", &[1]), raw_emote("LUL", &[1])]);
    assert!(once.is_well_formed());
    assert_eq!(decode(&encode(&once)), Some(once));
}

#[test]
fn names_that_differ_in_case_or_length_are_different_names() {
    let v = RawCacheValue::EmoteSet(vec![
        raw_emote("kappa", &[]),
        raw_emote("Kappa", &[]),
        raw_emote("Kapp", &[]),
        raw_emote("", &[]),
    ]);
    assert!(v.is_well_formed());
    assert_eq!(decode(&encode(&v)), Some(v));
}
