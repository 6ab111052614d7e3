use std::io::Cursor;
use tuige::bitmap::Bitmap;
use tuige::value::{Emote, RawCacheValue, RawEmote, TranscodeError, Value};

fn pixels(width: u32, height: u32, seed: u8) -> Vec<u8> {
    (0..width * height * 4).map(|i| (i as u8).wrapping_mul(31).wrapping_add(seed)).collect()
}

fn png_file(width: u32, height: u32, seed: u8) -> Vec<u8> {
    let buffer = image::RgbaImage::from_raw(width, height, pixels(width, height, seed)).unwrap();
    let mut out = Vec::new();
    buffer.write_to(&mut Cursor::new(&mut out), image::ImageFormat::Png).unwrap();
    out
}

fn webp_file(width: u32, height: u32, seed: u8) -> Vec<u8> {
    Bitmap::from_rgba(width, height, pixels(width, height, seed)).unwrap().encode_webp().unwrap()
}

#[test]
fn identifiers_materialize_as_they_are() {
    let raw = RawCacheValue::ClientId("abc123".to_string());
    assert_eq!(Value::from_raw(&raw), Some(Value::ClientId("abc123".to_string())));
    let raw = RawCacheValue::UserId("77".to_string());
    assert_eq!(Value::from_raw(&raw), Some(Value::UserId("77".to_string())));
}

#[test]
fn emote_set_materializes_in_order() {
    let raw = RawCacheValue::EmoteSet(vec![
        RawEmote::new("first".to_string(), webp_file(2, 2, 1)),
        RawEmote::new("second".to_string(), webp_file(3, 1, 2)),
    ]);
    let value = Value::from_raw(&raw).expect("both images decode");
    match value {
        Value::EmoteSet(emotes) => {
            assert_eq!(emotes.len(), 2);
            assert_eq!(emotes[0].name(), "first");
            assert_eq!(emotes[0].image().rgba(), &pixels(2, 2, 1)[..]);
            assert_eq!(emotes[1].name(), "second");
            assert_eq!((emotes[1].image().width(), emotes[1].image().height()), (3, 1));
        }
        other => panic!("not an emote set: {other:?}"),
    }
}

#[test]
fn empty_emote_set_materializes() {
    let raw = RawCacheValue::EmoteSet(vec![]);
    assert_eq!(Value::from_raw(&raw), Some(Value::EmoteSet(vec![])));
}

#[test]
fn emote_set_with_a_broken_image_does_not_materialize() {
    let raw = RawCacheValue::EmoteSet(vec![
        RawEmote::new("good".to_string(), webp_file(2, 2, 1)),
        RawEmote::new("bad".to_string(), vec![1, 2, 3]),
    ]);
    assert_eq!(Value::from_raw(&raw), None);
}

#[test]
fn persisted_image_must_be_webp() {
    let raw = RawEmote::new("png".to_string(), png_file(2, 2, 0));
    assert_eq!(Emote::from_raw(&raw), None);
}

#[test]
fn emote_from_raw_keeps_the_name() {
    let raw = RawEmote::new("Kappa".to_string(), webp_file(1, 1, 9));
    let emote = Emote::from_raw(&raw).unwrap();
    assert_eq!(emote.name(), "Kappa");
    assert_eq!(emote.image().rgba(), &pixels(1, 1, 9)[..]);
}

#[test]
fn transcode_gives_both_forms() {
    let (raw, emote) = Emote::transcode_from_bytes("LUL".to_string(), &png_file(4, 2, 5)).unwrap();
    assert_eq!(raw.name(), "LUL");
    assert_eq!(emote.name(), "LUL");
    assert_eq!(emote.image().rgba(), &pixels(4, 2, 5)[..]);
    assert_eq!(raw.data(), &webp_file(4, 2, 5)[..]);
    assert_eq!(Emote::from_raw(&raw), Some(emote));
}

#[test]
fn transcode_reports_what_does_not_decode() {
    let outcome = Emote::transcode_from_bytes("x".to_string(), b"<html>404</html>");
    assert_eq!(outcome, Err(TranscodeError::Decode));
}

#[test]
fn transcode_reports_what_does_not_encode() {
    // WebP holds at most 16384 pixels a side.
    let wide = image::RgbaImage::from_raw(16385, 1, vec![0; 16385 * 4]).unwrap();
    let mut file = Vec::new();
    wide.write_to(&mut Cursor::new(&mut file), image::ImageFormat::Png).unwrap();
    let outcome = Emote::transcode_from_bytes("wide".to_string(), &file);
    assert_eq!(outcome, Err(TranscodeError::Encode));
}

#[test]
fn raw_emote_from_image_names_the_file() {
    let image = Bitmap::from_rgba(2, 1, pixels(2, 1, 3)).unwrap();
    let raw = RawEmote::from_image("two".to_string(), &image).unwrap();
    assert_eq!(raw.name(), "two");
    assert_eq!(raw.data(), &webp_file(2, 1, 3)[..]);
}

#[test]
fn has_name_tells_the_name() {
    let (raw, emote) = Emote::transcode_from_bytes("LUL".to_string(), &png_file(1, 1, 0)).unwrap();
    assert!(raw.has_name(&"LUL".to_string()));
    assert!(emote.has_name(&"LUL".to_string()));
    assert!(!raw.has_name(&"LU".to_string()));
    assert!(!emote.has_name(&"lul".to_string()));
}

#[test]
fn emote_set_with_a_name_twice_has_no_runtime_form() {
    let raw = RawCacheValue::EmoteSet(vec![
        RawEmote::new("same".to_string(), webp_file(2, 2, 1)),
        RawEmote::new("same".to_string(), webp_file(2, 2, 2)),
    ]);
    assert!(!raw.is_well_formed());
    assert_eq!(Value::from_raw(&raw), None);
}

#[test]
fn identifiers_are_always_well_formed() {
    assert!(RawCacheValue::ClientId("x".to_string()).is_well_formed());
    assert!(RawCacheValue::UserId(String::new()).is_well_formed());
    assert!(Value::ClientId("x".to_string()).is_well_formed());
    assert!(Value::UserId("1".to_string()).is_well_formed());
}

#[test]
fn value_tells_whether_a_name_occurs_twice() {
    let emote = |name: &str| Emote::new(name.to_string(), Bitmap::from_rgba(0, 0, vec![]).unwrap());
    assert!(Value::EmoteSet(vec![]).is_well_formed());
    assert!(Value::EmoteSet(vec![emote("a"), emote("b"), emote("c")]).is_well_formed());
    assert!(!Value::EmoteSet(vec![emote("a"), emote("b"), emote("a")]).is_well_formed());
    assert!(!Value::EmoteSet(vec![emote("b"), emote("b")]).is_well_formed());
}

#[test]
fn materialized_set_is_well_formed() {
    let raw = RawCacheValue::EmoteSet(vec![
        RawEmote::new("first".to_string(), webp_file(1, 1, 1)),
        RawEmote::new("second".to_string(), webp_file(1, 1, 1)),
    ]);
    assert!(Value::from_raw(&raw).unwrap().is_well_formed());
}
