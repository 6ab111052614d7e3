use std::collections::VecDeque;
use std::io::Cursor;
use tuige::ingest::{settle, Ingestion, Poll, DEFAULT_WIDTH};
use tuige::response::{GlobalEmoteData, GlobalEmotes};
use tuige::value::{Emote, RawEmote};

fn item(name: &str, url: Option<&str>) -> GlobalEmoteData {
    let mut images = vec![("url_2x".to_string(), format!("https://cdn/{name}/2.0"))];
    if let Some(url) = url {
        images.push(("url_1x".to_string(), url.to_string()));
    }
    GlobalEmoteData { name: name.to_string(), id: format!("id-{name}"), images }
}

fn catalog(count: usize) -> GlobalEmotes {
    let data = (0..count).map(|i| item(&format!("e{i}"), Some(&format!("https://cdn/e{i}/1.0"))));
    GlobalEmotes { data: data.collect() }
}

fn png_body(seed: u8) -> Vec<u8> {
    let rgba = (0..16).map(|i| (i as u8).wrapping_mul(7).wrapping_add(seed)).collect();
    let buffer = image::RgbaImage::from_raw(2, 2, rgba).unwrap();
    let mut out = Vec::new();
    buffer.write_to(&mut Cursor::new(&mut out), image::ImageFormat::Png).unwrap();
    out
}

fn pair(name: &str) -> (RawEmote, Emote) {
    Emote::transcode_from_bytes(name.to_string(), &png_body(name.len() as u8)).unwrap()
}

/// Drives a run to its end. `fails` tells for a name whether its download
/// fails; `newest_first` picks which download in flight finishes first.
/// Returns the run and the largest number of downloads that were in flight.
fn drive(
    mut run: Ingestion,
    fails: &dyn Fn(&str) -> bool,
    newest_first: bool,
) -> (Ingestion, usize) {
    let mut flying: VecDeque<(usize, String)> = VecDeque::new();
    let mut most = 0;
    loop {
        match run.poll() {
            Poll::Start(download) => {
                flying.push_back((download.index, download.name));
                assert_eq!(run.running(), flying.len());
                most = most.max(flying.len());
            }
            Poll::Wait => {
                let (index, name) =
                    if newest_first { flying.pop_back() } else { flying.pop_front() }.unwrap();
                let outcome = if fails(&name) { None } else { Some(pair(&name)) };
                assert!(run.complete(index, outcome));
            }
            Poll::Done => break,
        }
    }
    assert!(flying.is_empty());
    assert!(run.is_done());
    (run, most)
}

#[test]
fn default_width_is_five() {
    assert_eq!(DEFAULT_WIDTH, 5);
}

#[test]
fn twelve_items_never_have_more_than_five_in_flight() {
    let run = Ingestion::new(catalog(12), "token".to_string(), 5).unwrap();
    let (run, most) = drive(run, &|_| false, false);
    assert_eq!(most, 5);
    let (emotes, raws) = run.finish();
    assert_eq!(emotes.len(), 12);
    assert_eq!(raws.len(), 12);
}

#[test]
fn sixth_download_waits_for_a_free_place() {
    let mut run = Ingestion::new(catalog(12), "token".to_string(), 5).unwrap();
    for i in 0..5 {
        match run.poll() {
            Poll::Start(download) => assert_eq!(download.index, i),
            _ => panic!("five may start"),
        }
    }
    assert!(matches!(run.poll(), Poll::Wait));
    assert!(matches!(run.poll(), Poll::Wait));
    assert_eq!(run.running(), 5);
    assert!(run.complete(2, None));
    assert_eq!(run.running(), 4);
    match run.poll() {
        Poll::Start(download) => assert_eq!(download.index, 5),
        _ => panic!("a place is free"),
    }
    assert!(matches!(run.poll(), Poll::Wait));
}

#[test]
fn fewer_items_than_the_width_all_start() {
    let mut run = Ingestion::new(catalog(3), "token".to_string(), 5).unwrap();
    for _ in 0..3 {
        assert!(matches!(run.poll(), Poll::Start(_)));
    }
    assert!(matches!(run.poll(), Poll::Wait));
    assert_eq!(run.running(), 3);
}

#[test]
fn failed_items_are_left_out_and_the_run_ends_well() {
    let run = Ingestion::new(catalog(12), "token".to_string(), 5).unwrap();
    let fails = |name: &str| ["e1", "e4", "e7", "e11"].contains(&name);
    let (run, _) = drive(run, &fails, false);
    assert_eq!(run.lost(), 4);
    let (emotes, raws) = run.finish();
    assert_eq!(emotes.len(), 8);
    assert_eq!(raws.len(), 8);
    let names: Vec<&str> = emotes.iter().map(|e| e.name()).collect();
    assert_eq!(names, ["e0", "e2", "e3", "e5", "e6", "e8", "e9", "e10"]);
}

#[test]
fn run_where_everything_fails_gathers_nothing() {
    let run = Ingestion::new(catalog(7), "token".to_string(), 2).unwrap();
    let (run, most) = drive(run, &|_| true, false);
    assert_eq!(most, 2);
    assert_eq!(run.lost(), 7);
    let (emotes, raws) = run.finish();
    assert!(emotes.is_empty() && raws.is_empty());
}

#[test]
fn pairs_come_in_the_order_of_completion() {
    let run = Ingestion::new(catalog(4), "token".to_string(), 4).unwrap();
    let (run, _) = drive(run, &|_| false, true);
    let (emotes, raws) = run.finish();
    let names: Vec<&str> = emotes.iter().map(|e| e.name()).collect();
    assert_eq!(names, ["e3", "e2", "e1", "e0"]);
    let raw_names: Vec<&str> = raws.iter().map(|e| e.name()).collect();
    assert_eq!(raw_names, names);
}

#[test]
fn item_without_the_size_is_lost_without_a_download() {
    let data = vec![
        item("a", Some("https://cdn/a")),
        item("b", None),
        item("c", None),
        item("d", Some("https://cdn/d")),
    ];
    let mut run = Ingestion::new(GlobalEmotes { data }, "token".to_string(), 1).unwrap();
    match run.poll() {
        Poll::Start(download) => {
            assert_eq!(download.index, 0);
            assert_eq!(download.name, "a");
            assert_eq!(download.request.url, "https://cdn/a");
            assert_eq!(download.request.bearer, "token");
            assert_eq!(download.request.client_id, None);
        }
        _ => panic!("the first has an image"),
    }
    assert!(matches!(run.poll(), Poll::Wait));
    assert_eq!(run.lost(), 0);
    assert!(run.complete(0, Some(pair("a"))));
    match run.poll() {
        Poll::Start(download) => assert_eq!((download.index, download.name.as_str()), (3, "d")),
        _ => panic!("the fourth has an image"),
    }
    assert_eq!(run.lost(), 2);
    assert!(run.complete(3, Some(pair("d"))));
    assert!(matches!(run.poll(), Poll::Done));
    assert_eq!(run.finish().0.len(), 2);
}

#[test]
fn catalog_without_images_is_done_at_once() {
    let data = vec![item("a", None), item("b", None)];
    let mut run = Ingestion::new(GlobalEmotes { data }, "token".to_string(), 5).unwrap();
    assert!(matches!(run.poll(), Poll::Done));
    assert_eq!(run.lost(), 2);
    assert!(run.is_done());
}

#[test]
fn empty_catalog_is_done_at_once() {
    let mut run = Ingestion::new(catalog(0), "token".to_string(), 5).unwrap();
    assert!(run.is_done());
    assert!(matches!(run.poll(), Poll::Done));
    let (emotes, raws) = run.finish();
    assert!(emotes.is_empty() && raws.is_empty());
}

#[test]
fn there_is_no_run_of_width_zero() {
    assert!(Ingestion::new(catalog(3), "token".to_string(), 0).is_none());
}

#[test]
fn width_one_runs_one_at_a_time() {
    let run = Ingestion::new(catalog(6), "token".to_string(), 1).unwrap();
    let (run, most) = drive(run, &|name| name == "e2", false);
    assert_eq!(most, 1);
    assert_eq!(run.finish().0.len(), 5);
}

#[test]
fn report_without_a_download_is_passed_over() {
    let mut run = Ingestion::new(catalog(2), "token".to_string(), 5).unwrap();
    assert!(!run.complete(0, None));
    assert!(!run.complete(7, Some(pair("stray"))));
    assert_eq!(run.running(), 0);
    assert_eq!(run.lost(), 0);
    let (run, _) = drive(run, &|_| false, false);
    assert_eq!(run.finish().0.len(), 2);
}

#[test]
fn run_is_not_done_while_downloads_are_in_flight() {
    let mut run = Ingestion::new(catalog(1), "token".to_string(), 5).unwrap();
    assert!(!run.is_done());
    assert!(matches!(run.poll(), Poll::Start(_)));
    assert!(!run.is_done());
    assert!(run.complete(0, None));
    assert!(run.is_done());
}

#[test]
fn settle_transcodes_a_body() {
    let (raw, emote) = settle("Kappa".to_string(), Some(png_body(1))).expect("a PNG transcodes");
    assert_eq!(raw.name(), "Kappa");
    assert_eq!(Emote::from_raw(&raw), Some(emote));
}

#[test]
fn settle_drops_a_failed_download_and_a_bad_body() {
    assert_eq!(settle("Kappa".to_string(), None), None);
    assert_eq!(settle("Kappa".to_string(), Some(b"not found".to_vec())), None);
}

#[test]
fn report_is_taken_once_for_a_download() {
    let mut run = Ingestion::new(catalog(3), "token".to_string(), 5).unwrap();
    assert!(matches!(run.poll(), Poll::Start(_)));
    assert!(matches!(run.poll(), Poll::Start(_)));
    assert!(run.complete(1, Some(pair("e1"))));
    assert!(!run.complete(1, Some(pair("e1"))), "the download was reported already");
    assert!(!run.complete(2, Some(pair("e2"))), "the download was not handed out yet");
    assert_eq!(run.running(), 1);
    assert!(run.complete(0, None));
    assert!(!run.complete(0, Some(pair("e0"))), "a failed download stays failed");
    let (run, _) = drive(run, &|_| false, false);
    assert_eq!(run.lost(), 1);
    let (emotes, _) = run.finish();
    let names: Vec<&str> = emotes.iter().map(|e| e.name()).collect();
    assert_eq!(names, ["e1", "e2"]);
}

#[test]
fn pair_under_another_name_is_counted_as_failed() {
    let mut run = Ingestion::new(catalog(2), "token".to_string(), 5).unwrap();
    assert!(matches!(run.poll(), Poll::Start(_)));
    assert!(matches!(run.poll(), Poll::Start(_)));
    assert!(run.complete(0, Some(pair("e1"))), "the download was in flight");
    assert_eq!(run.lost(), 1);
    assert!(run.complete(1, Some(pair("e1"))));
    assert!(matches!(run.poll(), Poll::Done));
    let (emotes, raws) = run.finish();
    assert_eq!(emotes.len(), 1);
    assert_eq!(emotes[0].name(), "e1");
    assert_eq!(raws[0].name(), "e1");
}

#[test]
fn names_gathered_are_those_of_the_items_that_succeeded() {
    let run = Ingestion::new(catalog(9), "token".to_string(), 3).unwrap();
    let fails = |name: &str| ["e0", "e5", "e8"].contains(&name);
    let (run, _) = drive(run, &fails, true);
    let (emotes, raws) = run.finish();
    let mut names: Vec<&str> = emotes.iter().map(|e| e.name()).collect();
    let raw_names: Vec<&str> = raws.iter().map(|e| e.name()).collect();
    assert_eq!(names, raw_names);
    names.sort();
    assert_eq!(names, ["e1", "e2", "e3", "e4", "e6", "e7"]);
}

#[test]
fn second_pair_under_a_name_is_lost() {
    let data = vec![
        item("same", Some("https://cdn/1")),
        item("other", Some("https://cdn/2")),
        item("same", Some("https://cdn/3")),
    ];
    let mut run = Ingestion::new(GlobalEmotes { data }, "token".to_string(), 5).unwrap();
    for _ in 0..3 {
        assert!(matches!(run.poll(), Poll::Start(_)));
    }
    assert!(run.complete(2, Some(pair("same"))));
    assert!(run.complete(1, Some(pair("other"))));
    assert_eq!(run.lost(), 0);
    assert!(run.complete(0, Some(pair("same"))), "the download was in flight");
    assert_eq!(run.lost(), 1);
    assert!(matches!(run.poll(), Poll::Done));
    let (emotes, raws) = run.finish();
    let names: Vec<&str> = emotes.iter().map(|e| e.name()).collect();
    assert_eq!(names, ["same", "other"]);
    let raw_names: Vec<&str> = raws.iter().map(|e| e.name()).collect();
    assert_eq!(raw_names, names);
}

#[test]
fn name_whose_first_download_failed_is_free_for_the_second() {
    let data = vec![item("same", Some("https://cdn/1")), item("same", Some("https://cdn/2"))];
    let mut run = Ingestion::new(GlobalEmotes { data }, "token".to_string(), 5).unwrap();
    assert!(matches!(run.poll(), Poll::Start(_)));
    assert!(matches!(run.poll(), Poll::Start(_)));
    assert!(run.complete(0, None));
    assert!(run.complete(1, Some(pair("same"))));
    assert_eq!(run.lost(), 1);
    assert_eq!(run.finish().0.len(), 1);
}

#[test]
fn gathered_set_has_a_runtime_form() {
    let data = vec![
        item("a", Some("https://cdn/1")),
        item("a", Some("https://cdn/2")),
        item("b", Some("https://cdn/3")),
    ];
    let run = Ingestion::new(GlobalEmotes { data }, "token".to_string(), 2).unwrap();
    let (run, _) = drive(run, &|_| false, false);
    let (_, raws) = run.finish();
    let set = tuige::value::RawCacheValue::EmoteSet(raws);
    assert!(set.is_well_formed());
    assert!(tuige::value::Value::from_raw(&set).is_some());
}
