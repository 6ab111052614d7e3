use tuige::text::{join, mentions};

fn texts(items: &[&str]) -> Vec<String> {
    items.iter().map(|s| s.to_string()).collect()
}

#[test]
fn join_puts_the_separator_between() {
    assert_eq!(join(&texts(&["a", "b", "c"]), " "), "a b c");
    assert_eq!(join(&texts(&["one", "two"]), ", "), "one, two");
}

#[test]
fn join_of_one_text_is_the_text() {
    assert_eq!(join(&texts(&["alone"]), " "), "alone");
}

#[test]
fn join_of_nothing_is_empty() {
    assert_eq!(join(&texts(&[]), " "), "");
}

#[test]
fn join_keeps_empty_texts() {
    assert_eq!(join(&texts(&["", "x", ""]), "-"), "-x-");
    assert_eq!(join(&texts(&["", ""]), " "), " ");
}

#[test]
fn join_agrees_with_the_standard_library() {
    let lines = texts(&["first line", "", "third ✓", "end"]);
    assert_eq!(join(&lines, " "), lines.join(" "));
}

#[test]
fn mentions_finds_a_name_anywhere() {
    assert!(mentions("hello somebody!", "somebody"));
    assert!(mentions("somebody", "somebody"));
    assert!(mentions("xxsomebodyxx", "somebody"));
}

#[test]
fn mentions_misses_what_is_not_there() {
    assert!(!mentions("hello world", "somebody"));
    assert!(!mentions("somebod", "somebody"));
    assert!(!mentions("", "somebody"));
}

#[test]
fn mentions_minds_the_case() {
    assert!(!mentions("hello Somebody", "somebody"));
}

#[test]
fn mentions_finds_the_empty_name_everywhere() {
    assert!(mentions("anything", ""));
    assert!(mentions("", ""));
}

#[test]
fn mentions_finds_a_name_in_a_long_text() {
    let mut msg = "x".repeat(500);
    assert!(!mentions(&msg, "needle"));
    msg.push_str("needle");
    assert!(mentions(&msg, "needle"));
}
