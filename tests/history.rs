use glyph::{in_memory_history, History};

fn pushed_history(lines: &[&str]) -> History {
    let mut h = in_memory_history();
    for l in lines {
        h.push(l.to_string());
    }
    h
}

#[test]
fn prev_walks_back_and_stops_at_oldest() {
    let mut h = pushed_history(&["a", "b", "c"]);
    assert_eq!(h.prev_entry(), Some("c".to_string()));
    assert_eq!(h.prev_entry(), Some("b".to_string()));
    assert_eq!(h.prev_entry(), Some("a".to_string()));
    assert_eq!(h.prev_entry(), Some("a".to_string()));
}

#[test]
fn prev_on_empty_history_is_none() {
    let mut h = in_memory_history();
    assert_eq!(h.prev_entry(), None);
    assert_eq!(h.next_entry(), None);
}

#[test]
fn next_after_one_prev_falls_through() {
    let mut h = pushed_history(&["a", "b"]);
    assert_eq!(h.prev_entry(), Some("b".to_string()));
    assert_eq!(h.next_entry(), None);
    assert_eq!(h.scroll_position(), 2);
}

#[test]
fn next_walks_forward() {
    let mut h = pushed_history(&["a", "b", "c"]);
    h.prev_entry();
    h.prev_entry();
    h.prev_entry();
    assert_eq!(h.next_entry(), Some("b".to_string()));
    assert_eq!(h.next_entry(), Some("c".to_string()));
    assert_eq!(h.next_entry(), None);
    assert_eq!(h.next_entry(), None);
}

#[test]
fn single_entry_history_stays_on_it() {
    let mut h = pushed_history(&["only"]);
    assert_eq!(h.prev_entry(), Some("only".to_string()));
    assert_eq!(h.prev_entry(), Some("only".to_string()));
    assert_eq!(h.scroll_position(), 0);
}

#[test]
fn push_collapses_repeat_and_resets_scroll() {
    let mut h = pushed_history(&["a", "b"]);
    h.prev_entry();
    h.prev_entry();
    assert!(!h.push("b".to_string()));
    assert_eq!(h.entries(), &vec!["a".to_string(), "b".to_string()]);
    assert_eq!(h.scroll_position(), 2);
}

#[test]
fn push_keeps_non_adjacent_repeat() {
    let mut h = pushed_history(&["a", "b"]);
    assert!(h.push("a".to_string()));
    assert_eq!(h.entries().len(), 3);
    assert_eq!(h.scroll_position(), 3);
}

#[test]
fn push_ignores_blank_lines() {
    let mut h = in_memory_history();
    assert!(!h.push("".to_string()));
    assert!(!h.push(" \t ".to_string()));
    assert!(h.entries().is_empty());
}

#[test]
fn new_starts_at_live_line() {
    let mut h = History::new(vec!["x".to_string(), "y".to_string()]);
    assert_eq!(h.scroll_position(), 2);
    assert_eq!(h.prev_entry(), Some("y".to_string()));
}
