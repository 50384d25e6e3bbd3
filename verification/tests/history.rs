use shelp::history::History;

fn entry(lines: &[&str]) -> Vec<String> {
    lines.iter().map(|l| l.to_string()).collect()
}

fn entries(h: &History) -> Vec<Vec<String>> {
    (0..h.len()).map(|i| h.get(i).unwrap().clone()).collect()
}

#[test]
fn push_beyond_capacity_evicts_the_oldest() {
    let mut h = History::with_capacity(2, None);
    h.push(entry(&["a"]));
    h.push(entry(&["b"]));
    h.push(entry(&["c"]));
    assert_eq!(h.len(), 2);
    assert_eq!(h.get(0), Some(&entry(&["c"])));
    assert_eq!(h.get(1), Some(&entry(&["b"])));
    assert_eq!(h.get(2), None);
    // oldest first, the store holds ["b"] then ["c"]
    assert_eq!(h.write_to_text(), "b\n---\nc\n---\n");
}

#[test]
fn push_on_a_full_store_keeps_the_length() {
    let mut h = History::with_capacity(3, None);
    for name in ["1", "2", "3"] {
        h.push(entry(&[name]));
    }
    assert_eq!(h.len(), 3);
    h.push(entry(&["4"]));
    assert_eq!(h.len(), 3);
    assert_eq!(entries(&h), vec![entry(&["4"]), entry(&["3"]), entry(&["2"])]);
}

#[test]
fn a_new_store_is_empty() {
    let mut h = History::with_capacity(64, None);
    assert_eq!(h.len(), 0);
    assert_eq!(h.capacity(), 64);
    assert_eq!(h.cur(), None);
    assert_eq!(h.prev(), None);
    assert_eq!(h.next(), None);
    assert_eq!(h.path(), None);
}

#[test]
fn the_path_is_kept() {
    let path = std::path::PathBuf::from("history.txt");
    let h = History::with_capacity(4, Some(path.clone()));
    assert_eq!(h.path(), Some(&path));
}

#[test]
fn a_store_without_room_stays_empty() {
    let mut h = History::with_capacity(0, None);
    h.push(entry(&["a"]));
    assert_eq!(h.len(), 0);
    assert_eq!(h.prev(), None);
}

#[test]
fn a_command_without_lines_is_not_stored() {
    let mut h = History::with_capacity(4, None);
    h.push(entry(&["a"]));
    assert!(h.prev().is_some());
    h.push(Vec::new());
    assert_eq!(h.len(), 1);
    // the push still ended browsing
    assert_eq!(h.cur(), None);
}

#[test]
fn prev_walks_to_the_oldest_and_stops() {
    let mut h = History::with_capacity(8, None);
    h.push(entry(&["old"]));
    h.push(entry(&["mid"]));
    h.push(entry(&["new"]));
    assert_eq!(h.prev(), Some(&entry(&["new"])));
    assert_eq!(h.cur(), Some(&entry(&["new"])));
    assert_eq!(h.prev(), Some(&entry(&["mid"])));
    assert_eq!(h.prev(), Some(&entry(&["old"])));
    assert_eq!(h.prev(), None);
    // a failed step changes nothing
    assert_eq!(h.cur(), Some(&entry(&["old"])));
}

#[test]
fn next_walks_back_and_leaves_browsing() {
    let mut h = History::with_capacity(8, None);
    h.push(entry(&["old"]));
    h.push(entry(&["new"]));
    assert!(h.prev().is_some());
    assert!(h.prev().is_some());
    assert_eq!(h.next(), Some(&entry(&["new"])));
    assert_eq!(h.next(), None);
    assert_eq!(h.cur(), None);
    assert_eq!(h.next(), None);
    assert_eq!(h.cur(), None);
    // browsing starts again at the newest command
    assert_eq!(h.prev(), Some(&entry(&["new"])));
}

#[test]
fn push_ends_browsing() {
    let mut h = History::with_capacity(8, None);
    h.push(entry(&["a"]));
    assert!(h.prev().is_some());
    h.push(entry(&["b"]));
    assert_eq!(h.cur(), None);
    assert_eq!(h.prev(), Some(&entry(&["b"])));
}

#[test]
fn reset_iter_ends_browsing_and_keeps_the_commands() {
    let mut h = History::with_capacity(8, None);
    h.push(entry(&["a", "b"]));
    assert!(h.prev().is_some());
    h.reset_iter();
    assert_eq!(h.cur(), None);
    assert_eq!(h.len(), 1);
    assert_eq!(h.get(0), Some(&entry(&["a", "b"])));
}

#[test]
fn clear_forgets_everything() {
    let mut h = History::with_capacity(8, None);
    h.push(entry(&["a"]));
    h.push(entry(&["b"]));
    assert!(h.prev().is_some());
    h.clear();
    assert_eq!(h.len(), 0);
    assert_eq!(h.cur(), None);
    assert_eq!(h.capacity(), 8);
}

#[test]
fn the_text_holds_the_commands_oldest_first() {
    let mut h = History::with_capacity(8, None);
    h.push(entry(&["let a = 2"]));
    h.push(entry(&["if a < 2 {", "    a += 4", "}"]));
    assert_eq!(h.write_to_text(), "let a = 2\n---\nif a < 2 {\n    a += 4\n}\n---\n");
}

#[test]
fn the_text_of_an_empty_store_is_empty() {
    let h = History::with_capacity(8, None);
    assert_eq!(h.write_to_text(), "");
}

#[test]
fn reading_makes_the_last_command_of_the_text_the_newest() {
    let mut h = History::with_capacity(8, None);
    h.read_from_text("let a = 2\n---\nif a < 2 {\n    a += 4\n}\n---\n");
    assert_eq!(h.len(), 2);
    assert_eq!(h.get(0), Some(&entry(&["if a < 2 {", "    a += 4", "}"])));
    assert_eq!(h.get(1), Some(&entry(&["let a = 2"])));
    assert_eq!(h.prev(), Some(&entry(&["if a < 2 {", "    a += 4", "}"])));
}

#[test]
fn reading_appends_to_what_is_stored() {
    let mut h = History::with_capacity(8, None);
    h.push(entry(&["held"]));
    h.read_from_text("x\n---\n");
    assert_eq!(entries(&h), vec![entry(&["x"]), entry(&["held"])]);
}

#[test]
fn reading_more_than_the_capacity_keeps_the_newest() {
    let mut h = History::with_capacity(2, None);
    h.read_from_text("a\n---\nb\n---\nc\n---\n");
    assert_eq!(entries(&h), vec![entry(&["c"]), entry(&["b"])]);
}

#[test]
fn lines_after_the_last_rule_are_dropped() {
    let mut h = History::with_capacity(8, None);
    h.read_from_text("a\n---\nb\nc");
    assert_eq!(entries(&h), vec![entry(&["a"])]);
}

#[test]
fn a_rule_is_any_line_that_starts_with_three_hyphens() {
    let mut h = History::with_capacity(8, None);
    h.read_from_text("a\n--- end\nb\n----\n");
    assert_eq!(entries(&h), vec![entry(&["b"]), entry(&["a"])]);
}

#[test]
fn a_rule_without_lines_before_it_stores_nothing() {
    let mut h = History::with_capacity(8, None);
    h.read_from_text("---\na\n---\n---\n");
    assert_eq!(entries(&h), vec![entry(&["a"])]);
}

#[test]
fn reading_ends_browsing_only_where_the_text_has_a_rule() {
    let mut h = History::with_capacity(8, None);
    h.push(entry(&["a"]));
    assert!(h.prev().is_some());
    h.read_from_text("dangling\n");
    assert_eq!(h.cur(), Some(&entry(&["a"])));
    h.read_from_text("b\n---\n");
    assert_eq!(h.cur(), None);
}

#[test]
fn carriage_returns_before_line_feeds_are_dropped() {
    let mut h = History::with_capacity(8, None);
    h.read_from_text("a\r\nb\r\n---\r\n");
    assert_eq!(entries(&h), vec![entry(&["a", "b"])]);
}

#[test]
fn writing_and_reading_gives_the_same_commands() {
    let mut h = History::with_capacity(4, None);
    h.push(entry(&["let x = 1"]));
    h.push(entry(&["fn f() {", "    x", "}"]));
    h.push(entry(&["-- two hyphens are fine", ""]));
    h.push(entry(&["héllo wörld ✓"]));
    let text = h.write_to_text();
    let mut back = History::with_capacity(4, None);
    back.read_from_text(&text);
    assert_eq!(entries(&back), entries(&h));
    assert_eq!(back.write_to_text(), text);
}

#[test]
fn a_line_that_starts_with_three_hyphens_does_not_come_back() {
    let mut h = History::with_capacity(4, None);
    h.push(entry(&["a", "--- b", "c"]));
    let mut back = History::with_capacity(4, None);
    back.read_from_text(&h.write_to_text());
    assert_eq!(entries(&back), vec![entry(&["c"]), entry(&["a"])]);
}
