use taminal::complete::build_candidates;
use taminal::lsfmt::{format_columns, ls_lines, pad_cell};
use taminal::numfmt::status_to_string;
use taminal::order::sort_strings;
use taminal::proto::DirEntry;

fn file(name: &str) -> DirEntry {
    DirEntry { name: name.to_string(), is_dir: false }
}

fn dir(name: &str) -> DirEntry {
    DirEntry { name: name.to_string(), is_dir: true }
}

#[test]
fn sort_strings_orders_lexicographically() {
    let v = vec!["b".to_string(), "a".to_string(), "d".to_string(), "c".to_string()];
    assert_eq!(sort_strings(v), vec!["a", "b", "c", "d"]);
}

#[test]
fn pad_cell_pads_to_twenty() {
    assert_eq!(pad_cell("a"), format!("{:<20}", "a"));
    assert_eq!(pad_cell("exactly_twenty_chars"), "exactly_twenty_chars");
    assert_eq!(pad_cell("more_than_twenty_characters"), "more_than_twenty_characters");
}

#[test]
fn format_columns_four_per_row() {
    let names: Vec<String> = ["a", "b", "c", "d", "e"].iter().map(|s| s.to_string()).collect();
    let rows = format_columns(&names);
    assert_eq!(rows.len(), 2);
    assert_eq!(rows[0], format!("{:<20}{:<20}{:<20}{:<20}", "a", "b", "c", "d"));
    assert_eq!(rows[1], format!("{:<20}", "e"));
}

#[test]
fn ls_lines_sorted_regardless_of_input_order() {
    let one = vec![file("b"), file("a"), file("d"), file("c")];
    let two = vec![file("d"), file("c"), file("b"), file("a")];
    let lines_one = ls_lines(&one);
    let lines_two = ls_lines(&two);
    assert_eq!(lines_one, lines_two);
    assert_eq!(lines_one.len(), 1);
    assert_eq!(lines_one[0], format!("{:<20}{:<20}{:<20}{:<20}", "a", "b", "c", "d"));
}

#[test]
fn ls_lines_marks_directories() {
    let entries = vec![dir("sub"), file("note.txt")];
    let lines = ls_lines(&entries);
    assert_eq!(lines, vec![format!("{:<20}{:<20}", "note.txt", "sub/")]);
}

#[test]
fn completion_of_sr_finds_both_sorted() {
    let entries = vec![file("srv.txt"), dir("src"), file("other")];
    let cands = build_candidates("sr", &entries);
    assert_eq!(cands, vec!["src/".to_string(), "srv.txt".to_string()]);
}

#[test]
fn completion_with_directory_part() {
    let entries = vec![dir("main"), file("main.rs")];
    let cands = build_candidates("src/ma", &entries);
    assert_eq!(cands, vec!["src/main.rs".to_string(), "src/main/".to_string()]);
}

#[test]
fn completion_after_trailing_separator() {
    let entries = vec![file("lib.rs")];
    let cands = build_candidates("src/", &entries);
    assert_eq!(cands, vec!["src/lib.rs".to_string()]);
}

#[test]
fn completion_no_match_is_empty() {
    let entries = vec![file("lib.rs")];
    let cands = build_candidates("zz", &entries);
    assert!(cands.is_empty());
}

#[test]
fn status_renders_decimal() {
    assert_eq!(status_to_string(0), "0");
    assert_eq!(status_to_string(42), "42");
    assert_eq!(status_to_string(-13), "-13");
}
