use orthanc_uploader::Cache;
use orthanc_uploader::PathSet;
use orthanc_uploader::lex_le_strings;
use orthanc_uploader::parse_lines;
use orthanc_uploader::render_lines;
use orthanc_uploader::sort_strings;
use orthanc_uploader::str_eq;
use orthanc_uploader::trim_to_string;

#[test]
fn cache_round_trip_keeps_the_set() {
    let c = Cache::from_text("/data/b.dcm\n/data/a.dcm\n");
    let text = c.save_to_text();
    let reloaded = Cache::from_text(text.as_str());
    assert!(reloaded.paths.contains("/data/a.dcm"));
    assert!(reloaded.paths.contains("/data/b.dcm"));
    assert!(!reloaded.paths.contains("/data/c.dcm"));
    assert_eq!(reloaded.paths.len(), c.paths.len());
    assert_eq!(reloaded.paths.len(), 2);
}

#[test]
fn cache_saves_sorted() {
    let c = Cache::from_text("/data/b.dcm\n/data/c.dcm\n/data/a.dcm\n");
    assert_eq!(c.save_to_text(), "/data/a.dcm\n/data/b.dcm\n/data/c.dcm\n");
}

#[test]
fn saved_text_does_not_depend_on_insertion_order() {
    let mut one = PathSet::new();
    one.insert("/x/1");
    one.insert("/x/2");
    one.insert("/x/3");
    let mut other = PathSet::new();
    other.insert("/x/3");
    other.insert("/x/1");
    other.insert("/x/2");
    let first = Cache { paths: one }.save_to_text();
    let second = Cache { paths: other }.save_to_text();
    assert_eq!(first, second);
    assert_eq!(first, "/x/1\n/x/2\n/x/3\n");
}

#[test]
fn loading_ignores_blanks_and_trims() {
    let c = Cache::from_text("  /x/1 \n\n\t\n/x/2");
    assert!(c.paths.contains("/x/1"));
    assert!(c.paths.contains("/x/2"));
    assert!(!c.paths.contains("  /x/1 "));
    assert_eq!(c.save_to_text(), "/x/1\n/x/2\n");
}

#[test]
fn duplicate_lines_collapse_to_one_entry() {
    let c = Cache::from_text("/x/1\n/x/1\n/x/1\n");
    assert_eq!(c.save_to_text(), "/x/1\n");
}

#[test]
fn empty_cache_saves_empty_text() {
    let c = Cache::from_text("");
    assert_eq!(c.save_to_text(), "");
}

#[test]
fn parse_and_render_lines() {
    let lines = parse_lines(" a \nb\n\nc");
    assert_eq!(lines, vec![String::from("a"), String::from("b"), String::from("c")]);
    assert_eq!(render_lines(&lines), "a\nb\nc\n");
}

#[test]
fn sort_strings_orders_lexicographically() {
    let v = vec![String::from("pear"), String::from("apple"), String::from("peach")];
    let sorted = sort_strings(&v);
    assert_eq!(
        sorted,
        vec![String::from("apple"), String::from("peach"), String::from("pear")]
    );
}

#[test]
fn lexicographic_comparison() {
    assert!(lex_le_strings("a", "b"));
    assert!(!lex_le_strings("b", "a"));
    assert!(lex_le_strings("a", "a"));
    assert!(lex_le_strings("a", "ab"));
    assert!(!lex_le_strings("ab", "a"));
    assert!(lex_le_strings("", "a"));
}

#[test]
fn trimming_strips_both_ends_only() {
    assert_eq!(trim_to_string("  a b \t\r\n"), "a b");
    assert_eq!(trim_to_string(""), "");
    assert_eq!(trim_to_string(" \t "), "");
}

#[test]
fn string_equality_is_exact() {
    assert!(str_eq("abc", "abc"));
    assert!(!str_eq("abc", "abd"));
    assert!(!str_eq("abc", "ab"));
    assert!(str_eq("", ""));
}
