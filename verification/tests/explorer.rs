use sharky_explorer::buffer::ResultBuffer;
use sharky_explorer::dispatch::Action;
use sharky_explorer::dispatch::Query;
use sharky_explorer::dispatch::effective_pattern;
use sharky_explorer::dispatch::listing_task;
use sharky_explorer::dispatch::plan_traversal;
use sharky_explorer::dispatch::search_task;
use sharky_explorer::lister::DirectoryEntry;
use sharky_explorer::lister::list_lines;
use sharky_explorer::search::WalkEntry;
use sharky_explorer::search::name_contains;
use sharky_explorer::search::search_paths;

fn entry(name: &str, is_directory: bool) -> DirectoryEntry {
    DirectoryEntry { name: name.to_string(), is_directory }
}

fn walk_entry(base_name: &str, full_path: &str) -> WalkEntry {
    WalkEntry { base_name: base_name.to_string(), full_path: full_path.to_string() }
}

fn strings(lines: &[String]) -> Vec<&str> {
    lines.iter().map(|line| line.as_str()).collect()
}

#[test]
fn listing_file_and_directory() {
    // Root with one file `a.txt` and one directory `sub`: two lines, the
    // directory's line marker-suffixed, the file's not.
    let entries = vec![entry("a.txt", false), entry("sub", true)];
    let lines = list_lines(&entries);
    assert_eq!(lines.len(), 2);
    let mut as_set = strings(&lines);
    as_set.sort();
    assert_eq!(as_set, vec!["a.txt", "sub/"]);
}

#[test]
fn listing_marker_follows_kind() {
    let entries = vec![
        entry("notes", false),
        entry("notes", true),
        entry(".hidden", false),
        entry("deep", true),
    ];
    let lines = list_lines(&entries);
    assert_eq!(strings(&lines), vec!["notes", "notes/", ".hidden", "deep/"]);
}

#[test]
fn listing_keeps_enumeration_order() {
    let entries = vec![entry("b", false), entry("a", false), entry("c", true)];
    let lines = list_lines(&entries);
    assert_eq!(strings(&lines), vec!["b", "a", "c/"]);
}

#[test]
fn listing_of_no_entries_is_empty() {
    let entries: Vec<DirectoryEntry> = Vec::new();
    let lines = list_lines(&entries);
    assert!(lines.is_empty());
}

#[test]
fn unreadable_root_publishes_nothing() {
    // A root that does not exist or is not a directory hands the worker no
    // entries at all; the worker publishes an empty result and never raises.
    let mut results = ResultBuffer::new();
    results.publish(vec!["stale".to_string()]);
    listing_task(None, &mut results);
    assert_eq!(results.line_count(), 0);
    assert_eq!(results.block(), "");
}

#[test]
fn contains_finds_literal_substrings() {
    assert!(name_contains("foo.log", "foo"));
    assert!(name_contains("foo.log", "log"));
    assert!(name_contains("foo.log", "o.l"));
    assert!(name_contains("foo.log", "foo.log"));
    assert!(!name_contains("foo.log", "bar"));
    assert!(!name_contains("foo", "foo.log"));
}

#[test]
fn contains_is_case_sensitive() {
    assert!(!name_contains("Makefile", "makefile"));
    assert!(name_contains("Makefile", "Make"));
}

#[test]
fn contains_empty_pattern_matches_everything() {
    assert!(name_contains("anything", ""));
    assert!(name_contains("", ""));
    assert!(!name_contains("", "a"));
}

#[test]
fn search_tree_with_two_matches() {
    // Tree rooted at /tmp/x holding /tmp/x/foo.log and /tmp/x/y/foo.txt:
    // a search for "foo" reports both full paths, in visitation order.
    let entries = vec![
        walk_entry("x", "/tmp/x"),
        walk_entry("foo.log", "/tmp/x/foo.log"),
        walk_entry("y", "/tmp/x/y"),
        walk_entry("foo.txt", "/tmp/x/y/foo.txt"),
    ];
    let paths = search_paths(&entries, "foo");
    assert_eq!(strings(&paths), vec!["/tmp/x/foo.log", "/tmp/x/y/foo.txt"]);
}

#[test]
fn search_reports_each_match_once_in_order() {
    let entries = vec![
        walk_entry("alpha", "/r/alpha"),
        walk_entry("beta", "/r/beta"),
        walk_entry("alphabet", "/r/beta/alphabet"),
    ];
    let paths = search_paths(&entries, "alpha");
    assert_eq!(strings(&paths), vec!["/r/alpha", "/r/beta/alphabet"]);
    for found in &paths {
        let matching = entries.iter().find(|e| &e.full_path == found).unwrap();
        assert!(matching.base_name.contains("alpha"));
    }
}

#[test]
fn search_without_matches_is_empty() {
    let entries = vec![walk_entry("a", "/a"), walk_entry("b", "/a/b")];
    let paths = search_paths(&entries, "zzz");
    assert!(paths.is_empty());
}

#[test]
fn search_empty_pattern_returns_every_entry() {
    let entries = vec![
        walk_entry("x", "/tmp/x"),
        walk_entry("foo.log", "/tmp/x/foo.log"),
        walk_entry("y", "/tmp/x/y"),
    ];
    let paths = search_paths(&entries, "");
    assert_eq!(strings(&paths), vec!["/tmp/x", "/tmp/x/foo.log", "/tmp/x/y"]);
}

#[test]
fn publish_replaces_content_wholesale() {
    let mut results = ResultBuffer::new();
    assert_eq!(results.block(), "");
    assert_eq!(results.line_count(), 0);
    results.publish(vec!["one".to_string(), "two".to_string()]);
    assert_eq!(results.block(), "one\ntwo\n");
    assert_eq!(results.line_count(), 2);
    results.publish(vec!["three".to_string()]);
    assert_eq!(results.block(), "three\n");
    assert_eq!(results.line_count(), 1);
}

#[test]
fn later_publish_wins_and_is_never_a_mixture() {
    // Two workers publish distinct known line sets; whichever ran last
    // determines the whole content — the buffer equals one of the two sets,
    // never a mixture.
    let first = vec!["a.txt".to_string(), "sub/".to_string()];
    let second = vec!["/tmp/x/foo.log".to_string()];
    let first_block = "a.txt\nsub/\n";
    let second_block = "/tmp/x/foo.log\n";

    let mut results = ResultBuffer::new();
    results.publish(first.clone());
    results.publish(second.clone());
    let sampled = results.block();
    assert!(sampled == first_block || sampled == second_block);
    assert_eq!(sampled, second_block);

    let mut results = ResultBuffer::new();
    results.publish(second);
    results.publish(first);
    let sampled = results.block();
    assert!(sampled == first_block || sampled == second_block);
    assert_eq!(sampled, first_block);
}

#[test]
fn listing_task_publishes_rendered_entries() {
    let mut results = ResultBuffer::new();
    listing_task(Some(vec![entry("a.txt", false), entry("sub", true)]), &mut results);
    assert_eq!(results.block(), "a.txt\nsub/\n");
}

#[test]
fn search_task_publishes_matching_paths() {
    let entries = vec![
        walk_entry("foo.log", "/tmp/x/foo.log"),
        walk_entry("y", "/tmp/x/y"),
        walk_entry("foo.txt", "/tmp/x/y/foo.txt"),
    ];
    let mut results = ResultBuffer::new();
    search_task(entries, "foo", &mut results);
    assert_eq!(results.block(), "/tmp/x/foo.log\n/tmp/x/y/foo.txt\n");
}

#[test]
fn listing_plan_uses_chosen_root_shallowly() {
    let query = Query { root_path: "/home".to_string(), pattern: None };
    let plan = plan_traversal(&Action::Listing, &query);
    assert_eq!(plan.root, "/home");
    assert!(!plan.recursive);
}

#[test]
fn search_plan_always_starts_at_the_root() {
    let query = Query {
        root_path: "/home".to_string(),
        pattern: Some("foo".to_string()),
    };
    let plan = plan_traversal(&Action::Search, &query);
    assert_eq!(plan.root, "/");
    assert!(plan.recursive);
}

#[test]
fn effective_pattern_defaults_to_match_all() {
    let with_pattern = Query {
        root_path: "/".to_string(),
        pattern: Some("foo".to_string()),
    };
    assert_eq!(effective_pattern(&with_pattern), "foo");
    let without_pattern = Query { root_path: "/".to_string(), pattern: None };
    assert_eq!(effective_pattern(&without_pattern), "");
}
