use dotfiles_status::path_key::{is_directory_entry, key_of_path};
use dotfiles_status::{count_tracked_files, TrackedCounts};

fn paths(names: &[&str]) -> Vec<String> {
    names.iter().map(|name| name.to_string()).collect()
}

#[test]
fn key_of_bare_file_is_the_file() {
    assert_eq!(key_of_path("a.txt"), "a.txt");
    assert_eq!(key_of_path(".bashrc"), ".bashrc");
}

#[test]
fn key_of_nested_path_is_first_component_with_separator() {
    assert_eq!(key_of_path("b/x.txt"), "b/");
    assert_eq!(key_of_path("b/c/d/e.txt"), "b/");
    assert_eq!(key_of_path(".config/nvim/init.lua"), ".config/");
}

#[test]
fn key_of_path_splits_on_first_separator_only() {
    assert_eq!(key_of_path("b/"), "b/");
    assert_eq!(key_of_path("b//x"), "b/");
    assert_eq!(key_of_path("/x"), "/");
}

#[test]
fn key_of_path_keeps_characters_outside_ascii() {
    assert_eq!(key_of_path("résumé.txt"), "résumé.txt");
    assert_eq!(key_of_path("日本語/ファイル"), "日本語/");
}

#[test]
fn directory_entries_end_with_the_separator() {
    assert!(is_directory_entry("b/"));
    assert!(is_directory_entry("/"));
    assert!(is_directory_entry("日本語/"));
    assert!(!is_directory_entry("a.txt"));
    assert!(!is_directory_entry("b/x"));
    assert!(!is_directory_entry(""));
}

#[test]
fn empty_listing_gives_empty_map() {
    let counts = count_tracked_files(&paths(&[]));
    assert_eq!(counts.len(), 0);
    assert_eq!(counts.get("c.txt"), None);
}

#[test]
fn counts_sum_per_top_level_key() {
    let counts = count_tracked_files(&paths(&[
        "a.txt",
        "b/x.txt",
        "b/y.txt",
        "b/c/z.txt",
        "d/e",
        ".bashrc",
    ]));
    assert_eq!(counts.len(), 4);
    assert_eq!(counts.get("a.txt"), Some(1));
    assert_eq!(counts.get("b/"), Some(3));
    assert_eq!(counts.get("d/"), Some(1));
    assert_eq!(counts.get(".bashrc"), Some(1));
    assert_eq!(counts.get("b"), None);
    assert_eq!(counts.get("b/c/"), None);
    assert_eq!(counts.get("d"), None);
}

#[test]
fn plain_keys_count_one() {
    let listed = paths(&["a.txt", "b/x.txt", "c.txt", "b/y.txt", "d"]);
    let counts = count_tracked_files(&listed);
    for path in &listed {
        if !path.contains('/') {
            assert_eq!(counts.get(path), Some(1));
        }
    }
}

#[test]
fn file_and_directory_of_one_name_are_two_keys() {
    let counts = count_tracked_files(&paths(&["b", "b/x", "b/y"]));
    assert_eq!(counts.len(), 2);
    assert_eq!(counts.get("b"), Some(1));
    assert_eq!(counts.get("b/"), Some(2));
}

#[test]
fn counting_twice_gives_the_same_map() {
    let listed = paths(&["a.txt", "b/x.txt", "b/y.txt", "c/d/e"]);
    let first = count_tracked_files(&listed);
    let second = count_tracked_files(&listed);
    assert_eq!(first.len(), second.len());
    for key in ["a.txt", "b/", "c/", "c/d/", "missing"] {
        assert_eq!(first.get(key), second.get(key));
    }
}

#[test]
fn counting_ignores_the_order_of_paths() {
    let forward = count_tracked_files(&paths(&["a.txt", "b/x.txt", "b/y.txt", "c/d/e"]));
    let shuffled = count_tracked_files(&paths(&["b/y.txt", "c/d/e", "a.txt", "b/x.txt"]));
    assert_eq!(forward.len(), 3);
    assert_eq!(shuffled.len(), 3);
    for key in ["a.txt", "b/", "c/"] {
        assert_eq!(forward.get(key), shuffled.get(key));
    }
    assert_eq!(shuffled.get("b/"), Some(2));
}

#[test]
fn duplicate_bare_name_is_counted_twice() {
    let counts = count_tracked_files(&paths(&["dup.txt", "dup.txt"]));
    assert_eq!(counts.len(), 1);
    assert_eq!(counts.get("dup.txt"), Some(2));
}

#[test]
fn many_paths_under_one_directory() {
    let mut listed = Vec::new();
    for i in 0..1234 {
        listed.push(format!("deep/{}/file", i));
    }
    let counts = count_tracked_files(&listed);
    assert_eq!(counts.len(), 1);
    assert_eq!(counts.get("deep/"), Some(1234));
}

#[test]
fn new_map_is_empty_and_insert_replaces() {
    let mut counts = TrackedCounts::new();
    assert_eq!(counts.len(), 0);
    assert_eq!(counts.get("b/"), None);
    counts.insert("b/".to_string(), 2);
    assert_eq!(counts.get("b/"), Some(2));
    counts.insert("b/".to_string(), 5);
    assert_eq!(counts.get("b/"), Some(5));
    assert_eq!(counts.len(), 1);
    counts.insert("a.txt".to_string(), 1);
    assert_eq!(counts.len(), 2);
    assert_eq!(counts.get("a.txt"), Some(1));
}
