use routerway::paths::{cache_key_of, fast_key_of, is_unsafe, normalize_separators, skips_name};
use routerway::text::{
    chars_of, ends_with, has_pair, push_decimal, same_chars, starts_with, string_of,
};

fn chars(s: &str) -> Vec<char> {
    s.chars().collect()
}

#[test]
fn the_cache_key_drops_one_leading_slash() {
    assert_eq!(cache_key_of("/a/b.txt"), "a/b.txt");
    assert_eq!(cache_key_of("a/b.txt"), "a/b.txt");
    assert_eq!(cache_key_of("//a"), "/a");
    assert_eq!(cache_key_of("/a/"), "a/");
    assert_eq!(cache_key_of("/日本語.txt"), "日本語.txt");
}

#[test]
fn the_cache_key_of_the_root_is_the_index_page() {
    assert_eq!(cache_key_of(""), "index.html");
    assert_eq!(cache_key_of("/"), "index.html");
    assert_eq!(cache_key_of("//"), "index.html");
    assert_eq!(cache_key_of("index.html"), "index.html");
    assert_eq!(cache_key_of("/index.html"), "index.html");
    assert_eq!(cache_key_of("///"), "//");
}

#[test]
fn the_fast_key_names_the_index_only_for_the_root() {
    assert_eq!(fast_key_of(""), "index.html");
    assert_eq!(fast_key_of("/"), "index.html");
    assert_eq!(fast_key_of("//"), "/");
    assert_eq!(fast_key_of("/a/b"), "a/b");
    assert_eq!(fast_key_of("a/b"), "a/b");
    assert_eq!(fast_key_of("index.html"), "index.html");
}

#[test]
fn paths_with_parent_segments_or_doubled_slashes_are_unsafe() {
    assert!(is_unsafe("../secret"));
    assert!(is_unsafe("a/../b"));
    assert!(is_unsafe("a/.."));
    assert!(is_unsafe("a//b"));
    assert!(is_unsafe("//"));
    assert!(is_unsafe("a..b"));
    assert!(is_unsafe("..."));
    assert!(!is_unsafe(""));
    assert!(!is_unsafe("."));
    assert!(!is_unsafe("/"));
    assert!(!is_unsafe("a/./b"));
    assert!(!is_unsafe("a/b.c/d.e"));
    assert!(!is_unsafe("./a"));
    assert!(!is_unsafe(".a.b./c"));
}

#[test]
fn backslashes_become_forward_slashes() {
    assert_eq!(normalize_separators("a\\b\\c.txt"), "a/b/c.txt");
    assert_eq!(normalize_separators("a/b\\c"), "a/b/c");
    assert_eq!(normalize_separators("\\\\"), "//");
    assert_eq!(normalize_separators(""), "");
    assert_eq!(normalize_separators("plain"), "plain");
    assert_eq!(normalize_separators("é\\ü"), "é/ü");
    assert_eq!(normalize_separators("a\\b"), "a\\b".replace('\\', "/"));
}

#[test]
fn hidden_and_temporary_names_are_skipped() {
    assert!(skips_name(".git"));
    assert!(skips_name("notes.txt~"));
    assert!(skips_name("."));
    assert!(skips_name("~"));
    assert!(skips_name(".~"));
    assert!(!skips_name(""));
    assert!(!skips_name("a.b"));
    assert!(!skips_name("~a"));
    assert!(!skips_name("a."));
    assert!(!skips_name("a~b"));
}

#[test]
fn text_goes_to_characters_and_back() {
    assert_eq!(chars_of("héllo"), chars("héllo"));
    assert_eq!(chars_of(""), Vec::<char>::new());
    let v = chars("0123456789");
    assert_eq!(string_of(&v, 0, 10), "0123456789");
    assert_eq!(string_of(&v, 3, 7), "3456");
    assert_eq!(string_of(&v, 5, 5), "");
}

#[test]
fn character_sequences_are_compared() {
    assert!(same_chars(&chars("abc"), &chars("abc")));
    assert!(same_chars(&chars(""), &chars("")));
    assert!(!same_chars(&chars("abc"), &chars("abd")));
    assert!(!same_chars(&chars("abc"), &chars("ab")));
    assert!(starts_with(&chars("/api/users"), &chars("/api")));
    assert!(starts_with(&chars("/api"), &chars("/api")));
    assert!(starts_with(&chars("/api"), &chars("")));
    assert!(!starts_with(&chars("/ap"), &chars("/api")));
    assert!(!starts_with(&chars("x/api"), &chars("/api")));
    assert!(ends_with(&chars("10kb"), &chars("kb")));
    assert!(ends_with(&chars("kb"), &chars("kb")));
    assert!(ends_with(&chars("kb"), &chars("")));
    assert!(!ends_with(&chars("b"), &chars("kb")));
    assert!(!ends_with(&chars("kbx"), &chars("kb")));
}

#[test]
fn pairs_are_found_anywhere() {
    assert!(has_pair(&chars(".."), '.', '.'));
    assert!(has_pair(&chars("a.."), '.', '.'));
    assert!(has_pair(&chars("..a"), '.', '.'));
    assert!(has_pair(&chars("ab"), 'a', 'b'));
    assert!(!has_pair(&chars("ba"), 'a', 'b'));
    assert!(!has_pair(&chars("."), '.', '.'));
    assert!(!has_pair(&chars(""), '.', '.'));
    assert!(!has_pair(&chars(".a."), '.', '.'));
}

#[test]
fn numbers_are_written_in_decimal() {
    for n in [0u32, 1, 9, 10, 11, 99, 100, 404, 500, 65535, 4294967295] {
        let mut out = String::from("x");
        push_decimal(&mut out, n);
        assert_eq!(out, format!("x{}", n));
    }
}
