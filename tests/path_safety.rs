use vs_launcher::normalize_separators;
use vs_launcher::paths::{
    canonical_ok, is_inside, join, make_output_path, normalize_prefix, normalized_segments, path_within,
    should_extract, PathError,
};

#[test]
fn backslashes_become_slashes() {
    assert_eq!(normalize_separators("a\\b\\c.txt"), "a/b/c.txt");
    assert_eq!(normalize_separators(""), "");
}

#[test]
fn prefix_gets_trailing_separator() {
    assert_eq!(normalize_prefix(Some("docs".to_string())), "docs/");
    assert_eq!(normalize_prefix(Some("docs/".to_string())), "docs/");
    assert_eq!(normalize_prefix(Some("docs\\".to_string())), "docs/");
    assert_eq!(normalize_prefix(Some(String::new())), "");
    assert_eq!(normalize_prefix(None), "");
}

#[test]
fn filter_selects_by_prefix() {
    assert!(should_extract("anything/at/all", ""));
    assert!(should_extract("docs/readme.md", "docs/"));
    assert!(should_extract("docs\\readme.md", "docs/"));
    assert!(!should_extract("src/main.rs", "docs/"));
    assert!(!should_extract("docsx/readme.md", "docs/"));
}

#[test]
fn inside_is_decided_by_the_normalized_join() {
    assert!(is_inside("/x/d/b.txt", "/x/d", false));
    assert!(is_inside("/x/d/../d/b.txt", "/x/d", false));
    assert!(is_inside("/x/d/a/../b.txt", "/x/d", false));
    assert!(is_inside("/x/d", "/x/d/", false));
    assert!(!is_inside("/x/d/../evil.txt", "/x/d", false));
    assert!(!is_inside("/x/d/../../evil.txt", "/x/d", false));
    assert!(!is_inside("/x/dd/b.txt", "/x/d", false));
    assert!(!is_inside("rel/b.txt", "/x/d", false));
    assert!(is_inside("base/a/b", "base", false));
    assert!(!is_inside("base/../../b", "base", false));
    assert!(is_inside("C:/games/x", "C:\\games", true));
    assert!(!is_inside("C:/other", "C:/games", true));
}

#[test]
fn segments_are_normalized() {
    assert_eq!(normalized_segments("/a/./b/../c", false), vec!["a", "c"]);
    assert_eq!(normalized_segments("/../a", false), vec!["a"]);
    assert_eq!(normalized_segments("../a/..", false), vec![".."]);
    assert_eq!(normalized_segments("C:/../a", true), vec!["C:", "a"]);
    assert_eq!(normalized_segments("C:/../a", false), vec!["a"]);
}

#[test]
fn traversal_is_refused_in_any_separator_style() {
    let base = "/nonexistent-base-dir";
    assert_eq!(make_output_path(base, "../../evil.txt", "", false), Err(PathError::UnsafePath));
    assert_eq!(make_output_path(base, "..\\..\\evil.txt", "", false), Err(PathError::UnsafePath));
    assert_eq!(make_output_path(base, "/etc/passwd", "", false), Err(PathError::UnsafePath));
    assert_eq!(make_output_path(base, "\\etc\\passwd", "", false), Err(PathError::UnsafePath));
    assert_eq!(make_output_path(base, "a/../../evil.txt", "", false), Err(PathError::UnsafePath));
    assert_eq!(make_output_path(base, "a/../../evil.txt", "a/", false), Err(PathError::UnsafePath));
    assert_eq!(make_output_path(base, "C:/Windows/evil.dll", "", true), Err(PathError::UnsafePath));
}

#[test]
fn safe_names_that_pass_above_the_root_are_accepted() {
    assert_eq!(
        make_output_path("/nonexistent-x/d", "../d/b.txt", "", false),
        Ok("/nonexistent-x/d/../d/b.txt".to_string())
    );
    assert_eq!(
        make_output_path("/nonexistent-x/d", "a/../b.txt", "", false),
        Ok("/nonexistent-x/d/a/../b.txt".to_string())
    );
}

#[test]
fn absolute_name_inside_base_is_accepted() {
    assert_eq!(
        make_output_path("/nonexistent-x/d", "/nonexistent-x/d/b.txt", "", false),
        Ok("/nonexistent-x/d/b.txt".to_string())
    );
}

#[test]
fn drive_letters_count_only_on_windows() {
    assert_eq!(
        make_output_path("/nonexistent-x", "C:notes.txt", "", false),
        Ok("/nonexistent-x/C:notes.txt".to_string())
    );
    assert_eq!(make_output_path("/nonexistent-x", "C:notes.txt", "", true), Err(PathError::UnsafePath));
}

#[test]
fn entry_outside_prefix_is_reported() {
    assert_eq!(
        make_output_path("/nonexistent-base-dir", "b/c.txt", "a/", false),
        Err(PathError::NotInPrefix)
    );
}

#[test]
fn prefix_is_stripped_from_output_path() {
    assert_eq!(
        make_output_path("/nonexistent-base-dir", "a/b.txt", "a/", false),
        Ok("/nonexistent-base-dir/b.txt".to_string())
    );
    assert_eq!(
        make_output_path("/nonexistent-base-dir/", "a\\sub\\b.txt", "", false),
        Ok("/nonexistent-base-dir/a/sub/b.txt".to_string())
    );
}

#[test]
fn symlink_out_of_base_is_refused() {
    // /proc/self/root resolves to the file system root, outside /proc/self.
    assert_eq!(make_output_path("/proc/self", "root/etc", "", false), Err(PathError::UnsafePath));
}

#[test]
fn existing_entry_inside_base_is_accepted() {
    assert_eq!(make_output_path("/", "etc", "", false), Ok("/etc".to_string()));
}

#[test]
fn join_puts_one_separator() {
    assert_eq!(join("/base", "x"), "/base/x");
    assert_eq!(join("/base/", "x"), "/base/x");
    assert_eq!(join("", "x"), "x");
}

#[test]
fn within_compares_whole_segments() {
    assert!(path_within("/a/b", "/a"));
    assert!(path_within("/a", "/a"));
    assert!(path_within("/a/b", "/"));
    assert!(!path_within("/ab", "/a"));
    assert!(!path_within("/b", "/a"));
}

#[test]
fn canonical_check_uses_base_when_unresolved() {
    assert!(canonical_ok(None, None, "/x"));
    assert!(canonical_ok(Some("/x/y".to_string()), None, "/x"));
    assert!(!canonical_ok(Some("/z/y".to_string()), None, "/x"));
    assert!(canonical_ok(Some("/real/y".to_string()), Some("/real".to_string()), "/x"));
    assert!(!canonical_ok(Some("/x/y".to_string()), Some("/real".to_string()), "/x"));
}

#[test]
fn traversal_is_refused_under_relative_destinations() {
    for base in [".", "", "x/..", ".."] {
        assert_eq!(make_output_path(base, "../../evil.txt", "", false), Err(PathError::UnsafePath));
        assert_eq!(make_output_path(base, "..\\..\\evil.txt", "", false), Err(PathError::UnsafePath));
        assert_eq!(make_output_path(base, "../evil.txt", "", false), Err(PathError::UnsafePath));
    }
    assert!(!is_inside("./../../evil.txt", ".", false));
    assert!(!is_inside("../../evil.txt", "..", false));
    assert!(!is_inside("../evil.txt", "", false));
}

#[test]
fn safe_names_under_relative_destinations_are_accepted() {
    assert_eq!(
        make_output_path(".", "nonexistent-sub/b.txt", "", false),
        Ok("./nonexistent-sub/b.txt".to_string())
    );
    assert_eq!(
        make_output_path("", "nonexistent-sub/b.txt", "", false),
        Ok("nonexistent-sub/b.txt".to_string())
    );
    assert!(is_inside("../a/b", "..", false));
    assert!(is_inside("./a/../b", ".", false));
}
