use rustsync::exclude::{
    compile_patterns, is_excluded, join_child, size_passes, GlobPattern,
};
use rustsync::files::{editable_size, entry_extension, is_protected_path, mime_guess, path_extension, str_eq};
use rustsync::paths::{
    gitignore_to_glob_patterns, normalize_path, path_within, paths_overlap, sanitize_filename,
};
use rustsync::runner::{dst_roots, trimmed_items};

#[test]
fn normalize_path_resolves_components() {
    assert_eq!(normalize_path("/a/b/../c/./d"), "/a/c/d");
    assert_eq!(normalize_path("  \\x\\y\\  "), "/x/y");
    assert_eq!(normalize_path("a//b/"), "a/b");
}

#[test]
fn normalize_path_empty_and_escapes_give_root() {
    assert_eq!(normalize_path(""), "/");
    assert_eq!(normalize_path("   "), "/");
    assert_eq!(normalize_path("/../.."), "/");
    assert_eq!(normalize_path(".."), "/");
}

#[test]
fn normalizing_twice_changes_nothing() {
    for p in ["/a/b/../c/./d", "  \\x\\y\\  ", "a//b/", "", "/../..", "x/./y/.."] {
        let once = normalize_path(p);
        assert_eq!(normalize_path(&once), once);
    }
    // Whitespace kept inside the path by the first pass is trimmed by the second.
    assert_eq!(normalize_path("a /"), "a ");
    assert_eq!(normalize_path(&normalize_path("a /")), "a");
}

#[test]
fn normalized_paths_have_a_clean_shape() {
    for p in ["", "/", "//a//b//", "\\x\\.\\y\\", "a/../../b/./c/", " /q ", "../.."] {
        let n = normalize_path(p);
        assert!(!n.is_empty());
        assert!(!n.contains("//") && !n.contains('\\'));
        assert!(n == "/" || !n.ends_with('/'));
        assert!(n.split('/').all(|c| c != "." && c != ".."));
        if !p.chars().any(char::is_whitespace) {
            assert_eq!(normalize_path(&n), n);
        }
    }
}

#[test]
fn overlap_is_symmetric_and_reflexive_on_examples() {
    assert!(paths_overlap("/data/a", "/data/a/b"));
    assert!(paths_overlap("/data/a/b", "/data/a"));
    assert!(paths_overlap("/data/x", "/data/x"));
    assert!(paths_overlap("\\data\\x\\", "data/x"));
    assert!(!paths_overlap("/data/ab", "/data/a"));
    assert!(!paths_overlap("/data/a", "/data/ab"));
}

#[test]
fn path_within_prefix_examples() {
    assert!(path_within("a/b/c", "a/b"));
    assert!(path_within("a/b", "a/b"));
    assert!(!path_within("a/bc", "a/b"));
    assert!(path_within("a/b/c", "a") && path_within("a/b", "a"));
}

#[test]
fn sanitize_filename_drops_forbidden_characters() {
    assert_eq!(sanitize_filename("a/b\\c:d*e?f\"g<h>i|j"), "abcdefghij");
    assert_eq!(sanitize_filename("tab\there"), "tabhere");
    assert_eq!(sanitize_filename("plain.txt"), "plain.txt");
}

#[test]
fn gitignore_rules_become_globs() {
    assert_eq!(
        gitignore_to_glob_patterns("*.txt: /root.txt :dir/sub: !keep: :cache/:/top/"),
        vec![
            "**/*.txt".to_string(),
            "root.txt".to_string(),
            "dir/sub".to_string(),
            "**/cache".to_string(),
            "top".to_string(),
        ]
    );
    assert!(gitignore_to_glob_patterns("").is_empty());
}

#[test]
fn anchored_rules_match_only_at_the_root() {
    let pats = compile_patterns(&gitignore_to_glob_patterns("/root.txt:*.tmp:cache/"));
    assert!(is_excluded("root.txt", &pats));
    assert!(!is_excluded("sub/root.txt", &pats));
    assert!(is_excluded("x.tmp", &pats));
    assert!(is_excluded("a/b/x.tmp", &pats));
    assert!(is_excluded("cache", &pats));
    assert!(is_excluded("a/cache", &pats));
    assert!(!is_excluded("a/cached", &pats));
}

#[test]
fn glob_patterns_match_relative_path_or_name() {
    let pats = compile_patterns(&["**/*.tmp".to_string(), "[".to_string(), "cache/**".to_string()]);
    assert_eq!(pats.len(), 2);
    assert!(is_excluded("a/b/x.tmp", &pats));
    assert!(is_excluded("cache/deep/file", &pats));
    assert!(!is_excluded("a/b/x.txt", &pats));
    assert!(GlobPattern::new("[").is_none());
    let p = GlobPattern::new("*.log").unwrap();
    assert!(p.matches("x.log"));
    assert!(!p.matches("x.txt"));
}

#[test]
fn size_filter_bounds_are_inclusive() {
    assert!(size_passes(10, Some(10), Some(10)));
    assert!(!size_passes(9, Some(10), None));
    assert!(!size_passes(11, None, Some(10)));
    assert!(size_passes(0, None, None));
}

#[test]
fn child_paths_join_without_double_slash() {
    assert_eq!(join_child("dir//", "f.txt"), "dir/f.txt");
    assert_eq!(join_child("", "f.txt"), "/f.txt");
}

#[test]
fn target_roots_are_trimmed_and_nonempty() {
    assert_eq!(dst_roots(" /a : /b ::"), vec!["/a".to_string(), "/b".to_string()]);
    assert!(dst_roots("").is_empty());
    assert_eq!(trimmed_items("x@y.z, ,w@v.u", ','), vec!["x@y.z".to_string(), "w@v.u".to_string()]);
}

#[test]
fn mime_types_by_extension() {
    assert_eq!(mime_guess("photo.JPG"), "image/jpeg");
    assert_eq!(mime_guess("noext"), "application/octet-stream");
}

#[test]
fn protected_paths_and_editable_size() {
    assert!(is_protected_path("/"));
    assert!(!is_protected_path("/tmp/some/file"));
    assert!(editable_size(0));
    assert!(str_eq("abc", "abc"));
    assert!(!str_eq("abc", "abd"));
}

#[test]
fn path_extension_agrees_with_std() {
    let cases = [
        "a/b.txt", ".bashrc", "a.", "foo.tar.gz", "x/..", "foo.txt/.", "/", "", "a/b/", "a/b.c/",
        "..", ".", "./x.rs", "a/.hidden.conf", "..x", "dir.d/file", "a//b.md//", "a/./.",
    ];
    for p in cases {
        let std_ext = std::path::Path::new(p).extension().map(|e| e.to_string_lossy().to_string());
        assert_eq!(path_extension(p), std_ext, "extension of {:?}", p);
    }
    assert_eq!(entry_extension(true, "a.txt"), "");
    assert_eq!(entry_extension(false, "a.txt"), "txt");
    assert_eq!(entry_extension(false, "README"), "");
}
