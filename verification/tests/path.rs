use nodus::cache::{resolve_store_root, Platform, StoreEnvironment};
use nodus::path::{is_absolute, join, parent, strip_prefix, PathStyle};

fn windows_env(cwd: &str) -> StoreEnvironment {
    StoreEnvironment {
        platform: Platform::Windows,
        current_dir: Ok(cwd.to_string()),
        home: None,
        xdg_state_home: None,
        local_app_data: None,
        app_data: None,
    }
}

#[test]
fn absolute_paths_follow_the_platform() {
    assert!(is_absolute(PathStyle::Posix, "/srv/store"));
    assert!(!is_absolute(PathStyle::Posix, "C:\\store"));
    assert!(is_absolute(PathStyle::Windows, "C:\\store"));
    assert!(is_absolute(PathStyle::Windows, "c:/store"));
    assert!(is_absolute(PathStyle::Windows, "\\\\server\\share"));
    assert!(is_absolute(PathStyle::Windows, "\\\\server\\share\\dir"));
    assert!(!is_absolute(PathStyle::Windows, "\\\\server"));
    assert!(!is_absolute(PathStyle::Windows, "\\store"));
    assert!(!is_absolute(PathStyle::Windows, "C:store"));
    assert!(!is_absolute(PathStyle::Windows, "/store"));
}

#[test]
fn windows_overrides_with_a_drive_are_kept() {
    let env = windows_env("D:\\work");
    assert_eq!(resolve_store_root(Some("C:\\store"), &env).unwrap(), "C:\\store");
    assert_eq!(resolve_store_root(Some("store"), &env).unwrap(), "D:\\work\\store");
    assert_eq!(resolve_store_root(Some("\\store"), &env).unwrap(), "D:\\store");
    assert_eq!(resolve_store_root(Some("E:store"), &env).unwrap(), "E:store");
}

#[test]
fn joins_follow_the_platform() {
    assert_eq!(join(PathStyle::Posix, "/a", "b"), "/a/b");
    assert_eq!(join(PathStyle::Posix, "/a/", "b"), "/a/b");
    assert_eq!(join(PathStyle::Posix, "/a", "/b"), "/b");
    assert_eq!(join(PathStyle::Posix, "", "b"), "b");
    assert_eq!(join(PathStyle::Windows, "C:", "x"), "C:x");
    assert_eq!(join(PathStyle::Windows, "C:\\a", "x"), "C:\\a\\x");
    assert_eq!(join(PathStyle::Windows, "C:\\a", "\\x"), "C:\\x");
    assert_eq!(join(PathStyle::Windows, "\\\\srv\\share\\a", "\\x"), "\\\\srv\\share\\x");
    assert_eq!(join(PathStyle::Windows, "\\\\srv\\share", "x"), "\\\\srv\\share\\x");
    assert_eq!(join(PathStyle::Windows, "C:\\a", "D:y"), "D:y");
}

#[test]
fn strip_prefix_compares_components() {
    let p = PathStyle::Posix;
    assert_eq!(strip_prefix(p, "/pkg/skills/a.md", "/pkg").as_deref(), Some("skills/a.md"));
    assert_eq!(strip_prefix(p, "/pkg/a.md", "/pkg/").as_deref(), Some("a.md"));
    assert_eq!(strip_prefix(p, "/a/b/c", "/a//b").as_deref(), Some("c"));
    assert_eq!(strip_prefix(p, "/a/./b/c", "/a/b").as_deref(), Some("c"));
    assert_eq!(strip_prefix(p, "a/b", "").as_deref(), Some("a/b"));
    assert_eq!(strip_prefix(p, "/pkg", "/pkg").as_deref(), Some(""));
    assert_eq!(strip_prefix(p, "/pkgx/a.md", "/pkg"), None);
    assert_eq!(strip_prefix(p, "/other/a.md", "/pkg"), None);
    assert_eq!(strip_prefix(p, "pkg/a.md", "/pkg"), None);
    let w = PathStyle::Windows;
    assert_eq!(strip_prefix(w, "c:\\pkg\\a\\b.md", "C:/pkg").as_deref(), Some("a\\b.md"));
    assert_eq!(strip_prefix(w, "//srv/share/x", "\\\\srv\\share").as_deref(), Some("x"));
    assert_eq!(strip_prefix(w, "D:\\pkg\\a", "C:\\pkg"), None);
}

#[test]
fn parents_follow_components() {
    let p = PathStyle::Posix;
    assert_eq!(parent(p, "/s/.tmp-x/skills/a.md").as_deref(), Some("/s/.tmp-x/skills"));
    assert_eq!(parent(p, "/a").as_deref(), Some("/"));
    assert_eq!(parent(p, "/a/b/").as_deref(), Some("/a"));
    assert_eq!(parent(p, "a").as_deref(), Some(""));
    assert_eq!(parent(p, "/"), None);
    assert_eq!(parent(p, ""), None);
    let w = PathStyle::Windows;
    assert_eq!(parent(w, "C:\\a\\b").as_deref(), Some("C:\\a"));
    assert_eq!(parent(w, "C:\\a").as_deref(), Some("C:\\"));
    assert_eq!(parent(w, "C:\\"), None);
    assert_eq!(parent(w, "\\\\srv\\share\\a").as_deref(), Some("\\\\srv\\share\\"));
}

#[test]
fn verbatim_paths_follow_the_prefix_forms() {
    let w = PathStyle::Windows;
    assert!(is_absolute(w, "\\\\?\\UNC\\srv\\share\\x"));
    assert!(is_absolute(w, "\\\\?\\C:"));
    assert!(is_absolute(w, "\\\\.\\COM1"));
    // The whole `\\?\UNC\server\share` is the prefix, with no root after it.
    assert_eq!(parent(w, "\\\\?\\UNC\\srv\\share"), None);
    assert_eq!(parent(w, "\\\\?\\UNC\\srv\\share\\x").as_deref(), Some("\\\\?\\UNC\\srv\\share\\"));
    // Only `\` separates in a verbatim path, and its `.` components stay.
    assert_eq!(parent(w, "\\\\?\\C:\\a/b").as_deref(), Some("\\\\?\\C:\\"));
    assert_eq!(strip_prefix(w, "\\\\?\\C:\\a\\.\\b", "\\\\?\\C:\\a").as_deref(), Some(".\\b"));
    assert_eq!(strip_prefix(w, "\\\\?\\c:\\a", "\\\\?\\C:").as_deref(), Some("\\a"));
    assert_eq!(strip_prefix(w, "\\\\?\\UNC\\srv\\share\\x", "\\\\?\\UNC\\srv\\other"), None);
}

#[test]
fn joins_onto_verbatim_paths_resolve_dots() {
    let w = PathStyle::Windows;
    assert_eq!(join(w, "\\\\?\\C:\\a", "b\\..\\c"), "\\\\?\\C:\\a\\c");
    assert_eq!(join(w, "\\\\?\\C:\\a", "."), "\\\\?\\C:\\a");
    assert_eq!(join(w, "\\\\?\\C:\\a", "..\\..\\x"), "\\\\?\\C:\\x");
    assert_eq!(join(w, "\\\\?\\C:", "x"), "\\\\?\\C:\\x");
    assert_eq!(join(w, "\\\\?\\C:\\a", "\\x"), "\\\\?\\C:\\x");
    assert_eq!(join(w, "\\\\?\\C:\\a", ""), "\\\\?\\C:\\a\\");
}
