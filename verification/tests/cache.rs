use std::path::PathBuf;

use nodus::cache::{
    default_macos_store_root, default_unix_store_root, default_windows_store_root,
    resolve_store_root, CacheError, Platform, StoreEnvironment,
};

fn unix_env(cwd: Result<String, String>) -> StoreEnvironment {
    StoreEnvironment {
        platform: Platform::Unix,
        current_dir: cwd,
        home: Some("/home/tester".to_string()),
        xdg_state_home: None,
        local_app_data: None,
        app_data: None,
    }
}

#[test]
fn prefers_absolute_xdg_state_home_over_the_home_fallback() {
    let resolved = default_unix_store_root("/home/tester", Some("/var/lib/tester-state"));

    assert_eq!(PathBuf::from(resolved), PathBuf::from("/var/lib/tester-state/nodus"));
}

#[test]
fn ignores_relative_xdg_state_home_values() {
    let resolved = default_unix_store_root("/home/tester", Some("relative-state"));

    assert_eq!(PathBuf::from(resolved), PathBuf::from("/home/tester/.local/state/nodus"));
}

#[test]
fn resolves_relative_overrides_against_the_working_directory() {
    let env = unix_env(Ok("/tmp/work".to_string()));
    let resolved = resolve_store_root(Some("store-root"), &env).unwrap();
    assert_eq!(resolved, "/tmp/work/store-root");
}

#[test]
fn keeps_absolute_overrides() {
    let env = unix_env(Err("no cwd".to_string()));
    assert_eq!(resolve_store_root(Some("/srv/store"), &env).unwrap(), "/srv/store");
}

#[test]
fn reports_an_unknown_working_directory_for_relative_overrides() {
    let env = unix_env(Err("no such directory".to_string()));
    match resolve_store_root(Some("store-root"), &env) {
        Err(CacheError::CurrentDir { cause }) => assert_eq!(cause, "no such directory"),
        other => panic!("unexpected {:?}", other),
    }
}

#[test]
fn falls_back_to_the_home_directory_without_an_override() {
    let env = unix_env(Ok("/tmp".to_string()));
    assert_eq!(resolve_store_root(None, &env).unwrap(), "/home/tester/.local/state/nodus");
}

#[test]
fn reports_a_missing_home_directory() {
    let mut env = unix_env(Ok("/tmp".to_string()));
    env.home = None;
    assert!(matches!(resolve_store_root(None, &env), Err(CacheError::MissingHome)));
}

#[test]
fn uses_the_macos_application_support_directory() {
    assert_eq!(
        default_macos_store_root("/Users/tester"),
        "/Users/tester/Library/Application Support/nodus"
    );
}

#[test]
fn prefers_local_app_data_on_windows() {
    assert_eq!(
        default_windows_store_root(Some("C:\\Users\\t\\AppData\\Local"), Some("C:\\Users\\t\\AppData\\Roaming")),
        Some("C:\\Users\\t\\AppData\\Local\\nodus".to_string())
    );
    assert_eq!(
        default_windows_store_root(None, Some("C:/Users/t/AppData/Roaming/")),
        Some("C:/Users/t/AppData/Roaming/nodus".to_string())
    );
    assert_eq!(default_windows_store_root(None, None), None);
    let env = StoreEnvironment {
        platform: Platform::Windows,
        current_dir: Ok("C:/".to_string()),
        home: None,
        xdg_state_home: None,
        local_app_data: None,
        app_data: None,
    };
    assert!(matches!(resolve_store_root(None, &env), Err(CacheError::MissingAppData)));
}
