use nodus::cache::CacheError;
use nodus::git::GitError;
use nodus::store::StoreError;

#[test]
fn git_errors_read_like_their_reports() {
    assert_eq!(
        GitError::AliasUnavailable { url: "u".into() }.chain(),
        vec!["failed to infer a dependency alias from `u`"]
    );
    assert_eq!(
        GitError::AliasInvalid { url: "u".into() }.chain(),
        vec!["failed to derive a valid dependency alias from `u`"]
    );
    assert_eq!(GitError::NoTags { path: "/r".into() }.chain(), vec!["no git tags found in /r"]);
    assert_eq!(
        GitError::CreateDepsRoot { path: "/p/.agen/deps".into(), cause: "denied".into() }.chain(),
        vec!["failed to create /p/.agen/deps", "denied"]
    );
    assert_eq!(
        GitError::RemoteMismatch { alias: "a".into(), path: "/d".into(), remote: "r".into() }.chain(),
        vec!["dependency `a` already exists at /d with remote `r`"]
    );
    assert_eq!(
        GitError::MissingCheckout { alias: "a".into(), path: "/d".into() }.chain(),
        vec!["missing git dependency `a` at /d"]
    );
    assert_eq!(GitError::Command { message: "boom".into() }.chain(), vec!["boom"]);
    assert_eq!(
        GitError::AlreadyExists { alias: "a".into(), root: "/p".into() }.chain(),
        vec!["dependency `a` already exists in /p"]
    );
}

#[test]
fn store_errors_read_like_their_reports() {
    assert_eq!(
        StoreError::UnsupportedDigest { digest: "md5:x".into() }.chain(),
        vec!["unsupported digest format `md5:x`"]
    );
    assert_eq!(
        StoreError::NotInPackage { file: "/x".into() }.chain(),
        vec!["failed to make /x relative to package root", "prefix not found"]
    );
    assert_eq!(
        StoreError::Io { context: "c".into(), cause: "e".into() }.chain(),
        vec!["c", "e"]
    );
}

#[test]
fn cache_errors_read_like_their_reports() {
    assert_eq!(
        CacheError::CurrentDir { cause: "gone".into() }.chain(),
        vec!["failed to determine the current directory", "gone"]
    );
    assert_eq!(
        CacheError::MissingHome.chain(),
        vec!["failed to determine the home directory for the default storage path"]
    );
    assert_eq!(
        CacheError::MissingAppData.chain(),
        vec!["failed to determine the default local application data path on Windows"]
    );
}
