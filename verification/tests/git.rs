use nodus::path::PathStyle;
use nodus::git::{
    add_dependency_in_dir, current_rev, dependency_entry, ensure_git_dependency, latest_tag,
    normalize_alias_from_url, normalize_git_url, resolve_tag_to_rev, FetchStep, GitCheckout,
    GitError, GitReply, GitRequest,
};

#[test]
fn normalizes_repo_names_into_aliases() {
    assert_eq!(
        normalize_alias_from_url("https://github.com/wenext-limited/playbook-ios").ok().unwrap(),
        "playbook_ios"
    );
    assert_eq!(
        normalize_alias_from_url("git@github.com:foo/bar_baz.git").ok().unwrap(),
        "bar_baz"
    );
    assert_eq!(
        normalize_alias_from_url("wenext-limited/playbook-ios").ok().unwrap(),
        "playbook_ios"
    );
}

#[test]
fn expands_github_shortcuts() {
    assert_eq!(
        normalize_git_url("wenext-limited/playbook-ios"),
        "https://github.com/wenext-limited/playbook-ios"
    );
    assert_eq!(
        normalize_git_url("https://github.com/wenext-limited/playbook-ios"),
        "https://github.com/wenext-limited/playbook-ios"
    );
}

#[test]
fn trims_urls_and_keeps_other_sources() {
    assert_eq!(normalize_git_url("  owner/repo \n"), "https://github.com/owner/repo");
    assert_eq!(normalize_git_url("./local/repo"), "./local/repo");
    assert_eq!(normalize_git_url("a/b/c"), "a/b/c");
    assert_eq!(normalize_git_url("/abs"), "/abs");
    assert_eq!(normalize_git_url("owner/"), "owner/");
    assert_eq!(normalize_git_url("\u{3000}x/y"), "https://github.com/x/y");
}

#[test]
fn normalizing_twice_changes_nothing() {
    for url in ["owner/repo", " https://x.org/a.git ", "a/b/c", "git@h:o/r"] {
        let once = normalize_git_url(url);
        assert_eq!(normalize_git_url(&once), once);
    }
}

#[test]
fn aliases_collapse_symbols_and_strip_git_suffixes() {
    assert_eq!(normalize_alias_from_url("https://x.org/My..Repo.git.git/").ok().unwrap(), "my_repo");
    assert_eq!(normalize_alias_from_url("https://x.org/__A-b__").ok().unwrap(), "a_b");
}

#[test]
fn refuses_urls_without_a_usable_alias() {
    match normalize_alias_from_url("https://x.org/a/") {
        Ok(a) => assert_eq!(a, "a"),
        Err(_) => panic!("expected an alias"),
    }
    assert!(matches!(
        normalize_alias_from_url("https://x.org/.git"),
        Err(GitError::AliasUnavailable { .. })
    ));
    match normalize_alias_from_url("https://x.org/---") {
        Err(GitError::AliasInvalid { url }) => assert_eq!(url, "https://x.org/---"),
        _ => panic!("expected an invalid alias"),
    }
}

#[test]
fn picks_the_first_listed_tag() {
    assert_eq!(latest_tag("/repo", "\n  \nv1.2.0\nv0.9.0\n").ok().unwrap(), "v1.2.0");
    assert_eq!(latest_tag("/repo", "  v2.0.0\r\n").ok().unwrap(), "v2.0.0");
    match latest_tag("/repo", " \n\n") {
        Err(GitError::NoTags { path }) => assert_eq!(path, "/repo"),
        _ => panic!("expected no tags"),
    }
}

#[test]
fn builds_rev_parse_requests() {
    match resolve_tag_to_rev("/r", "v1.0.0") {
        GitRequest::Output { cwd, args } => {
            assert_eq!(cwd, "/r");
            assert_eq!(args, vec!["rev-parse".to_string(), "v1.0.0^{commit}".to_string()]);
        }
        _ => panic!("expected a git query"),
    }
    match current_rev("/r") {
        GitRequest::Output { args, .. } => {
            assert_eq!(args, vec!["rev-parse".to_string(), "HEAD".to_string()])
        }
        _ => panic!("expected a git query"),
    }
}

fn expect_request(step: FetchStep) -> GitRequest {
    match step {
        FetchStep::Request(r) => r,
        FetchStep::Finished(_) => panic!("finished early"),
    }
}

#[test]
fn clones_a_missing_dependency_and_checks_out_its_newest_tag() {
    let (mut fetch, first) = ensure_git_dependency(PathStyle::Posix, "/p", "dep", "owner/dep", None, true);
    assert!(matches!(first, GitRequest::CreateDirAll { ref path } if path == "/p/.agen/deps"));
    let r = expect_request(fetch.step(GitReply::Done));
    assert!(matches!(r, GitRequest::Exists { ref path } if path == "/p/.agen/deps/dep"));
    match expect_request(fetch.step(GitReply::Exists(false))) {
        GitRequest::Run { cwd, args } => {
            assert_eq!(cwd, "/p");
            assert_eq!(args, vec!["clone", "https://github.com/owner/dep", "/p/.agen/deps/dep"]);
        }
        _ => panic!("expected a clone"),
    }
    match expect_request(fetch.step(GitReply::Done)) {
        GitRequest::Output { args, .. } => assert_eq!(args[0], "for-each-ref"),
        _ => panic!("expected the tag listing"),
    }
    match expect_request(fetch.step(GitReply::Output("v2.0.0\nv1.0.0".to_string()))) {
        GitRequest::Output { args, .. } => assert_eq!(args[1], "v2.0.0^{commit}"),
        _ => panic!("expected rev-parse"),
    }
    match expect_request(fetch.step(GitReply::Output("abc123".to_string()))) {
        GitRequest::Run { args, .. } => assert_eq!(args, vec!["checkout", "--detach", "abc123"]),
        _ => panic!("expected a checkout"),
    }
    match fetch.step(GitReply::Done) {
        FetchStep::Finished(Ok(c)) => {
            assert_eq!(c.path, "/p/.agen/deps/dep");
            assert_eq!(c.url, "https://github.com/owner/dep");
            assert_eq!(c.tag, "v2.0.0");
            assert_eq!(c.rev, "abc123");
        }
        _ => panic!("expected a checkout"),
    }
}

#[test]
fn refuses_an_existing_checkout_from_another_remote() {
    let (mut fetch, _) = ensure_git_dependency(PathStyle::Posix, "/p", "dep", "owner/dep", Some("v1"), true);
    expect_request(fetch.step(GitReply::Done));
    expect_request(fetch.step(GitReply::Exists(true)));
    match fetch.step(GitReply::Output(" https://example.com/other \n".to_string())) {
        FetchStep::Finished(Err(GitError::RemoteMismatch { alias, path, remote })) => {
            assert_eq!(alias, "dep");
            assert_eq!(path, "/p/.agen/deps/dep");
            assert_eq!(remote, "https://example.com/other");
        }
        _ => panic!("expected a remote mismatch"),
    }
}

#[test]
fn works_offline_with_an_existing_checkout() {
    let (mut fetch, _) = ensure_git_dependency(PathStyle::Posix, "/p", "dep", "owner/dep", Some("v1"), false);
    expect_request(fetch.step(GitReply::Done));
    expect_request(fetch.step(GitReply::Exists(true)));
    match expect_request(fetch.step(GitReply::Output("https://github.com/owner/dep".to_string()))) {
        GitRequest::Output { args, .. } => assert_eq!(args, vec!["rev-parse", "v1^{commit}"]),
        _ => panic!("expected rev-parse without fetching"),
    }
    match fetch.step(GitReply::Output("def".to_string())) {
        FetchStep::Finished(Ok(c)) => {
            assert_eq!(c.tag, "v1");
            assert_eq!(c.rev, "def");
        }
        _ => panic!("expected a checkout"),
    }
}

#[test]
fn refuses_a_missing_checkout_offline() {
    let (mut fetch, _) = ensure_git_dependency(PathStyle::Posix, "/p", "dep", "owner/dep", None, false);
    expect_request(fetch.step(GitReply::Done));
    assert!(matches!(
        fetch.step(GitReply::Exists(false)),
        FetchStep::Finished(Err(GitError::MissingCheckout { .. }))
    ));
}

#[test]
fn reports_a_failed_deps_directory() {
    let (mut fetch, _) = ensure_git_dependency(PathStyle::Posix, "/p", "dep", "owner/dep", None, true);
    match fetch.step(GitReply::Failed("denied".to_string())) {
        FetchStep::Finished(Err(GitError::CreateDepsRoot { path, cause })) => {
            assert_eq!(path, "/p/.agen/deps");
            assert_eq!(cause, "denied");
        }
        _ => panic!("expected an error"),
    }
}

#[test]
fn adding_derives_the_alias_and_refuses_duplicates() {
    let (alias, fetch, _) = add_dependency_in_dir(PathStyle::Posix, "/p", "wenext-limited/playbook-ios", None).ok().unwrap();
    assert_eq!(alias, "playbook_ios");
    assert_eq!(fetch.url(), "https://github.com/wenext-limited/playbook-ios");
    assert!(fetch.allow_network());
    let checkout = GitCheckout {
        path: "/p/.agen/deps/playbook_ios".to_string(),
        url: "https://github.com/wenext-limited/playbook-ios".to_string(),
        tag: "v1.0.0".to_string(),
        rev: "abc".to_string(),
    };
    let spec = dependency_entry(&vec!["other".to_string()], &alias, "/p", &checkout).ok().unwrap();
    assert_eq!(spec.url.as_deref(), Some("https://github.com/wenext-limited/playbook-ios"));
    assert_eq!(spec.tag.as_deref(), Some("v1.0.0"));
    assert!(spec.path.is_none());
    assert!(matches!(
        dependency_entry(&vec!["playbook_ios".to_string()], &alias, "/p", &checkout),
        Err(GitError::AlreadyExists { .. })
    ));
}
