use nodus::path::PathStyle;
use std::cell::Cell;

use nodus::report::{ColorMode, Reporter};
use nodus::update_checker::{
    install_url, last_location_header, maybe_notify_with, parse_latest_release_from_location,
    parse_release_version, releases_latest_url, should_attempt_remote_check, state_path,
    CheckOptions, LatestRelease, SemVersion, UpdateCheckOutcome, UpdateCheckState,
    CHECK_INTERVAL_SECS, REPO_SLUG,
};

fn version(text: &str) -> SemVersion {
    SemVersion::parse(text).unwrap()
}

fn options(now_unix_secs: u64, current_version: &str) -> CheckOptions {
    CheckOptions { now_unix_secs, current_version: version(current_version) }
}

fn release(tag: &str, v: &str) -> LatestRelease {
    LatestRelease { tag: tag.to_string(), version: version(v) }
}

/// Probes only when a probe is due, as the command line does, then decides.
fn check<F>(
    state: &mut UpdateCheckState,
    reporter: &mut Reporter,
    options: &CheckOptions,
    fetch_latest: F,
) -> UpdateCheckOutcome
where
    F: FnOnce() -> Result<Option<LatestRelease>, String>,
{
    let probe = if should_attempt_remote_check(state.last_attempted_at_unix_secs, options.now_unix_secs) {
        Some(fetch_latest().ok().flatten())
    } else {
        None
    };
    maybe_notify_with(state, reporter, options, probe)
}

fn state(last: Option<u64>, tag: Option<&str>, ver: Option<&str>, notified: Option<&str>) -> UpdateCheckState {
    UpdateCheckState {
        last_attempted_at_unix_secs: last,
        latest_known_tag: tag.map(str::to_string),
        latest_known_version: ver.map(str::to_string),
        last_notified_tag: notified.map(str::to_string),
    }
}

#[test]
fn parses_release_tags_with_or_without_a_v_prefix() {
    assert_eq!(parse_release_version("v0.3.4").unwrap(), SemVersion::parse("0.3.4").unwrap());
    assert_eq!(parse_release_version("0.3.4").unwrap(), SemVersion::parse("0.3.4").unwrap());
    assert!(parse_release_version("release-0.3.4").is_none());
}

#[test]
fn notifies_once_for_a_newer_release_and_persists_state() {
    let mut st = UpdateCheckState::default();
    let mut reporter = Reporter::sink(ColorMode::Never);

    let outcome = check(&mut st, &mut reporter, &options(86_400, "0.3.3"), || {
        Ok(Some(release("v0.3.4", "0.3.4")))
    });

    assert_eq!(
        reporter.take_result_output(),
        format!("warning: nodus 0.3.4 is available (current 0.3.3); see {}\n", install_url())
    );
    assert!(outcome.notified);
    assert_eq!(st.last_attempted_at_unix_secs, Some(86_400));
    assert_eq!(st.latest_known_tag.as_deref(), Some("v0.3.4"));
    assert_eq!(st.last_notified_tag.as_deref(), Some("v0.3.4"));
    let probed = outcome.probed_state.unwrap();
    assert_eq!(probed.latest_known_version.as_deref(), Some("0.3.4"));
    assert_eq!(probed.last_notified_tag, None);
}

#[test]
fn skips_remote_probe_when_the_last_attempt_is_recent() {
    let mut st = state(Some(100), Some("v0.3.4"), Some("0.3.4"), None);
    let attempted = Cell::new(false);
    let mut reporter = Reporter::sink(ColorMode::Never);

    let outcome = check(&mut st, &mut reporter, &options(100 + CHECK_INTERVAL_SECS - 1, "0.3.3"), || {
        attempted.set(true);
        Ok(Some(release("v9.9.9", "9.9.9")))
    });

    assert!(!attempted.get());
    assert!(outcome.probed_state.is_none());
    assert_eq!(
        reporter.take_result_output(),
        format!("warning: nodus 0.3.4 is available (current 0.3.3); see {}\n", install_url())
    );
}

#[test]
fn does_not_repeat_a_notice_for_the_same_release_tag() {
    let mut st = state(Some(0), Some("v0.3.4"), Some("0.3.4"), Some("v0.3.4"));
    let mut reporter = Reporter::sink(ColorMode::Never);

    check(&mut st, &mut reporter, &options(CHECK_INTERVAL_SECS - 1, "0.3.3"), || {
        panic!("throttled checks should not probe remotely")
    });

    assert!(reporter.take_result_output().is_empty());
}

#[test]
fn notifies_again_when_a_newer_release_than_the_last_notice_appears() {
    let mut st = state(Some(0), Some("v0.3.4"), Some("0.3.4"), Some("v0.3.4"));
    let mut reporter = Reporter::sink(ColorMode::Never);

    check(&mut st, &mut reporter, &options(CHECK_INTERVAL_SECS, "0.3.3"), || {
        Ok(Some(release("v0.3.5", "0.3.5")))
    });

    assert_eq!(
        reporter.take_result_output(),
        format!("warning: nodus 0.3.5 is available (current 0.3.3); see {}\n", install_url())
    );
    assert_eq!(st.last_notified_tag.as_deref(), Some("v0.3.5"));
}

#[test]
fn does_not_notify_when_current_version_is_up_to_date() {
    let mut st = UpdateCheckState::default();
    let mut reporter = Reporter::sink(ColorMode::Never);

    check(&mut st, &mut reporter, &options(0, "0.3.4"), || Ok(Some(release("v0.3.4", "0.3.4"))));

    assert!(reporter.take_result_output().is_empty());
}

#[test]
fn does_not_notify_when_the_probe_returns_no_release() {
    let mut st = UpdateCheckState::default();
    let mut reporter = Reporter::sink(ColorMode::Never);

    check(&mut st, &mut reporter, &options(0, "0.3.3"), || Ok(None));

    assert!(reporter.take_result_output().is_empty());
}

#[test]
fn updates_last_attempt_time_even_when_the_probe_fails() {
    let mut st = UpdateCheckState::default();
    let mut reporter = Reporter::sink(ColorMode::Never);

    let outcome = check(&mut st, &mut reporter, &options(123, "0.3.3"), || {
        Err("network unavailable".to_string())
    });

    assert!(reporter.take_result_output().is_empty());
    assert_eq!(outcome.probed_state.unwrap().last_attempted_at_unix_secs, Some(123));
}

#[test]
fn extracts_the_latest_release_from_redirect_headers() {
    let headers = "\
HTTP/2 302 \r\n\
location: https://github.com/WendellXY/nodus/releases/tag/v0.3.4\r\n\
\r\n\
HTTP/2 200 \r\n\
\r\n";

    assert_eq!(
        last_location_header(headers).as_deref(),
        Some("https://github.com/WendellXY/nodus/releases/tag/v0.3.4")
    );
    let release = parse_latest_release_from_location(
        "https://github.com/WendellXY/nodus/releases/tag/v0.3.4?foo=bar",
    )
    .unwrap();
    assert_eq!(release.tag, "v0.3.4");
    assert_eq!(release.version, SemVersion::parse("0.3.4").unwrap());
}

#[test]
fn release_urls_are_derived_from_the_repo_slug() {
    assert_eq!(releases_latest_url(), format!("https://github.com/{REPO_SLUG}/releases/latest"));
    assert_eq!(install_url(), format!("https://github.com/{REPO_SLUG}#install"));
}

#[test]
fn takes_the_last_location_header_in_any_case() {
    let headers = "Location: /first\nx: y\nLOCATION:  /second \r\nother";
    assert_eq!(last_location_header(headers).as_deref(), Some("/second"));
    assert_eq!(last_location_header("no header here\n"), None);
    assert_eq!(last_location_header("locations: x"), None);
}

#[test]
fn versions_render_like_semver() {
    assert_eq!(version("1.20.3-beta.1+build.5").to_text(), "1.20.3-beta.1+build.5");
    assert_eq!(version("0.0.0").to_text(), "0.0.0");
    assert!(SemVersion::parse("1.2").is_none());
}

#[test]
fn probes_are_throttled_to_one_per_day() {
    assert!(should_attempt_remote_check(None, 0));
    assert!(!should_attempt_remote_check(Some(100), 100 + CHECK_INTERVAL_SECS - 1));
    assert!(should_attempt_remote_check(Some(100), 100 + CHECK_INTERVAL_SECS));
    assert!(!should_attempt_remote_check(Some(500), 10));
}

#[test]
fn remembered_releases_are_parsed() {
    let st = state(None, Some("v1.0.0"), Some("1.0.0"), None);
    let rel = st.latest_known_release().unwrap();
    assert_eq!(rel.tag, "v1.0.0");
    assert_eq!(rel.version.to_text(), "1.0.0");
    assert!(state(None, Some("v1"), Some("garbage"), None).latest_known_release().is_none());
    assert!(state(None, None, Some("1.0.0"), None).latest_known_release().is_none());
}

#[test]
fn the_state_file_lives_in_the_store() {
    assert_eq!(state_path(PathStyle::Posix, "/store"), "/store/update-check.json");
}

#[test]
fn prereleases_precede_their_release() {
    let mut st = UpdateCheckState::default();
    let mut reporter = Reporter::sink(ColorMode::Never);
    check(&mut st, &mut reporter, &options(0, "1.0.0-rc.1"), || Ok(Some(release("v1.0.0", "1.0.0"))));
    assert!(reporter.take_result_output().contains("nodus 1.0.0 is available (current 1.0.0-rc.1)"));
}

#[test]
fn a_probed_release_is_remembered_for_the_next_check() {
    let mut st = UpdateCheckState::default();
    let mut reporter = Reporter::sink(ColorMode::Never);
    check(&mut st, &mut reporter, &options(10, "2.0.0"), || Ok(Some(release("v1.2.3-rc.1", "1.2.3-rc.1"))));
    assert!(reporter.take_result_output().is_empty());
    let known = st.latest_known_release().unwrap();
    assert_eq!(known, release("v1.2.3-rc.1", "1.2.3-rc.1"));
}
