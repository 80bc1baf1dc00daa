//! Update notices: at most one probe for the latest release per day, and one
//! notice per newer release.
//!
//! Reading and writing the state file, the clock and the network probe belong
//! to the caller; this module decides what the state becomes and what is said.

use vstd::prelude::*;
use crate::git::{after_last_slash, after_last_slash_chars, ascii_lower, to_ascii_lowercase};
use crate::path::{join, join_spec, PathStyle};
use crate::report::{after_diagnostic_line, warning_line, Reporter};
use crate::text::{
    chars_of, decimal, find_char, opt_text, index_of_char, push_decimal, slice_chars, string_of, trim,
    trim_chars,
};

verus! {

broadcast use vstd::string::group_string_axioms;

/// Seconds between two probes for the latest release.
pub const CHECK_INTERVAL_SECS: u64 = 86400;

/// The repository whose releases are watched.
pub const REPO_SLUG: &'static str = "WendellXY/nodus";

/// The file in the store that keeps the state of update checks.
pub const STATE_FILE: &'static str = "update-check.json";

/// `semver::Version`, declared so that a parsed version can be kept in a
/// field; its insides are not visible to proofs.
#[verifier::external_type_specification]
#[verifier::external_body]
pub struct ExSemverVersion(semver::Version);

/// A semantic version, with its parts as `semver` parsed them.
#[derive(Debug, PartialEq, Eq)]
pub struct SemVersion {
    major: u64,
    minor: u64,
    patch: u64,
    pre: String,
    build: String,
    parsed: semver::Version,
}

/// The parts of a version.
pub struct VersionView {
    pub major: u64,
    pub minor: u64,
    pub patch: u64,
    pub pre: Seq<char>,
    pub build: Seq<char>,
}

impl View for SemVersion {
    type V = VersionView;

    closed spec fn view(&self) -> VersionView {
        VersionView {
            major: self.major,
            minor: self.minor,
            patch: self.patch,
            pre: self.pre@,
            build: self.build@,
        }
    }
}

/// What `semver::Version::parse` makes of a text: the version's parts, or
/// nothing when the text is not a semantic version.
pub uninterp spec fn semver_parse(text: Seq<char>) -> Option<VersionView>;

/// Whether one version has lower or equal precedence than another, by the
/// order that `semver::Version` implements.
pub uninterp spec fn semver_le(a: VersionView, b: VersionView) -> bool;

/// Parses `text` with `semver::Version::parse`, keeping the parsed value and
/// its parts. The contract says that the parts are those that the name
/// `semver_parse` gives for the text, and that the text `Display` writes for a
/// parsed version (`major.minor.patch`, `-pre`, `+build`) parses back to it.
/// Which texts are versions, and their parts, are left to the name.
#[verifier::external_body]
fn parse_semver(text: &str) -> (r: Option<SemVersion>)
    ensures
        match r {
            Some(v) => semver_parse(text@) == Some(v@) && semver_parse(version_text(v@)) == Some(
                v@,
            ),
            None => semver_parse(text@) is None,
        },
{
    match semver::Version::parse(text) {
        Ok(v) => Some(
            SemVersion {
                major: v.major,
                minor: v.minor,
                patch: v.patch,
                pre: v.pre.as_str().to_string(),
                build: v.build.as_str().to_string(),
                parsed: v,
            },
        ),
        Err(_) => None,
    }
}

/// A version without pre-release and build parts.
pub open spec fn is_plain(v: VersionView) -> bool {
    v.pre.len() == 0 && v.build.len() == 0
}

/// `<=` on `(major, minor, patch)`, the first differing part deciding.
pub open spec fn core_le(a: VersionView, b: VersionView) -> bool {
    a.major < b.major || (a.major == b.major && (a.minor < b.minor || (a.minor == b.minor
        && a.patch <= b.patch)))
}

/// Compares two versions with `semver::Version`'s `<=`. Its result is named
/// `semver_le` over the two versions' parts, which are all that the order of
/// `semver::Version` reads: the derived order compares major, minor, patch,
/// pre-release and build in turn, so equal parts compare as `<=`, and
/// between versions without pre-release and build parts the numbers decide.
/// How pre-release and build parts order is left to the name.
#[verifier::external_body]
fn version_le(a: &SemVersion, b: &SemVersion) -> (r: bool)
    ensures
        r == semver_le(a@, b@),
        a@ == b@ ==> r,
        is_plain(a@) && is_plain(b@) ==> r == core_le(a@, b@),
{
    a.parsed <= b.parsed
}

/// The text of a version, as `semver` displays it: `major.minor.patch`, then
/// `-pre` and `+build` when they are not empty.
pub open spec fn version_text(v: VersionView) -> Seq<char> {
    let core = decimal(v.major as nat) + "."@ + decimal(v.minor as nat) + "."@ + decimal(
        v.patch as nat,
    );
    let with_pre = if v.pre.len() > 0 {
        core + "-"@ + v.pre
    } else {
        core
    };
    if v.build.len() > 0 {
        with_pre + "+"@ + v.build
    } else {
        with_pre
    }
}

impl SemVersion {
    /// Parses a semantic version; the text of a parsed version parses back to it.
    pub fn parse(text: &str) -> (r: Option<SemVersion>)
        ensures
            match r {
                Some(v) => semver_parse(text@) == Some(v@) && semver_parse(version_text(v@))
                    == Some(v@),
                None => semver_parse(text@) is None,
            },
    {
        parse_semver(text)
    }

    /// The version as text.
    pub fn to_text(&self) -> (r: String)
        ensures
            r@ == version_text(self@),
    {
        let mut s = String::new();
        push_decimal(&mut s, self.major);
        s.push_str(".");
        push_decimal(&mut s, self.minor);
        s.push_str(".");
        push_decimal(&mut s, self.patch);
        if chars_of(self.pre.as_str()).len() > 0 {
            s.push_str("-");
            s.push_str(self.pre.as_str());
        }
        if chars_of(self.build.as_str()).len() > 0 {
            s.push_str("+");
            s.push_str(self.build.as_str());
        }
        s
    }
}

/// A release: its tag and the version the tag names.
#[derive(Debug, PartialEq, Eq)]
pub struct LatestRelease {
    pub tag: String,
    pub version: SemVersion,
}

/// The time of a check and the version that runs.
pub struct CheckOptions {
    pub now_unix_secs: u64,
    pub current_version: SemVersion,
}

/// What is remembered between checks.
#[derive(Clone, Debug, PartialEq, Eq)]
pub struct UpdateCheckState {
    pub last_attempted_at_unix_secs: Option<u64>,
    pub latest_known_tag: Option<String>,
    pub latest_known_version: Option<String>,
    pub last_notified_tag: Option<String>,
}

pub struct StateView {
    pub last_attempted_at_unix_secs: Option<u64>,
    pub latest_known_tag: Option<Seq<char>>,
    pub latest_known_version: Option<Seq<char>>,
    pub last_notified_tag: Option<Seq<char>>,
}

impl View for UpdateCheckState {
    type V = StateView;

    open spec fn view(&self) -> StateView {
        StateView {
            last_attempted_at_unix_secs: self.last_attempted_at_unix_secs,
            latest_known_tag: opt_text(self.latest_known_tag),
            latest_known_version: opt_text(self.latest_known_version),
            last_notified_tag: opt_text(self.last_notified_tag),
        }
    }
}

impl Default for UpdateCheckState {
    fn default() -> (r: UpdateCheckState)
        ensures
            r@ == (StateView {
                last_attempted_at_unix_secs: None,
                latest_known_tag: None,
                latest_known_version: None,
                last_notified_tag: None,
            }),
    {
        UpdateCheckState {
            last_attempted_at_unix_secs: None,
            latest_known_tag: None,
            latest_known_version: None,
            last_notified_tag: None,
        }
    }
}

/// The remembered release: its tag and parsed version, when both are known
/// and the version parses.
pub open spec fn known_release(s: StateView) -> Option<(Seq<char>, VersionView)> {
    match (s.latest_known_tag, s.latest_known_version) {
        (Some(t), Some(v)) => match semver_parse(v) {
            Some(p) => Some((t, p)),
            None => None,
        },
        _ => None,
    }
}

impl UpdateCheckState {
    /// The release remembered from the last successful probe, when its version parses.
    pub fn latest_known_release(&self) -> (r: Option<LatestRelease>)
        ensures
            match r {
                Some(rel) => known_release(self@) == Some((rel.tag@, rel.version@)),
                None => known_release(self@) is None,
            },
    {
        let tag = match &self.latest_known_tag {
            Some(t) => t.clone(),
            None => return None,
        };
        let version = match &self.latest_known_version {
            Some(v) => v,
            None => return None,
        };
        match SemVersion::parse(version.as_str()) {
            Some(v) => Some(LatestRelease { tag, version: v }),
            None => None,
        }
    }
}

/// A probe is due when none was ever made, or the last one is at least a
/// day old (a clock that went back counts as no time passed).
pub open spec fn probe_due(last: Option<u64>, now: u64) -> bool {
    match last {
        None => true,
        Some(l) => (if now >= l {
            now - l
        } else {
            0
        }) >= CHECK_INTERVAL_SECS,
    }
}

/// Whether to probe for the latest release now.
pub fn should_attempt_remote_check(last_attempted_at_unix_secs: Option<u64>, now_unix_secs: u64) -> (r: bool)
    ensures
        r == probe_due(last_attempted_at_unix_secs, now_unix_secs),
{
    match last_attempted_at_unix_secs {
        None => true,
        Some(last) => now_unix_secs.saturating_sub(last) >= CHECK_INTERVAL_SECS,
    }
}

/// The page that redirects to the latest release.
pub fn releases_latest_url() -> (r: String)
    ensures
        r@ == "https://github.com/"@ + "WendellXY/nodus"@ + "/releases/latest"@,
{
    let mut s = "https://github.com/".to_string();
    s.push_str(REPO_SLUG);
    s.push_str("/releases/latest");
    s
}

/// Where installation is explained.
pub fn install_url() -> (r: String)
    ensures
        r@ == "https://github.com/"@ + "WendellXY/nodus"@ + "#install"@,
{
    let mut s = "https://github.com/".to_string();
    s.push_str(REPO_SLUG);
    s.push_str("#install");
    s
}

/// Where the state of update checks is kept in the store.
pub fn state_path(style: PathStyle, store_root: &str) -> (r: String)
    ensures
        r@ == join_spec(style, store_root@, "update-check.json"@),
{
    join(style, store_root, STATE_FILE)
}

/// The text of the notice for a newer release.
pub open spec fn notice_text(latest: VersionView, current: VersionView) -> Seq<char> {
    "nodus "@ + version_text(latest) + " is available (current "@ + version_text(current)
        + "); see "@ + ("https://github.com/"@ + "WendellXY/nodus"@ + "#install"@)
}

/// A notice is due for `latest` when it is newer than the running version and
/// was not already the subject of the last notice.
pub open spec fn notice_due(
    latest: Option<(Seq<char>, VersionView)>,
    current: VersionView,
    last_notified: Option<Seq<char>>,
) -> bool {
    match latest {
        None => false,
        Some((tag, version)) => !semver_le(version, current) && last_notified != Some(tag),
    }
}

/// Where the last line of `s` starts: just after its last `\n`, or at 0.
pub open spec fn last_line_start(s: Seq<char>) -> int
    decreases s.len(),
{
    if s.len() == 0 {
        0
    } else if s.last() == '\n' {
        s.len() as int
    } else {
        last_line_start(s.drop_last())
    }
}

proof fn lemma_last_line_start(s: Seq<char>, k: int)
    requires
        0 <= k <= s.len(),
        k == 0 || s[k - 1] == '\n',
        forall|j: int| k <= j < s.len() ==> s[j] != '\n',
    ensures
        last_line_start(s) == k,
    decreases s.len(),
{
    if s.len() > 0 && k < s.len() {
        lemma_last_line_start(s.drop_last(), k);
    }
}

pub proof fn lemma_last_line_start_bounds(s: Seq<char>)
    ensures
        0 <= last_line_start(s) <= s.len(),
        last_line_start(s) > 0 ==> s[last_line_start(s) - 1] == '\n',
    decreases s.len(),
{
    if s.len() > 0 && s.last() != '\n' {
        lemma_last_line_start_bounds(s.drop_last());
    }
}

/// The value of a `Location` header line, if the line is one: the name before
/// the first `:`, trimmed, equals `location` up to ASCII case; the value is
/// what follows, trimmed.
pub open spec fn location_value(line: Seq<char>) -> Option<Seq<char>> {
    let k = index_of_char(line, ':');
    if k >= line.len() {
        None
    } else if trim(line.take(k)).map_values(|c: char| ascii_lower(c)) == "location"@ {
        Some(trim(line.skip(k + 1)))
    } else {
        None
    }
}

/// The value of the last `Location` header among the lines of `s`.
pub open spec fn last_location(s: Seq<char>) -> Option<Seq<char>>
    decreases s.len(),
{
    let st = last_line_start(s);
    match location_value(s.skip(st)) {
        Some(v) => Some(v),
        None => if st <= 0 {
            None
        } else {
            proof {
                lemma_last_line_start_bounds(s);
            }
            last_location(s.take(st - 1))
        },
    }
}

fn location_value_of(line: &Vec<char>) -> (r: Option<String>)
    ensures
        match r {
            Some(v) => location_value(line@) == Some(v@),
            None => location_value(line@) is None,
        },
{
    let k = find_char(line, 0, ':');
    assert(line@.skip(0) =~= line@);
    if k >= line.len() {
        return None;
    }
    let name = trim_chars(&slice_chars(line, 0, k));
    let expected = chars_of("location");
    let mut same = name.len() == expected.len();
    let mut i: usize = 0;
    while same && i < name.len()
        invariant
            same ==> name.len() == expected.len(),
            i <= name.len(),
            same ==> forall|j: int| 0 <= j < i ==> ascii_lower(name@[j]) == expected@[j],
            !same ==> name@.map_values(|c: char| ascii_lower(c)) != expected@,
        decreases name.len() - i,
    {
        if to_ascii_lowercase(name[i]) != expected[i] {
            same = false;
            assert(name@.map_values(|c: char| ascii_lower(c))[i as int] != expected@[i as int]);
        }
        i = i + 1;
    }
    if same {
        assert(name@.map_values(|c: char| ascii_lower(c)) =~= expected@);
    }
    assert(line@.take(k as int) =~= line@.subrange(0, k as int));
    if same {
        let value = trim_chars(&slice_chars(line, k + 1, line.len()));
        assert(line@.skip(k + 1) =~= line@.subrange(k + 1, line.len() as int));
        Some(string_of(&value))
    } else {
        None
    }
}

/// The value of the last `Location` header in the response headers of a request.
pub fn last_location_header(headers: &str) -> (r: Option<String>)
    ensures
        match r {
            Some(v) => last_location(headers@) == Some(v@),
            None => last_location(headers@) is None,
        },
{
    let v = chars_of(headers);
    let mut j: usize = v.len();
    assert(v@.take(v.len() as int) =~= v@);
    loop
        invariant
            j <= v.len(),
            v@ == headers@,
            last_location(v@) == last_location(v@.take(j as int)),
        decreases j,
    {
        let mut st: usize = j;
        while st > 0 && v[st - 1] != '\n'
            invariant
                st <= j <= v.len(),
                forall|q: int| st <= q < j ==> v@[q] != '\n',
            decreases st,
        {
            st = st - 1;
        }
        let ghost pre = v@.take(j as int);
        proof {
            lemma_last_line_start(pre, st as int);
            assert(pre.skip(st as int) =~= v@.subrange(st as int, j as int));
        }
        let line = slice_chars(&v, st, j);
        match location_value_of(&line) {
            Some(value) => {
                return Some(value);
            },
            None => {},
        }
        if st == 0 {
            return None;
        }
        assert(pre.take(st - 1) =~= v@.take(st - 1));
        j = st - 1;
    }
}

/// The tag named by a release page URL: its last path segment, without the query.
pub open spec fn release_tag_of(location: Seq<char>) -> Seq<char> {
    let seg = after_last_slash(location);
    trim(seg.take(index_of_char(seg, '?')))
}

/// The version text of a release tag: the tag without one leading `v`.
pub open spec fn tag_version_text(tag: Seq<char>) -> Seq<char> {
    if tag.len() > 0 && tag[0] == 'v' {
        tag.drop_first()
    } else {
        tag
    }
}

/// The version a release tag names: `v1.2.3` and `1.2.3` both name 1.2.3.
pub fn parse_release_version(tag: &str) -> (r: Option<SemVersion>)
    ensures
        match r {
            Some(v) => semver_parse(tag_version_text(tag@)) == Some(v@),
            None => semver_parse(tag_version_text(tag@)) is None,
        },
{
    let v = chars_of(tag);
    if v.len() > 0 && v[0] == 'v' {
        let rest = string_of(&slice_chars(&v, 1, v.len()));
        assert(v@.subrange(1, v.len() as int) =~= v@.drop_first());
        SemVersion::parse(rest.as_str())
    } else {
        SemVersion::parse(tag)
    }
}

/// The release that a release page URL names, when its tag names a version.
pub fn parse_latest_release_from_location(location: &str) -> (r: Option<LatestRelease>)
    ensures
        match r {
            Some(rel) => rel.tag@ == release_tag_of(location@) && semver_parse(
                tag_version_text(release_tag_of(location@)),
            ) == Some(rel.version@),
            None => semver_parse(tag_version_text(release_tag_of(location@))) is None,
        },
{
    let v = chars_of(location);
    let seg = after_last_slash_chars(&v);
    let q = find_char(&seg, 0, '?');
    assert(seg@.skip(0) =~= seg@);
    let tag_chars = trim_chars(&slice_chars(&seg, 0, q));
    assert(seg@.subrange(0, q as int) =~= seg@.take(q as int));
    let tag = string_of(&tag_chars);
    match parse_release_version(tag.as_str()) {
        Some(version) => Some(LatestRelease { tag, version }),
        None => None,
    }
}

/// What a `HEAD` request for the latest release page gave.
pub enum HeadResponse {
    /// The response headers of every hop of the redirect chain.
    Headers(String),
    /// The program that makes the request is not installed.
    MissingCommand,
    /// The request failed, with this message.
    Failed(String),
}

/// The latest release named by the response to the probe: the release of the
/// last `Location` header. A missing request program or a response without a
/// `Location` header means that no release is known; a failed request is an error.
pub fn latest_release_from_response(response: HeadResponse) -> (r: Result<Option<LatestRelease>, String>)
    ensures
        match response {
            HeadResponse::Headers(h) => match last_location(h@) {
                Some(loc) => match r {
                    Ok(Some(rel)) => rel.tag@ == release_tag_of(loc) && semver_parse(
                        tag_version_text(release_tag_of(loc)),
                    ) == Some(rel.version@),
                    Ok(None) => semver_parse(tag_version_text(release_tag_of(loc))) is None,
                    Err(_) => false,
                },
                None => r matches Ok(None),
            },
            HeadResponse::MissingCommand => r matches Ok(None),
            HeadResponse::Failed(m) => r matches Err(e) && e == m,
        },
{
    match response {
        HeadResponse::Headers(headers) => match last_location_header(headers.as_str()) {
            Some(location) => Ok(parse_latest_release_from_location(location.as_str())),
            None => Ok(None),
        },
        HeadResponse::MissingCommand => Ok(None),
        HeadResponse::Failed(m) => Err(m),
    }
}

/// The state right after a probe at `now` that found `fetched` (nothing when
/// the probe failed or found no release).
pub open spec fn after_probe(
    s: StateView,
    now: u64,
    fetched: Option<(Seq<char>, VersionView)>,
) -> StateView {
    match fetched {
        Some((tag, version)) => StateView {
            last_attempted_at_unix_secs: Some(now),
            latest_known_tag: Some(tag),
            latest_known_version: Some(version_text(version)),
            ..s
        },
        None => StateView { last_attempted_at_unix_secs: Some(now), ..s },
    }
}

pub open spec fn release_view(r: Option<LatestRelease>) -> Option<(Seq<char>, VersionView)> {
    match r {
        Some(rel) => Some((rel.tag@, rel.version@)),
        None => None,
    }
}

/// Once a check probed at `now`, no probe is due again before a full interval
/// has passed, whatever the probe found.
pub proof fn lemma_probe_throttled(
    s: StateView,
    now: u64,
    fetched: Option<(Seq<char>, VersionView)>,
    later: u64,
)
    requires
        now <= later,
        later - now < CHECK_INTERVAL_SECS,
    ensures
        !probe_due(after_probe(s, now, fetched).last_attempted_at_unix_secs, later),
{
}

/// A probe is due again once a full interval has passed since the last one.
pub proof fn lemma_probe_due_after_interval(
    s: StateView,
    now: u64,
    fetched: Option<(Seq<char>, VersionView)>,
    later: u64,
)
    requires
        now <= later,
        later - now >= CHECK_INTERVAL_SECS,
    ensures
        probe_due(after_probe(s, now, fetched).last_attempted_at_unix_secs, later),
{
}

/// A release found by a probe is the known release of the next check: its tag
/// and the text of its version are remembered, and that text parses back to
/// the version (as it does for every parsed version).
pub proof fn lemma_probed_release_is_remembered(
    s: StateView,
    now: u64,
    tag: Seq<char>,
    version: VersionView,
)
    requires
        semver_parse(version_text(version)) == Some(version),
    ensures
        known_release(after_probe(s, now, Some((tag, version)))) == Some((tag, version)),
{
}

/// A release that was the subject of the last notice is never announced again.
pub proof fn lemma_notice_once_per_tag(tag: Seq<char>, version: VersionView, current: VersionView)
    ensures
        !notice_due(Some((tag, version)), current, Some(tag)),
{
}

/// No notice is given when the running version is not older than the release.
pub proof fn lemma_no_notice_when_up_to_date(
    latest: Option<(Seq<char>, VersionView)>,
    current: VersionView,
    last: Option<Seq<char>>,
)
    requires
        latest matches Some((_, v)) ==> semver_le(v, current),
    ensures
        !notice_due(latest, current, last),
{
}

/// What a check decided: the state to write right after the probe (when one
/// ran), and whether a notice was given, after which the final state is written.
pub struct UpdateCheckOutcome {
    pub probed_state: Option<UpdateCheckState>,
    pub notified: bool,
}

fn clone_opt(o: &Option<String>) -> (r: Option<String>)
    ensures
        opt_text(r) == opt_text(*o),
{
    match o {
        Some(s) => Some(s.clone()),
        None => None,
    }
}

fn clone_state(s: &UpdateCheckState) -> (r: UpdateCheckState)
    ensures
        r@ == s@,
{
    UpdateCheckState {
        last_attempted_at_unix_secs: s.last_attempted_at_unix_secs,
        latest_known_tag: clone_opt(&s.latest_known_tag),
        latest_known_version: clone_opt(&s.latest_known_version),
        last_notified_tag: clone_opt(&s.last_notified_tag),
    }
}

/// Runs one update check. `probe` is the outcome of the probe for the latest
/// release, present exactly when a probe was due: the probe's time is recorded
/// whatever it found, and a release it found becomes the known one. A notice is
/// written for the known release when it is newer than the running version and
/// was not the subject of the last notice; the notice's tag is then remembered.
pub fn maybe_notify_with(
    state: &mut UpdateCheckState,
    reporter: &mut Reporter,
    options: &CheckOptions,
    probe: Option<Option<LatestRelease>>,
) -> (r: UpdateCheckOutcome)
    requires
        probe is Some <==> probe_due(
            old(state)@.last_attempted_at_unix_secs,
            options.now_unix_secs,
        ),
    ensures
        ({
            let s0 = old(state)@;
            let s1 = match probe {
                Some(p) => after_probe(s0, options.now_unix_secs, release_view(p)),
                None => s0,
            };
            let latest = match probe {
                Some(Some(rel)) => Some((rel.tag@, rel.version@)),
                _ => known_release(s0),
            };
            let due = notice_due(latest, options.current_version@, s1.last_notified_tag);
            &&& (match r.probed_state {
                Some(p) => probe is Some && p@ == s1,
                None => probe is None,
            })
            &&& r.notified == due
            &&& (latest matches Some((_, v)) && v == options.current_version@ ==> !r.notified)
            &&& (match latest {
                Some((tag, v)) => is_plain(v) && is_plain(options.current_version@) ==> r.notified
                    == (!core_le(v, options.current_version@) && s1.last_notified_tag != Some(
                    tag,
                )),
                None => true,
            })
            &&& final(state)@ == (match latest {
                Some((tag, _)) if due => StateView { last_notified_tag: Some(tag), ..s1 },
                _ => s1,
            })
            &&& final(reporter)@ == (match latest {
                Some((_, version)) if due => after_diagnostic_line(
                    old(reporter)@,
                    warning_line(old(reporter)@, notice_text(version, options.current_version@)),
                ),
                _ => old(reporter)@,
            })
        }),
{
    let mut latest_known = state.latest_known_release();
    let mut probed_state: Option<UpdateCheckState> = None;
    match probe {
        Some(fetched) => {
            state.last_attempted_at_unix_secs = Some(options.now_unix_secs);
            match fetched {
                Some(release) => {
                    state.latest_known_tag = Some(release.tag.clone());
                    state.latest_known_version = Some(release.version.to_text());
                    latest_known = Some(release);
                },
                None => {},
            }
            probed_state = Some(clone_state(state));
        },
        None => {},
    }
    let release = match latest_known {
        Some(release) => release,
        None => {
            return UpdateCheckOutcome { probed_state, notified: false };
        },
    };
    if version_le(&release.version, &options.current_version) {
        return UpdateCheckOutcome { probed_state, notified: false };
    }
    let already = match &state.last_notified_tag {
        Some(t) => *t == release.tag,
        None => false,
    };
    if already {
        return UpdateCheckOutcome { probed_state, notified: false };
    }
    let mut message = "nodus ".to_string();
    message.push_str(release.version.to_text().as_str());
    message.push_str(" is available (current ");
    message.push_str(options.current_version.to_text().as_str());
    message.push_str("); see ");
    message.push_str(install_url().as_str());
    reporter.warning(message.as_str());
    state.last_notified_tag = Some(release.tag);
    UpdateCheckOutcome { probed_state, notified: true }
}

/// A probe that finds no release changes nothing but the time of the last
/// attempt: the remembered release and the last announced tag stay as they
/// were, so a release that was already announced is not announced again,
/// whether no probe ran or a probe found nothing. A probe that finds a
/// release remembers it and also keeps the last announced tag.
pub proof fn lemma_empty_probe_changes_only_the_attempt_time(
    s: StateView,
    now: u64,
    current: VersionView,
)
    ensures
        after_probe(s, now, None).last_attempted_at_unix_secs == Some(now),
        after_probe(s, now, None).latest_known_tag == s.latest_known_tag,
        after_probe(s, now, None).latest_known_version == s.latest_known_version,
        after_probe(s, now, None).last_notified_tag == s.last_notified_tag,
        forall|tag: Seq<char>, version: VersionView|
            #![trigger after_probe(s, now, Some((tag, version)))]
            {
                let p = after_probe(s, now, Some((tag, version)));
                &&& p.last_attempted_at_unix_secs == Some(now)
                &&& p.latest_known_tag == Some(tag)
                &&& p.latest_known_version == Some(version_text(version))
                &&& p.last_notified_tag == s.last_notified_tag
            },
        known_release(s) matches Some((t, _)) && s.last_notified_tag == Some(t) ==> {
            &&& !notice_due(known_release(s), current, s.last_notified_tag)
            &&& !notice_due(
                known_release(after_probe(s, now, None)),
                current,
                after_probe(s, now, None).last_notified_tag,
            )
        },
{
}

} // verus!
