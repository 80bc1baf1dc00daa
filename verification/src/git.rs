//! Git sources of dependencies: the URL and alias rules, the reading of git's
//! answers, and the steps that put a dependency's checkout in place.

use vstd::prelude::*;
use crate::path::{join, join_spec, PathStyle};
use crate::text::{
    chars_of, concat, concat3, has_prefix, has_suffix, lemma_trim_fixed, lemma_trim_idempotent,
    lemma_trim_shape, one, opt_text, slice_chars, string_of, texts, trim, trim_chars, two,
};

verus! {

broadcast use vstd::string::group_string_axioms;

/// Whether `t` already names a remote or a local path, so that it is used as it stands.
pub open spec fn has_source_prefix(t: Seq<char>) -> bool {
    ||| "http://"@.is_prefix_of(t)
    ||| "https://"@.is_prefix_of(t)
    ||| "git@"@.is_prefix_of(t)
    ||| "ssh://"@.is_prefix_of(t)
    ||| "/"@.is_prefix_of(t)
    ||| "./"@.is_prefix_of(t)
    ||| "../"@.is_prefix_of(t)
}

/// `t` is `owner/repo`: exactly one `/`, with something on each side of it.
pub open spec fn is_github_shorthand(t: Seq<char>) -> bool {
    exists|k: int|
        0 < k < t.len() - 1 && #[trigger] t[k] == '/' && (forall|j: int|
            0 <= j < t.len() && j != k ==> t[j] != '/')
}

/// The normalized form of a dependency URL.
pub open spec fn git_url_spec(url: Seq<char>) -> Seq<char> {
    let t = trim(url);
    if has_source_prefix(t) {
        t
    } else if is_github_shorthand(t) {
        "https://github.com/"@ + t
    } else {
        t
    }
}

/// Normalizing a normalized URL changes nothing.
pub proof fn lemma_git_url_idempotent(url: Seq<char>)
    ensures
        git_url_spec(git_url_spec(url)) == git_url_spec(url),
{
    let t = trim(url);
    lemma_trim_idempotent(url);
    if has_source_prefix(t) {
    } else if is_github_shorthand(t) {
        let o = "https://github.com/"@ + t;
        reveal_strlit("https://github.com/");
        reveal_strlit("https://");
        lemma_trim_shape(url);
        assert(o[0] == 'h');
        assert(o.last() == t.last());
        lemma_trim_fixed(o);
        assert("https://"@ =~= o.subrange(0, 8));
        assert(has_source_prefix(o));
    } else {
    }
}

fn github_shorthand(t: &Vec<char>) -> (r: bool)
    ensures
        r == is_github_shorthand(t@),
{
    let mut k: usize = 0;
    while k < t.len() && t[k] != '/'
        invariant
            k <= t.len(),
            forall|j: int| 0 <= j < k ==> t@[j] != '/',
        decreases t.len() - k,
    {
        k = k + 1;
    }
    if k == t.len() {
        return false;
    }
    let mut i: usize = k + 1;
    while i < t.len()
        invariant
            k < i <= t.len(),
            t@[k as int] == '/',
            forall|j: int| 0 <= j < k ==> t@[j] != '/',
            forall|j: int| k < j < i ==> t@[j] != '/',
        decreases t.len() - i,
    {
        if t[i] == '/' {
            assert(!is_github_shorthand(t@)) by {
                if is_github_shorthand(t@) {
                    let w = choose|w: int|
                        0 < w < t@.len() - 1 && #[trigger] t@[w] == '/' && (forall|j: int|
                            0 <= j < t@.len() && j != w ==> t@[j] != '/');
                    assert(w == k as int);
                    assert(t@[i as int] != '/');
                }
            }
            return false;
        }
        i = i + 1;
    }
    let r = k > 0 && k + 1 < t.len();
    proof {
        if r {
            assert(t@[k as int] == '/');
        } else if is_github_shorthand(t@) {
            let w = choose|w: int|
                0 < w < t@.len() - 1 && #[trigger] t@[w] == '/' && (forall|j: int|
                    0 <= j < t@.len() && j != w ==> t@[j] != '/');
            assert(w == k as int);
        }
    }
    r
}

/// Expands `owner/repo` into its GitHub URL; any other source is only trimmed.
pub fn normalize_git_url(url: &str) -> (r: String)
    ensures
        r@ == git_url_spec(url@),
{
    let v = chars_of(url);
    let t = trim_chars(&v);
    if has_prefix(&t, "http://") || has_prefix(&t, "https://") || has_prefix(&t, "git@")
        || has_prefix(&t, "ssh://") || has_prefix(&t, "/") || has_prefix(&t, "./") || has_prefix(
        &t,
        "../",
    ) {
        return string_of(&t);
    }
    if github_shorthand(&t) {
        let mut s = "https://github.com/".to_string();
        let rest = string_of(&t);
        s.push_str(rest.as_str());
        return s;
    }
    string_of(&t)
}

/// Drops every trailing `c`.
pub open spec fn strip_trailing(s: Seq<char>, c: char) -> Seq<char>
    decreases s.len(),
{
    if s.len() > 0 && s.last() == c {
        strip_trailing(s.drop_last(), c)
    } else {
        s
    }
}

/// Drops every leading `c`.
pub open spec fn strip_leading(s: Seq<char>, c: char) -> Seq<char>
    decreases s.len(),
{
    if s.len() > 0 && s[0] == c {
        strip_leading(s.drop_first(), c)
    } else {
        s
    }
}

/// Drops the suffix `p` as long as it is there (`str::trim_end_matches` with a string).
pub open spec fn strip_suffixes(s: Seq<char>, p: Seq<char>) -> Seq<char>
    decreases s.len(),
{
    if p.len() > 0 && p.is_suffix_of(s) {
        strip_suffixes(s.take(s.len() - p.len()), p)
    } else {
        s
    }
}

/// The part after the last `/` (all of `s` when there is none).
pub open spec fn after_last_slash(s: Seq<char>) -> Seq<char>
    decreases s.len(),
{
    if s.len() == 0 {
        s
    } else if s.last() == '/' {
        Seq::empty()
    } else {
        after_last_slash(s.drop_last()).push(s.last())
    }
}

pub open spec fn is_ascii_alnum(c: char) -> bool {
    ('0' <= c && c <= '9') || ('a' <= c && c <= 'z') || ('A' <= c && c <= 'Z')
}

pub open spec fn ascii_lower(c: char) -> char {
    if 'A' <= c && c <= 'Z' {
        ((c as u32) + 32) as char
    } else {
        c
    }
}

/// ASCII letters and digits kept in lower case; every run of other characters
/// becomes one `_`.
pub open spec fn alias_chars(s: Seq<char>) -> Seq<char>
    decreases s.len(),
{
    if s.len() == 0 {
        Seq::empty()
    } else {
        let prev = alias_chars(s.drop_last());
        let c = s.last();
        if is_ascii_alnum(c) {
            prev.push(ascii_lower(c))
        } else if prev.len() > 0 && prev.last() == '_' {
            prev
        } else {
            prev.push('_')
        }
    }
}

/// The last path segment of a normalized URL, without trailing `/` and `.git`.
pub open spec fn alias_source(url: Seq<char>) -> Seq<char> {
    after_last_slash(strip_suffixes(strip_trailing(git_url_spec(url), '/'), ".git"@))
}

/// The alias derived from a URL, before it is checked for emptiness.
pub open spec fn alias_spec(url: Seq<char>) -> Seq<char> {
    strip_leading(strip_trailing(alias_chars(alias_source(url)), '_'), '_')
}

/// What an alias is made of: lower-case ASCII letters, digits and single `_`
/// between them.
pub open spec fn is_valid_alias(a: Seq<char>) -> bool {
    &&& a.len() > 0
    &&& a[0] != '_'
    &&& a.last() != '_'
    &&& forall|i: int|
        0 <= i < a.len() ==> (('0' <= #[trigger] a[i] && a[i] <= '9') || ('a' <= a[i] && a[i]
            <= 'z') || a[i] == '_')
    &&& forall|i: int| 0 <= i < a.len() - 1 ==> !(#[trigger] a[i] == '_' && a[i + 1] == '_')
}

/// Every character of `s` is a lower-case ASCII letter, a digit or `_`, and no
/// two `_` are adjacent.
pub open spec fn alias_shaped(s: Seq<char>) -> bool {
    &&& forall|i: int|
        0 <= i < s.len() ==> (('0' <= #[trigger] s[i] && s[i] <= '9') || ('a' <= s[i] && s[i]
            <= 'z') || s[i] == '_')
    &&& forall|i: int| 0 <= i < s.len() - 1 ==> !(#[trigger] s[i] == '_' && s[i + 1] == '_')
}

proof fn lemma_alias_chars_shaped(s: Seq<char>)
    ensures
        alias_shaped(alias_chars(s)),
    decreases s.len(),
{
    if s.len() > 0 {
        lemma_alias_chars_shaped(s.drop_last());
        let prev = alias_chars(s.drop_last());
        let c = s.last();
        if is_ascii_alnum(c) {
            let l = ascii_lower(c);
            assert(('0' <= l && l <= '9') || ('a' <= l && l <= 'z'));
            assert(forall|i: int| 0 <= i < prev.len() ==> prev.push(l)[i] == prev[i]);
        } else if prev.len() > 0 && prev.last() == '_' {
        } else {
            assert(forall|i: int| 0 <= i < prev.len() ==> prev.push('_')[i] == prev[i]);
        }
    }
}

proof fn lemma_strip_trailing_prefix(s: Seq<char>, c: char)
    ensures
        exists|k: int| 0 <= k <= s.len() && strip_trailing(s, c) == s.take(k),
        strip_trailing(s, c).len() > 0 ==> strip_trailing(s, c).last() != c,
    decreases s.len(),
{
    if s.len() > 0 && s.last() == c {
        lemma_strip_trailing_prefix(s.drop_last(), c);
        let k = choose|k: int|
            0 <= k <= s.drop_last().len() && strip_trailing(s.drop_last(), c)
                == s.drop_last().take(k);
        assert(s.drop_last().take(k) =~= s.take(k));
    } else {
        assert(s.take(s.len() as int) =~= s);
    }
}

proof fn lemma_strip_leading_suffix(s: Seq<char>, c: char)
    ensures
        exists|k: int| 0 <= k <= s.len() && strip_leading(s, c) == s.skip(k),
        strip_leading(s, c).len() > 0 ==> strip_leading(s, c)[0] != c,
    decreases s.len(),
{
    if s.len() > 0 && s[0] == c {
        lemma_strip_leading_suffix(s.drop_first(), c);
        let k = choose|k: int|
            0 <= k <= s.drop_first().len() && strip_leading(s.drop_first(), c)
                == s.drop_first().skip(k);
        assert(s.drop_first().skip(k) =~= s.skip(k + 1));
    } else {
        assert(s.skip(0) =~= s);
    }
}

/// A derived alias, when it is not empty, is a valid alias.
pub proof fn lemma_alias_is_valid(url: Seq<char>)
    requires
        alias_spec(url).len() > 0,
    ensures
        is_valid_alias(alias_spec(url)),
{
    let raw = alias_chars(alias_source(url));
    lemma_alias_chars_shaped(alias_source(url));
    let t = strip_trailing(raw, '_');
    lemma_strip_trailing_prefix(raw, '_');
    let k = choose|k: int| 0 <= k <= raw.len() && t == raw.take(k);
    assert(alias_shaped(t)) by {
        assert(forall|i: int| 0 <= i < t.len() ==> t[i] == raw[i]);
    }
    let a = strip_leading(t, '_');
    lemma_strip_leading_suffix(t, '_');
    let m = choose|m: int| 0 <= m <= t.len() && a == t.skip(m);
    assert(forall|i: int| 0 <= i < a.len() ==> a[i] == t[i + m]);
    assert(a.last() == t.last());
}

/// Where the first line of `s` ends: the index of its first `\n`, or its length.
pub open spec fn line_end(s: Seq<char>) -> int
    decreases s.len(),
{
    if s.len() == 0 || s[0] == '\n' {
        0
    } else {
        1 + line_end(s.drop_first())
    }
}

/// The first line of `s` that holds more than whitespace, trimmed (what
/// `s.lines().find(|l| !l.trim().is_empty()).map(str::trim)` gives).
pub open spec fn first_nonblank_line(s: Seq<char>) -> Option<Seq<char>>
    decreases s.len(),
{
    let k = line_end(s);
    if trim(s.take(k)).len() > 0 {
        Some(trim(s.take(k)))
    } else if k >= s.len() {
        None
    } else {
        proof {
            lemma_line_end_bounds(s);
        }
        first_nonblank_line(s.skip(k + 1))
    }
}

proof fn lemma_line_end(s: Seq<char>, k: int)
    requires
        0 <= k <= s.len(),
        k == s.len() || s[k] == '\n',
        forall|j: int| 0 <= j < k ==> s[j] != '\n',
    ensures
        line_end(s) == k,
    decreases k,
{
    if k > 0 {
        lemma_line_end(s.drop_first(), k - 1);
    }
}

pub proof fn lemma_line_end_bounds(s: Seq<char>)
    ensures
        0 <= line_end(s) <= s.len(),
    decreases s.len(),
{
    if s.len() > 0 && s[0] != '\n' {
        lemma_line_end_bounds(s.drop_first());
    }
}

/// A URL and its normalized form give the same alias, so `owner/repo` and
/// `https://github.com/owner/repo` name the same dependency.
pub proof fn lemma_alias_of_normalized(url: Seq<char>)
    ensures
        alias_source(git_url_spec(url)) == alias_source(url),
        alias_spec(git_url_spec(url)) == alias_spec(url),
{
    lemma_git_url_idempotent(url);
}

/// The errors of the git rules.
pub enum GitError {
    /// No last path segment could be taken from the URL.
    AliasUnavailable { url: String },
    /// The last path segment holds no letter or digit.
    AliasInvalid { url: String },
    /// The repository has no tag.
    NoTags { path: String },
    /// The directory that holds the checkouts could not be created.
    CreateDepsRoot { path: String, cause: String },
    /// A checkout is already there, cloned from another remote.
    RemoteMismatch { alias: String, path: String, remote: String },
    /// The checkout is missing and the network may not be used.
    MissingCheckout { alias: String, path: String },
    /// A git command failed; its message as the command runner gave it.
    Command { message: String },
    /// The project already depends on a package under this alias.
    AlreadyExists { alias: String, root: String },
}

/// `GitError` with its text as character sequences.
pub enum GitErrorView {
    AliasUnavailable { url: Seq<char> },
    AliasInvalid { url: Seq<char> },
    NoTags { path: Seq<char> },
    CreateDepsRoot { path: Seq<char>, cause: Seq<char> },
    RemoteMismatch { alias: Seq<char>, path: Seq<char>, remote: Seq<char> },
    MissingCheckout { alias: Seq<char>, path: Seq<char> },
    Command { message: Seq<char> },
    AlreadyExists { alias: Seq<char>, root: Seq<char> },
}

impl View for GitError {
    type V = GitErrorView;

    open spec fn view(&self) -> GitErrorView {
        match self {
            GitError::AliasUnavailable { url } => GitErrorView::AliasUnavailable { url: url@ },
            GitError::AliasInvalid { url } => GitErrorView::AliasInvalid { url: url@ },
            GitError::NoTags { path } => GitErrorView::NoTags { path: path@ },
            GitError::CreateDepsRoot { path, cause } => GitErrorView::CreateDepsRoot {
                path: path@,
                cause: cause@,
            },
            GitError::RemoteMismatch { alias, path, remote } => GitErrorView::RemoteMismatch {
                alias: alias@,
                path: path@,
                remote: remote@,
            },
            GitError::MissingCheckout { alias, path } => GitErrorView::MissingCheckout {
                alias: alias@,
                path: path@,
            },
            GitError::Command { message } => GitErrorView::Command { message: message@ },
            GitError::AlreadyExists { alias, root } => GitErrorView::AlreadyExists {
                alias: alias@,
                root: root@,
            },
        }
    }
}

fn strip_trailing_chars(v: &Vec<char>, c: char) -> (r: Vec<char>)
    ensures
        r@ == strip_trailing(v@, c),
{
    let mut j: usize = v.len();
    assert(v@.take(v.len() as int) =~= v@);
    while j > 0 && v[j - 1] == c
        invariant
            j <= v.len(),
            strip_trailing(v@, c) == strip_trailing(v@.take(j as int), c),
        decreases j,
    {
        assert(v@.take(j as int).drop_last() =~= v@.take(j - 1));
        j = j - 1;
    }
    slice_chars(v, 0, j)
}

pub fn strip_leading_chars(v: &Vec<char>, c: char) -> (r: Vec<char>)
    ensures
        r@ == strip_leading(v@, c),
{
    let mut i: usize = 0;
    assert(v@.skip(0) =~= v@);
    while i < v.len() && v[i] == c
        invariant
            i <= v.len(),
            strip_leading(v@, c) == strip_leading(v@.skip(i as int), c),
        decreases v.len() - i,
    {
        assert(v@.skip(i as int).drop_first() =~= v@.skip(i + 1));
        i = i + 1;
    }
    slice_chars(v, i, v.len())
}

fn strip_suffix_chars(v: &Vec<char>, p: &Vec<char>) -> (r: Vec<char>)
    requires
        p.len() > 0,
    ensures
        r@ == strip_suffixes(v@, p@),
{
    let mut cur = slice_chars(v, 0, v.len());
    assert(cur@ =~= v@);
    while has_suffix(&cur, p)
        invariant
            p.len() > 0,
            strip_suffixes(v@, p@) == strip_suffixes(cur@, p@),
        decreases cur.len(),
    {
        let n = cur.len() - p.len();
        cur = slice_chars(&cur, 0, n);
    }
    cur
}

pub fn after_last_slash_chars(v: &Vec<char>) -> (r: Vec<char>)
    ensures
        r@ == after_last_slash(v@),
{
    let mut j: usize = v.len();
    assert(v@.take(v.len() as int) =~= v@);
    assert(v@.skip(v.len() as int) =~= Seq::<char>::empty());
    while j > 0 && v[j - 1] != '/'
        invariant
            j <= v.len(),
            after_last_slash(v@) == after_last_slash(v@.take(j as int)) + v@.skip(j as int),
        decreases j,
    {
        let ghost pre = v@.take(j as int);
        assert(pre.drop_last() =~= v@.take(j - 1));
        assert(seq![pre.last()] + v@.skip(j as int) =~= v@.skip(j - 1));
        assert(after_last_slash(pre) == after_last_slash(v@.take(j - 1)).push(pre.last()));
        assert(after_last_slash(v@.take(j - 1)).push(pre.last()) + v@.skip(j as int)
            =~= after_last_slash(v@.take(j - 1)) + v@.skip(j - 1));
        j = j - 1;
    }
    assert(after_last_slash(v@.take(j as int)) =~= Seq::<char>::empty());
    assert(Seq::<char>::empty() + v@.skip(j as int) =~= v@.subrange(j as int, v.len() as int));
    slice_chars(v, j, v.len())
}

fn is_ascii_alphanumeric(c: char) -> (r: bool)
    ensures
        r == is_ascii_alnum(c),
{
    ('0' <= c && c <= '9') || ('a' <= c && c <= 'z') || ('A' <= c && c <= 'Z')
}

pub fn to_ascii_lowercase(c: char) -> (r: char)
    ensures
        r == ascii_lower(c),
{
    if 'A' <= c && c <= 'Z' {
        let code: u8 = (c as u8) + 32;
        code as char
    } else {
        c
    }
}

fn alias_chars_of(s: &Vec<char>) -> (r: Vec<char>)
    ensures
        r@ == alias_chars(s@),
{
    let mut alias: Vec<char> = Vec::new();
    let mut i: usize = 0;
    assert(s@.take(0) =~= Seq::<char>::empty());
    while i < s.len()
        invariant
            i <= s.len(),
            alias@ == alias_chars(s@.take(i as int)),
        decreases s.len() - i,
    {
        let c = s[i];
        assert(s@.take(i + 1).drop_last() =~= s@.take(i as int));
        assert(s@.take(i + 1).last() == c);
        if is_ascii_alphanumeric(c) {
            alias.push(to_ascii_lowercase(c));
        } else if !(alias.len() > 0 && alias[alias.len() - 1] == '_') {
            alias.push('_');
        }
        i = i + 1;
    }
    assert(s@.take(s.len() as int) =~= s@);
    alias
}

/// Derives a dependency alias from a URL: its last path segment, without
/// `.git`, in lower case, with runs of other characters turned into `_`.
pub fn normalize_alias_from_url(url: &str) -> (r: Result<String, GitError>)
    ensures
        match r {
            Ok(a) => alias_source(url@).len() > 0 && a@ == alias_spec(url@) && is_valid_alias(
                a@,
            ),
            Err(GitError::AliasUnavailable { url: u }) => u@ == url@ && alias_source(url@).len()
                == 0,
            Err(GitError::AliasInvalid { url: u }) => u@ == url@ && alias_source(url@).len() > 0
                && alias_spec(url@).len() == 0,
            Err(_) => false,
        },
{
    let normalized = normalize_git_url(url);
    let n = chars_of(normalized.as_str());
    let no_slash = strip_trailing_chars(&n, '/');
    let suffix = chars_of(".git");
    proof {
        reveal_strlit(".git");
    }
    let no_git = strip_suffix_chars(&no_slash, &suffix);
    let tail = after_last_slash_chars(&no_git);
    if tail.len() == 0 {
        return Err(GitError::AliasUnavailable { url: url.to_string() });
    }
    let raw = alias_chars_of(&tail);
    let end_trimmed = strip_trailing_chars(&raw, '_');
    let alias = strip_leading_chars(&end_trimmed, '_');
    if alias.len() == 0 {
        return Err(GitError::AliasInvalid { url: url.to_string() });
    }
    proof {
        lemma_alias_is_valid(url@);
    }
    Ok(string_of(&alias))
}

/// The newest tag in the output of `git for-each-ref --sort=-v:refname`: its
/// first non-blank line, trimmed.
pub fn latest_tag(path: &str, listing: &str) -> (r: Result<String, GitError>)
    ensures
        match r {
            Ok(t) => first_nonblank_line(listing@) == Some(t@),
            Err(GitError::NoTags { path: p }) => p@ == path@ && first_nonblank_line(listing@)
                is None,
            Err(_) => false,
        },
{
    let v = chars_of(listing);
    let mut p: usize = 0;
    assert(v@.skip(0) =~= v@);
    loop
        invariant
            p <= v.len(),
            v@ == listing@,
            first_nonblank_line(v@) == first_nonblank_line(v@.skip(p as int)),
        decreases v.len() - p,
    {
        let mut q: usize = p;
        while q < v.len() && v[q] != '\n'
            invariant
                p <= q <= v.len(),
                forall|j: int| p <= j < q ==> v@[j] != '\n',
            decreases v.len() - q,
        {
            q = q + 1;
        }
        let ghost rest = v@.skip(p as int);
        proof {
            lemma_line_end(rest, q - p);
            assert(rest.take(q - p) =~= v@.subrange(p as int, q as int));
        }
        let line = slice_chars(&v, p, q);
        let t = trim_chars(&line);
        if t.len() > 0 {
            return Ok(string_of(&t));
        }
        if q == v.len() {
            return Err(GitError::NoTags { path: path.to_string() });
        }
        assert(rest.skip(q - p + 1) =~= v@.skip(q + 1));
        p = q + 1;
    }
}

/// The messages of a git error, outermost first.
pub open spec fn git_error_chain(e: GitErrorView) -> Seq<Seq<char>> {
    match e {
        GitErrorView::AliasUnavailable { url } => seq![
            "failed to infer a dependency alias from `"@ + url + "`"@,
        ],
        GitErrorView::AliasInvalid { url } => seq![
            "failed to derive a valid dependency alias from `"@ + url + "`"@,
        ],
        GitErrorView::NoTags { path } => seq!["no git tags found in "@ + path],
        GitErrorView::CreateDepsRoot { path, cause } => seq!["failed to create "@ + path, cause],
        GitErrorView::RemoteMismatch { alias, path, remote } => seq![
            "dependency `"@ + alias + "` already exists at "@ + path + " with remote `"@ + remote
                + "`"@,
        ],
        GitErrorView::MissingCheckout { alias, path } => seq![
            "missing git dependency `"@ + alias + "` at "@ + path,
        ],
        GitErrorView::Command { message } => seq![message],
        GitErrorView::AlreadyExists { alias, root } => seq![
            "dependency `"@ + alias + "` already exists in "@ + root,
        ],
    }
}

impl GitError {
    /// The error's messages, outermost first, as an error report shows them.
    pub fn chain(&self) -> (r: Vec<String>)
        ensures
            texts(r@) == git_error_chain(self@),
    {
        match self {
            GitError::AliasUnavailable { url } => one(
                concat3("failed to infer a dependency alias from `", url.as_str(), "`"),
            ),
            GitError::AliasInvalid { url } => one(
                concat3("failed to derive a valid dependency alias from `", url.as_str(), "`"),
            ),
            GitError::NoTags { path } => one(concat("no git tags found in ", path.as_str())),
            GitError::CreateDepsRoot { path, cause } => two(
                concat("failed to create ", path.as_str()),
                cause.clone(),
            ),
            GitError::RemoteMismatch { alias, path, remote } => {
                let mut m = concat3("dependency `", alias.as_str(), "` already exists at ");
                m.push_str(path.as_str());
                m.push_str(" with remote `");
                m.push_str(remote.as_str());
                m.push_str("`");
                one(m)
            },
            GitError::MissingCheckout { alias, path } => {
                let mut m = concat3("missing git dependency `", alias.as_str(), "` at ");
                m.push_str(path.as_str());
                one(m)
            },
            GitError::Command { message } => one(message.clone()),
            GitError::AlreadyExists { alias, root } => {
                let mut m = concat3("dependency `", alias.as_str(), "` already exists in ");
                m.push_str(root.as_str());
                one(m)
            },
        }
    }
}

/// Where checkouts of git dependencies live, below the project root.
pub const DEPS_ROOT: &'static str = ".agen/deps";

/// A dependency's checkout: where it is, where it came from, and what is checked out.
pub struct GitCheckout {
    pub path: String,
    pub url: String,
    pub tag: String,
    pub rev: String,
}

pub struct CheckoutView {
    pub path: Seq<char>,
    pub url: Seq<char>,
    pub tag: Seq<char>,
    pub rev: Seq<char>,
}

impl View for GitCheckout {
    type V = CheckoutView;

    open spec fn view(&self) -> CheckoutView {
        CheckoutView { path: self.path@, url: self.url@, tag: self.tag@, rev: self.rev@ }
    }
}

/// Work that only the caller can do: the file system and the `git` program.
pub enum GitRequest {
    /// Create a directory and its parents.
    CreateDirAll { path: String },
    /// Tell whether a path exists.
    Exists { path: String },
    /// Run `git` with `args` in `cwd` and hand back its trimmed standard output.
    Output { cwd: String, args: Vec<String> },
    /// Run `git` with `args` in `cwd`.
    Run { cwd: String, args: Vec<String> },
}

pub enum RequestView {
    CreateDirAll { path: Seq<char> },
    Exists { path: Seq<char> },
    Output { cwd: Seq<char>, args: Seq<Seq<char>> },
    Run { cwd: Seq<char>, args: Seq<Seq<char>> },
}

pub open spec fn strings_view(v: Seq<String>) -> Seq<Seq<char>> {
    v.map_values(|a: String| a@)
}

impl View for GitRequest {
    type V = RequestView;

    open spec fn view(&self) -> RequestView {
        match self {
            GitRequest::CreateDirAll { path } => RequestView::CreateDirAll { path: path@ },
            GitRequest::Exists { path } => RequestView::Exists { path: path@ },
            GitRequest::Output { cwd, args } => RequestView::Output {
                cwd: cwd@,
                args: strings_view(args@),
            },
            GitRequest::Run { cwd, args } => RequestView::Run {
                cwd: cwd@,
                args: strings_view(args@),
            },
        }
    }
}

/// The caller's answer to a `GitRequest`.
pub enum GitReply {
    /// The directory was created, or the command ran and succeeded.
    Done,
    /// Whether the path exists.
    Exists(bool),
    /// The command succeeded with this trimmed output.
    Output(String),
    /// The work failed, with this message.
    Failed(String),
}

pub enum ReplyView {
    Done,
    Exists(bool),
    Output(Seq<char>),
    Failed(Seq<char>),
}

impl View for GitReply {
    type V = ReplyView;

    open spec fn view(&self) -> ReplyView {
        match self {
            GitReply::Done => ReplyView::Done,
            GitReply::Exists(b) => ReplyView::Exists(*b),
            GitReply::Output(o) => ReplyView::Output(o@),
            GitReply::Failed(m) => ReplyView::Failed(m@),
        }
    }
}

/// What a step of the checkout procedure asks for next, or how it ended.
pub enum FetchStep {
    Request(GitRequest),
    Finished(Result<GitCheckout, GitError>),
}

pub enum StepView {
    Request(RequestView),
    Finished(Result<CheckoutView, GitErrorView>),
}

impl View for FetchStep {
    type V = StepView;

    open spec fn view(&self) -> StepView {
        match self {
            FetchStep::Request(r) => StepView::Request(r@),
            FetchStep::Finished(Ok(c)) => StepView::Finished(Ok(c@)),
            FetchStep::Finished(Err(e)) => StepView::Finished(Err(e@)),
        }
    }
}

/// The stages of putting a checkout in place; each waits for one answer.
#[derive(Clone, Copy, PartialEq, Eq, Structural)]
pub enum FetchStage {
    CreateDeps,
    CheckExisting,
    ReadRemote,
    Fetch,
    Clone,
    ListTags,
    ResolveRev,
    Checkout,
    Done,
}

/// The procedure that puts a git dependency's checkout in place and resolves
/// the tag to check out, one outside request at a time.
pub struct GitDependencyFetch {
    style: PathStyle,
    project_root: String,
    alias: String,
    url: String,
    tag: Option<String>,
    allow_network: bool,
    deps_root: String,
    checkout_path: String,
    resolved_tag: String,
    rev: String,
    stage: FetchStage,
}

pub struct FetchView {
    pub style: PathStyle,
    pub project_root: Seq<char>,
    pub alias: Seq<char>,
    pub url: Seq<char>,
    pub tag: Option<Seq<char>>,
    pub allow_network: bool,
    pub deps_root: Seq<char>,
    pub checkout_path: Seq<char>,
    pub resolved_tag: Seq<char>,
    pub rev: Seq<char>,
    pub stage: FetchStage,
}

impl View for GitDependencyFetch {
    type V = FetchView;

    closed spec fn view(&self) -> FetchView {
        FetchView {
            style: self.style,
            project_root: self.project_root@,
            alias: self.alias@,
            url: self.url@,
            tag: match self.tag {
                Some(t) => Some(t@),
                None => None,
            },
            allow_network: self.allow_network,
            deps_root: self.deps_root@,
            checkout_path: self.checkout_path@,
            resolved_tag: self.resolved_tag@,
            rev: self.rev@,
            stage: self.stage,
        }
    }
}

pub open spec fn remote_url_args() -> Seq<Seq<char>> {
    seq!["remote"@, "get-url"@, "origin"@]
}

pub open spec fn fetch_tags_args() -> Seq<Seq<char>> {
    seq!["fetch"@, "--tags"@, "origin"@]
}

pub open spec fn clone_args(url: Seq<char>, path: Seq<char>) -> Seq<Seq<char>> {
    seq!["clone"@, url, path]
}

pub open spec fn list_tags_args() -> Seq<Seq<char>> {
    seq!["for-each-ref"@, "--sort=-v:refname"@, "--format=%(refname:strip=2)"@, "refs/tags"@]
}

pub open spec fn rev_parse_args(tag: Seq<char>) -> Seq<Seq<char>> {
    seq!["rev-parse"@, tag + "^{commit}"@]
}

pub open spec fn checkout_args(rev: Seq<char>) -> Seq<Seq<char>> {
    seq!["checkout"@, "--detach"@, rev]
}

pub open spec fn head_args() -> Seq<Seq<char>> {
    seq!["rev-parse"@, "HEAD"@]
}

/// Which answers each stage can get.
pub open spec fn reply_fits(stage: FetchStage, reply: ReplyView) -> bool {
    match stage {
        FetchStage::CreateDeps | FetchStage::Fetch | FetchStage::Clone | FetchStage::Checkout => (
        reply is Done || reply is Failed),
        FetchStage::CheckExisting => reply is Exists,
        FetchStage::ReadRemote | FetchStage::ListTags | FetchStage::ResolveRev => (reply is Output
            || reply is Failed),
        FetchStage::Done => false,
    }
}

pub open spec fn with_stage(s: FetchView, stage: FetchStage) -> FetchView {
    FetchView { stage, ..s }
}

pub open spec fn finished_checkout(s: FetchView) -> CheckoutView {
    CheckoutView { path: s.checkout_path, url: s.url, tag: s.resolved_tag, rev: s.rev }
}

/// Resolving the tag to a commit.
pub open spec fn resolve_phase(s: FetchView, tag: Seq<char>) -> (FetchView, StepView) {
    (
        FetchView { stage: FetchStage::ResolveRev, resolved_tag: tag, ..s },
        StepView::Request(
            RequestView::Output { cwd: s.checkout_path, args: rev_parse_args(tag) },
        ),
    )
}

/// Choosing the tag: the one asked for, else the newest.
pub open spec fn tag_phase(s: FetchView) -> (FetchView, StepView) {
    match s.tag {
        Some(t) => resolve_phase(s, t),
        None => (
            with_stage(s, FetchStage::ListTags),
            StepView::Request(
                RequestView::Output { cwd: s.checkout_path, args: list_tags_args() },
            ),
        ),
    }
}

pub open spec fn failed(s: FetchView, e: GitErrorView) -> (FetchView, StepView) {
    (with_stage(s, FetchStage::Done), StepView::Finished(Err(e)))
}

/// One step of the procedure: the state after an answer, and what comes next.
pub open spec fn fetch_transition(s: FetchView, reply: ReplyView) -> (FetchView, StepView) {
    match s.stage {
        FetchStage::CreateDeps => match reply {
            ReplyView::Failed(m) => failed(
                s,
                GitErrorView::CreateDepsRoot { path: s.deps_root, cause: m },
            ),
            _ => (
                with_stage(s, FetchStage::CheckExisting),
                StepView::Request(RequestView::Exists { path: s.checkout_path }),
            ),
        },
        FetchStage::CheckExisting => match reply {
            ReplyView::Exists(true) => (
                with_stage(s, FetchStage::ReadRemote),
                StepView::Request(
                    RequestView::Output { cwd: s.checkout_path, args: remote_url_args() },
                ),
            ),
            _ => if !s.allow_network {
                failed(
                    s,
                    GitErrorView::MissingCheckout { alias: s.alias, path: s.checkout_path },
                )
            } else {
                (
                    with_stage(s, FetchStage::Clone),
                    StepView::Request(
                        RequestView::Run {
                            cwd: s.project_root,
                            args: clone_args(s.url, s.checkout_path),
                        },
                    ),
                )
            },
        },
        FetchStage::ReadRemote => match reply {
            ReplyView::Output(remote) => if trim(remote) != s.url {
                failed(
                    s,
                    GitErrorView::RemoteMismatch {
                        alias: s.alias,
                        path: s.checkout_path,
                        remote: trim(remote),
                    },
                )
            } else if s.allow_network {
                (
                    with_stage(s, FetchStage::Fetch),
                    StepView::Request(
                        RequestView::Run { cwd: s.checkout_path, args: fetch_tags_args() },
                    ),
                )
            } else {
                tag_phase(s)
            },
            ReplyView::Failed(m) => failed(s, GitErrorView::Command { message: m }),
            _ => failed(s, GitErrorView::Command { message: Seq::empty() }),
        },
        FetchStage::Fetch | FetchStage::Clone => match reply {
            ReplyView::Failed(m) => failed(s, GitErrorView::Command { message: m }),
            _ => tag_phase(s),
        },
        FetchStage::ListTags => match reply {
            ReplyView::Output(listing) => match first_nonblank_line(listing) {
                Some(t) => resolve_phase(s, t),
                None => failed(s, GitErrorView::NoTags { path: s.checkout_path }),
            },
            ReplyView::Failed(m) => failed(s, GitErrorView::Command { message: m }),
            _ => failed(s, GitErrorView::Command { message: Seq::empty() }),
        },
        FetchStage::ResolveRev => match reply {
            ReplyView::Output(rev) => {
                let s2 = FetchView { rev, ..s };
                if s.allow_network {
                    (
                        with_stage(s2, FetchStage::Checkout),
                        StepView::Request(
                            RequestView::Run { cwd: s.checkout_path, args: checkout_args(rev) },
                        ),
                    )
                } else {
                    (
                        with_stage(s2, FetchStage::Done),
                        StepView::Finished(Ok(finished_checkout(s2))),
                    )
                }
            },
            ReplyView::Failed(m) => failed(s, GitErrorView::Command { message: m }),
            _ => failed(s, GitErrorView::Command { message: Seq::empty() }),
        },
        FetchStage::Checkout => match reply {
            ReplyView::Failed(m) => failed(s, GitErrorView::Command { message: m }),
            _ => (with_stage(s, FetchStage::Done), StepView::Finished(Ok(finished_checkout(s)))),
        },
        FetchStage::Done => failed(s, GitErrorView::Command { message: Seq::empty() }),
    }
}

/// How far along a stage is.
pub open spec fn fetch_rank(stage: FetchStage) -> int {
    match stage {
        FetchStage::CreateDeps => 0,
        FetchStage::CheckExisting => 1,
        FetchStage::ReadRemote => 2,
        FetchStage::Clone => 3,
        FetchStage::Fetch => 3,
        FetchStage::ListTags => 4,
        FetchStage::ResolveRev => 5,
        FetchStage::Checkout => 6,
        FetchStage::Done => 7,
    }
}

/// The newest tag is listed only when no tag was requested, and once a
/// requested tag has been taken up, it is the one being resolved.
pub open spec fn fetch_consistent(s: FetchView) -> bool {
    &&& s.stage == FetchStage::ListTags ==> s.tag is None
    &&&     (s.stage == FetchStage::ResolveRev || s.stage == FetchStage::Checkout) ==> (s.tag matches Some(
        t
    ) ==> s.resolved_tag == t)
}

/// The answers that fit a request: a directory creation or a command run
/// succeeds or fails, an existence question gets a yes or no, a git query
/// gives its output or fails.
pub open spec fn answers(req: RequestView, reply: ReplyView) -> bool {
    match req {
        RequestView::CreateDirAll { .. } | RequestView::Run { .. } => reply is Done || reply is Failed,
        RequestView::Exists { .. } => reply is Exists,
        RequestView::Output { .. } => reply is Output || reply is Failed,
    }
}

/// Each request the procedure makes is answered by exactly the replies that
/// its next stage accepts, so a caller that answers the request it was given
/// always meets `step`'s requirement.
pub proof fn lemma_fetch_requests_fit(s: FetchView, reply: ReplyView)
    requires
        reply_fits(s.stage, reply),
    ensures
        fetch_transition(s, reply).1 matches StepView::Request(req) ==> forall|next: ReplyView|
            answers(req, next) <==> reply_fits(fetch_transition(s, reply).0.stage, next),
{
}

/// The first request of the procedure fits its first stage in the same way.
pub proof fn lemma_fetch_start_fits(s: FetchView, next: ReplyView)
    requires
        s.stage == FetchStage::CreateDeps,
    ensures
        answers(RequestView::CreateDirAll { path: s.deps_root }, next) <==> reply_fits(
            s.stage,
            next,
        ),
{
}

/// Without network access the procedure never asks to run a git command
/// (no clone, no fetch, no checkout); it only reads.
pub proof fn lemma_offline_never_runs_git(s: FetchView, reply: ReplyView)
    requires
        !s.allow_network,
        reply_fits(s.stage, reply),
    ensures
        !(fetch_transition(s, reply).1 matches StepView::Request(RequestView::Run { .. })),
{
}

/// Every answer either ends the procedure or moves it to a later stage, so it
/// ends after at most seven answers.
pub proof fn lemma_fetch_progress(s: FetchView, reply: ReplyView)
    requires
        reply_fits(s.stage, reply),
    ensures
        fetch_transition(s, reply).1 is Finished <==> fetch_transition(s, reply).0.stage
            == FetchStage::Done,
        fetch_transition(s, reply).1 is Request ==> fetch_rank(fetch_transition(s, reply).0.stage)
            > fetch_rank(s.stage),
{
}

/// No step changes which dependency is being fetched, from where, or where it goes.
pub proof fn lemma_fetch_keeps_identity(s: FetchView, reply: ReplyView)
    ensures
        ({
            let n = fetch_transition(s, reply).0;
            &&& n.style == s.style
            &&& n.project_root == s.project_root
            &&& n.alias == s.alias
            &&& n.url == s.url
            &&& n.tag == s.tag
            &&& n.allow_network == s.allow_network
            &&& n.deps_root == s.deps_root
            &&& n.checkout_path == s.checkout_path
        }),
{
}

/// A finished checkout sits at the dependency's checkout path, comes from its
/// normalized URL, and is at the requested tag when one was requested.
pub proof fn lemma_fetch_outcome(s: FetchView, reply: ReplyView)
    requires
        fetch_consistent(s),
        reply_fits(s.stage, reply),
    ensures
        fetch_consistent(fetch_transition(s, reply).0),
        fetch_transition(s, reply).1 matches StepView::Finished(Ok(c)) ==> {
            &&& c.path == s.checkout_path
            &&& c.url == s.url
            &&& (s.tag matches Some(t) ==> c.tag == t)
        },
{
}

fn args2(a: &str, b: &str) -> (r: Vec<String>)
    ensures
        strings_view(r@) == seq![a@, b@],
{
    let mut v: Vec<String> = Vec::new();
    v.push(a.to_string());
    v.push(b.to_string());
    assert(strings_view(v@) =~= seq![a@, b@]);
    v
}

fn args3(a: &str, b: &str, c: &str) -> (r: Vec<String>)
    ensures
        strings_view(r@) == seq![a@, b@, c@],
{
    let mut v: Vec<String> = Vec::new();
    v.push(a.to_string());
    v.push(b.to_string());
    v.push(c.to_string());
    assert(strings_view(v@) =~= seq![a@, b@, c@]);
    v
}

fn args4(a: &str, b: &str, c: &str, d: &str) -> (r: Vec<String>)
    ensures
        strings_view(r@) == seq![a@, b@, c@, d@],
{
    let mut v: Vec<String> = Vec::new();
    v.push(a.to_string());
    v.push(b.to_string());
    v.push(c.to_string());
    v.push(d.to_string());
    assert(strings_view(v@) =~= seq![a@, b@, c@, d@]);
    v
}

/// The request that reads the commit checked out in `path` (`git rev-parse HEAD`).
pub fn current_rev(path: &str) -> (r: GitRequest)
    ensures
        r@ == (RequestView::Output { cwd: path@, args: head_args() }),
{
    GitRequest::Output { cwd: path.to_string(), args: args2("rev-parse", "HEAD") }
}

/// The request that lists the tags of the repository at `path`, newest
/// version first (`git for-each-ref --sort=-v:refname`); `latest_tag` reads
/// its output.
pub fn list_tags(path: &str) -> (r: GitRequest)
    ensures
        r@ == (RequestView::Output { cwd: path@, args: list_tags_args() }),
{
    let args = args4("for-each-ref", "--sort=-v:refname", "--format=%(refname:strip=2)", "refs/tags");
    GitRequest::Output { cwd: path.to_string(), args }
}

/// The request that resolves `tag` to the commit it names
/// (`git rev-parse <tag>^{commit}`).
pub fn resolve_tag_to_rev(path: &str, tag: &str) -> (r: GitRequest)
    ensures
        r@ == (RequestView::Output { cwd: path@, args: rev_parse_args(tag@) }),
{
    let mut spec_arg = tag.to_string();
    spec_arg.push_str("^{commit}");
    GitRequest::Output { cwd: path.to_string(), args: args2("rev-parse", spec_arg.as_str()) }
}

/// Starts putting the checkout of dependency `alias` in place under the
/// project: the first request creates the directory that holds checkouts.
pub fn ensure_git_dependency(
    style: PathStyle,
    project_root: &str,
    alias: &str,
    url: &str,
    tag: Option<&str>,
    allow_network: bool,
) -> (r: (GitDependencyFetch, GitRequest))
    ensures
        r.0@ == (FetchView {
            style,
            project_root: project_root@,
            alias: alias@,
            url: git_url_spec(url@),
            tag: match tag {
                Some(t) => Some(t@),
                None => None,
            },
            allow_network,
            deps_root: join_spec(style, project_root@, ".agen/deps"@),
            checkout_path: join_spec(style, join_spec(style, project_root@, ".agen/deps"@), alias@),
            resolved_tag: Seq::empty(),
            rev: Seq::empty(),
            stage: FetchStage::CreateDeps,
        }),
        r.1@ == (RequestView::CreateDirAll { path: r.0@.deps_root }),
        fetch_consistent(r.0@),
{
    let normalized_url = normalize_git_url(url);
    let deps_root = join(style, project_root, DEPS_ROOT);
    let checkout_path = join(style, deps_root.as_str(), alias);
    let owned_tag = match tag {
        Some(t) => Some(t.to_string()),
        None => None,
    };
    let request = GitRequest::CreateDirAll { path: deps_root.clone() };
    let fetch = GitDependencyFetch {
        style,
        project_root: project_root.to_string(),
        alias: alias.to_string(),
        url: normalized_url,
        tag: owned_tag,
        allow_network,
        deps_root,
        checkout_path,
        resolved_tag: String::new(),
        rev: String::new(),
        stage: FetchStage::CreateDeps,
    };
    (fetch, request)
}

impl GitDependencyFetch {
    /// The URL that the dependency is fetched from.
    pub fn url(&self) -> (r: &str)
        ensures
            r@ == self@.url,
    {
        self.url.as_str()
    }

    /// Whether the procedure may use the network.
    pub fn allow_network(&self) -> (r: bool)
        ensures
            r == self@.allow_network,
    {
        self.allow_network
    }

    fn finish_err(&mut self, e: GitError) -> (r: FetchStep)
        ensures
            final(self)@ == with_stage(old(self)@, FetchStage::Done),
            r@ == StepView::Finished(Err(e@)),
    {
        self.stage = FetchStage::Done;
        FetchStep::Finished(Err(e))
    }

    fn finish_ok(&mut self) -> (r: FetchStep)
        ensures
            final(self)@ == with_stage(old(self)@, FetchStage::Done),
            r@ == StepView::Finished(Ok(finished_checkout(old(self)@))),
    {
        self.stage = FetchStage::Done;
        FetchStep::Finished(
            Ok(
                GitCheckout {
                    path: self.checkout_path.clone(),
                    url: self.url.clone(),
                    tag: self.resolved_tag.clone(),
                    rev: self.rev.clone(),
                },
            ),
        )
    }

    fn resolve(&mut self, tag: String) -> (r: FetchStep)
        ensures
            (final(self)@, r@) == resolve_phase(old(self)@, tag@),
    {
        let request = resolve_tag_to_rev(self.checkout_path.as_str(), tag.as_str());
        self.resolved_tag = tag;
        self.stage = FetchStage::ResolveRev;
        FetchStep::Request(request)
    }

    fn choose_tag(&mut self) -> (r: FetchStep)
        ensures
            (final(self)@, r@) == tag_phase(old(self)@),
    {
        match &self.tag {
            Some(t) => {
                let t = t.clone();
                self.resolve(t)
            },
            None => {
                self.stage = FetchStage::ListTags;
                FetchStep::Request(list_tags(self.checkout_path.as_str()))
            },
        }
    }

    /// Takes the answer to the pending request and returns the next request,
    /// or the outcome.
    pub fn step(&mut self, reply: GitReply) -> (r: FetchStep)
        requires
            reply_fits(old(self)@.stage, reply@),
        ensures
            (final(self)@, r@) == fetch_transition(old(self)@, reply@),
    {
        match self.stage {
            FetchStage::CreateDeps => match reply {
                GitReply::Failed(m) => {
                    let path = self.deps_root.clone();
                    self.finish_err(GitError::CreateDepsRoot { path, cause: m })
                },
                _ => {
                    self.stage = FetchStage::CheckExisting;
                    FetchStep::Request(GitRequest::Exists { path: self.checkout_path.clone() })
                },
            },
            FetchStage::CheckExisting => match reply {
                GitReply::Exists(true) => {
                    self.stage = FetchStage::ReadRemote;
                    FetchStep::Request(
                        GitRequest::Output {
                            cwd: self.checkout_path.clone(),
                            args: args3("remote", "get-url", "origin"),
                        },
                    )
                },
                _ => {
                    if !self.allow_network {
                        let alias = self.alias.clone();
                        let path = self.checkout_path.clone();
                        self.finish_err(GitError::MissingCheckout { alias, path })
                    } else {
                        self.stage = FetchStage::Clone;
                        FetchStep::Request(
                            GitRequest::Run {
                                cwd: self.project_root.clone(),
                                args: args3(
                                    "clone",
                                    self.url.as_str(),
                                    self.checkout_path.as_str(),
                                ),
                            },
                        )
                    }
                },
            },
            FetchStage::ReadRemote => match reply {
                GitReply::Output(remote) => {
                    let trimmed = string_of(&trim_chars(&chars_of(remote.as_str())));
                    if !(trimmed == self.url) {
                        let alias = self.alias.clone();
                        let path = self.checkout_path.clone();
                        self.finish_err(GitError::RemoteMismatch { alias, path, remote: trimmed })
                    } else if self.allow_network {
                        self.stage = FetchStage::Fetch;
                        FetchStep::Request(
                            GitRequest::Run {
                                cwd: self.checkout_path.clone(),
                                args: args3("fetch", "--tags", "origin"),
                            },
                        )
                    } else {
                        self.choose_tag()
                    }
                },
                GitReply::Failed(m) => self.finish_err(GitError::Command { message: m }),
                _ => self.finish_err(GitError::Command { message: String::new() }),
            },
            FetchStage::Fetch | FetchStage::Clone => match reply {
                GitReply::Failed(m) => self.finish_err(GitError::Command { message: m }),
                _ => self.choose_tag(),
            },
            FetchStage::ListTags => match reply {
                GitReply::Output(listing) => {
                    let path = self.checkout_path.clone();
                    match latest_tag(path.as_str(), listing.as_str()) {
                        Ok(t) => self.resolve(t),
                        Err(e) => self.finish_err(e),
                    }
                },
                GitReply::Failed(m) => self.finish_err(GitError::Command { message: m }),
                _ => self.finish_err(GitError::Command { message: String::new() }),
            },
            FetchStage::ResolveRev => match reply {
                GitReply::Output(rev) => {
                    if self.allow_network {
                        let request = GitRequest::Run {
                            cwd: self.checkout_path.clone(),
                            args: args3("checkout", "--detach", rev.as_str()),
                        };
                        self.rev = rev;
                        self.stage = FetchStage::Checkout;
                        FetchStep::Request(request)
                    } else {
                        self.rev = rev;
                        self.finish_ok()
                    }
                },
                GitReply::Failed(m) => self.finish_err(GitError::Command { message: m }),
                _ => self.finish_err(GitError::Command { message: String::new() }),
            },
            FetchStage::Checkout => match reply {
                GitReply::Failed(m) => self.finish_err(GitError::Command { message: m }),
                _ => self.finish_ok(),
            },
            FetchStage::Done => self.finish_err(GitError::Command { message: String::new() }),
        }
    }
}

/// How the manifest records a dependency: where it comes from and which tag it uses.
#[derive(Clone, Debug)]
pub struct DependencySpec {
    pub url: Option<String>,
    pub path: Option<String>,
    pub tag: Option<String>,
}

/// Starts adding the git dependency at `url` to the project at `project_root`:
/// the URL is normalized, the alias derived from it, and the checkout of the
/// dependency (with network access) begins.
pub fn add_dependency_in_dir(style: PathStyle, project_root: &str, url: &str, tag: Option<&str>) -> (r: Result<
    (String, GitDependencyFetch, GitRequest),
    GitError,
>)
    ensures
        match r {
            Ok((alias, fetch, request)) => {
                &&& alias_source(url@).len() > 0
                &&& alias@ == alias_spec(url@)
                &&& is_valid_alias(alias@)
                &&& fetch@ == (FetchView {
                    style,
                    project_root: project_root@,
                    alias: alias@,
                    url: git_url_spec(url@),
                    tag: match tag {
                        Some(t) => Some(t@),
                        None => None,
                    },
                    allow_network: true,
                    deps_root: join_spec(style, project_root@, ".agen/deps"@),
                    checkout_path: join_spec(style, join_spec(style, project_root@, ".agen/deps"@), alias@),
                    resolved_tag: Seq::empty(),
                    rev: Seq::empty(),
                    stage: FetchStage::CreateDeps,
                })
                &&& request@ == (RequestView::CreateDirAll { path: fetch@.deps_root })
            },
            Err(GitError::AliasUnavailable { url: u }) => u@ == git_url_spec(url@) && alias_source(
                url@,
            ).len() == 0,
            Err(GitError::AliasInvalid { url: u }) => u@ == git_url_spec(url@) && alias_source(
                url@,
            ).len() > 0 && alias_spec(url@).len() == 0,
            Err(_) => false,
        },
{
    let normalized_url = normalize_git_url(url);
    proof {
        lemma_git_url_idempotent(url@);
    }
    let alias = match normalize_alias_from_url(normalized_url.as_str()) {
        Ok(a) => a,
        Err(e) => {
            return Err(e);
        },
    };
    let (fetch, request) = ensure_git_dependency(
        style,
        project_root,
        alias.as_str(),
        normalized_url.as_str(),
        tag,
        true,
    );
    Ok((alias, fetch, request))
}

/// The manifest entry for a fetched dependency under `alias`, refused when the
/// project already has a dependency of that alias.
pub fn dependency_entry(
    existing_aliases: &Vec<String>,
    alias: &str,
    project_root: &str,
    checkout: &GitCheckout,
) -> (r: Result<DependencySpec, GitError>)
    ensures
        match r {
            Ok(spec) => !existing_aliases@.map_values(|a: String| a@).contains(alias@)
                && opt_text(spec.url) == Some(checkout.url@) && spec.path is None && opt_text(
                spec.tag,
            ) == Some(checkout.tag@),
            Err(e) => existing_aliases@.map_values(|a: String| a@).contains(alias@) && e@
                == (GitErrorView::AlreadyExists { alias: alias@, root: project_root@ }),
        },
{
    let wanted = alias.to_string();
    let mut i: usize = 0;
    while i < existing_aliases.len()
        invariant
            i <= existing_aliases.len(),
            wanted@ == alias@,
            forall|j: int| 0 <= j < i ==> existing_aliases@[j]@ != alias@,
        decreases existing_aliases.len() - i,
    {
        if existing_aliases[i] == wanted {
            assert(existing_aliases@.map_values(|a: String| a@)[i as int] == alias@);
            return Err(
                GitError::AlreadyExists { alias: wanted, root: project_root.to_string() },
            );
        }
        i = i + 1;
    }
    proof {
        let views = existing_aliases@.map_values(|a: String| a@);
        if views.contains(alias@) {
            let j = choose|j: int| 0 <= j < views.len() && views[j] == alias@;
            assert(existing_aliases@[j]@ == alias@);
        }
    }
    Ok(
        DependencySpec {
            url: Some(checkout.url.clone()),
            path: None,
            tag: Some(checkout.tag.clone()),
        },
    )
}

/// An existing checkout whose remote is the dependency's URL is brought up
/// to date before anything is read from it: with the network allowed, the
/// next request fetches its tags from `origin` in the checkout, so no tag
/// is listed or resolved before that fetch.
pub proof fn lemma_existing_checkout_is_fetched_first(s: FetchView, remote: Seq<char>)
    requires
        s.stage == FetchStage::ReadRemote,
        s.allow_network,
        trim(remote) == s.url,
    ensures
        fetch_transition(s, ReplyView::Output(remote)).1 == StepView::Request(
            RequestView::Run { cwd: s.checkout_path, args: seq!["fetch"@, "--tags"@, "origin"@] },
        ),
        fetch_transition(s, ReplyView::Output(remote)).0.stage == FetchStage::Fetch,
        fetch_transition(s, ReplyView::Output(remote)).0.checkout_path == s.checkout_path,
{
}

/// A URL is normalized either to itself, trimmed, or to the GitHub URL of
/// an `owner/repo` shorthand; a URL that names its source (`http://`,
/// `https://`, `git@`, `ssh://`, `/`, `./`, `../`) is used as it stands, and
/// the GitHub form is only ever made of text with exactly one `/` that has
/// something on both sides.
pub proof fn lemma_git_url_is_kept_or_expanded(url: Seq<char>)
    ensures
        git_url_spec(url) == trim(url) || git_url_spec(url) == "https://github.com/"@ + trim(url),
        ("http://"@.is_prefix_of(trim(url)) || "https://"@.is_prefix_of(trim(url))
            || "git@"@.is_prefix_of(trim(url)) || "ssh://"@.is_prefix_of(trim(url))
            || "/"@.is_prefix_of(trim(url)) || "./"@.is_prefix_of(trim(url))
            || "../"@.is_prefix_of(trim(url))) ==> git_url_spec(url) == trim(url),
        git_url_spec(url) != trim(url) ==> exists|k: int|
            0 < k < trim(url).len() - 1 && trim(url)[k] == '/' && (forall|j: int|
                0 <= j < trim(url).len() && j != k ==> trim(url)[j] != '/'),
{
}

/// Reading an existing checkout's remote: another remote than the
/// dependency's URL ends the procedure with that mismatch; offline, the
/// checkout is used as it is, with no fetch, and its tags are read at once.
/// Once tags were fetched, the requested tag is resolved, or without one the
/// tags are listed, newest version first.
pub proof fn lemma_existing_checkout_paths(s: FetchView, remote: Seq<char>, reply: ReplyView)
    ensures
        s.stage == FetchStage::ReadRemote && trim(remote) != s.url ==> fetch_transition(
            s,
            ReplyView::Output(remote),
        ).1 == StepView::Finished(
            Err::<CheckoutView, GitErrorView>(
                GitErrorView::RemoteMismatch {
                    alias: s.alias,
                    path: s.checkout_path,
                    remote: trim(remote),
                },
            ),
        ),
        s.stage == FetchStage::ReadRemote && trim(remote) == s.url && !s.allow_network && s.tag is None
            ==> fetch_transition(s, ReplyView::Output(remote)).1 == StepView::Request(
            RequestView::Output {
                cwd: s.checkout_path,
                args: seq![
                    "for-each-ref"@,
                    "--sort=-v:refname"@,
                    "--format=%(refname:strip=2)"@,
                    "refs/tags"@,
                ],
            },
        ),
        (s.stage == FetchStage::Fetch && !(reply is Failed)) ==> match s.tag {
            Some(t) => fetch_transition(s, reply).1 == StepView::Request(
                RequestView::Output {
                    cwd: s.checkout_path,
                    args: seq!["rev-parse"@, t + "^{commit}"@],
                },
            ),
            None => fetch_transition(s, reply).1 == StepView::Request(
                RequestView::Output {
                    cwd: s.checkout_path,
                    args: seq![
                        "for-each-ref"@,
                        "--sort=-v:refname"@,
                        "--format=%(refname:strip=2)"@,
                        "refs/tags"@,
                    ],
                },
            ),
        },
{
}

/// A shorthand `owner/repo` (no source prefix, exactly one `/` with text on
/// both sides) becomes its GitHub URL.
pub proof fn lemma_shorthand_is_expanded(url: Seq<char>, k: int)
    requires
        !("http://"@.is_prefix_of(trim(url)) || "https://"@.is_prefix_of(trim(url))
            || "git@"@.is_prefix_of(trim(url)) || "ssh://"@.is_prefix_of(trim(url))
            || "/"@.is_prefix_of(trim(url)) || "./"@.is_prefix_of(trim(url))
            || "../"@.is_prefix_of(trim(url))),
        0 < k < trim(url).len() - 1,
        trim(url)[k] == '/',
        forall|j: int| 0 <= j < trim(url).len() && j != k ==> trim(url)[j] != '/',
    ensures
        git_url_spec(url) == "https://github.com/"@ + trim(url),
{
}

/// The rest of the procedure: once the directory of checkouts exists, the
/// checkout's own path is looked for; an existing checkout has its `origin` remote
/// read; a missing one is cloned from the URL into its place from the
/// project root, or is an error offline. The newest listed tag is resolved
/// to its commit, which is checked out detached when the network is
/// allowed (offline, the checkout is used as it stands), and the procedure
/// ends with the checkout's path, URL, tag and commit.
pub proof fn lemma_fetch_flow(s: FetchView, reply: ReplyView, out: Seq<char>)
    ensures
        s.stage == FetchStage::CreateDeps && !(reply is Failed) ==> fetch_transition(s, reply).1
            == StepView::Request(RequestView::Exists { path: s.checkout_path }),
        s.stage == FetchStage::CheckExisting ==> fetch_transition(s, ReplyView::Exists(true)).1
            == StepView::Request(
            RequestView::Output {
                cwd: s.checkout_path,
                args: seq!["remote"@, "get-url"@, "origin"@],
            },
        ),
        s.stage == FetchStage::CheckExisting && s.allow_network ==> fetch_transition(
            s,
            ReplyView::Exists(false),
        ).1 == StepView::Request(
            RequestView::Run {
                cwd: s.project_root,
                args: seq!["clone"@, s.url, s.checkout_path],
            },
        ),
        s.stage == FetchStage::CheckExisting && !s.allow_network ==> fetch_transition(
            s,
            ReplyView::Exists(false),
        ).1 == StepView::Finished(
            Err::<CheckoutView, GitErrorView>(
                GitErrorView::MissingCheckout { alias: s.alias, path: s.checkout_path },
            ),
        ),
        s.stage == FetchStage::ListTags && first_nonblank_line(out) is Some ==> {
            let t = first_nonblank_line(out)->0;
            &&& fetch_transition(s, ReplyView::Output(out)).1 == StepView::Request(
                RequestView::Output {
                    cwd: s.checkout_path,
                    args: seq!["rev-parse"@, t + "^{commit}"@],
                },
            )
            &&& fetch_transition(s, ReplyView::Output(out)).0.resolved_tag == t
        },
        s.stage == FetchStage::ResolveRev && s.allow_network ==> fetch_transition(
            s,
            ReplyView::Output(out),
        ).1 == StepView::Request(
            RequestView::Run { cwd: s.checkout_path, args: seq!["checkout"@, "--detach"@, out] },
        ),
        s.stage == FetchStage::ResolveRev && !s.allow_network ==> fetch_transition(
            s,
            ReplyView::Output(out),
        ).1 == StepView::Finished(
            Ok::<CheckoutView, GitErrorView>(
                CheckoutView { path: s.checkout_path, url: s.url, tag: s.resolved_tag, rev: out },
            ),
        ),
        s.stage == FetchStage::Checkout && !(reply is Failed) ==> fetch_transition(s, reply).1
            == StepView::Finished(
            Ok::<CheckoutView, GitErrorView>(
                CheckoutView {
                    path: s.checkout_path,
                    url: s.url,
                    tag: s.resolved_tag,
                    rev: s.rev,
                },
            ),
        ),
{
}

} // verus!
