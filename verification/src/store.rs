//! The content-addressed store: package snapshots live under
//! `store/sha256/<digest>` and are built in a staging directory, then moved
//! into place, so that a snapshot directory is either complete or absent.

use vstd::prelude::*;
use crate::path::{join, join_spec, parent, parent_spec, relative_to, strip_prefix, PathStyle};
use crate::text::{chars_of, concat, concat3, has_prefix, one, slice_chars, string_of, texts, two};

verus! {

broadcast use vstd::string::group_string_axioms;

/// Where snapshots live, below the store root.
pub const STORE_ROOT: &'static str = "store/sha256";

/// A package that was put in the store: its digest and its snapshot.
#[derive(Clone, Debug)]
pub struct StoredPackage {
    pub digest: String,
    pub snapshot_root: String,
}

/// The errors of the store.
pub enum StoreError {
    /// The digest does not start with `sha256:`.
    UnsupportedDigest { digest: String },
    /// A package file is not below the package root.
    NotInPackage { file: String },
    /// File system work failed: what was being done, and the cause.
    Io { context: String, cause: String },
}

pub enum StoreErrorView {
    UnsupportedDigest { digest: Seq<char> },
    NotInPackage { file: Seq<char> },
    Io { context: Seq<char>, cause: Seq<char> },
}

impl View for StoreError {
    type V = StoreErrorView;

    open spec fn view(&self) -> StoreErrorView {
        match self {
            StoreError::UnsupportedDigest { digest } => StoreErrorView::UnsupportedDigest {
                digest: digest@,
            },
            StoreError::NotInPackage { file } => StoreErrorView::NotInPackage { file: file@ },
            StoreError::Io { context, cause } => StoreErrorView::Io {
                context: context@,
                cause: cause@,
            },
        }
    }
}

/// The messages of a store error, outermost first.
pub open spec fn store_error_chain(e: StoreErrorView) -> Seq<Seq<char>> {
    match e {
        StoreErrorView::UnsupportedDigest { digest } => seq![
            "unsupported digest format `"@ + digest + "`"@,
        ],
        StoreErrorView::NotInPackage { file } => seq![
            "failed to make "@ + file + " relative to package root"@,
            "prefix not found"@,
        ],
        StoreErrorView::Io { context, cause } => seq![context, cause],
    }
}

impl StoreError {
    /// The error's messages, outermost first, as an error report shows them.
    pub fn chain(&self) -> (r: Vec<String>)
        ensures
            texts(r@) == store_error_chain(self@),
    {
        match self {
            StoreError::UnsupportedDigest { digest } => one(
                concat3("unsupported digest format `", digest.as_str(), "`"),
            ),
            StoreError::NotInPackage { file } => two(
                concat3("failed to make ", file.as_str(), " relative to package root"),
                "prefix not found".to_string(),
            ),
            StoreError::Io { context, cause } => two(context.clone(), cause.clone()),
        }
    }
}

/// The directory name of a digest: the digest without its `sha256:` prefix.
pub open spec fn digest_name_spec(digest: Seq<char>) -> Option<Seq<char>> {
    if "sha256:"@.is_prefix_of(digest) {
        Some(digest.skip(7))
    } else {
        None
    }
}

/// The directory name of a `sha256:` digest.
pub fn digest_directory_name(digest: &str) -> (r: Result<String, StoreError>)
    ensures
        match r {
            Ok(name) => digest_name_spec(digest@) == Some(name@),
            Err(StoreError::UnsupportedDigest { digest: d }) => d@ == digest@ && digest_name_spec(
                digest@,
            ) is None,
            Err(_) => false,
        },
{
    let v = chars_of(digest);
    if has_prefix(&v, "sha256:") {
        proof {
            reveal_strlit("sha256:");
        }
        let rest = slice_chars(&v, 7, v.len());
        assert(v@.subrange(7, v.len() as int) =~= v@.skip(7));
        Ok(string_of(&rest))
    } else {
        Err(StoreError::UnsupportedDigest { digest: digest.to_string() })
    }
}

/// File system work that only the caller can do.
pub enum StoreRequest {
    Exists { path: String },
    IsFile { path: String },
    RemoveDirAll { path: String },
    CreateDirAll { path: String },
    Copy { from: String, to: String },
    Rename { from: String, to: String },
}

pub enum StoreRequestView {
    Exists { path: Seq<char> },
    IsFile { path: Seq<char> },
    RemoveDirAll { path: Seq<char> },
    CreateDirAll { path: Seq<char> },
    Copy { from: Seq<char>, to: Seq<char> },
    Rename { from: Seq<char>, to: Seq<char> },
}

impl View for StoreRequest {
    type V = StoreRequestView;

    open spec fn view(&self) -> StoreRequestView {
        match self {
            StoreRequest::Exists { path } => StoreRequestView::Exists { path: path@ },
            StoreRequest::IsFile { path } => StoreRequestView::IsFile { path: path@ },
            StoreRequest::RemoveDirAll { path } => StoreRequestView::RemoveDirAll { path: path@ },
            StoreRequest::CreateDirAll { path } => StoreRequestView::CreateDirAll { path: path@ },
            StoreRequest::Copy { from, to } => StoreRequestView::Copy { from: from@, to: to@ },
            StoreRequest::Rename { from, to } => StoreRequestView::Rename { from: from@, to: to@ },
        }
    }
}

/// The caller's answer to a `StoreRequest`.
pub enum StoreReply {
    /// The work was done.
    Done,
    /// The answer to a question (does the path exist, is it a file).
    Answer(bool),
    /// The work failed, with this message.
    Failed(String),
}

pub enum StoreReplyView {
    Done,
    Answer(bool),
    Failed(Seq<char>),
}

impl View for StoreReply {
    type V = StoreReplyView;

    open spec fn view(&self) -> StoreReplyView {
        match self {
            StoreReply::Done => StoreReplyView::Done,
            StoreReply::Answer(b) => StoreReplyView::Answer(*b),
            StoreReply::Failed(m) => StoreReplyView::Failed(m@),
        }
    }
}

/// What a step of building a snapshot asks for next, or how it ended (with
/// the snapshot's directory).
pub enum SnapshotStep {
    Request(StoreRequest),
    Finished(Result<String, StoreError>),
}

pub enum SnapshotStepView {
    Request(StoreRequestView),
    Finished(Result<Seq<char>, StoreErrorView>),
}

impl View for SnapshotStep {
    type V = SnapshotStepView;

    open spec fn view(&self) -> SnapshotStepView {
        match self {
            SnapshotStep::Request(r) => SnapshotStepView::Request(r@),
            SnapshotStep::Finished(Ok(d)) => SnapshotStepView::Finished(Ok(d@)),
            SnapshotStep::Finished(Err(e)) => SnapshotStepView::Finished(Err(e@)),
        }
    }
}

#[derive(Clone, Copy, PartialEq, Eq, Structural)]
pub enum SnapshotStage {
    CheckDigestDir,
    CheckFiles,
    RemoveIncomplete,
    Recheck,
    CheckStaging,
    RemoveStaging,
    CreateStaging,
    CreateParent,
    CopyFile,
    CreateStoreParent,
    Rename,
    CheckAfterRename,
    RemoveRedundant,
    Done,
}

/// Building the snapshot of one package, one request at a time.
pub struct SnapshotPackage {
    style: PathStyle,
    store_root: String,
    package_root: String,
    files: Vec<String>,
    digest_dir: String,
    staging_root: String,
    index: usize,
    target: String,
    target_parent: String,
    rename_error: String,
    stage: SnapshotStage,
}

pub struct SnapshotView {
    pub style: PathStyle,
    pub store_root: Seq<char>,
    pub package_root: Seq<char>,
    pub files: Seq<Seq<char>>,
    pub digest_dir: Seq<char>,
    pub staging_root: Seq<char>,
    pub index: nat,
    pub target: Seq<char>,
    pub target_parent: Seq<char>,
    pub rename_error: Seq<char>,
    pub stage: SnapshotStage,
}

impl View for SnapshotPackage {
    type V = SnapshotView;

    closed spec fn view(&self) -> SnapshotView {
        SnapshotView {
            style: self.style,
            store_root: self.store_root@,
            package_root: self.package_root@,
            files: self.files@.map_values(|f: String| f@),
            digest_dir: self.digest_dir@,
            staging_root: self.staging_root@,
            index: self.index as nat,
            target: self.target@,
            target_parent: self.target_parent@,
            rename_error: self.rename_error@,
            stage: self.stage,
        }
    }
}

/// The name of the staging directory of a digest: `.tmp-` and the digest's
/// name with every `/` turned into `_`.
pub open spec fn staging_name(name: Seq<char>) -> Seq<char> {
    ".tmp-"@ + name.map_values(|c: char| if c == '/' { '_' } else { c })
}

pub open spec fn snap_fail(s: SnapshotView, e: StoreErrorView) -> (SnapshotView, SnapshotStepView) {
    (SnapshotView { stage: SnapshotStage::Done, ..s }, SnapshotStepView::Finished(Err(e)))
}

pub open spec fn snap_done(s: SnapshotView) -> (SnapshotView, SnapshotStepView) {
    (SnapshotView { stage: SnapshotStage::Done, ..s }, SnapshotStepView::Finished(Ok(s.digest_dir)))
}

pub open spec fn io_error(context: Seq<char>, cause: Seq<char>) -> StoreErrorView {
    StoreErrorView::Io { context, cause }
}

pub open spec fn not_relative(file: Seq<char>) -> StoreErrorView {
    StoreErrorView::NotInPackage { file }
}

/// Checking that file `i` (and the ones after it) are in the existing snapshot.
pub open spec fn check_file_phase(s: SnapshotView, i: nat) -> (SnapshotView, SnapshotStepView) {
    if i >= s.files.len() {
        snap_done(s)
    } else {
        match relative_to(s.style, s.files[i as int], s.package_root) {
            None => snap_fail(s, not_relative(s.files[i as int])),
            Some(rel) => (
                SnapshotView { stage: SnapshotStage::CheckFiles, index: i, ..s },
                SnapshotStepView::Request(
                    StoreRequestView::IsFile { path: join_spec(s.style, s.digest_dir, rel) },
                ),
            ),
        }
    }
}

/// Moving the staged snapshot into place, after creating its parent directory.
pub open spec fn promote_phase(s: SnapshotView) -> (SnapshotView, SnapshotStepView) {
    match parent_spec(s.style, s.digest_dir) {
        Some(p) => (
            SnapshotView { stage: SnapshotStage::CreateStoreParent, target_parent: p, ..s },
            SnapshotStepView::Request(StoreRequestView::CreateDirAll { path: p }),
        ),
        None => (
            SnapshotView { stage: SnapshotStage::Rename, ..s },
            SnapshotStepView::Request(
                StoreRequestView::Rename { from: s.staging_root, to: s.digest_dir },
            ),
        ),
    }
}

/// Copying file `i` (and the ones after it) into the staging directory.
pub open spec fn copy_phase(s: SnapshotView, i: nat) -> (SnapshotView, SnapshotStepView) {
    if i >= s.files.len() {
        promote_phase(SnapshotView { index: i, ..s })
    } else {
        match relative_to(s.style, s.files[i as int], s.package_root) {
            None => snap_fail(s, not_relative(s.files[i as int])),
            Some(rel) => {
                let target = join_spec(s.style, s.staging_root, rel);
                match parent_spec(s.style, target) {
                    Some(p) => (
                        SnapshotView {
                            stage: SnapshotStage::CreateParent,
                            index: i,
                            target,
                            target_parent: p,
                            ..s
                        },
                        SnapshotStepView::Request(StoreRequestView::CreateDirAll { path: p }),
                    ),
                    None => (
                        SnapshotView { stage: SnapshotStage::CopyFile, index: i, target, ..s },
                        SnapshotStepView::Request(
                            StoreRequestView::Copy { from: s.files[i as int], to: target },
                        ),
                    ),
                }
            },
        }
    }
}

pub open spec fn snapshot_reply_fits(stage: SnapshotStage, reply: StoreReplyView) -> bool {
    match stage {
        SnapshotStage::CheckDigestDir | SnapshotStage::CheckFiles | SnapshotStage::Recheck
        | SnapshotStage::CheckStaging | SnapshotStage::CheckAfterRename => reply is Answer,
        SnapshotStage::Done => false,
        _ => reply is Done || reply is Failed,
    }
}

/// One step of building a snapshot.
pub open spec fn snapshot_transition(s: SnapshotView, reply: StoreReplyView) -> (
    SnapshotView,
    SnapshotStepView,
) {
    match s.stage {
        SnapshotStage::CheckDigestDir => match reply {
            StoreReplyView::Answer(true) => check_file_phase(s, 0),
            _ => (
                SnapshotView { stage: SnapshotStage::Recheck, ..s },
                SnapshotStepView::Request(StoreRequestView::Exists { path: s.digest_dir }),
            ),
        },
        SnapshotStage::CheckFiles => match reply {
            StoreReplyView::Answer(true) => check_file_phase(s, s.index + 1),
            _ => (
                SnapshotView { stage: SnapshotStage::RemoveIncomplete, ..s },
                SnapshotStepView::Request(StoreRequestView::RemoveDirAll { path: s.digest_dir }),
            ),
        },
        SnapshotStage::RemoveIncomplete => match reply {
            StoreReplyView::Failed(m) => snap_fail(
                s,
                io_error("failed to remove incomplete snapshot "@ + s.digest_dir, m),
            ),
            _ => (
                SnapshotView { stage: SnapshotStage::Recheck, ..s },
                SnapshotStepView::Request(StoreRequestView::Exists { path: s.digest_dir }),
            ),
        },
        SnapshotStage::Recheck => match reply {
            StoreReplyView::Answer(true) => snap_done(s),
            _ => (
                SnapshotView { stage: SnapshotStage::CheckStaging, ..s },
                SnapshotStepView::Request(StoreRequestView::Exists { path: s.staging_root }),
            ),
        },
        SnapshotStage::CheckStaging => match reply {
            StoreReplyView::Answer(true) => (
                SnapshotView { stage: SnapshotStage::RemoveStaging, ..s },
                SnapshotStepView::Request(StoreRequestView::RemoveDirAll { path: s.staging_root }),
            ),
            _ => (
                SnapshotView { stage: SnapshotStage::CreateStaging, ..s },
                SnapshotStepView::Request(StoreRequestView::CreateDirAll { path: s.staging_root }),
            ),
        },
        SnapshotStage::RemoveStaging => match reply {
            StoreReplyView::Failed(m) => snap_fail(
                s,
                io_error("failed to clean stale staging dir "@ + s.staging_root, m),
            ),
            _ => (
                SnapshotView { stage: SnapshotStage::CreateStaging, ..s },
                SnapshotStepView::Request(StoreRequestView::CreateDirAll { path: s.staging_root }),
            ),
        },
        SnapshotStage::CreateStaging => match reply {
            StoreReplyView::Failed(m) => snap_fail(
                s,
                io_error("failed to create staging dir "@ + s.staging_root, m),
            ),
            _ => copy_phase(s, 0),
        },
        SnapshotStage::CreateParent => match reply {
            StoreReplyView::Failed(m) => snap_fail(
                s,
                io_error("failed to create snapshot directory "@ + s.target_parent, m),
            ),
            _ => (
                SnapshotView { stage: SnapshotStage::CopyFile, ..s },
                SnapshotStepView::Request(
                    StoreRequestView::Copy { from: s.files[s.index as int], to: s.target },
                ),
            ),
        },
        SnapshotStage::CopyFile => match reply {
            StoreReplyView::Failed(m) => snap_fail(
                s,
                io_error(
                    "failed to copy "@ + s.files[s.index as int] + " into snapshot "@ + s.target,
                    m,
                ),
            ),
            _ => copy_phase(s, s.index + 1),
        },
        SnapshotStage::CreateStoreParent => match reply {
            StoreReplyView::Failed(m) => snap_fail(
                s,
                io_error("failed to create store parent "@ + s.target_parent, m),
            ),
            _ => (
                SnapshotView { stage: SnapshotStage::Rename, ..s },
                SnapshotStepView::Request(
                    StoreRequestView::Rename { from: s.staging_root, to: s.digest_dir },
                ),
            ),
        },
        SnapshotStage::Rename => match reply {
            StoreReplyView::Failed(m) => (
                SnapshotView { stage: SnapshotStage::CheckAfterRename, rename_error: m, ..s },
                SnapshotStepView::Request(StoreRequestView::Exists { path: s.digest_dir }),
            ),
            _ => snap_done(s),
        },
        SnapshotStage::CheckAfterRename => match reply {
            StoreReplyView::Answer(true) => (
                SnapshotView { stage: SnapshotStage::RemoveRedundant, ..s },
                SnapshotStepView::Request(StoreRequestView::RemoveDirAll { path: s.staging_root }),
            ),
            _ => snap_fail(
                s,
                io_error(
                    "failed to promote snapshot "@ + s.staging_root + " into "@ + s.digest_dir,
                    s.rename_error,
                ),
            ),
        },
        SnapshotStage::RemoveRedundant => match reply {
            StoreReplyView::Failed(m) => snap_fail(
                s,
                io_error(
                    "failed to remove redundant staging dir "@ + s.staging_root + " after "@
                        + s.rename_error,
                    m,
                ),
            ),
            _ => snap_done(s),
        },
        SnapshotStage::Done => snap_fail(s, io_error(Seq::empty(), Seq::empty())),
    }
}

/// Building a snapshot removes nothing but the package's snapshot directory
/// and its staging directory, and a successful build always ends with the
/// package's snapshot directory.
pub proof fn lemma_snapshot_touches_only_its_dirs(s: SnapshotView, reply: StoreReplyView)
    ensures
        ({
            let out = snapshot_transition(s, reply).1;
            &&& out matches SnapshotStepView::Request(StoreRequestView::RemoveDirAll { path }) ==> (
            path == s.digest_dir || path == s.staging_root)
            &&& out matches SnapshotStepView::Request(StoreRequestView::Rename { from, to }) ==> (
            from == s.staging_root && to == s.digest_dir)
            &&& out matches SnapshotStepView::Finished(Ok(d)) ==> d == s.digest_dir
        }),
{
}

/// Files are copied only into the staging directory, never into the snapshot
/// directory itself, so a snapshot directory is never half written.
pub proof fn lemma_copies_go_to_staging(s: SnapshotView, reply: StoreReplyView)
    requires
        snapshot_wf(s),
        s.stage == SnapshotStage::CreateParent ==> (exists|rel: Seq<char>|
            s.target == join_spec(s.style, s.staging_root, rel)),
    ensures
        snapshot_transition(s, reply).1 matches SnapshotStepView::Request(
            StoreRequestView::Copy { from, to },
        ) ==> exists|rel: Seq<char>| to == join_spec(s.style, s.staging_root, rel),
{
    let out = snapshot_transition(s, reply).1;
    if let SnapshotStepView::Request(StoreRequestView::Copy { from, to }) = out {
        if s.stage == SnapshotStage::CreateStaging || s.stage == SnapshotStage::CopyFile {
            let i: nat = if s.stage == SnapshotStage::CreateStaging {
                0
            } else {
                s.index + 1
            };
            let rel = relative_to(s.style, s.files[i as int], s.package_root)->0;
            assert(to == join_spec(s.style, s.staging_root, rel));
        }
    }
}

/// The answers that fit a request: a question gets a yes or no, any other
/// work is done or fails.
pub open spec fn store_answers(req: StoreRequestView, reply: StoreReplyView) -> bool {
    match req {
        StoreRequestView::Exists { .. } | StoreRequestView::IsFile { .. } => reply is Answer,
        _ => reply is Done || reply is Failed,
    }
}

/// Each request is answered by exactly the replies that the next stage
/// accepts, so a caller that answers the request it was given always meets
/// `step`'s requirement (the first request, `Exists`, fits the first stage too).
pub proof fn lemma_snapshot_requests_fit(s: SnapshotView, reply: StoreReplyView)
    requires
        snapshot_reply_fits(s.stage, reply),
    ensures
        snapshot_transition(s, reply).1 matches SnapshotStepView::Request(req) ==> forall|
            next: StoreReplyView,
        |
            store_answers(req, next) <==> snapshot_reply_fits(
                snapshot_transition(s, reply).0.stage,
                next,
            ),
        forall|next: StoreReplyView|
            store_answers(StoreRequestView::Exists { path: s.digest_dir }, next)
                <==> snapshot_reply_fits(SnapshotStage::CheckDigestDir, next),
{
}

/// The order of the stages; the per-file stages also advance by file.
pub open spec fn snapshot_group(stage: SnapshotStage) -> int {
    match stage {
        SnapshotStage::CheckDigestDir => 0,
        SnapshotStage::CheckFiles => 1,
        SnapshotStage::RemoveIncomplete => 2,
        SnapshotStage::Recheck => 3,
        SnapshotStage::CheckStaging => 4,
        SnapshotStage::RemoveStaging => 5,
        SnapshotStage::CreateStaging => 6,
        SnapshotStage::CreateParent => 7,
        SnapshotStage::CopyFile => 7,
        SnapshotStage::CreateStoreParent => 8,
        SnapshotStage::Rename => 9,
        SnapshotStage::CheckAfterRename => 10,
        SnapshotStage::RemoveRedundant => 11,
        SnapshotStage::Done => 12,
    }
}

/// `b` comes after `a` in the procedure.
pub open spec fn snapshot_later(a: SnapshotView, b: SnapshotView) -> bool {
    ||| snapshot_group(a.stage) < snapshot_group(b.stage)
    ||| (snapshot_group(a.stage) == snapshot_group(b.stage) && a.index < b.index)
    ||| (a.stage == SnapshotStage::CreateParent && b.stage == SnapshotStage::CopyFile && a.index
        == b.index)
}

/// Every answer moves the procedure forward (to a later stage, or to a later
/// file), or ends it; so building a snapshot always ends.
pub proof fn lemma_snapshot_progress(s: SnapshotView, reply: StoreReplyView)
    requires
        snapshot_reply_fits(s.stage, reply),
    ensures
        snapshot_transition(s, reply).1 is Finished <==> snapshot_transition(s, reply).0.stage
            == SnapshotStage::Done,
        snapshot_transition(s, reply).1 is Request ==> snapshot_later(
            s,
            snapshot_transition(s, reply).0,
        ),
{
}

/// An existing snapshot that holds every file of the package is reused: after
/// the last file is found, the procedure ends with the snapshot directory,
/// and until then it only asks whether files are there.
pub proof fn lemma_complete_snapshot_is_reused(s: SnapshotView)
    requires
        s.stage == SnapshotStage::CheckFiles,
        s.index < s.files.len(),
    ensures
        s.index + 1 == s.files.len() ==> snapshot_transition(s, StoreReplyView::Answer(true)).1
            == SnapshotStepView::Finished(Ok::<Seq<char>, StoreErrorView>(s.digest_dir)),
        s.index + 1 < s.files.len() ==> (snapshot_transition(
            s,
            StoreReplyView::Answer(true),
        ).1 matches SnapshotStepView::Request(req) ==> req is IsFile),
{
}

/// When a file of the package is missing from an existing snapshot, the
/// snapshot directory is removed, and once it is gone the snapshot is rebuilt
/// (from the check that it is absent on).
pub proof fn lemma_incomplete_snapshot_is_rebuilt(s: SnapshotView)
    requires
        s.stage == SnapshotStage::CheckFiles,
    ensures
        snapshot_transition(s, StoreReplyView::Answer(false)) == (
            SnapshotView { stage: SnapshotStage::RemoveIncomplete, ..s },
            SnapshotStepView::Request(StoreRequestView::RemoveDirAll { path: s.digest_dir }),
        ),
        snapshot_transition(
            SnapshotView { stage: SnapshotStage::RemoveIncomplete, ..s },
            StoreReplyView::Done,
        ).1 == SnapshotStepView::Request(StoreRequestView::Exists { path: s.digest_dir }),
{
}

/// The stages that look at one file point at an existing file.
pub open spec fn snapshot_wf(s: SnapshotView) -> bool {
    (s.stage == SnapshotStage::CheckFiles || s.stage == SnapshotStage::CreateParent || s.stage
        == SnapshotStage::CopyFile) ==> s.index < s.files.len()
}

fn staging_dir_name(name: &str) -> (r: String)
    ensures
        r@ == staging_name(name@),
{
    let v = chars_of(name);
    let mut out: Vec<char> = Vec::new();
    let mut i: usize = 0;
    while i < v.len()
        invariant
            i <= v.len(),
            out@ == v@.take(i as int).map_values(|c: char| if c == '/' { '_' } else { c }),
        decreases v.len() - i,
    {
        let c = v[i];
        out.push(if c == '/' { '_' } else { c });
        assert(v@.take(i + 1).map_values(|c: char| if c == '/' { '_' } else { c }) =~= v@.take(
            i as int,
        ).map_values(|c: char| if c == '/' { '_' } else { c }).push(if c == '/' { '_' } else { c }));
        i = i + 1;
    }
    assert(v@.take(v.len() as int) =~= v@);
    let mut r = ".tmp-".to_string();
    r.push_str(string_of(&out).as_str());
    r
}

/// Starts building the snapshot of the package with `digest`, whose files
/// (below `package_root`) are `files`, in the store at `store_root`: the first
/// request asks whether the snapshot directory already exists.
pub fn snapshot_package(style: PathStyle, store_root: &str, digest: &str, package_root: &str, files: Vec<String>) -> (r:
    Result<(SnapshotPackage, StoreRequest), StoreError>)
    ensures
        match r {
            Ok((m, req)) => digest_name_spec(digest@) matches Some(name) && m@ == (SnapshotView {
                style,
                store_root: store_root@,
                package_root: package_root@,
                files: files@.map_values(|f: String| f@),
                digest_dir: join_spec(style, store_root@, name),
                staging_root: join_spec(style, store_root@, staging_name(name)),
                index: 0,
                target: Seq::empty(),
                target_parent: Seq::empty(),
                rename_error: Seq::empty(),
                stage: SnapshotStage::CheckDigestDir,
            }) && req@ == (StoreRequestView::Exists { path: m@.digest_dir }),
            Err(e) => e@ == (StoreErrorView::UnsupportedDigest { digest: digest@ })
                && digest_name_spec(digest@) is None,
        },
{
    let name = match digest_directory_name(digest) {
        Ok(n) => n,
        Err(e) => {
            return Err(e);
        },
    };
    let digest_dir = join(style, store_root, name.as_str());
    let staging_root = join(style, store_root, staging_dir_name(name.as_str()).as_str());
    let request = StoreRequest::Exists { path: digest_dir.clone() };
    let m = SnapshotPackage {
        style,
        store_root: store_root.to_string(),
        package_root: package_root.to_string(),
        files,
        digest_dir,
        staging_root,
        index: 0,
        target: String::new(),
        target_parent: String::new(),
        rename_error: String::new(),
        stage: SnapshotStage::CheckDigestDir,
    };
    Ok((m, request))
}

impl SnapshotPackage {
    fn fail(&mut self, e: StoreError) -> (r: SnapshotStep)
        ensures
            (final(self)@, r@) == snap_fail(old(self)@, e@),
    {
        self.stage = SnapshotStage::Done;
        SnapshotStep::Finished(Err(e))
    }

    fn done(&mut self) -> (r: SnapshotStep)
        ensures
            (final(self)@, r@) == snap_done(old(self)@),
    {
        self.stage = SnapshotStage::Done;
        SnapshotStep::Finished(Ok(self.digest_dir.clone()))
    }

    fn io_fail(&mut self, context: String, cause: String) -> (r: SnapshotStep)
        ensures
            (final(self)@, r@) == snap_fail(old(self)@, io_error(context@, cause@)),
    {
        self.fail(StoreError::Io { context, cause })
    }

    fn request(&mut self, stage: SnapshotStage, req: StoreRequest) -> (r: SnapshotStep)
        ensures
            final(self)@ == (SnapshotView { stage, ..old(self)@ }),
            r@ == SnapshotStepView::Request(req@),
    {
        self.stage = stage;
        SnapshotStep::Request(req)
    }

    fn check_file_phase(&mut self, i: usize) -> (r: SnapshotStep)
        requires
            i <= old(self).files.len(),
        ensures
            (final(self)@, r@) == check_file_phase(old(self)@, i as nat),
    {
        if i >= self.files.len() {
            return self.done();
        }
        match strip_prefix(self.style, self.files[i].as_str(), self.package_root.as_str()) {
            None => {
                let f = self.files[i].clone();
                self.fail(StoreError::NotInPackage { file: f })
            },
            Some(rel) => {
                self.index = i;
                let path = join(self.style, self.digest_dir.as_str(), rel.as_str());
                self.request(SnapshotStage::CheckFiles, StoreRequest::IsFile { path })
            },
        }
    }

    fn promote_phase(&mut self) -> (r: SnapshotStep)
        ensures
            (final(self)@, r@) == promote_phase(old(self)@),
    {
        match parent(self.style, self.digest_dir.as_str()) {
            Some(p) => {
                self.target_parent = p.clone();
                self.request(SnapshotStage::CreateStoreParent, StoreRequest::CreateDirAll { path: p })
            },
            None => {
                let req = StoreRequest::Rename {
                    from: self.staging_root.clone(),
                    to: self.digest_dir.clone(),
                };
                self.request(SnapshotStage::Rename, req)
            },
        }
    }

    fn copy_phase(&mut self, i: usize) -> (r: SnapshotStep)
        requires
            i <= old(self).files.len(),
        ensures
            (final(self)@, r@) == copy_phase(old(self)@, i as nat),
    {
        if i >= self.files.len() {
            self.index = i;
            return self.promote_phase();
        }
        match strip_prefix(self.style, self.files[i].as_str(), self.package_root.as_str()) {
            None => {
                let f = self.files[i].clone();
                self.fail(StoreError::NotInPackage { file: f })
            },
            Some(rel) => {
                let target = join(self.style, self.staging_root.as_str(), rel.as_str());
                self.index = i;
                match parent(self.style, target.as_str()) {
                    Some(p) => {
                        self.target = target;
                        self.target_parent = p.clone();
                        self.request(SnapshotStage::CreateParent, StoreRequest::CreateDirAll { path: p })
                    },
                    None => {
                        self.target = target.clone();
                        let from = self.files[i].clone();
                        self.request(SnapshotStage::CopyFile, StoreRequest::Copy { from, to: target })
                    },
                }
            },
        }
    }

    /// Takes the answer to the pending request and returns the next request,
    /// or the snapshot's directory once it is in place.
    pub fn step(&mut self, reply: StoreReply) -> (r: SnapshotStep)
        requires
            snapshot_wf(old(self)@),
            snapshot_reply_fits(old(self)@.stage, reply@),
        ensures
            snapshot_wf(final(self)@),
            final(self)@.files == old(self)@.files,
            (final(self)@, r@) == snapshot_transition(old(self)@, reply@),
    {
        assert(self@.files.len() == self.files@.len());
        match self.stage {
            SnapshotStage::CheckDigestDir => match reply {
                StoreReply::Answer(true) => self.check_file_phase(0),
                _ => {
                    let path = self.digest_dir.clone();
                    self.request(SnapshotStage::Recheck, StoreRequest::Exists { path })
                },
            },
            SnapshotStage::CheckFiles => match reply {
                StoreReply::Answer(true) => {
                    assert(self@.stage == SnapshotStage::CheckFiles);
                    assert(self.index < self.files.len());
                    self.check_file_phase(self.index + 1)
                },
                _ => {
                    let path = self.digest_dir.clone();
                    self.request(SnapshotStage::RemoveIncomplete, StoreRequest::RemoveDirAll { path })
                },
            },
            SnapshotStage::RemoveIncomplete => match reply {
                StoreReply::Failed(m) => {
                    let c = concat("failed to remove incomplete snapshot ", self.digest_dir.as_str());
                    self.io_fail(c, m)
                },
                _ => {
                    let path = self.digest_dir.clone();
                    self.request(SnapshotStage::Recheck, StoreRequest::Exists { path })
                },
            },
            SnapshotStage::Recheck => match reply {
                StoreReply::Answer(true) => self.done(),
                _ => {
                    let path = self.staging_root.clone();
                    self.request(SnapshotStage::CheckStaging, StoreRequest::Exists { path })
                },
            },
            SnapshotStage::CheckStaging => match reply {
                StoreReply::Answer(true) => {
                    let path = self.staging_root.clone();
                    self.request(SnapshotStage::RemoveStaging, StoreRequest::RemoveDirAll { path })
                },
                _ => {
                    let path = self.staging_root.clone();
                    self.request(SnapshotStage::CreateStaging, StoreRequest::CreateDirAll { path })
                },
            },
            SnapshotStage::RemoveStaging => match reply {
                StoreReply::Failed(m) => {
                    let c = concat("failed to clean stale staging dir ", self.staging_root.as_str());
                    self.io_fail(c, m)
                },
                _ => {
                    let path = self.staging_root.clone();
                    self.request(SnapshotStage::CreateStaging, StoreRequest::CreateDirAll { path })
                },
            },
            SnapshotStage::CreateStaging => match reply {
                StoreReply::Failed(m) => {
                    let c = concat("failed to create staging dir ", self.staging_root.as_str());
                    self.io_fail(c, m)
                },
                _ => self.copy_phase(0),
            },
            SnapshotStage::CreateParent => match reply {
                StoreReply::Failed(m) => {
                    let c = concat("failed to create snapshot directory ", self.target_parent.as_str());
                    self.io_fail(c, m)
                },
                _ => {
                    let from = self.files[self.index].clone();
                    let to = self.target.clone();
                    self.request(SnapshotStage::CopyFile, StoreRequest::Copy { from, to })
                },
            },
            SnapshotStage::CopyFile => match reply {
                StoreReply::Failed(m) => {
                    let mut c = concat("failed to copy ", self.files[self.index].as_str());
                    c.push_str(" into snapshot ");
                    c.push_str(self.target.as_str());
                    self.io_fail(c, m)
                },
                _ => {
                    assert(self@.stage == SnapshotStage::CopyFile);
                    assert(self.index < self.files.len());
                    self.copy_phase(self.index + 1)
                },
            },
            SnapshotStage::CreateStoreParent => match reply {
                StoreReply::Failed(m) => {
                    let c = concat("failed to create store parent ", self.target_parent.as_str());
                    self.io_fail(c, m)
                },
                _ => {
                    let req = StoreRequest::Rename {
                        from: self.staging_root.clone(),
                        to: self.digest_dir.clone(),
                    };
                    self.request(SnapshotStage::Rename, req)
                },
            },
            SnapshotStage::Rename => match reply {
                StoreReply::Failed(m) => {
                    self.rename_error = m;
                    let path = self.digest_dir.clone();
                    self.request(SnapshotStage::CheckAfterRename, StoreRequest::Exists { path })
                },
                _ => self.done(),
            },
            SnapshotStage::CheckAfterRename => match reply {
                StoreReply::Answer(true) => {
                    let path = self.staging_root.clone();
                    self.request(SnapshotStage::RemoveRedundant, StoreRequest::RemoveDirAll { path })
                },
                _ => {
                    let mut c = concat("failed to promote snapshot ", self.staging_root.as_str());
                    c.push_str(" into ");
                    c.push_str(self.digest_dir.as_str());
                    let cause = self.rename_error.clone();
                    self.io_fail(c, cause)
                },
            },
            SnapshotStage::RemoveRedundant => match reply {
                StoreReply::Failed(m) => {
                    let mut c = concat(
                        "failed to remove redundant staging dir ",
                        self.staging_root.as_str(),
                    );
                    c.push_str(" after ");
                    c.push_str(self.rename_error.as_str());
                    self.io_fail(c, m)
                },
                _ => self.done(),
            },
            SnapshotStage::Done => self.io_fail(String::new(), String::new()),
        }
    }
}

/// The stages that copy a file hold that file's index and its place in the
/// staging directory.
pub open spec fn copy_target_wf(s: SnapshotView) -> bool {
    (s.stage == SnapshotStage::CreateParent || s.stage == SnapshotStage::CopyFile) ==> {
        &&& s.index < s.files.len()
        &&& relative_to(s.style, s.files[s.index as int], s.package_root) matches Some(rel)
            && s.target == join_spec(s.style, s.staging_root, rel)
    }
}

/// Each copy takes a file of the package to its own place in the staging
/// directory: the source of every `Copy` request is a package file, and its
/// target is the staging directory joined with that same file's path
/// relative to the package root. Every step keeps what the copying stages
/// hold (which a new build, at its first stage, holds trivially).
pub proof fn lemma_each_file_is_copied_to_its_own_place(s: SnapshotView, reply: StoreReplyView)
    requires
        snapshot_wf(s),
        copy_target_wf(s),
    ensures
        copy_target_wf(snapshot_transition(s, reply).0),
        snapshot_transition(s, reply).0.files == s.files,
        snapshot_transition(s, reply).1 matches SnapshotStepView::Request(
            StoreRequestView::Copy { from, to },
        ) ==> {
            let i = snapshot_transition(s, reply).0.index;
            &&& i < s.files.len()
            &&& from == s.files[i as int]
            &&& relative_to(s.style, s.files[i as int], s.package_root) matches Some(rel) && to
                == join_spec(s.style, s.staging_root, rel)
        },
{
}

} // verus!
