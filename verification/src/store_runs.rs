//! Whole runs of building a snapshot, against a file system on which every
//! operation succeeds: a run ends with the snapshot in place and complete,
//! and a run on a complete snapshot changes nothing.

use vstd::prelude::*;
use crate::path::{has_root, join_spec, parent_spec, prefix_len, relative_to, PathStyle};
use crate::store::{
    copy_phase, check_file_phase, promote_phase, snapshot_transition, SnapshotStage, SnapshotStepView,
    SnapshotView, StoreErrorView, StoreReplyView, StoreRequestView,
};

verus! {

/// The paths that exist: directories and files.
pub struct Disk {
    pub dirs: Set<Seq<char>>,
    pub files: Set<Seq<char>>,
}

/// A relative path that `join` appends: it has neither a prefix nor a root.
pub open spec fn is_plain_relative(style: PathStyle, rel: Seq<char>) -> bool {
    prefix_len(style, rel) == 0 && !has_root(style, rel)
}

/// Whether `q` is `p` or lies below it.
pub open spec fn below(style: PathStyle, q: Seq<char>, p: Seq<char>) -> bool {
    q == p || exists|rel: Seq<char>| is_plain_relative(style, rel) && q == join_spec(style, p, rel)
}

/// The paths of `set` after `from` was renamed to `to`: what lay below
/// `from` now lies at the same place below `to`.
pub open spec fn renamed(style: PathStyle, set: Set<Seq<char>>, from: Seq<char>, to: Seq<char>) -> Set<
    Seq<char>,
> {
    Set::new(
        |q: Seq<char>|
            (set.contains(q) && !below(style, q, from)) || (set.contains(from) && q == to) || exists|
                rel: Seq<char>,
            |
                is_plain_relative(style, rel) && set.contains(join_spec(style, from, rel)) && q
                    == join_spec(style, to, rel),
    )
}

/// What a request does to the disk and what it answers, when nothing fails.
pub open spec fn serve(style: PathStyle, d: Disk, req: StoreRequestView) -> (Disk, StoreReplyView) {
    match req {
        StoreRequestView::Exists { path } => (
            d,
            StoreReplyView::Answer(d.dirs.contains(path) || d.files.contains(path)),
        ),
        StoreRequestView::IsFile { path } => (d, StoreReplyView::Answer(d.files.contains(path))),
        StoreRequestView::RemoveDirAll { path } => (
            Disk {
                dirs: d.dirs.filter(|q: Seq<char>| !below(style, q, path)),
                files: d.files.filter(|q: Seq<char>| !below(style, q, path)),
            },
            StoreReplyView::Done,
        ),
        StoreRequestView::CreateDirAll { path } => (
            Disk { dirs: d.dirs.insert(path), files: d.files },
            StoreReplyView::Done,
        ),
        StoreRequestView::Copy { from, to } => (
            Disk { dirs: d.dirs, files: d.files.insert(to) },
            StoreReplyView::Done,
        ),
        StoreRequestView::Rename { from, to } => (
            Disk { dirs: renamed(style, d.dirs, from, to), files: renamed(style, d.files, from, to) },
            StoreReplyView::Done,
        ),
    }
}

/// Goes on from step output `out` for at most `fuel` more requests: the disk
/// afterwards, and the last output.
#[verifier::opaque]
pub open spec fn resume(s: SnapshotView, out: SnapshotStepView, d: Disk, fuel: nat) -> (
    Disk,
    SnapshotStepView,
)
    decreases fuel,
{
    match out {
        SnapshotStepView::Request(req) => if fuel == 0 {
            (d, out)
        } else {
            let (d2, reply) = serve(s.style, d, req);
            let (s2, out2) = snapshot_transition(s, reply);
            resume(s2, out2, d2, (fuel - 1) as nat)
        },
        SnapshotStepView::Finished(_) => (d, out),
    }
}

/// Every file of the package lies below its root, at a relative path that
/// `join` appends (on POSIX, any path below a root that is not empty).
pub open spec fn all_in_package(s: SnapshotView) -> bool {
    forall|i: int|
        0 <= i < s.files.len() ==> (relative_to(s.style, #[trigger] s.files[i], s.package_root) matches Some(
            rel,
        ) && is_plain_relative(s.style, rel))
}

/// Where file `i` goes below a snapshot directory `dir`.
pub open spec fn placed(s: SnapshotView, dir: Seq<char>, i: int) -> Seq<char> {
    join_spec(s.style, dir, relative_to(s.style, s.files[i], s.package_root)->0)
}

/// The snapshot directory exists and holds every file of the package.
pub open spec fn complete(s: SnapshotView, d: Disk) -> bool {
    &&& d.dirs.contains(s.digest_dir) || d.files.contains(s.digest_dir)
    &&& forall|i: int| 0 <= i < s.files.len() ==> d.files.contains(#[trigger] placed(s, s.digest_dir, i))
}

/// Enough requests for a whole run with a package of `n` files.
pub open spec fn run_budget(n: nat) -> nat {
    3 * n + 10
}

/// The end of a run that returns the snapshot directory.
pub open spec fn ok_at(s: SnapshotView) -> SnapshotStepView {
    SnapshotStepView::Finished(Ok::<Seq<char>, StoreErrorView>(s.digest_dir))
}

/// Two states of the same build.
pub open spec fn same_build(a: SnapshotView, b: SnapshotView) -> bool {
    a.style == b.style && a.package_root == b.package_root && a.files == b.files && a.digest_dir
        == b.digest_dir && a.staging_root == b.staging_root
}

proof fn lemma_complete_same_build(a: SnapshotView, b: SnapshotView, d: Disk)
    requires
        same_build(a, b),
    ensures
        complete(a, d) == complete(b, d),
        all_in_package(a) == all_in_package(b),
{
    assert forall|i: int| 0 <= i < a.files.len() implies placed(a, a.digest_dir, i) == placed(
        b,
        b.digest_dir,
        i,
    ) by {}
}

proof fn lemma_placed_same_build(a: SnapshotView, b: SnapshotView)
    requires
        same_build(a, b),
    ensures
        forall|j: int| #[trigger] placed(a, a.staging_root, j) == placed(b, b.staging_root, j),
        forall|j: int| #[trigger] placed(a, a.digest_dir, j) == placed(b, b.digest_dir, j),
{
}

/// On a complete snapshot, the checks of files `i..` all pass and the run
/// ends with the snapshot directory, leaving the disk as it was.
proof fn lemma_checks_pass(s: SnapshotView, i: nat, d: Disk, fuel: nat)
    requires
        i <= s.files.len(),
        all_in_package(s),
        complete(s, d),
        fuel >= s.files.len() - i + 1,
    ensures
        resume(check_file_phase(s, i).0, check_file_phase(s, i).1, d, fuel) == (d, ok_at(s)),
    decreases s.files.len() - i,
{
    if i < s.files.len() {
        let s1 = check_file_phase(s, i).0;
        assert(d.files.contains(placed(s, s.digest_dir, i as int)));
        lemma_resume_request(s1, StoreRequestView::IsFile { path: placed(s, s.digest_dir, i as int) }, d, fuel);
        assert(snapshot_transition(s1, StoreReplyView::Answer(true)) == check_file_phase(s1, i + 1));
        lemma_complete_same_build(s, s1, d);
        lemma_checks_pass(s1, i + 1, d, (fuel - 1) as nat);
    } else {
        lemma_resume_finished(check_file_phase(s, i).0, check_file_phase(s, i).1, d, fuel);
    }
}

/// A run that finds a complete snapshot returns its directory and leaves the
/// disk as it was: it creates, removes and copies nothing.
pub proof fn lemma_complete_snapshot_run_changes_nothing(s: SnapshotView, d: Disk, fuel: nat)
    requires
        s.stage == SnapshotStage::CheckDigestDir,
        all_in_package(s),
        complete(s, d),
        fuel >= s.files.len() + 2,
    ensures
        resume(
            s,
            SnapshotStepView::Request(StoreRequestView::Exists { path: s.digest_dir }),
            d,
            fuel,
        ) == (d, ok_at(s)),
{
    assert(snapshot_transition(s, StoreReplyView::Answer(true)) == check_file_phase(s, 0));
    lemma_resume_request(s, StoreRequestView::Exists { path: s.digest_dir }, d, fuel);
    lemma_checks_pass(s, 0, d, (fuel - 1) as nat);
}

/// One request of a run: it is served, and the run goes on from the answer.
proof fn lemma_resume_request(s: SnapshotView, req: StoreRequestView, d: Disk, fuel: nat)
    requires
        fuel > 0,
    ensures
        resume(s, SnapshotStepView::Request(req), d, fuel) == resume(
            snapshot_transition(s, serve(s.style, d, req).1).0,
            snapshot_transition(s, serve(s.style, d, req).1).1,
            serve(s.style, d, req).0,
            (fuel - 1) as nat,
        ),
{
    reveal(resume);
}

/// A run that has ended stays where it ended.
proof fn lemma_resume_finished(s: SnapshotView, out: SnapshotStepView, d: Disk, fuel: nat)
    requires
        out is Finished,
    ensures
        resume(s, out, d, fuel) == (d, out),
{
    reveal(resume);
}

/// Moving a staging directory that holds every file into place ends the run
/// with a complete snapshot.
proof fn lemma_promote_completes(s: SnapshotView, d: Disk, fuel: nat)
    requires
        all_in_package(s),
        d.dirs.contains(s.staging_root),
        forall|j: int|
            0 <= j < s.files.len() ==> d.files.contains(#[trigger] placed(s, s.staging_root, j)),
        fuel >= 2,
    ensures
        ({
            let (s1, out) = promote_phase(s);
            let (d2, last) = resume(s1, out, d, fuel);
            last == ok_at(s) && complete(s, d2)
        }),
{
    let (s1, out) = promote_phase(s);
    let rename = StoreRequestView::Rename { from: s.staging_root, to: s.digest_dir };
    let d2 = match parent_spec(s.style, s.digest_dir) {
        Some(p) => Disk { dirs: d.dirs.insert(p), files: d.files },
        None => d,
    };
    let s2 = SnapshotView { stage: SnapshotStage::Rename, ..s1 };
    let d3 = Disk {
        dirs: renamed(s.style, d2.dirs, s.staging_root, s.digest_dir),
        files: renamed(s.style, d2.files, s.staging_root, s.digest_dir),
    };
    assert(serve(s.style, d2, rename).0 == d3);
    lemma_resume_request(s2, rename, d2, (fuel - 1) as nat);
    lemma_resume_finished(
        snapshot_transition(s2, StoreReplyView::Done).0,
        snapshot_transition(s2, StoreReplyView::Done).1,
        d3,
        (fuel - 2) as nat,
    );
    assert(snapshot_transition(s2, StoreReplyView::Done).1 == ok_at(s));
    assert(resume(s2, SnapshotStepView::Request(rename), d2, (fuel - 1) as nat) == (d3, ok_at(s)));
    if let Some(p) = parent_spec(s.style, s.digest_dir) {
        lemma_resume_request(s1, StoreRequestView::CreateDirAll { path: p }, d, fuel);
        assert(serve(s.style, d, StoreRequestView::CreateDirAll { path: p }).0 == d2);
        assert(snapshot_transition(s1, StoreReplyView::Done) == (s2, SnapshotStepView::Request(rename)));
        assert(resume(s1, out, d, fuel) == (d3, ok_at(s)));
    } else {
        assert(s1 == s2 && d2 == d);
        lemma_resume_request(s2, rename, d2, fuel);
        lemma_resume_finished(
            snapshot_transition(s2, StoreReplyView::Done).0,
            snapshot_transition(s2, StoreReplyView::Done).1,
            d3,
            (fuel - 1) as nat,
        );
    }
    assert(d3.dirs.contains(s.digest_dir));
    assert forall|j: int| 0 <= j < s.files.len() implies d3.files.contains(
        #[trigger] placed(s, s.digest_dir, j),
    ) by {
        let rel = relative_to(s.style, s.files[j], s.package_root)->0;
        assert(is_plain_relative(s.style, rel));
        assert(d.files.contains(placed(s, s.staging_root, j)));
        assert(d2.files.contains(join_spec(s.style, s.staging_root, rel)));
        assert(placed(s, s.digest_dir, j) == join_spec(s.style, s.digest_dir, rel));
    }
}

/// Copying files `i..` into a staging directory that exists and already
/// holds the files before `i`, then moving it into place, ends the run with a
/// complete snapshot.
#[verifier::rlimit(40)]
proof fn lemma_copies_complete(s: SnapshotView, i: nat, d: Disk, fuel: nat)
    requires
        i <= s.files.len(),
        all_in_package(s),
        d.dirs.contains(s.staging_root),
        forall|j: int| 0 <= j < i ==> d.files.contains(#[trigger] placed(s, s.staging_root, j)),
        fuel >= 2 * (s.files.len() - i) + 2,
    ensures
        ({
            let (s1, out) = copy_phase(s, i);
            let (d2, last) = resume(s1, out, d, fuel);
            last == ok_at(s) && complete(s, d2)
        }),
    decreases s.files.len() - i,
{
    if i >= s.files.len() {
        let sp = SnapshotView { index: i, ..s };
        assert(copy_phase(s, i) == promote_phase(sp));
        lemma_placed_same_build(s, sp);
        assert forall|j: int| 0 <= j < sp.files.len() implies d.files.contains(
            #[trigger] placed(sp, sp.staging_root, j),
        ) by {
            assert(d.files.contains(placed(s, s.staging_root, j)));
        }
        lemma_promote_completes(sp, d, fuel);
        let d2 = resume(promote_phase(sp).0, promote_phase(sp).1, d, fuel).0;
        lemma_complete_same_build(s, sp, d2);
    } else {
        assert(relative_to(s.style, s.files[i as int], s.package_root) is Some);
        let rel = relative_to(s.style, s.files[i as int], s.package_root)->0;
        let target = join_spec(s.style, s.staging_root, rel);
        assert(target == placed(s, s.staging_root, i as int));
        let copy = StoreRequestView::Copy { from: s.files[i as int], to: target };
        let files2 = d.files.insert(target);
        match parent_spec(s.style, target) {
            Some(p) => {
                let s1 = SnapshotView {
                    stage: SnapshotStage::CreateParent,
                    index: i,
                    target,
                    target_parent: p,
                    ..s
                };
                assert(copy_phase(s, i) == (
                    s1,
                    SnapshotStepView::Request(StoreRequestView::CreateDirAll { path: p }),
                ));
                let d2 = Disk { dirs: d.dirs.insert(p), files: d.files };
                lemma_resume_request(s1, StoreRequestView::CreateDirAll { path: p }, d, fuel);
                let s2 = SnapshotView { stage: SnapshotStage::CopyFile, ..s1 };
                assert(snapshot_transition(s1, StoreReplyView::Done) == (
                    s2,
                    SnapshotStepView::Request(copy),
                ));
                lemma_resume_request(s2, copy, d2, (fuel - 1) as nat);
                let d4 = Disk { dirs: d2.dirs, files: files2 };
                assert(serve(s.style, d2, copy).0 == d4);
                assert(snapshot_transition(s2, StoreReplyView::Done) == copy_phase(s2, i + 1));
                lemma_placed_same_build(s, s2);
                assert forall|j: int| 0 <= j < i + 1 implies d4.files.contains(
                    #[trigger] placed(s2, s2.staging_root, j),
                ) by {
                    if j < i {
                        assert(d.files.contains(placed(s, s.staging_root, j)));
                    }
                }
                lemma_copies_complete(s2, i + 1, d4, (fuel - 2) as nat);
                let d5 = resume(copy_phase(s2, i + 1).0, copy_phase(s2, i + 1).1, d4, (fuel
                    - 2) as nat).0;
                lemma_complete_same_build(s, s2, d5);
            },
            None => {
                let s1 = SnapshotView { stage: SnapshotStage::CopyFile, index: i, target, ..s };
                assert(copy_phase(s, i) == (s1, SnapshotStepView::Request(copy)));
                lemma_resume_request(s1, copy, d, fuel);
                let d4 = Disk { dirs: d.dirs, files: files2 };
                assert(serve(s.style, d, copy).0 == d4);
                assert(snapshot_transition(s1, StoreReplyView::Done) == copy_phase(s1, i + 1));
                lemma_placed_same_build(s, s1);
                assert forall|j: int| 0 <= j < i + 1 implies d4.files.contains(
                    #[trigger] placed(s1, s1.staging_root, j),
                ) by {
                    if j < i {
                        assert(d.files.contains(placed(s, s.staging_root, j)));
                    }
                }
                lemma_copies_complete(s1, i + 1, d4, (fuel - 1) as nat);
                let d5 = resume(copy_phase(s1, i + 1).0, copy_phase(s1, i + 1).1, d4, (fuel
                    - 1) as nat).0;
                lemma_complete_same_build(s, s1, d5);
            },
        }
    }
}

/// Once the snapshot directory is found absent, the staging directory is
/// made afresh, every file is copied, and the run ends with a complete snapshot.
proof fn lemma_rebuild_completes(s: SnapshotView, d: Disk, fuel: nat)
    requires
        s.stage == SnapshotStage::Recheck,
        all_in_package(s),
        !d.dirs.contains(s.digest_dir) && !d.files.contains(s.digest_dir),
        fuel >= 2 * s.files.len() + 6,
    ensures
        ({
            let (d2, last) = resume(
                s,
                SnapshotStepView::Request(StoreRequestView::Exists { path: s.digest_dir }),
                d,
                fuel,
            );
            last == ok_at(s) && complete(s, d2)
        }),
{
    lemma_resume_request(s, StoreRequestView::Exists { path: s.digest_dir }, d, fuel);
    let s1 = SnapshotView { stage: SnapshotStage::CheckStaging, ..s };
    let check = StoreRequestView::Exists { path: s.staging_root };
    assert(snapshot_transition(s, StoreReplyView::Answer(false)) == (
        s1,
        SnapshotStepView::Request(check),
    ));
    lemma_resume_request(s1, check, d, (fuel - 1) as nat);
    let create = StoreRequestView::CreateDirAll { path: s.staging_root };
    let s3 = SnapshotView { stage: SnapshotStage::CreateStaging, ..s };
    let staged = |d1: Disk| Disk { dirs: d1.dirs.insert(s.staging_root), files: d1.files };
    if d.dirs.contains(s.staging_root) || d.files.contains(s.staging_root) {
        let remove = StoreRequestView::RemoveDirAll { path: s.staging_root };
        let s2 = SnapshotView { stage: SnapshotStage::RemoveStaging, ..s };
        assert(snapshot_transition(s1, StoreReplyView::Answer(true)) == (
            s2,
            SnapshotStepView::Request(remove),
        ));
        lemma_resume_request(s2, remove, d, (fuel - 2) as nat);
        let d1 = serve(s.style, d, remove).0;
        assert(snapshot_transition(s2, StoreReplyView::Done) == (
            s3,
            SnapshotStepView::Request(create),
        ));
        lemma_resume_request(s3, create, d1, (fuel - 3) as nat);
        assert(serve(s.style, d1, create).0 == staged(d1));
        assert(snapshot_transition(s3, StoreReplyView::Done) == copy_phase(s3, 0));
        lemma_copies_complete(s3, 0, staged(d1), (fuel - 4) as nat);
        lemma_complete_same_build(s, s3, resume(copy_phase(s3, 0).0, copy_phase(s3, 0).1, staged(d1), (fuel - 4) as nat).0);
    } else {
        assert(snapshot_transition(s1, StoreReplyView::Answer(false)) == (
            s3,
            SnapshotStepView::Request(create),
        ));
        lemma_resume_request(s3, create, d, (fuel - 2) as nat);
        assert(serve(s.style, d, create).0 == staged(d));
        assert(snapshot_transition(s3, StoreReplyView::Done) == copy_phase(s3, 0));
        lemma_copies_complete(s3, 0, staged(d), (fuel - 3) as nat);
        lemma_complete_same_build(s, s3, resume(copy_phase(s3, 0).0, copy_phase(s3, 0).1, staged(d), (fuel - 3) as nat).0);
    }
}

/// The checks of files `i..` against an existing snapshot directory that
/// holds the files before `i`: a run from there ends with a complete
/// snapshot, rebuilt from scratch where a file is missing.
proof fn lemma_checks_then_complete(s: SnapshotView, i: nat, d: Disk, fuel: nat)
    requires
        i <= s.files.len(),
        all_in_package(s),
        d.dirs.contains(s.digest_dir) || d.files.contains(s.digest_dir),
        forall|j: int| 0 <= j < i ==> d.files.contains(#[trigger] placed(s, s.digest_dir, j)),
        fuel >= s.files.len() - i + 2 * s.files.len() + 8,
    ensures
        ({
            let (s1, out) = check_file_phase(s, i);
            let (d2, last) = resume(s1, out, d, fuel);
            last == ok_at(s) && complete(s, d2)
        }),
    decreases s.files.len() - i,
{
    let (s1, out) = check_file_phase(s, i);
    if i >= s.files.len() {
        lemma_resume_finished(s1, out, d, fuel);
    } else {
        let path = placed(s, s.digest_dir, i as int);
        assert(out == SnapshotStepView::Request(StoreRequestView::IsFile { path }));
        lemma_resume_request(s1, StoreRequestView::IsFile { path }, d, fuel);
        if d.files.contains(path) {
            assert(snapshot_transition(s1, StoreReplyView::Answer(true)) == check_file_phase(s1, i + 1));
            lemma_placed_same_build(s, s1);
            assert forall|j: int| 0 <= j < i + 1 implies d.files.contains(
                #[trigger] placed(s1, s1.digest_dir, j),
            ) by {
                if j < i {
                    assert(d.files.contains(placed(s, s.digest_dir, j)));
                }
            }
            lemma_checks_then_complete(s1, i + 1, d, (fuel - 1) as nat);
            lemma_complete_same_build(s, s1, resume(check_file_phase(s1, i + 1).0, check_file_phase(s1, i + 1).1, d, (fuel - 1) as nat).0);
        } else {
            let remove = StoreRequestView::RemoveDirAll { path: s.digest_dir };
            let s2 = SnapshotView { stage: SnapshotStage::RemoveIncomplete, ..s1 };
            assert(snapshot_transition(s1, StoreReplyView::Answer(false)) == (
                s2,
                SnapshotStepView::Request(remove),
            ));
            lemma_resume_request(s2, remove, d, (fuel - 1) as nat);
            let d1 = serve(s.style, d, remove).0;
            assert(below(s.style, s.digest_dir, s.digest_dir));
            assert(!d1.dirs.contains(s.digest_dir) && !d1.files.contains(s.digest_dir));
            let s3 = SnapshotView { stage: SnapshotStage::Recheck, ..s2 };
            assert(snapshot_transition(s2, StoreReplyView::Done) == (
                s3,
                SnapshotStepView::Request(StoreRequestView::Exists { path: s.digest_dir }),
            ));
            lemma_complete_same_build(s, s3, d1);
            lemma_rebuild_completes(s3, d1, (fuel - 2) as nat);
            lemma_complete_same_build(s, s3, resume(s3, SnapshotStepView::Request(StoreRequestView::Exists { path: s.digest_dir }), d1, (fuel - 2) as nat).0);
        }
    }
}

/// Whatever is on disk, a run of building a snapshot (every operation
/// succeeding) returns the snapshot directory and leaves it complete: an
/// existing complete snapshot is kept, any other is rebuilt from scratch.
pub proof fn lemma_snapshot_run_completes(s: SnapshotView, d: Disk, fuel: nat)
    requires
        s.stage == SnapshotStage::CheckDigestDir,
        all_in_package(s),
        fuel >= run_budget(s.files.len()),
    ensures
        ({
            let (d2, last) = resume(
                s,
                SnapshotStepView::Request(StoreRequestView::Exists { path: s.digest_dir }),
                d,
                fuel,
            );
            last == ok_at(s) && complete(s, d2)
        }),
{
    lemma_resume_request(s, StoreRequestView::Exists { path: s.digest_dir }, d, fuel);
    if d.dirs.contains(s.digest_dir) || d.files.contains(s.digest_dir) {
        assert(snapshot_transition(s, StoreReplyView::Answer(true)) == check_file_phase(s, 0));
        lemma_checks_then_complete(s, 0, d, (fuel - 1) as nat);
    } else {
        let s1 = SnapshotView { stage: SnapshotStage::Recheck, ..s };
        assert(snapshot_transition(s, StoreReplyView::Answer(false)) == (
            s1,
            SnapshotStepView::Request(StoreRequestView::Exists { path: s.digest_dir }),
        ));
        lemma_rebuild_completes(s1, d, (fuel - 1) as nat);
        lemma_complete_same_build(s, s1, resume(s1, SnapshotStepView::Request(StoreRequestView::Exists { path: s.digest_dir }), d, (fuel - 1) as nat).0);
    }
}

/// Building the same snapshot twice in a row, with nothing changed on disk
/// in between: both runs return the snapshot directory, and the second finds
/// the snapshot complete and creates, removes or copies nothing.
pub proof fn lemma_second_run_reuses_the_snapshot(s: SnapshotView, d: Disk)
    requires
        s.stage == SnapshotStage::CheckDigestDir,
        all_in_package(s),
    ensures
        ({
            let start = SnapshotStepView::Request(StoreRequestView::Exists { path: s.digest_dir });
            let (d1, first) = resume(s, start, d, run_budget(s.files.len()));
            &&& first == ok_at(s)
            &&& resume(s, start, d1, run_budget(s.files.len())) == (d1, ok_at(s))
        }),
{
    let start = SnapshotStepView::Request(StoreRequestView::Exists { path: s.digest_dir });
    lemma_snapshot_run_completes(s, d, run_budget(s.files.len()));
    let d1 = resume(s, start, d, run_budget(s.files.len())).0;
    lemma_complete_snapshot_run_changes_nothing(s, d1, run_budget(s.files.len()));
}

/// When a file of a complete snapshot is deleted, the next run removes the
/// snapshot directory, rebuilds it, and again returns it complete.
pub proof fn lemma_deleted_file_is_restored(s: SnapshotView, d: Disk, k: int)
    requires
        s.stage == SnapshotStage::CheckDigestDir,
        all_in_package(s),
        complete(s, d),
        0 <= k < s.files.len(),
    ensures
        ({
            let gone = Disk { dirs: d.dirs, files: d.files.remove(placed(s, s.digest_dir, k)) };
            let start = SnapshotStepView::Request(StoreRequestView::Exists { path: s.digest_dir });
            let (d2, last) = resume(s, start, gone, run_budget(s.files.len()));
            &&& !complete(s, gone)
            &&& last == ok_at(s)
            &&& complete(s, d2)
        }),
{
    let gone = Disk { dirs: d.dirs, files: d.files.remove(placed(s, s.digest_dir, k)) };
    assert(!gone.files.contains(placed(s, s.digest_dir, k)));
    lemma_snapshot_run_completes(s, gone, run_budget(s.files.len()));
}

} // verus!
