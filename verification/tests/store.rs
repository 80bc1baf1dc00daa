use nodus::path::PathStyle;
use nodus::store::{
    digest_directory_name, snapshot_package, SnapshotStep,
    StoreError, StoreReply, StoreRequest,
};

fn next(step: SnapshotStep) -> StoreRequest {
    match step {
        SnapshotStep::Request(r) => r,
        SnapshotStep::Finished(_) => panic!("finished early"),
    }
}

#[test]
fn digests_name_their_directories() {
    assert_eq!(digest_directory_name("sha256:abc").ok().unwrap(), "abc");
    match digest_directory_name("md5:abc") {
        Err(StoreError::UnsupportedDigest { digest }) => assert_eq!(digest, "md5:abc"),
        _ => panic!("expected an unsupported digest"),
    }
}

#[test]
fn builds_a_new_snapshot_in_staging_then_moves_it() {
    let files = vec!["/pkg/skills/review/SKILL.md".to_string()];
    let (mut snap, first) = snapshot_package(PathStyle::Posix, "/cache/store/sha256", "sha256:ab/cd", "/pkg", files)
        .ok()
        .unwrap();
    assert!(matches!(first, StoreRequest::Exists { ref path } if path == "/cache/store/sha256/ab/cd"));
    assert!(matches!(next(snap.step(StoreReply::Answer(false))), StoreRequest::Exists { .. }));
    match next(snap.step(StoreReply::Answer(false))) {
        StoreRequest::Exists { path } => assert_eq!(path, "/cache/store/sha256/.tmp-ab_cd"),
        _ => panic!("expected the staging check"),
    }
    assert!(matches!(next(snap.step(StoreReply::Answer(false))), StoreRequest::CreateDirAll { .. }));
    match next(snap.step(StoreReply::Done)) {
        StoreRequest::CreateDirAll { path } => {
            assert_eq!(path, "/cache/store/sha256/.tmp-ab_cd/skills/review")
        }
        _ => panic!("expected the file's directory"),
    }
    match next(snap.step(StoreReply::Done)) {
        StoreRequest::Copy { from, to } => {
            assert_eq!(from, "/pkg/skills/review/SKILL.md");
            assert_eq!(to, "/cache/store/sha256/.tmp-ab_cd/skills/review/SKILL.md");
        }
        _ => panic!("expected a copy"),
    }
    match next(snap.step(StoreReply::Done)) {
        StoreRequest::CreateDirAll { path } => assert_eq!(path, "/cache/store/sha256/ab"),
        _ => panic!("expected the store parent"),
    }
    match next(snap.step(StoreReply::Done)) {
        StoreRequest::Rename { from, to } => {
            assert_eq!(from, "/cache/store/sha256/.tmp-ab_cd");
            assert_eq!(to, "/cache/store/sha256/ab/cd");
        }
        _ => panic!("expected the move"),
    }
    match snap.step(StoreReply::Done) {
        SnapshotStep::Finished(Ok(dir)) => assert_eq!(dir, "/cache/store/sha256/ab/cd"),
        _ => panic!("expected the snapshot"),
    }
}

#[test]
fn reuses_a_complete_snapshot() {
    let files = vec!["/pkg/a.md".to_string(), "/pkg/b/c.md".to_string()];
    let (mut snap, _) = snapshot_package(PathStyle::Posix, "/s", "sha256:d", "/pkg", files).ok().unwrap();
    match next(snap.step(StoreReply::Answer(true))) {
        StoreRequest::IsFile { path } => assert_eq!(path, "/s/d/a.md"),
        _ => panic!("expected a file check"),
    }
    match next(snap.step(StoreReply::Answer(true))) {
        StoreRequest::IsFile { path } => assert_eq!(path, "/s/d/b/c.md"),
        _ => panic!("expected a file check"),
    }
    match snap.step(StoreReply::Answer(true)) {
        SnapshotStep::Finished(Ok(dir)) => assert_eq!(dir, "/s/d"),
        _ => panic!("expected reuse"),
    }
}

#[test]
fn recreates_an_incomplete_snapshot() {
    let files = vec!["/pkg/a.md".to_string()];
    let (mut snap, _) = snapshot_package(PathStyle::Posix, "/s", "sha256:d", "/pkg", files).ok().unwrap();
    next(snap.step(StoreReply::Answer(true)));
    match next(snap.step(StoreReply::Answer(false))) {
        StoreRequest::RemoveDirAll { path } => assert_eq!(path, "/s/d"),
        _ => panic!("expected removal"),
    }
    assert!(matches!(next(snap.step(StoreReply::Done)), StoreRequest::Exists { .. }));
}

#[test]
fn keeps_a_snapshot_that_another_process_finished_first() {
    let (mut snap, _) = snapshot_package(PathStyle::Posix, "/s", "sha256:d", "/pkg", vec![]).ok().unwrap();
    next(snap.step(StoreReply::Answer(false)));
    next(snap.step(StoreReply::Answer(false)));
    next(snap.step(StoreReply::Answer(false)));
    next(snap.step(StoreReply::Done));
    next(snap.step(StoreReply::Done));
    assert!(matches!(next(snap.step(StoreReply::Failed("exists".into()))), StoreRequest::Exists { .. }));
    match next(snap.step(StoreReply::Answer(true))) {
        StoreRequest::RemoveDirAll { path } => assert_eq!(path, "/s/.tmp-d"),
        _ => panic!("expected cleanup"),
    }
    assert!(matches!(snap.step(StoreReply::Done), SnapshotStep::Finished(Ok(_))));
}

#[test]
fn reports_files_outside_the_package() {
    let (mut snap, _) = snapshot_package(PathStyle::Posix, "/s", "sha256:d", "/pkg", vec!["/elsewhere/x".into()])
        .ok()
        .unwrap();
    match snap.step(StoreReply::Answer(true)) {
        SnapshotStep::Finished(Err(StoreError::NotInPackage { file })) => assert_eq!(file, "/elsewhere/x"),
        _ => panic!("expected an error"),
    }
}

#[test]
fn reports_failed_moves() {
    let (mut snap, _) = snapshot_package(PathStyle::Posix, "/s", "sha256:d", "/pkg", vec![]).ok().unwrap();
    for reply in [StoreReply::Answer(false), StoreReply::Answer(false), StoreReply::Answer(false), StoreReply::Done, StoreReply::Done] {
        next(snap.step(reply));
    }
    next(snap.step(StoreReply::Failed("busy".into())));
    match snap.step(StoreReply::Answer(false)) {
        SnapshotStep::Finished(Err(StoreError::Io { context, cause })) => {
            assert_eq!(context, "failed to promote snapshot /s/.tmp-d into /s/d");
            assert_eq!(cause, "busy");
        }
        _ => panic!("expected an error"),
    }
}

/// Paths that exist on a file system where every operation succeeds.
struct MemoryDisk {
    dirs: std::collections::BTreeSet<String>,
    files: std::collections::BTreeSet<String>,
}

fn is_below(path: &str, dir: &str) -> bool {
    path == dir || path.starts_with(&format!("{dir}/"))
}

impl MemoryDisk {
    fn serve(&mut self, request: &StoreRequest) -> StoreReply {
        match request {
            StoreRequest::Exists { path } => {
                StoreReply::Answer(self.dirs.contains(path) || self.files.contains(path))
            }
            StoreRequest::IsFile { path } => StoreReply::Answer(self.files.contains(path)),
            StoreRequest::RemoveDirAll { path } => {
                self.dirs.retain(|p| !is_below(p, path));
                self.files.retain(|p| !is_below(p, path));
                StoreReply::Done
            }
            StoreRequest::CreateDirAll { path } => {
                self.dirs.insert(path.clone());
                StoreReply::Done
            }
            StoreRequest::Copy { to, .. } => {
                self.files.insert(to.clone());
                StoreReply::Done
            }
            StoreRequest::Rename { from, to } => {
                let moved = |set: &std::collections::BTreeSet<String>| {
                    set.iter()
                        .map(|p| if is_below(p, from) { format!("{to}{}", &p[from.len()..]) } else { p.clone() })
                        .collect()
                };
                self.dirs = moved(&self.dirs);
                self.files = moved(&self.files);
                StoreReply::Done
            }
        }
    }

    /// Builds the snapshot; returns its directory and whether anything changed.
    fn run(&mut self, files: &[&str]) -> (String, bool) {
        let files = files.iter().map(|f| f.to_string()).collect();
        let (mut snap, mut request) =
            snapshot_package(PathStyle::Posix, "/s", "sha256:d", "/pkg", files).ok().unwrap();
        let mut changed = false;
        loop {
            changed |= !matches!(request, StoreRequest::Exists { .. } | StoreRequest::IsFile { .. });
            let reply = self.serve(&request);
            match snap.step(reply) {
                SnapshotStep::Request(next) => request = next,
                SnapshotStep::Finished(Ok(dir)) => return (dir, changed),
                SnapshotStep::Finished(Err(_)) => panic!("the build failed"),
            }
        }
    }
}

#[test]
fn a_second_build_reuses_the_snapshot_and_a_deleted_file_is_restored() {
    let files = ["/pkg/a.md", "/pkg/b/c.md"];
    let mut disk = MemoryDisk { dirs: Default::default(), files: Default::default() };

    assert_eq!(disk.run(&files), ("/s/d".to_string(), true));
    assert!(disk.files.contains("/s/d/a.md") && disk.files.contains("/s/d/b/c.md"));

    assert_eq!(disk.run(&files), ("/s/d".to_string(), false));

    disk.files.remove("/s/d/b/c.md");
    assert_eq!(disk.run(&files), ("/s/d".to_string(), true));
    assert!(disk.files.contains("/s/d/a.md") && disk.files.contains("/s/d/b/c.md"));
    assert!(!disk.dirs.contains("/s/.tmp-d"));
}
