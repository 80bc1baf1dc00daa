use nodus::cli::{run, CliOutcome, Command};
use nodus::execution::{ExecutionMode, PreviewChange};
use nodus::resolver::{doctor, sync};

#[test]
fn dry_runs_are_recognized() {
    assert!(ExecutionMode::DryRun.is_dry_run());
    assert!(!ExecutionMode::Apply.is_dry_run());
}

#[test]
fn describes_each_preview() {
    assert_eq!(PreviewChange::Create("a".into()).describe(), "would create a");
    assert_eq!(PreviewChange::Write("b".into()).describe(), "would write b");
    assert_eq!(PreviewChange::Remove("c".into()).describe(), "would remove c");
    assert_eq!(PreviewChange::Relay("d".into()).describe(), "would relay d");
    assert_eq!(
        PreviewChange::PersistLocalConfig("e".into()).describe(),
        "would persist local config e"
    );
}

#[test]
fn sync_and_doctor_are_not_available_yet() {
    assert_eq!(sync(true, false).unwrap_err().message, "sync is not implemented yet");
    assert_eq!(doctor().unwrap_err().message, "doctor is not implemented yet");
}

#[test]
fn commands_dispatch() {
    match run(Command::Add { url: "o/r".into(), tag: Some("v1".into()) }) {
        CliOutcome::AddDependency { url, tag } => {
            assert_eq!(url, "o/r");
            assert_eq!(tag.as_deref(), Some("v1"));
        }
        other => panic!("unexpected {:?}", other),
    }
    assert!(matches!(run(Command::Init), CliOutcome::ScaffoldInit));
    match run(Command::Sync { locked: false, allow_high_sensitivity: false }) {
        CliOutcome::Finished(Err(m)) => assert_eq!(m, "sync is not implemented yet"),
        other => panic!("unexpected {:?}", other),
    }
    match run(Command::Doctor) {
        CliOutcome::Finished(Err(m)) => assert_eq!(m, "doctor is not implemented yet"),
        other => panic!("unexpected {:?}", other),
    }
}
