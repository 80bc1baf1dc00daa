use nodus::execution::PreviewChange;
use nodus::report::{ColorMode, Reporter};

#[test]
fn renders_plain_status_output_when_color_is_disabled() {
    let mut reporter = Reporter::sink(ColorMode::Never);

    reporter.status("Checking", "project graph");

    assert_eq!(reporter.take_result_output(), "    Checking project graph\n");
}

#[test]
fn renders_colored_output_when_color_is_forced() {
    let mut reporter = Reporter::sink(ColorMode::Always);

    reporter.warning("be careful");

    let output = reporter.take_result_output();
    assert!(output.contains("\u{1b}["));
    assert!(output.contains("warning:"));
    assert!(output.contains("be careful"));
}

#[test]
fn renders_finish_and_note_output() {
    let mut reporter = Reporter::sink(ColorMode::Never);

    reporter.note("using shared checkout");
    reporter.finish("1 package in 0.01s");

    assert_eq!(
        reporter.take_result_output(),
        "note: using shared checkout\n    Finished 1 package in 0.01s\n"
    );
}

#[test]
fn renders_plain_lines_without_prefixes() {
    let mut reporter = Reporter::sink(ColorMode::Never);

    reporter.line("hello world");

    assert_eq!(reporter.take_result_output(), "hello world\n");
}

#[test]
fn renders_error_chains() {
    let mut reporter = Reporter::sink(ColorMode::Never);
    let error = anyhow::Error::msg("outer").context("middle").context("inner");
    let chain: Vec<String> = error.chain().map(|cause| cause.to_string()).collect();

    reporter.error(&chain);

    assert_eq!(
        reporter.take_result_output(),
        "error: inner\nCaused by:\n  0: middle\n  1: outer\n"
    );
}

#[test]
fn routes_results_and_diagnostics_to_different_writers() {
    let mut reporter = Reporter::sink_split(ColorMode::Never);

    reporter.line("payload");
    reporter.status("Checking", "project graph");
    reporter.finish("done");

    assert_eq!(reporter.take_result_output(), "payload\n    Finished done\n");
    assert_eq!(reporter.take_diagnostic_output(), "    Checking project graph\n");
}

#[test]
fn paints_labels_with_exact_ansi_codes() {
    let mut reporter = Reporter::sink(ColorMode::Always);
    reporter.status("Adding", "x");
    reporter.note("n");
    reporter.error(&vec!["e".to_string()]);
    assert_eq!(
        reporter.take_result_output(),
        "\u{1b}[1m\u{1b}[32m      Adding\u{1b}[0m x\n\u{1b}[1m\u{1b}[36mnote:\u{1b}[0m n\n\u{1b}[1m\u{1b}[31merror:\u{1b}[0m e\n"
    );
    assert!(reporter.color_enabled());
    assert!(!Reporter::sink(ColorMode::Never).color_enabled());
}

#[test]
fn long_labels_are_not_cut() {
    let mut reporter = Reporter::sink(ColorMode::Never);
    reporter.status("Downloading-all", "m");
    assert_eq!(reporter.take_result_output(), "Downloading-all m\n");
}

#[test]
fn previews_are_notes() {
    let mut reporter = Reporter::sink_split(ColorMode::Never);
    reporter.preview(&PreviewChange::Write("AGENTS.md".to_string()));
    assert_eq!(reporter.take_diagnostic_output(), "note: would write AGENTS.md\n");
    assert_eq!(reporter.take_result_output(), "");
}

#[test]
fn error_chain_numbers_beyond_nine_causes() {
    let mut reporter = Reporter::sink_split(ColorMode::Never);
    let mut chain = vec!["head".to_string()];
    for i in 0..11 {
        chain.push(format!("c{i}"));
    }
    reporter.error(&chain);
    let out = reporter.take_diagnostic_output();
    assert!(out.starts_with("error: head\nCaused by:\n  0: c0\n"));
    assert!(out.ends_with("  10: c10\n"));
    reporter.error(&Vec::new());
    assert_eq!(reporter.take_diagnostic_output(), "");
}

#[test]
fn taking_output_empties_the_stream() {
    let mut reporter = Reporter::with_streams(false, false);
    reporter.line("a");
    assert_eq!(reporter.take_result_output(), "a\n");
    assert_eq!(reporter.take_result_output(), "");
}

#[test]
fn silent_reporters_keep_nothing() {
    let mut reporter = Reporter::silent();
    reporter.line("a");
    reporter.status("Checking", "b");
    reporter.error(&vec!["x".to_string(), "y".to_string()]);
    assert_eq!(reporter.take_result_output(), "");
    assert_eq!(reporter.take_diagnostic_output(), "");
    assert!(!reporter.color_enabled());
}

#[test]
fn every_call_keeps_to_its_own_writer() {
    let mut reporter = Reporter::sink_split(ColorMode::Never);

    reporter.note("first");
    reporter.line("one");
    reporter.warning("careful");
    reporter.preview(&PreviewChange::Write("AGENTS.md".to_string()));
    reporter.finish("two");
    reporter.error(&vec!["outer".to_string(), "inner".to_string()]);
    reporter.status("Checking", "graph");
    reporter.line("three");

    assert_eq!(reporter.take_result_output(), "one\n    Finished two\nthree\n");
    assert_eq!(
        reporter.take_diagnostic_output(),
        "note: first\nwarning: careful\nnote: would write AGENTS.md\nerror: outer\nCaused by:\n  0: inner\n    Checking graph\n"
    );
}
