use cargo_dirty::message::{CargoMessage, DiagnosticLevel};
use cargo_dirty::parse::stderr_verbose::parse_line;
use cargo_dirty::parse::{
    CrateStatusKind, ParsedCargoOutput, StderrLineDisposition, parse_status_line,
};


#[test]
fn stderr_verbose_parses_fresh() {
    let ev = parse_line("Fresh foo v0.1.0 (/tmp/foo)").unwrap();
    assert_eq!(ev.kind, CrateStatusKind::Fresh);
    assert_eq!(ev.crate_id, "foo v0.1.0");
    assert_eq!(ev.reason, None);
}

#[test]
fn stderr_verbose_parses_dirty() {
    let ev = parse_line("Dirty bar v0.2.0 (/tmp/bar): the file `src/lib.rs` has changed").unwrap();
    assert_eq!(ev.kind, CrateStatusKind::Dirty);
    assert_eq!(ev.crate_id, "bar v0.2.0");
    assert_eq!(
        ev.reason,
        Some("the file `src/lib.rs` has changed".to_string())
    );
}

#[test]
fn stderr_verbose_parses_compiling() {
    let ev = parse_line("Compiling baz v1.2.3 (/tmp/baz)").unwrap();
    assert_eq!(ev.kind, CrateStatusKind::Compiling);
    assert_eq!(ev.crate_id, "baz v1.2.3");
}

#[test]
fn stderr_verbose_parses_checking() {
    let ev = parse_line("Checking qux v0.9.9 (/tmp/qux)").unwrap();
    assert_eq!(ev.kind, CrateStatusKind::Checking);
    assert_eq!(ev.crate_id, "qux v0.9.9");
}

#[test]
fn stderr_verbose_ignores_unrelated_lines() {
    assert_eq!(parse_line("warning: something"), None);
}


#[test]
fn suppresses_verbose_status_lines_and_extracts_reason() {
    let mut parsed = ParsedCargoOutput::default();
    let disp = parsed
        .ingest_stderr_line("Dirty foo v0.1.0 (/tmp/foo): the file `src/lib.rs` has changed");

    assert_eq!(disp, StderrLineDisposition::Suppress);
    assert_eq!(parsed.stderr_events.len(), 1);
    assert_eq!(
        parsed.crate_reasons.get(&"foo v0.1.0".to_string()),
        Some(&"the file `src/lib.rs` has changed".to_string())
    );
}

#[test]
fn suppresses_fingerprint_trace_lines() {
    let mut parsed = ParsedCargoOutput::default();
    let disp = parsed.ingest_stderr_line(
        "TRACE cargo::core::compiler::fingerprint: compare fingerprints for foo",
    );

    assert_eq!(disp, StderrLineDisposition::Suppress);
    assert_eq!(parsed.fingerprint_lines.len(), 1);
}

#[test]
fn forwards_unrelated_lines() {
    let mut parsed = ParsedCargoOutput::default();
    let disp = parsed.ingest_stderr_line("warning: something happened");
    assert_eq!(disp, StderrLineDisposition::Suppress);
    assert_eq!(parsed.other_stderr.len(), 1);
}

#[test]
fn parses_indented_fresh_lines() {
    let mut parsed = ParsedCargoOutput::default();
    let disp = parsed.ingest_stderr_line("       Fresh foo v0.1.0 (/tmp/foo)");
    assert_eq!(disp, StderrLineDisposition::Suppress);
    assert_eq!(parsed.stderr_events.len(), 1);
    assert_eq!(parsed.stderr_events[0].crate_id, "foo v0.1.0");
}

#[test]
fn stderr_verbose_takes_the_longest_path() {
    let ev = parse_line("Dirty a v0.1.0 (/tmp/a): one): two").unwrap();
    assert_eq!(ev.crate_id, "a v0.1.0");
    assert_eq!(ev.reason, Some("two".to_string()));

    let ev = parse_line("Dirty a v0.1.0 (/tmp/a): changed (8s after last build)").unwrap();
    assert_eq!(ev.reason, Some("changed (8s after last build)".to_string()));
}

#[test]
fn stderr_verbose_reads_lines_about_the_build() {
    let ev = parse_status_line("Running `rustc`").unwrap();
    assert_eq!(ev.kind, CrateStatusKind::Running);
    assert_eq!(ev.crate_id, "<running>");
    assert_eq!(ev.reason, Some("Running `rustc`".to_string()));

    let ev = parse_status_line("Finished `dev` profile").unwrap();
    assert_eq!(ev.kind, CrateStatusKind::Finished);
    assert_eq!(ev.crate_id, "<finished>");
    assert_eq!(ev.reason, Some("Finished `dev` profile".to_string()));

    assert_eq!(parse_status_line("Running"), None);
    assert_eq!(parse_status_line("Running a\nb"), None);
    assert!(parse_status_line("Finishedly").is_some());
}

#[test]
fn stderr_verbose_parses_building_and_needs_a_reason_for_dirty() {
    let ev = parse_line("Building quux v0.0.1").unwrap();
    assert_eq!(ev.kind, CrateStatusKind::Building);
    assert_eq!(ev.clone(), ev);
    assert_eq!(parse_line("Dirty quux v0.0.1 (/tmp/quux)"), None);
    assert_eq!(parse_line("Compiling quux v0.0.1 (/tmp/quux): why"), None);
}

#[test]
fn the_latest_reason_replaces_the_one_before() {
    let mut parsed = ParsedCargoOutput::default();
    parsed.ingest_stderr_line("Dirty foo v0.1.0: one");
    parsed.ingest_stderr_line("Dirty foo v0.1.0: two");
    assert_eq!(
        parsed.crate_reasons.get(&"foo v0.1.0".to_string()),
        Some(&"two".to_string())
    );
    assert_eq!(parsed.crate_reasons.len(), 1);
    assert_eq!(parsed.stderr_events.len(), 2);
}

#[test]
fn messages_are_kept_in_order() {
    let mut parsed = ParsedCargoOutput::default();
    parsed.ingest_message(CargoMessage::Other);
    parsed.ingest_message(CargoMessage::CompilerMessage {
        level: DiagnosticLevel::Error,
        rendered: None,
    });
    assert_eq!(parsed.messages.len(), 2);
    assert_eq!(parsed.messages[0], CargoMessage::Other);
}
