use cargo_dirty::build_log::{BuildLog, Counts, DisplayEvent};
use cargo_dirty::message::{
    CargoMessage, DiagnosticLevel, MAX_NESTING, PassedOn, StdoutLine, can_be_read, errors,
    ingest_stdout_line, sort_line,
};
use cargo_dirty::parse::{CrateId, WorkKind};
use cargo_dirty::report::{
    closing_lines, explain_lines, failure_lines, raw_stderr_tail, stream_event_lines, summary_line,
};
use cargo_dirty::style::{index_text, number_text};

fn log_from(lines: &[&str]) -> BuildLog {
    let mut log = BuildLog::new();
    for line in lines {
        let _ = log.ingest_line(line);
    }
    log
}

fn error(rendered: &str) -> CargoMessage {
    CargoMessage::CompilerMessage {
        level: DiagnosticLevel::Error,
        rendered: Some(rendered.to_string()),
    }
}

#[test]
fn fresh_crates_are_shown_on_request() {
    let event = DisplayEvent::Fresh { id: CrateId::new("a v0.1.0") };
    assert_eq!(stream_event_lines(&event, false), Vec::<String>::new());
    assert_eq!(
        stream_event_lines(&event, true),
        ["\u{1b}[2mFresh\u{1b}[0m \u{1b}[2ma v0.1.0\u{1b}[0m"]
    );
}

#[test]
fn started_work_is_shown_with_its_reason() {
    let mut event = DisplayEvent::WorkStarted {
        kind: WorkKind::Checking,
        id: CrateId::new("a v0.1.0"),
        reason: Some("why".to_string()),
    };
    assert_eq!(
        stream_event_lines(&event, false),
        [
            "\u{1b}[1m\u{1b}[32mChecking\u{1b}[39m\u{1b}[0m \u{1b}[1ma v0.1.0\u{1b}[0m",
            "     \u{1b}[2mreason:\u{1b}[0m \u{1b}[2mwhy\u{1b}[0m",
        ]
    );
    if let DisplayEvent::WorkStarted { reason, .. } = &mut event {
        *reason = None;
    }
    assert_eq!(stream_event_lines(&event, true).len(), 1);
}

#[test]
fn a_late_reason_names_its_crate() {
    let event = DisplayEvent::LateReason {
        id: CrateId::new("a v0.1.0"),
        reason: "why".to_string(),
    };
    assert_eq!(
        stream_event_lines(&event, false),
        ["     \u{1b}[2mreason(a v0.1.0):\u{1b}[0m \u{1b}[2mwhy\u{1b}[0m"]
    );
    assert_eq!(event.clone(), event);
}

#[test]
fn the_summary_tells_the_outcome_and_the_tally() {
    let counts = Counts { fresh: 120, dirty: 7, work: 0 };
    assert_eq!(
        summary_line(true, "1.50", counts),
        "\u{1b}[32mok\u{1b}[39m \u{1b}[2min 1.50s (fresh 120, dirty 7, work 0)\u{1b}[0m"
    );
    assert_eq!(
        summary_line(false, "0.00", Counts::default()),
        "\u{1b}[31mfailed\u{1b}[39m \u{1b}[2min 0.00s (fresh 0, dirty 0, work 0)\u{1b}[0m"
    );
}

#[test]
fn the_story_is_told_line_by_line() {
    let log = log_from(&[
        "Dirty a v0.1.0 (/tmp/a): the file `src/lib.rs` has changed",
        "Compiling a v0.1.0 (/tmp/a)",
        "Dirty b v0.1.0 (/tmp/b): the dependency `a` was rebuilt",
        "Compiling b v0.1.0 (/tmp/b)",
        "TRACE cargo::core::compiler::fingerprint: fingerprint dirty for b v0.1.0/x",
        "TRACE cargo::core::compiler::fingerprint: err: first",
        "TRACE cargo::core::compiler::fingerprint: Caused by: second",
    ]);
    let story = [
        "\u{1b}[1m\u{1b}[32mculprit\u{1b}[39m\u{1b}[0m \u{1b}[1ma v0.1.0\u{1b}[0m",
        "\u{1b}[2m  1\u{1b}[0m \u{1b}[1m\u{1b}[32mCompiling\u{1b}[39m\u{1b}[0m \u{1b}[1ma v0.1.0\u{1b}[0m",
        "     \u{1b}[2mreason:\u{1b}[0m \u{1b}[2mthe file `src/lib.rs` has changed\u{1b}[0m",
        "\u{1b}[2m  2\u{1b}[0m \u{1b}[1m\u{1b}[32mCompiling\u{1b}[39m\u{1b}[0m \u{1b}[1mb v0.1.0\u{1b}[0m",
        "     \u{1b}[2mcaused by:\u{1b}[0m \u{1b}[2ma v0.1.0\u{1b}[0m",
        "     \u{1b}[2mreason:\u{1b}[0m \u{1b}[2mthe dependency `a` was rebuilt\u{1b}[0m",
        "     \u{1b}[2mdetail:\u{1b}[0m \u{1b}[2mfirst\u{1b}[0m",
        "     \u{1b}[2mdetail:\u{1b}[0m \u{1b}[2mCaused by: second\u{1b}[0m",
    ];
    assert_eq!(explain_lines(&log), story);
    assert_eq!(explain_lines(&log_from(&["Fresh a v0.1.0"])), Vec::<String>::new());

    let closing = closing_lines(&log, true, true, "0.10");
    assert_eq!(closing[..8], story);
    assert_eq!(closing.len(), 9);
    assert_eq!(
        closing_lines(&log, false, true, "0.10"),
        ["\u{1b}[32mok\u{1b}[39m \u{1b}[2min 0.10s (fresh 0, dirty 2, work 2)\u{1b}[0m"]
    );
}

#[test]
fn the_tail_begins_at_the_first_error() {
    let log = log_from(&["warning: w", "  error: could not find", "Caused by:", "error: again"]);
    assert_eq!(
        raw_stderr_tail(&log),
        ["  error: could not find", "Caused by:", "error: again"]
    );
}

#[test]
fn the_tail_is_short_without_an_error() {
    let lines: Vec<String> = (0..25).map(|n| format!("line {n}")).collect();
    let borrowed: Vec<&str> = lines.iter().map(|line| line.as_str()).collect();
    assert_eq!(raw_stderr_tail(&log_from(&borrowed)), lines[5..]);
    assert_eq!(raw_stderr_tail(&log_from(&borrowed[..20])), lines[..20]);
    assert_eq!(raw_stderr_tail(&log_from(&borrowed[..3])), lines[..3]);
    assert_eq!(raw_stderr_tail(&log_from(&[])), Vec::<String>::new());
}

#[test]
fn a_failure_is_told_by_the_compiler_or_by_cargo() {
    let log = log_from(&["error: from cargo"]);
    let messages = vec![
        CargoMessage::Other,
        error("error: one"),
        CargoMessage::CompilerMessage {
            level: DiagnosticLevel::Other,
            rendered: Some("warning: no".to_string()),
        },
        CargoMessage::CompilerMessage { level: DiagnosticLevel::Error, rendered: None },
        error("error: two"),
    ];
    assert_eq!(errors(&messages), ["error: one", "error: two"]);
    assert_eq!(failure_lines(false, &messages, &log), ["error: one", "error: two"]);
    assert_eq!(failure_lines(false, &messages[..1], &log), ["error: from cargo"]);
    assert_eq!(failure_lines(true, &messages, &log), Vec::<String>::new());
}

#[test]
fn what_the_program_writes_is_passed_on_as_it_stands() {
    let mut messages = Vec::new();
    assert_eq!(
        ingest_stdout_line(&mut messages, b"ARGS: --user-flag\n"),
        Some(PassedOn::Stdout("ARGS: --user-flag".to_string()))
    );
    assert_eq!(
        ingest_stdout_line(&mut messages, b"  {not json}\r\n"),
        Some(PassedOn::Stdout("  {not json}\r".to_string()))
    );
    assert_eq!(
        ingest_stdout_line(&mut messages, b"\n"),
        Some(PassedOn::Stdout(String::new()))
    );
    assert_eq!(
        ingest_stdout_line(&mut messages, b"42"),
        Some(PassedOn::Stdout("42".to_string()))
    );
    assert_eq!(ingest_stdout_line(&mut messages, b""), None);
    assert_eq!(messages, Vec::new());
}

#[test]
fn messages_of_cargo_are_kept() {
    let mut messages = Vec::new();
    let finished = b"{\"reason\":\"build-finished\",\"success\":false}\n";
    assert_eq!(ingest_stdout_line(&mut messages, finished), None);
    let failed = concat_json("error", "\"error: expected item\\n\"");
    assert_eq!(ingest_stdout_line(&mut messages, failed.as_bytes()), None);
    let warned = concat_json("warning", "\"warning: unused\"");
    assert_eq!(ingest_stdout_line(&mut messages, warned.as_bytes()), None);
    let silent = concat_json("error", "null");
    assert_eq!(ingest_stdout_line(&mut messages, silent.as_bytes()), None);

    assert_eq!(
        messages,
        vec![
            CargoMessage::Other,
            error("error: expected item\n"),
            CargoMessage::CompilerMessage {
                level: DiagnosticLevel::Other,
                rendered: Some("warning: unused".to_string()),
            },
            CargoMessage::CompilerMessage { level: DiagnosticLevel::Error, rendered: None },
        ]
    );
    assert_eq!(errors(&messages), ["error: expected item\n"]);
}

fn concat_json(level: &str, rendered: &str) -> String {
    format!(
        "{{\"reason\":\"compiler-message\",\"package_id\":\"path+file:///w/leaf#0.1.0\",\"manifest_path\":\"/w/leaf/Cargo.toml\",\"target\":{{\"kind\":[\"lib\"],\"crate_types\":[\"lib\"],\"name\":\"leaf\",\"src_path\":\"/w/leaf/src/lib.rs\",\"edition\":\"2021\",\"doc\":true,\"doctest\":true,\"test\":true}},\"message\":{{\"message\":\"m\",\"code\":null,\"level\":\"{level}\",\"spans\":[],\"children\":[],\"rendered\":{rendered}}}}}\n"
    )
}

#[test]
fn an_unreadable_line_is_reported_and_skipped() {
    let mut messages = Vec::new();
    let passed = ingest_stdout_line(&mut messages, b"caf\xe9\n");
    assert_eq!(messages, Vec::new());
    match passed {
        Some(PassedOn::Stderr(line)) => {
            assert!(line.starts_with("warning: cargo-dirty: unreadable cargo output line: "));
            assert!(line.len() > "warning: cargo-dirty: unreadable cargo output line: ".len());
        }
        other => panic!("passed on as {other:?}"),
    }
}

#[test]
fn sorted_lines_go_where_they_belong() {
    let mut messages = Vec::new();
    assert_eq!(
        sort_line(&mut messages, StdoutLine::Unreadable("why".to_string())),
        Some(PassedOn::Stderr(
            "warning: cargo-dirty: unreadable cargo output line: why".to_string()
        ))
    );
    assert_eq!(
        sort_line(&mut messages, StdoutLine::Text("t".to_string())),
        Some(PassedOn::Stdout("t".to_string()))
    );
    assert_eq!(sort_line(&mut messages, StdoutLine::Message(CargoMessage::Other)), None);
    assert_eq!(messages, vec![CargoMessage::Other]);
}

#[test]
fn numbers_are_written_in_decimal() {
    assert_eq!(number_text(0), "0");
    assert_eq!(number_text(7), "7");
    assert_eq!(number_text(10), "10");
    assert_eq!(number_text(90210), "90210");
    assert_eq!(number_text(usize::MAX), usize::MAX.to_string());
    assert_eq!(index_text(1), "  1");
    assert_eq!(index_text(42), " 42");
    assert_eq!(index_text(999), "999");
    assert_eq!(index_text(1000), "1000");
}

#[test]
fn the_story_of_a_circle_names_no_cause() {
    let log = log_from(&[
        "Dirty a v0.1.0: the dependency `b` was rebuilt",
        "Compiling a v0.1.0",
        "Dirty b v0.1.0: the dependency `a` was rebuilt",
        "Compiling b v0.1.0",
    ]);
    assert_eq!(
        explain_lines(&log),
        [
            "\u{1b}[1m\u{1b}[32mculprit\u{1b}[39m\u{1b}[0m \u{1b}[1ma v0.1.0\u{1b}[0m",
            "\u{1b}[2m  1\u{1b}[0m \u{1b}[1m\u{1b}[32mCompiling\u{1b}[39m\u{1b}[0m \u{1b}[1ma v0.1.0\u{1b}[0m",
            "     \u{1b}[2mreason:\u{1b}[0m \u{1b}[2mthe dependency `b` was rebuilt\u{1b}[0m",
        ]
    );
}

#[test]
fn the_reason_stands_behind_the_label_of_an_unreadable_line() {
    let mut messages = Vec::new();
    assert_eq!(
        ingest_stdout_line(&mut messages, b"{\"reason\":\"\xff\"}\n"),
        Some(PassedOn::Stderr(
            "warning: cargo-dirty: unreadable cargo output line: stream did not contain valid UTF-8"
                .to_string()
        ))
    );
}

/// A message of cargo with a member that is nested so deep that the whole line has this depth.
fn nested_message(depth: usize) -> String {
    let brackets = depth - 1;
    format!(
        "{{\"reason\":\"build-finished\",\"success\":true,\"x\":{}{}}}\n",
        "[".repeat(brackets),
        "]".repeat(brackets)
    )
}

#[test]
fn only_json_that_is_nested_too_deep_cannot_be_read() {
    let mut messages = Vec::new();
    let fits = nested_message(MAX_NESTING);
    assert!(can_be_read(fits.as_bytes()));
    assert_eq!(ingest_stdout_line(&mut messages, fits.as_bytes()), None);
    assert_eq!(messages, vec![CargoMessage::Other]);

    for depth in [MAX_NESTING + 1, 500_000] {
        assert!(!can_be_read(nested_message(depth).as_bytes()));
    }
    assert!(can_be_read(b""));
    assert!(can_be_read(b"\n[[["));
}

#[test]
fn deep_brackets_without_json_around_them_are_read() {
    let mut messages = Vec::new();
    let text = "x = ".to_string() + &"[".repeat(500_000);
    assert!(can_be_read(text.as_bytes()));
    assert_eq!(
        ingest_stdout_line(&mut messages, text.as_bytes()),
        Some(PassedOn::Stdout(text.clone()))
    );

    let mut broken = "{\"x\":".to_string().into_bytes();
    broken.extend("[".repeat(500_000).bytes());
    broken.push(0xff);
    assert!(can_be_read(&broken));
    assert_eq!(
        ingest_stdout_line(&mut messages, &broken),
        Some(PassedOn::Stderr(
            "warning: cargo-dirty: unreadable cargo output line: stream did not contain valid UTF-8"
                .to_string()
        ))
    );
    assert_eq!(messages, Vec::new());
}

#[test]
fn brackets_in_strings_are_not_nested() {
    let mut messages = Vec::new();
    let rendered = format!("\"a \\\" {} \\\\\"", "[".repeat(2 * MAX_NESTING));
    let line = concat_json("error", &rendered);
    assert!(can_be_read(line.as_bytes()));
    assert_eq!(ingest_stdout_line(&mut messages, line.as_bytes()), None);
    assert_eq!(errors(&messages), [format!("a \" {} \\", "[".repeat(2 * MAX_NESTING))]);

    let many = "[]".repeat(MAX_NESTING + 1);
    assert_eq!(
        ingest_stdout_line(&mut messages, many.as_bytes()),
        Some(PassedOn::Stdout(many.clone()))
    );
}

/// A span whose text comes out of this many macros, one in the other.
fn expanded_span(macros: usize) -> String {
    let mut span = plain_span("null");
    for _ in 0..macros {
        span = plain_span(&format!(
            "{{\"span\":{span},\"macro_decl_name\":\"m!\",\"def_site_span\":null}}"
        ));
    }
    span
}

fn plain_span(expansion: &str) -> String {
    format!(
        "{{\"file_name\":\"a.rs\",\"byte_start\":0,\"byte_end\":1,\"line_start\":1,\"line_end\":1,\"column_start\":1,\"column_end\":2,\"is_primary\":true,\"text\":[],\"label\":null,\"suggested_replacement\":null,\"suggestion_applicability\":null,\"expansion\":{expansion}}}"
    )
}

#[test]
fn an_error_deep_in_macros_is_read() {
    for macros in [128, MAX_NESTING / 2 - 3] {
        let mut messages = Vec::new();
        let spans = format!("\"spans\":[{}]", expanded_span(macros));
        let line = concat_json("error", "\"error: deep\"").replace("\"spans\":[]", &spans);
        assert!(can_be_read(line.as_bytes()));
        assert_eq!(ingest_stdout_line(&mut messages, line.as_bytes()), None);
        assert_eq!(errors(&messages), ["error: deep"]);
    }
}

#[test]
fn an_error_with_notes_on_notes_is_read() {
    let mut note = String::new();
    for _ in 0..MAX_NESTING / 2 - 2 {
        note = format!(
            "{{\"message\":\"m\",\"code\":null,\"level\":\"note\",\"spans\":[],\"children\":[{note}],\"rendered\":null}}"
        );
    }
    let children = format!("\"children\":[{note}]");
    let line = concat_json("error", "\"error: noted\"").replace("\"children\":[]", &children);
    let mut messages = Vec::new();
    assert!(can_be_read(line.as_bytes()));
    assert_eq!(ingest_stdout_line(&mut messages, line.as_bytes()), None);
    assert_eq!(errors(&messages), ["error: noted"]);
}
