use cargo_dirty::build_log::{BuildLog, Counts, DisplayEvent};
use cargo_dirty::ordered::OrderedMap;
use cargo_dirty::parse::{CrateId, StatusKind, WorkKind};

fn reasons_from(entries: Vec<(CrateId, String)>) -> OrderedMap<CrateId, String> {
    let mut reasons = OrderedMap::new();
    for (id, reason) in entries {
        reasons.insert(id, reason);
    }
    reasons
}


#[test]
fn build_log_emits_work_started_only_once() {
    let mut log = BuildLog::new();

    let e1 = log.ingest_line("Compiling foo v0.1.0 (/tmp/foo)");
    let e2 = log.ingest_line("Compiling foo v0.1.0 (/tmp/foo)");

    assert_eq!(e1.len(), 1);
    assert_eq!(e2.len(), 0);

    assert_eq!(
        log.counts(),
        Counts {
            fresh: 0,
            dirty: 0,
            work: 1
        }
    );
}

#[test]
fn build_log_captures_indented_fresh_and_counts_it() {
    let mut log = BuildLog::new();
    let events = log.ingest_line("       Fresh bar v0.2.0 (/tmp/bar)");

    assert_eq!(
        events,
        vec![DisplayEvent::Fresh {
            id: CrateId::new("bar v0.2.0"),
        }]
    );
    assert_eq!(log.counts().fresh, 1);
    assert_eq!(log.statuses().len(), 1);
    assert_eq!(log.statuses()[0].id, CrateId::new("bar v0.2.0"));
}

#[test]
fn emits_fresh_only_once_per_crate() {
    let mut log = BuildLog::new();

    let e1 = log.ingest_line("Fresh bar v0.2.0 (/tmp/bar)");
    let e2 = log.ingest_line("Fresh bar v0.2.0 (/tmp/bar)");

    assert_eq!(e1.len(), 1);
    assert_eq!(e2.len(), 0);
    assert_eq!(log.counts().fresh, 1);
}

#[test]
fn build_log_attaches_reason_if_known_before_work() {
    let mut log = BuildLog::new();
    let _ = log.ingest_line("Dirty foo v0.1.0 (/tmp/foo): the file `src/lib.rs` has changed");
    let events = log.ingest_line("Compiling foo v0.1.0 (/tmp/foo)");

    assert_eq!(
        events,
        vec![DisplayEvent::WorkStarted {
            kind: WorkKind::Compiling,
            id: CrateId::new("foo v0.1.0"),
            reason: Some("the file `src/lib.rs` has changed".to_string()),
        }]
    );
}

#[test]
fn build_log_emits_reason_update_if_reason_arrives_after_work_started() {
    let mut log = BuildLog::new();
    let started = log.ingest_line("Checking foo v0.1.0 (/tmp/foo)");
    assert_eq!(started.len(), 1);

    let late = log.ingest_line("Dirty foo v0.1.0 (/tmp/foo): the file `build.rs` has changed");

    assert_eq!(
        late,
        vec![DisplayEvent::LateReason {
            id: CrateId::new("foo v0.1.0"),
            reason: "the file `build.rs` has changed".to_string(),
        }]
    );
}

#[test]
fn records_status_lines_and_extracts_reason() {
    let mut log = BuildLog::new();
    log.ingest_line("Dirty foo v0.1.0 (/tmp/foo): the file `src/lib.rs` has changed");

    assert_eq!(log.statuses().len(), 1);
    assert_eq!(
        log.reasons().get(&CrateId::new("foo v0.1.0")),
        Some(&"the file `src/lib.rs` has changed".to_string())
    );
}

#[test]
fn records_fingerprint_trace_lines() {
    let mut log = BuildLog::new();
    let events = log
        .ingest_line("TRACE cargo::core::compiler::fingerprint: compare fingerprints for foo");

    assert_eq!(events, Vec::new());
    assert_eq!(log.fingerprint_lines().len(), 1);
}

#[test]
fn collects_unrelated_lines_for_failure_dump() {
    let mut log = BuildLog::new();
    let events = log.ingest_line("warning: something happened");

    assert_eq!(events, Vec::new());
    assert_eq!(log.other_stderr(), ["warning: something happened"]);
}

fn ingest_all(log: &mut BuildLog, transcript: &str) -> Vec<DisplayEvent> {
    transcript
        .lines()
        .flat_map(|line| log.ingest_line(line))
        .collect()
}

/// A run of `cargo check -vv` on a two-crate workspace after touching the leaf crate,
/// abridged but otherwise verbatim. `build-only` stands in for a unit cargo declares dirty
/// without separately announcing work for it.
const TRANSCRIPT: &str = "\
       Fresh unicode-ident v1.0.12
       Fresh serde v1.0.200
       Dirty leaf v0.1.0 (/tmp/w/leaf): the file `leaf/src/lib.rs` has changed (1785346860.4s, 8s after last build at 1785346852.3s)
    Checking leaf v0.1.0 (/tmp/w/leaf)
     Running `rustc --crate-name leaf --edition=2021 leaf/src/lib.rs --crate-type lib`
       Fresh serde v1.0.200
       Dirty build-only v0.3.0 (/tmp/w/build-only): the profile configuration changed
       Dirty root v0.1.0 (/tmp/w/root): the dependency `leaf` was rebuilt
    Checking root v0.1.0 (/tmp/w/root)
     Running `rustc --crate-name root --edition=2021 root/src/lib.rs --crate-type lib`
TRACE cargo::core::compiler::fingerprint: fingerprint error for leaf v0.1.0/Unit
warning: unused manifest key: package.foo
warning: leaf@0.1.0: cc: warning: unknown option

    Finished `dev` profile [unoptimized + debuginfo] target(s) in 0.42s
";

#[test]
fn counts_a_whole_transcript() {
    let mut log = BuildLog::new();
    let _ = ingest_all(&mut log, TRANSCRIPT);

    // `dirty` exceeds `work` because cargo declared `build-only` stale without reporting a
    // work unit for it.
    assert_eq!(
        log.counts(),
        Counts {
            fresh: 2,
            dirty: 3,
            work: 2
        }
    );
}

#[test]
fn emits_one_event_per_first_sighting_across_a_transcript() {
    let mut log = BuildLog::new();
    let events = ingest_all(&mut log, TRANSCRIPT);

    assert_eq!(
        events,
        vec![
            DisplayEvent::Fresh {
                id: CrateId::new("unicode-ident v1.0.12"),
            },
            DisplayEvent::Fresh {
                id: CrateId::new("serde v1.0.200"),
            },
            DisplayEvent::WorkStarted {
                kind: WorkKind::Checking,
                id: CrateId::new("leaf v0.1.0"),
                reason: Some(
                    "the file `leaf/src/lib.rs` has changed (1785346860.4s, 8s after last build at 1785346852.3s)"
                        .to_string()
                ),
            },
            DisplayEvent::WorkStarted {
                kind: WorkKind::Checking,
                id: CrateId::new("root v0.1.0"),
                reason: Some("the dependency `leaf` was rebuilt".to_string()),
            },
        ]
    );
}

#[test]
fn keeps_every_reason_from_a_transcript() {
    let mut log = BuildLog::new();
    let _ = ingest_all(&mut log, TRANSCRIPT);

    assert_eq!(
        log.reasons(),
        &reasons_from(vec![
            (
                CrateId::new("build-only v0.3.0"),
                "the profile configuration changed".to_string()
            ),
            (
                CrateId::new("leaf v0.1.0"),
                "the file `leaf/src/lib.rs` has changed (1785346860.4s, 8s after last build at 1785346852.3s)"
                    .to_string()
            ),
            (
                CrateId::new("root v0.1.0"),
                "the dependency `leaf` was rebuilt".to_string()
            ),
        ])
    );
}

#[test]
fn keeps_unrecognised_transcript_lines_verbatim() {
    let mut log = BuildLog::new();
    let _ = ingest_all(&mut log, TRANSCRIPT);

    assert_eq!(
        log.other_stderr(),
        [
            "     Running `rustc --crate-name leaf --edition=2021 leaf/src/lib.rs --crate-type lib`",
            "     Running `rustc --crate-name root --edition=2021 root/src/lib.rs --crate-type lib`",
            "warning: unused manifest key: package.foo",
            "warning: leaf@0.1.0: cc: warning: unknown option",
            "",
            "    Finished `dev` profile [unoptimized + debuginfo] target(s) in 0.42s",
        ]
    );
    assert_eq!(
        log.fingerprint_lines(),
        ["TRACE cargo::core::compiler::fingerprint: fingerprint error for leaf v0.1.0/Unit"]
    );
}

/// With parallel jobs a `Dirty` line can land after other crates have already been
/// announced, which is what `LateReason` exists to disambiguate.
const PARALLEL_TRANSCRIPT: &str = "\
    Checking leaf v0.1.0 (/tmp/w/leaf)
    Checking root v0.1.0 (/tmp/w/root)
       Dirty leaf v0.1.0 (/tmp/w/leaf): the file `leaf/src/lib.rs` has changed
";

#[test]
fn attributes_a_reason_that_arrives_after_other_crates_started() {
    let mut log = BuildLog::new();
    let events = ingest_all(&mut log, PARALLEL_TRANSCRIPT);

    assert_eq!(
        events,
        vec![
            DisplayEvent::WorkStarted {
                kind: WorkKind::Checking,
                id: CrateId::new("leaf v0.1.0"),
                reason: None,
            },
            DisplayEvent::WorkStarted {
                kind: WorkKind::Checking,
                id: CrateId::new("root v0.1.0"),
                reason: None,
            },
            DisplayEvent::LateReason {
                id: CrateId::new("leaf v0.1.0"),
                reason: "the file `leaf/src/lib.rs` has changed".to_string(),
            },
        ]
    );
}

#[test]
fn raw_lines_lose_their_ending_and_keep_the_rest() {
    let mut log = BuildLog::new();
    assert_eq!(log.ingest_raw_line(b"  Compiling foo v0.1.0 (/tmp/foo)\r\n").len(), 1);
    let _ = log.ingest_raw_line(b"  note: a\rb\n");
    let _ = log.ingest_raw_line(b"no line feed");
    let _ = log.ingest_raw_line(b"\n");

    assert_eq!(log.statuses()[0].id, CrateId::new("foo v0.1.0"));
    assert_eq!(log.other_stderr(), ["  note: a\rb", "no line feed", ""]);
}

#[test]
fn a_line_that_is_not_utf8_is_kept_with_replacement_characters() {
    let mut log = BuildLog::new();
    let _ = log.ingest_raw_line(b"caf\xe9 au lait\n");
    assert_eq!(log.other_stderr(), ["caf\u{fffd} au lait"]);
}

#[test]
fn the_first_reason_is_the_one_that_stays() {
    let mut log = BuildLog::new();
    let _ = log.ingest_line("Compiling foo v0.1.0");
    let first = log.ingest_line("Dirty foo v0.1.0: one");
    let second = log.ingest_line("Dirty foo v0.1.0: two");

    assert_eq!(first.len(), 1);
    assert_eq!(second.len(), 0);
    assert_eq!(log.reasons().get(&CrateId::new("foo v0.1.0")), Some(&"one".to_string()));
    assert_eq!(
        log.statuses()[2].kind,
        StatusKind::Dirty { reason: "two".to_string() }
    );
    assert_eq!(log.counts(), Counts { fresh: 0, dirty: 1, work: 1 });
}

#[test]
fn an_empty_record_holds_nothing() {
    let log = BuildLog::default();
    assert_eq!(log.counts(), Counts::default());
    assert_eq!(log.statuses().len(), 0);
    assert_eq!(log.reasons().len(), 0);
}

#[test]
fn reasons_come_in_the_order_of_their_crates() {
    let mut log = BuildLog::new();
    let _ = log.ingest_line("Dirty b v0.1.0: two");
    let _ = log.ingest_line("Dirty a-z v0.1.0: one");
    let _ = log.ingest_line("Dirty a v0.1.0: zero");

    let ids: Vec<&str> = (0..3).map(|at| log.reasons().entry(at).unwrap().0.as_str()).collect();
    assert_eq!(ids, ["a v0.1.0", "a-z v0.1.0", "b v0.1.0"]);
    assert!(log.reasons().entry(3).is_none());
}
