use cargo_dirty::engine::{Counts, Engine, Event};
use cargo_dirty::parse::CrateStatusKind;


#[test]
fn engine_emits_work_started_only_once() {
    let mut eng = Engine::new();

    let e1 = eng.ingest_stderr_line("Compiling foo v0.1.0 (/tmp/foo)");
    let e2 = eng.ingest_stderr_line("Compiling foo v0.1.0 (/tmp/foo)");

    assert_eq!(e1.len(), 1);
    assert_eq!(e2.len(), 0);

    assert_eq!(
        eng.counts(),
        Counts {
            fresh: 0,
            dirty: 0,
            work: 1
        }
    );
}

#[test]
fn engine_captures_indented_fresh_and_counts_it() {
    let mut eng = Engine::new();
    let evs = eng.ingest_stderr_line("       Fresh bar v0.2.0 (/tmp/bar)");
    assert_eq!(evs.len(), 0);
    assert_eq!(eng.counts().fresh, 1);
}

#[test]
fn engine_attaches_reason_if_known_before_work() {
    let mut eng = Engine::new();
    let _ = eng
        .ingest_stderr_line("Dirty foo v0.1.0 (/tmp/foo): the file `src/lib.rs` has changed");
    let evs = eng.ingest_stderr_line("Compiling foo v0.1.0 (/tmp/foo)");

    assert_eq!(
        evs,
        vec![Event::WorkStarted {
            kind: CrateStatusKind::Compiling,
            crate_id: "foo v0.1.0".to_string(),
            reason: Some("the file `src/lib.rs` has changed".to_string()),
        }]
    );
}

#[test]
fn engine_emits_reason_update_if_reason_arrives_after_work_started() {
    let mut eng = Engine::new();
    let evs1 = eng.ingest_stderr_line("Checking foo v0.1.0 (/tmp/foo)");
    assert_eq!(evs1.len(), 1);

    let evs2 =
        eng.ingest_stderr_line("Dirty foo v0.1.0 (/tmp/foo): the file `build.rs` has changed");

    assert_eq!(
        evs2,
        vec![Event::WorkReason {
            crate_id: "foo v0.1.0".to_string(),
            reason: "the file `build.rs` has changed".to_string(),
        }]
    );
}

#[test]
fn engine_tells_a_reason_once() {
    let mut eng = Engine::default();
    assert_eq!(eng.ingest_stderr_line("Building foo v0.1.0").len(), 1);
    assert_eq!(eng.ingest_stderr_line("Dirty foo v0.1.0: one").len(), 1);
    assert_eq!(eng.ingest_stderr_line("Dirty foo v0.1.0: two").len(), 0);
    assert_eq!(eng.ingest_stderr_line("Checking foo v0.1.0").len(), 0);
    assert_eq!(eng.counts(), Counts { fresh: 0, dirty: 1, work: 1 });
}

#[test]
fn engine_ignores_lines_about_the_build() {
    let mut eng = Engine::new();
    assert_eq!(eng.ingest_stderr_line("   Running `rustc`").len(), 0);
    assert_eq!(eng.ingest_stderr_line("  Finished `dev`").len(), 0);
    assert_eq!(eng.ingest_stderr_line("Compiling <odd v0.1.0").len(), 0);
    assert_eq!(eng.ingest_stderr_line("anything else").len(), 0);
    assert_eq!(eng.counts(), Counts::default());
}

#[test]
fn engine_tells_a_late_reason_after_a_start_without_one() {
    let mut eng = Engine::new();
    let mut told = Vec::new();
    for line in ["Compiling a v0.1.0", "Compiling b v0.1.0", "Dirty a v0.1.0: why"] {
        told.extend(eng.ingest_stderr_line(line));
    }
    assert_eq!(
        told,
        vec![
            Event::WorkStarted {
                kind: CrateStatusKind::Compiling,
                crate_id: "a v0.1.0".to_string(),
                reason: None,
            },
            Event::WorkStarted {
                kind: CrateStatusKind::Compiling,
                crate_id: "b v0.1.0".to_string(),
                reason: None,
            },
            Event::WorkReason { crate_id: "a v0.1.0".to_string(), reason: "why".to_string() },
        ]
    );
}
