use cargo_dirty::build_log::BuildLog;
use cargo_dirty::explain::{
    Culprit, analyze, extract_dependency_name, infer_causes_from_reasons, infer_culprit,
    reaches_culprit, work_entries,
};
use cargo_dirty::ordered::OrderedMap;
use cargo_dirty::parse::{CrateId, WorkKind};


fn log_from(lines: &[&str]) -> BuildLog {
    let mut log = BuildLog::new();
    for line in lines {
        let _ = log.ingest_line(line);
    }
    log
}

#[test]
fn picks_first_root_as_culprit_and_builds_cascade() {
    let log = log_from(&[
        "Dirty a v0.1.0 (/tmp/a): the file `src/lib.rs` has changed",
        "Compiling a v0.1.0 (/tmp/a)",
        "Dirty b v0.1.0 (/tmp/b): dependency on `a` is newer than we are",
        "Compiling b v0.1.0 (/tmp/b)",
    ]);

    let a = analyze(&log).unwrap();
    assert_eq!(a.culprit, CrateId::new("a v0.1.0"));
    assert_eq!(a.cascade.len(), 2);
    assert_eq!(a.cascade[0].crate_id, CrateId::new("a v0.1.0"));
    assert_eq!(a.cascade[0].caused_by, None);
    assert_eq!(a.cascade[1].crate_id, CrateId::new("b v0.1.0"));
    assert_eq!(a.cascade[1].caused_by, Some(CrateId::new("a v0.1.0")));
}

#[test]
fn falls_back_to_first_work_crate_if_no_roots_can_be_inferred() {
    let log = log_from(&[
        "Dirty a v0.1.0 (/tmp/a): dependency on `b` is newer than we are",
        "Compiling a v0.1.0 (/tmp/a)",
        "Dirty b v0.1.0 (/tmp/b): dependency on `a` is newer than we are",
        "Compiling b v0.1.0 (/tmp/b)",
    ]);

    let a = analyze(&log).unwrap();
    assert_eq!(a.culprit, CrateId::new("a v0.1.0"));
    assert_eq!(a.cascade.len(), 1);
    assert_eq!(a.cascade[0].crate_id, CrateId::new("a v0.1.0"));
}

#[test]
fn has_nothing_to_explain_when_no_crate_did_work() {
    let log = log_from(&["Fresh a v0.1.0 (/tmp/a)"]);
    assert!(analyze(&log).is_none());
}

#[test]
fn declines_to_infer_a_cause_when_the_dependency_name_is_ambiguous() {
    let work = vec![
        (CrateId::new("syn v1.0.0"), WorkKind::Compiling),
        (CrateId::new("syn v2.0.0"), WorkKind::Compiling),
        (CrateId::new("c v0.1.0"), WorkKind::Compiling),
    ];

    let mut reasons = OrderedMap::new();
    reasons.insert(
        CrateId::new("c v0.1.0"),
        "dependency on `syn` is newer than we are".to_string(),
    );

    assert_eq!(infer_causes_from_reasons(&work, &reasons), OrderedMap::new());
}

#[test]
fn infers_a_cause_when_exactly_one_version_of_the_dependency_was_built() {
    let work = vec![
        (CrateId::new("syn v2.0.0"), WorkKind::Compiling),
        (CrateId::new("c v0.1.0"), WorkKind::Compiling),
    ];

    let mut reasons = OrderedMap::new();
    reasons.insert(
        CrateId::new("c v0.1.0"),
        "dependency on `syn` is newer than we are".to_string(),
    );

    let causes = infer_causes_from_reasons(&work, &reasons);
    assert_eq!(
        causes.get(&CrateId::new("c v0.1.0")),
        Some(&CrateId::new("syn v2.0.0"))
    );
}

#[test]
fn a_cause_cycle_that_misses_the_culprit_terminates() {
    let mut causes = OrderedMap::new();
    causes.insert(CrateId::new("a v0.1.0"), CrateId::new("b v0.1.0"));
    causes.insert(CrateId::new("b v0.1.0"), CrateId::new("a v0.1.0"));

    assert_eq!(
        reaches_culprit(
            &CrateId::new("a v0.1.0"),
            &CrateId::new("z v0.1.0"),
            &causes
        ),
        false
    );
}

#[test]
fn each_entry_tells_its_reason_cause_and_details() {
    let log = log_from(&[
        "Fresh z v0.1.0",
        "Dirty a v0.1.0 (/tmp/a): the file `src/lib.rs` has changed",
        "Checking a v0.1.0 (/tmp/a)",
        "Compiling other v3.0.0",
        "Dirty b v0.1.0 (/tmp/b): the dependency `a` was rebuilt",
        "Building b v0.1.0 (/tmp/b)",
        "Dirty c v0.1.0: the dependency `b` was rebuilt",
        "Compiling c v0.1.0",
        "TRACE cargo::core::compiler::fingerprint: fingerprint dirty for b v0.1.0 (/tmp/b)/Check",
        "TRACE cargo::core::compiler::fingerprint: dirty: UnitDependencyInfoChanged",
    ]);

    let story = analyze(&log).unwrap();
    assert_eq!(story.culprit, CrateId::new("a v0.1.0"));
    let ids: Vec<&str> = story.cascade.iter().map(|entry| entry.crate_id.as_str()).collect();
    assert_eq!(ids, ["a v0.1.0", "b v0.1.0", "c v0.1.0"]);
    assert_eq!(story.cascade[0].kind, WorkKind::Checking);
    assert_eq!(story.cascade[1].kind, WorkKind::Building);
    assert_eq!(
        story.cascade[1].reason,
        Some("the dependency `a` was rebuilt".to_string())
    );
    assert_eq!(story.cascade[1].caused_by, Some(CrateId::new("a v0.1.0")));
    assert_eq!(story.cascade[1].details, ["UnitDependencyInfoChanged"]);
    assert_eq!(story.cascade[2].caused_by, Some(CrateId::new("b v0.1.0")));
    assert_eq!(story.cascade[2].details, Vec::<String>::new());
    assert_eq!(story.clone(), story);
}

#[test]
fn work_without_a_reason_is_a_root() {
    let log = log_from(&["Compiling a v0.1.0", "Compiling b v0.1.0"]);
    let story = analyze(&log).unwrap();
    assert_eq!(story.culprit, CrateId::new("a v0.1.0"));
    assert_eq!(story.cascade.len(), 1);
    assert_eq!(story.cascade[0].reason, None);
}

#[test]
fn a_crate_is_not_its_own_cause() {
    let work = vec![(CrateId::new("a v0.1.0"), WorkKind::Compiling)];
    let mut reasons = OrderedMap::new();
    reasons.insert(
        CrateId::new("a v0.1.0"),
        "the dependency `a` was rebuilt".to_string(),
    );
    assert_eq!(infer_causes_from_reasons(&work, &reasons), OrderedMap::new());
}

#[test]
fn names_a_dependency_in_either_phrasing() {
    assert_eq!(
        extract_dependency_name("dependency on `a` is newer than we are"),
        Some("a")
    );
    assert_eq!(
        extract_dependency_name("the dependency `serde_json` was rebuilt"),
        Some("serde_json")
    );
    assert_eq!(
        extract_dependency_name("the dependency `x` and dependency on `y`"),
        Some("y")
    );
    assert_eq!(extract_dependency_name("dependency on `` but dependency `z`"), Some("z"));
    assert_eq!(extract_dependency_name("the dependency `unclosed"), None);
    assert_eq!(extract_dependency_name("the file `src/lib.rs` has changed"), None);
    assert_eq!(extract_dependency_name(""), None);
}

#[test]
fn work_is_listed_once_per_crate_with_its_first_kind() {
    let log = log_from(&[
        "Checking a v0.1.0",
        "Fresh b v0.1.0",
        "Compiling c v0.1.0",
        "Compiling a v0.1.0",
    ]);
    assert_eq!(
        work_entries(log.statuses()),
        vec![
            (CrateId::new("a v0.1.0"), WorkKind::Checking),
            (CrateId::new("c v0.1.0"), WorkKind::Compiling),
        ]
    );
}

#[test]
fn the_first_crate_without_a_cause_is_blamed() {
    let a = CrateId::new("a v0.1.0");
    let b = CrateId::new("b v0.1.0");
    let work = vec![(a.clone(), WorkKind::Compiling), (b.clone(), WorkKind::Compiling)];
    let mut causes = OrderedMap::new();
    assert_eq!(infer_culprit(&work, &causes), Some(Culprit::Root(a.clone())));
    causes.insert(a.clone(), b.clone());
    assert_eq!(infer_culprit(&work, &causes), Some(Culprit::Root(b.clone())));
    causes.insert(b.clone(), a.clone());
    assert_eq!(infer_culprit(&work, &causes), Some(Culprit::Fallback(a.clone())));
    assert_eq!(infer_culprit(&[], &causes), None);
}

#[test]
fn a_chain_of_causes_is_followed_to_its_end() {
    let ids: Vec<CrateId> = (0..5).map(|n| CrateId::new(&format!("c{n} v0.1.0"))).collect();
    let mut causes = OrderedMap::new();
    for n in 1..5 {
        causes.insert(ids[n].clone(), ids[n - 1].clone());
    }
    assert!(reaches_culprit(&ids[4], &ids[0], &causes));
    assert!(reaches_culprit(&ids[0], &ids[0], &causes));
    assert!(!reaches_culprit(&ids[0], &ids[4], &causes));
}

#[test]
fn the_culprit_of_a_circle_has_no_cause() {
    let log = log_from(&[
        "Dirty a v0.1.0 (/tmp/a): dependency on `b` is newer than we are",
        "Compiling a v0.1.0 (/tmp/a)",
        "Dirty b v0.1.0 (/tmp/b): dependency on `a` is newer than we are",
        "Compiling b v0.1.0 (/tmp/b)",
    ]);

    let story = analyze(&log).unwrap();
    assert_eq!(story.culprit, CrateId::new("a v0.1.0"));
    assert_eq!(story.cascade.len(), 1);
    assert_eq!(story.cascade[0].caused_by, None);
    assert_eq!(
        story.cascade[0].reason,
        Some("dependency on `b` is newer than we are".to_string())
    );
}
