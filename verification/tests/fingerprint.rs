use cargo_dirty::ordered::OrderedMap;
use cargo_dirty::parse::CrateId;
use cargo_dirty::parse::fingerprint::{
    detail_of, header_crate_id, is_fingerprint_trace_line, parse_details, payload,
};


#[test]
fn detects_trace_lines() {
    assert_eq!(
        is_fingerprint_trace_line("TRACE cargo::core::compiler::fingerprint: some message"),
        true
    );
    assert_eq!(is_fingerprint_trace_line("Compiling foo v0.1.0"), false);
}

#[test]
fn parses_details_for_a_crate() {
    let lines = vec![
        "TRACE cargo::core::compiler::fingerprint: fingerprint error for a v0.1.0/Build/TargetInner { .. }".to_string(),
        "TRACE cargo::core::compiler::fingerprint: err: unit dependency information changed".to_string(),
        "TRACE cargo::core::compiler::fingerprint: Caused by: new (x) != old (y)".to_string(),
    ];

    let details = parse_details(&lines);
    let a = details.get(&CrateId::new("a v0.1.0")).unwrap();

    assert_eq!(a.len(), 2);
    assert_eq!(a[0], "unit dependency information changed".to_string());
    assert_eq!(a[1], "Caused by: new (x) != old (y)".to_string());
}

/// Cargo 1.97 writes `fingerprint dirty for`, puts the package path between the version and
/// the unit description, and labels the detail `dirty:`.
#[test]
fn parses_details_from_the_current_cargo_phrasing() {
    let lines = vec![
        "   0.006s  INFO prepare_target{package_id=leaf v0.1.0 (/w/leaf)}: cargo::core::compiler::fingerprint: fingerprint dirty for leaf v0.1.0 (/w/leaf)/Check { test: false }/TargetInner { .. }".to_string(),
        "   0.006s  INFO prepare_target{package_id=leaf v0.1.0 (/w/leaf)}: cargo::core::compiler::fingerprint:     dirty: FsStatusOutdated(StaleItem(ChangedFile { stale: \"/w/leaf/src/lib.rs\" }))".to_string(),
    ];

    let details = parse_details(&lines);
    let leaf = details.get(&CrateId::new("leaf v0.1.0")).unwrap();

    assert_eq!(leaf.len(), 1);
    assert_eq!(
        leaf[0],
        "FsStatusOutdated(StaleItem(ChangedFile { stale: \"/w/leaf/src/lib.rs\" }))"
            .to_string()
    );
}

/// The lines cargo logs while deciding staleness arrive before the header that names the
/// crate, so they must not be attributed to whichever crate was named previously.
#[test]
fn ignores_trace_lines_that_are_not_recognised_details() {
    let lines = vec![
        "TRACE cargo::core::compiler::fingerprint: fingerprint dirty for a v0.1.0 (/w/a)/Check"
            .to_string(),
        "TRACE cargo::core::compiler::fingerprint: err: really changed".to_string(),
        "TRACE cargo::core::compiler::fingerprint: fingerprint at: /w/target/.fingerprint/b"
            .to_string(),
        "TRACE cargo::core::compiler::fingerprint: stale: changed \"/w/b/src/lib.rs\""
            .to_string(),
    ];

    let details = parse_details(&lines);

    assert_eq!(
        details.get(&CrateId::new("a v0.1.0")),
        Some(&vec!["really changed".to_string()])
    );
}

#[test]
fn ignores_detail_lines_before_any_header() {
    let lines =
        vec!["TRACE cargo::core::compiler::fingerprint: err: orphaned detail".to_string()];

    assert_eq!(parse_details(&lines), OrderedMap::new());
}

#[test]
fn strips_bracketed_log_framing() {
    assert_eq!(
        payload("2026-07-29 [cargo::core::compiler::fingerprint] err: changed"),
        "err: changed"
    );
}

#[test]
fn a_header_is_read_up_to_the_slash_behind_its_version() {
    assert_eq!(
        header_crate_id("fingerprint error for a v0.1.0/Build/TargetInner"),
        Some(CrateId::new("a v0.1.0"))
    );
    assert_eq!(
        header_crate_id("fingerprint dirty for  a   v0.1.0 (/w/a)/Check"),
        Some(CrateId::new("a v0.1.0"))
    );
    assert_eq!(header_crate_id("fingerprint dirty for a 0.1.0"), None);
    assert_eq!(header_crate_id("fingerprint dirty for a"), None);
    assert_eq!(header_crate_id("fingerprint at: a v0.1.0"), None);
}

#[test]
fn details_keep_only_the_label_that_reads_as_prose() {
    assert_eq!(detail_of("err:  changed "), Some("changed".to_string()));
    assert_eq!(detail_of("dirty: x"), Some("x".to_string()));
    assert_eq!(detail_of("Caused by: y"), Some("Caused by: y".to_string()));
    assert_eq!(detail_of("Caused by z"), Some("z".to_string()));
    assert_eq!(detail_of("Caused by:"), Some(":".to_string()));
    assert_eq!(detail_of("err:"), None);
    assert_eq!(detail_of("stale: w"), None);
}

#[test]
fn details_follow_the_latest_header() {
    let lines: Vec<String> = [
        "TRACE cargo::core::compiler::fingerprint: fingerprint dirty for b v0.1.0/x",
        "TRACE cargo::core::compiler::fingerprint: err: one",
        "TRACE cargo::core::compiler::fingerprint: fingerprint dirty for a v0.1.0/x",
        "TRACE cargo::core::compiler::fingerprint: err: two",
        "TRACE cargo::core::compiler::fingerprint: fingerprint dirty for b v0.1.0/x",
        "TRACE cargo::core::compiler::fingerprint: err: three",
    ]
    .iter()
    .map(|line| line.to_string())
    .collect();
    let details = parse_details(&lines);
    assert_eq!(details.len(), 2);
    assert_eq!(details.get(&CrateId::new("a v0.1.0")).unwrap(), &["two"]);
    assert_eq!(details.get(&CrateId::new("b v0.1.0")).unwrap(), &["one", "three"]);
}

#[test]
fn framing_is_stripped_at_its_first_mark() {
    assert_eq!(payload("  TRACE cargo::core::compiler::fingerprint:   err: x  "), "err: x");
    assert_eq!(payload("  no framing  "), "no framing");
}

#[test]
fn a_trace_behind_another_adds_its_own_details() {
    let first = vec![
        "TRACE cargo::core::compiler::fingerprint: fingerprint dirty for a v0.1.0/x".to_string(),
        "TRACE cargo::core::compiler::fingerprint: err: one".to_string(),
    ];
    let second = vec![
        "TRACE cargo::core::compiler::fingerprint: fingerprint dirty for a v0.1.0/y".to_string(),
        "TRACE cargo::core::compiler::fingerprint: err: two".to_string(),
    ];
    let joined: Vec<String> = first.iter().chain(second.iter()).cloned().collect();
    let a = CrateId::new("a v0.1.0");
    assert_eq!(parse_details(&first).get(&a).unwrap(), &["one"]);
    assert_eq!(parse_details(&second).get(&a).unwrap(), &["two"]);
    assert_eq!(parse_details(&joined).get(&a).unwrap(), &["one", "two"]);
}
