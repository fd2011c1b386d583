use cargo_dirty::parse::status::{parse, read_groups};
use cargo_dirty::parse::{
    CrateId, StatusKind, StderrLine, WorkKind, classify, parse_status_line,
};

fn dirty(line: &str) -> (String, String) {
    let status = parse(line).unwrap();
    match status.kind {
        StatusKind::Dirty { reason } => (status.id.as_str().to_string(), reason),
        other => panic!("not a dirty line: {other:?}"),
    }
}

fn read(id: &str, reason: &str) -> (String, String) {
    (id.to_string(), reason.to_string())
}


#[test]
fn status_parses_fresh() {
    let status = parse("Fresh foo v0.1.0 (/tmp/foo)").unwrap();
    assert_eq!(status.kind, StatusKind::Fresh);
    assert_eq!(status.id, CrateId::new("foo v0.1.0"));
}

#[test]
fn status_parses_dirty() {
    let status =
        parse("Dirty bar v0.2.0 (/tmp/bar): the file `src/lib.rs` has changed").unwrap();

    assert_eq!(status.id, CrateId::new("bar v0.2.0"));
    assert_eq!(
        status.kind,
        StatusKind::Dirty {
            reason: "the file `src/lib.rs` has changed".to_string()
        }
    );
}

#[test]
fn keeps_parenthesised_detail_inside_the_dirty_reason() {
    let status = parse(
        "Dirty bar v0.2.0 (/tmp/bar): the file `src/lib.rs` has changed (1.0s, 8s after last build at 0.5s)",
    )
    .unwrap();

    assert_eq!(
        status.kind,
        StatusKind::Dirty {
            reason: "the file `src/lib.rs` has changed (1.0s, 8s after last build at 0.5s)"
                .to_string()
        }
    );
}

#[test]
fn rejects_dirty_without_a_reason() {
    assert_eq!(parse("Dirty bar v0.2.0 (/tmp/bar)"), None);
}

#[test]
fn status_parses_compiling() {
    let status = parse("Compiling baz v1.2.3 (/tmp/baz)").unwrap();
    assert_eq!(status.kind, StatusKind::Work(WorkKind::Compiling));
    assert_eq!(status.id, CrateId::new("baz v1.2.3"));
}

#[test]
fn status_parses_checking() {
    let status = parse("Checking qux v0.9.9 (/tmp/qux)").unwrap();
    assert_eq!(status.kind, StatusKind::Work(WorkKind::Checking));
    assert_eq!(status.id, CrateId::new("qux v0.9.9"));
}

#[test]
fn parses_building() {
    let status = parse("Building quux v0.0.1 (/tmp/quux)").unwrap();
    assert_eq!(status.kind, StatusKind::Work(WorkKind::Building));
    assert_eq!(status.id, CrateId::new("quux v0.0.1"));
}

#[test]
fn parses_a_unit_without_a_source_path() {
    let status = parse("Fresh serde v1.0.200").unwrap();
    assert_eq!(status.kind, StatusKind::Fresh);
    assert_eq!(status.id, CrateId::new("serde v1.0.200"));
}

#[test]
fn status_ignores_unrelated_lines() {
    assert_eq!(parse("warning: something"), None);
    assert_eq!(parse("Running `rustc --crate-name foo`"), None);
    assert_eq!(parse("Finished `dev` profile in 0.1s"), None);
}

#[test]
fn the_shortest_path_is_taken() {
    assert_eq!(
        dirty("Dirty a v0.1.0 (/tmp/a): one): two"),
        read("a v0.1.0", "one): two")
    );
    assert_eq!(
        dirty("Dirty a v0.1.0 (/tmp/(a)): one"),
        read("a v0.1.0", "one")
    );
}

#[test]
fn a_reason_needs_no_path_in_front_of_it() {
    assert_eq!(dirty("Dirty a v0.1.0: changed"), read("a v0.1.0", "changed"));
    assert_eq!(dirty("Dirty a v0.1.0:  changed "), read("a v0.1.0", "changed "));
    assert_eq!(dirty("Dirty a v0.1.0 (/a): "), read("a v0.1.0", ""));
}

#[test]
fn a_reason_in_parentheses_without_a_path_is_read_as_the_path() {
    let status = parse("Fresh a v0.1.0: (foo)").unwrap();
    assert_eq!(status.id, CrateId::new("a v0.1.0:"));
    assert_eq!(status.kind, StatusKind::Fresh);
    assert_eq!(parse("Dirty a v0.1.0: (foo)"), None);
}

#[test]
fn white_space_of_any_kind_separates() {
    let status = parse("Fresh\u{2003}a\tv0.1.0  (/tmp/a)").unwrap();
    assert_eq!(status.id, CrateId::new("a\tv0.1.0"));
    assert_eq!(status.id.name(), "a");
}

#[test]
fn what_does_not_name_a_unit_is_no_status() {
    assert_eq!(parse("Fresh foo"), None);
    assert_eq!(parse("Fresh foo 0.1.0"), None);
    assert_eq!(parse("Fresh foo v"), None);
    assert_eq!(parse("Fresh foo v0.1.0 /tmp/foo"), None);
    assert_eq!(parse("Fresh foo v0.1.0 (/tmp/foo) more"), None);
    assert_eq!(parse(" Fresh foo v0.1.0"), None);
    assert_eq!(parse("Fresher foo v0.1.0"), None);
    assert_eq!(parse("Fresh foo v0.1.0\n"), None);
    assert_eq!(parse("Dirty foo v0.1.0: one\ntwo"), None);
    assert_eq!(parse(""), None);
}

#[test]
fn groups_decide_the_status() {
    assert_eq!(read_groups("Dirty", "a v1", None), None);
    assert_eq!(read_groups("Running", "a v1", None), None);
    assert_eq!(
        read_groups("Fresh", "a v1", Some("ignored".to_string())).unwrap().kind,
        StatusKind::Fresh
    );
}

#[test]
fn lines_fall_into_three_classes() {
    assert!(matches!(classify("   Compiling a v0.1.0"), StderrLine::Status(_)));
    assert_eq!(
        classify("  INFO cargo::core::compiler::fingerprint: x"),
        StderrLine::FingerprintTrace("INFO cargo::core::compiler::fingerprint: x".to_string())
    );
    assert_eq!(
        classify("   Running `rustc`"),
        StderrLine::Other("   Running `rustc`".to_string())
    );
}

#[test]
fn kinds_of_work_have_verbs() {
    assert_eq!(WorkKind::Compiling.verb(), "Compiling");
    assert_eq!(WorkKind::Checking.verb(), "Checking");
    assert_eq!(WorkKind::Building.verb(), "Building");
}

#[test]
fn both_readers_agree_on_plain_lines() {
    for line in [
        "Fresh a v0.1.0",
        "Dirty a v0.1.0 (/tmp/a): changed (8s after last build)",
        "Compiling a v0.1.0 (/tmp/a)",
        "Checking a v0.1.0",
        "Building a v0.1.0 (registry `x`)",
    ] {
        let status = parse(line).unwrap();
        let event = parse_status_line(line).unwrap();
        assert_eq!(status.id.as_str(), event.crate_id);
        match status.kind {
            StatusKind::Dirty { reason } => assert_eq!(event.reason, Some(reason)),
            _ => assert_eq!(event.reason, None),
        }
    }
}

#[test]
fn indentation_does_not_change_what_a_line_says() {
    assert_eq!(classify("\t  Fresh a v0.1.0"), classify("Fresh a v0.1.0"));
    assert_eq!(classify("  note"), StderrLine::Other("  note".to_string()));
}
