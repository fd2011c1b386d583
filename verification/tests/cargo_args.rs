use cargo_dirty::cargo::{
    ArgsError, CargoArg, child_environment, compose_cargo_args, exit_code, has_quiet_flag,
    quiet_warning, split_at_separator,
};
use cargo_dirty::cli::{Args, CargoSubcommand, names_itself};

fn mk_args(cmd: &str, cargo_args: &[&str]) -> Args {
    Args {
        show_fresh: false,
        deep: false,
        explain: false,
        linear: false,
        cargo: CargoSubcommand::Cargo(
            std::iter::once(cmd)
                .chain(cargo_args.iter().copied())
                .map(String::from)
                .collect(),
        ),
    }
}

fn composed_args(args: &Args) -> Vec<String> {
    let CargoSubcommand::Cargo(words) = &args.cargo;
    compose_cargo_args(args)
        .unwrap()
        .into_iter()
        .map(|arg| match arg {
            CargoArg::Injected(flag) => flag.to_string(),
            CargoArg::Forwarded(at) => words[at].clone(),
        })
        .collect()
}

#[test]
fn injects_vv_when_no_user_verbose() {
    let args = mk_args("build", &[]);
    let out = composed_args(&args);
    assert!(out.contains(&"-vv".to_string()));
}

#[test]
fn does_not_inject_vv_when_user_verbose() {
    let args = mk_args("build", &["-v"]);
    let out = composed_args(&args);
    assert!(!out.contains(&"-vv".to_string()));
}

#[test]
fn injects_message_format_json_when_missing() {
    let args = mk_args("build", &[]);
    let out = composed_args(&args);
    assert!(out.contains(&"--message-format=json".to_string()));
}

#[test]
fn does_not_override_existing_message_format() {
    let args = mk_args("build", &["--message-format", "json-render-diagnostics"]);
    let out = composed_args(&args);
    assert!(!out.contains(&"--message-format=json".to_string()));
}

#[test]
fn injects_jobs_1_for_linear_when_missing() {
    let mut args = mk_args("build", &[]);
    args.linear = true;
    let out = composed_args(&args);
    assert!(out.contains(&"--jobs=1".to_string()));
}

#[test]
fn does_not_inject_jobs_when_user_specified_jobs() {
    let mut args = mk_args("build", &["-j4"]);
    args.linear = true;
    let out = composed_args(&args);
    assert!(!out.contains(&"--jobs=1".to_string()));
}

#[test]
fn injected_flags_go_before_double_dash() {
    let args = mk_args("run", &["--", "--marker"]);
    let out = composed_args(&args);

    let separator = out
        .iter()
        .position(|a| a == "--")
        .expect("composed args lost the `--` separator");
    let message_format = out
        .iter()
        .position(|a| a == "--message-format=json")
        .expect("composed args lost the injected message format");

    assert!(message_format < separator);
    assert_eq!(out.last().map(String::as_str), Some("--marker"));
}

#[test]
fn verbose_after_double_dash_does_not_suppress_vv() {
    let args = mk_args("run", &["--", "-v"]);
    let out = composed_args(&args);
    assert!(out.contains(&"-vv".to_string()));
}

#[test]
fn jobs_after_double_dash_does_not_suppress_linear() {
    let mut args = mk_args("run", &["--", "-j4"]);
    args.linear = true;
    let out = composed_args(&args);

    let separator = out
        .iter()
        .position(|a| a == "--")
        .expect("composed args lost the `--` separator");
    let jobs = out
        .iter()
        .position(|a| a == "--jobs=1")
        .expect("composed args lost the injected job limit");

    assert!(jobs < separator);
}

#[test]
fn omits_the_separator_when_the_user_did_not_pass_one() {
    let args = mk_args("check", &["--workspace"]);
    let out = composed_args(&args);
    assert!(!out.contains(&"--".to_string()));
}

#[test]
fn forwards_command_and_args() {
    let args = mk_args("check", &["--workspace"]);
    let out = composed_args(&args);
    assert!(out.iter().any(|a| a == "check"));
    assert!(out.iter().any(|a| a == "--workspace"));
}

#[test]
fn detects_quiet_only_on_the_cargo_side() {
    let quiet = mk_args("check", &["-q"]);
    let (cargo_side, _) = split_at_separator(quiet.cargo_args());
    assert!(has_quiet_flag(cargo_side));

    let passthrough_quiet = mk_args("run", &["--", "-q"]);
    let (cargo_side, _) = split_at_separator(passthrough_quiet.cargo_args());
    assert!(!has_quiet_flag(cargo_side));
}

#[test]
fn rejects_a_missing_cargo_command() {
    let args = Args {
        show_fresh: false,
        deep: false,
        explain: false,
        linear: false,
        cargo: CargoSubcommand::Cargo(Vec::new()),
    };

    assert!(compose_cargo_args(&args).is_err());
}

#[test]
fn reports_the_child_exit_code() {
    assert_eq!(exit_code(Some(3), None), 3);
    assert_eq!(exit_code(Some(0), None), 0);
}

#[test]
fn reports_a_signalled_child_as_128_plus_signal() {
    assert_eq!(exit_code(None, Some(9)), 128 + 9);
    assert_eq!(exit_code(None, None), 1);
}

#[test]
fn the_whole_command_line_is_composed_in_order() {
    let mut args = mk_args("run", &["--bin", "x", "--", "-v", "--", "-j4"]);
    args.linear = true;
    assert_eq!(
        composed_args(&args),
        [
            "-vv", "run", "--bin", "x", "--message-format=json", "--jobs=1", "--", "-v", "--",
            "-j4",
        ]
    );
    assert_eq!(
        compose_cargo_args(&mk_args("build", &["-vv", "--message-format=short"])),
        Ok(vec![CargoArg::Forwarded(0), CargoArg::Forwarded(1), CargoArg::Forwarded(2)])
    );
}

#[test]
fn every_spelling_of_a_setting_is_the_users_choice() {
    for word in ["--verbose", "-v", "-vv", "-vx"] {
        assert!(!composed_args(&mk_args("b", &[word])).contains(&"-vv".to_string()) || word == "-vv");
    }
    assert!(composed_args(&mk_args("b", &["--verbos"])).contains(&"-vv".to_string()));
    assert!(
        !composed_args(&mk_args("b", &["--message-format=x"]))
            .contains(&"--message-format=json".to_string())
    );
    assert!(
        composed_args(&mk_args("b", &["--message-formats"]))
            .contains(&"--message-format=json".to_string())
    );
    for word in ["--jobs", "--jobs=2", "-j", "-j2"] {
        let mut args = mk_args("b", &[word]);
        args.linear = true;
        assert!(!composed_args(&args).contains(&"--jobs=1".to_string()));
    }
    assert!(!composed_args(&mk_args("b", &[])).contains(&"--jobs=1".to_string()));
}

#[test]
fn a_missing_command_is_told() {
    let args = Args {
        show_fresh: true,
        deep: true,
        explain: true,
        linear: true,
        cargo: CargoSubcommand::Cargo(Vec::new()),
    };
    assert_eq!(compose_cargo_args(&args), Err(ArgsError::MissingCommand));
    assert_eq!(ArgsError::MissingCommand.message(), "cargo-dirty requires a cargo command");
    assert_eq!(args.cargo_cmd(), None);
    assert_eq!(args.cargo_args().len(), 0);
    assert_eq!(quiet_warning(&args), None);
}

#[test]
fn a_separator_with_nothing_behind_it_is_not_a_missing_one() {
    let args = mk_args("run", &["a", "--"]);
    let (own, passthrough) = split_at_separator(args.cargo_args());
    assert_eq!(own, ["a"]);
    assert_eq!(passthrough.map(|rest| rest.len()), Some(0));
    let args = mk_args("run", &["a"]);
    let (own, passthrough) = split_at_separator(args.cargo_args());
    assert_eq!(own, ["a"]);
    assert_eq!(passthrough, None);
}

#[test]
fn quiet_is_warned_about() {
    assert_eq!(
        quiet_warning(&mk_args("check", &["--quiet"])),
        Some(
            "warning: cargo-dirty needs cargo's verbose output; cargo rejects --quiet alongside the -vv it injects"
        )
    );
    assert_eq!(quiet_warning(&mk_args("check", &["--", "--quiet"])), None);
    assert_eq!(quiet_warning(&mk_args("-q", &[])), None);
}

#[test]
fn the_trace_is_asked_for_only_under_deep() {
    let mut args = mk_args("check", &[]);
    assert_eq!(child_environment(&args), [("CARGO_TERM_COLOR", "never")]);
    args.deep = true;
    assert_eq!(
        child_environment(&args),
        [
            ("CARGO_TERM_COLOR", "never"),
            ("CARGO_LOG", "cargo::core::compiler::fingerprint=trace"),
        ]
    );
}

#[test]
fn the_command_and_its_arguments_are_told_apart() {
    let args = mk_args("check", &["--workspace", "--all-targets"]);
    assert_eq!(args.cargo_cmd(), Some(&"check".to_string()));
    assert_eq!(args.cargo_args(), ["--workspace", "--all-targets"]);
    assert_eq!(args.cargo.clone(), args.cargo);
}

#[test]
fn the_subcommands_own_name_is_recognised() {
    let words = |argv: &[&str]| argv.iter().map(|word| word.to_string()).collect::<Vec<String>>();
    assert!(names_itself(&words(&["cargo-dirty", "dirty", "check"])));
    assert!(!names_itself(&words(&["cargo-dirty", "check", "dirty"])));
    assert!(!names_itself(&words(&["cargo-dirty"])));
    assert!(!names_itself(&words(&[])));
}

#[test]
fn what_follows_the_separator_changes_no_flag() {
    let mut one = mk_args("run", &["--release", "--", "-v", "-j4", "--message-format"]);
    let mut other = mk_args("run", &["--release", "--", "x"]);
    one.linear = true;
    other.linear = true;
    let (one, other) = (composed_args(&one), composed_args(&other));
    assert_eq!(one[..one.len() - 4], other[..other.len() - 2]);
    assert_eq!(one[one.len() - 4..], ["--", "-v", "-j4", "--message-format"]);
}
