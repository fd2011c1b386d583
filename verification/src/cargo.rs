//! The user's cargo command under instrumentation: which arguments and which environment the
//! child gets, and what its exit status means.

use vstd::prelude::*;
use vstd::slice::slice_subrange;

use crate::cli::{Args, CargoSubcommand};
use crate::text;

verus! {

/// One argument of the child.
#[derive(Debug, Clone, Copy, PartialEq, Eq)]
pub enum CargoArg {
    /// A flag that the user did not write.
    Injected(&'static str),
    /// The user's word at this place, as the user wrote it.
    Forwarded(usize),
}

/// A [`CargoArg`] with its text as a sequence of characters.
pub enum CargoArgView {
    Injected(Seq<char>),
    Forwarded(int),
}

impl View for CargoArg {
    type V = CargoArgView;

    open spec fn view(&self) -> CargoArgView {
        match self {
            CargoArg::Injected(flag) => CargoArgView::Injected(flag@),
            CargoArg::Forwarded(at) => CargoArgView::Forwarded(*at as int),
        }
    }
}

/// Why no child can be run.
#[derive(Debug, Clone, Copy, PartialEq, Eq, Structural)]
pub enum ArgsError {
    /// The user gave no cargo command.
    MissingCommand,
}

impl ArgsError {
    /// What to tell the user.
    pub fn message(self) -> (message: &'static str)
        ensures
            message@ == "cargo-dirty requires a cargo command"@,
    {
        "cargo-dirty requires a cargo command"
    }
}

/// What sets cargo's own arguments apart from those of the built binary.
pub const SEPARATOR: &'static str = "--";

/// The flag that makes cargo tell what is fresh and what is dirty.
pub const VERBOSE_FLAG: &'static str = "-vv";

/// The flag that makes cargo write its diagnostics as JSON.
pub const MESSAGE_FORMAT_FLAG: &'static str = "--message-format=json";

/// The flag that makes cargo do one thing after the other.
pub const ONE_JOB_FLAG: &'static str = "--jobs=1";

/// The warning that `--quiet` leads nowhere.
pub const QUIET_WARNING: &'static str =
    "warning: cargo-dirty needs cargo's verbose output; cargo rejects --quiet alongside the -vv it injects";

/// The place of the first separator among words, or their number if there is none.
pub open spec fn separator_at(words: Seq<Seq<char>>) -> nat
    decreases words.len(),
{
    if words.len() == 0 || words[0] == SEPARATOR@ {
        0
    } else {
        1 + separator_at(words.skip(1))
    }
}

/// The separator stands where [`separator_at`] says, and nowhere before.
pub proof fn lemma_separator_at(words: Seq<Seq<char>>)
    ensures
        separator_at(words) <= words.len(),
        separator_at(words) < words.len() ==> words[separator_at(words) as int] == SEPARATOR@,
        forall|i: int| 0 <= i < separator_at(words) ==> #[trigger] words[i] != SEPARATOR@,
    decreases words.len(),
{
    if words.len() > 0 && words[0] != SEPARATOR@ {
        let rest = words.skip(1);
        lemma_separator_at(rest);
        assert forall|i: int| 0 <= i < separator_at(words) implies #[trigger] words[i]
            != SEPARATOR@ by {
            if i > 0 {
                assert(rest[i - 1] == words[i]);
            }
        }
        if separator_at(words) < words.len() {
            assert(rest[separator_at(rest) as int] == words[separator_at(words) as int]);
        }
    }
}

/// The separator stands at the one place with no other before it.
proof fn lemma_is_separator_at(words: Seq<Seq<char>>, at: nat)
    requires
        at <= words.len(),
        at < words.len() ==> words[at as int] == SEPARATOR@,
        forall|i: int| 0 <= i < at ==> #[trigger] words[i] != SEPARATOR@,
    ensures
        separator_at(words) == at,
{
    lemma_separator_at(words);
    if separator_at(words) < at {
        assert(words[separator_at(words) as int] != SEPARATOR@);
    } else if at < separator_at(words) {
        assert(words[at as int] != SEPARATOR@);
    }
}

/// Finds the first separator.
fn find_separator(args: &[String]) -> (at: usize)
    ensures
        at == separator_at(text::views(args@)),
        at <= args@.len(),
{
    let ghost words = text::views(args@);
    let mut i: usize = 0;
    while i < args.len()
        invariant
            i <= args@.len(),
            words == text::views(args@),
            forall|j: int| 0 <= j < i ==> #[trigger] words[j] != SEPARATOR@,
        decreases args@.len() - i,
    {
        assert(words[i as int] == args@[i as int]@);
        if text::same_text(args[i].as_str(), SEPARATOR) {
            proof {
                lemma_is_separator_at(words, i as nat);
            }
            return i;
        }
        i = i + 1;
    }
    proof {
        lemma_is_separator_at(words, i as nat);
    }
    i
}

/// Splits user arguments at the first literal `--` into the cargo-side arguments and the
/// arguments meant for the built binary. `None` means the separator was absent, which is
/// distinct from a separator with nothing after it.
pub fn split_at_separator(args: &[String]) -> (parts: (&[String], Option<&[String]>))
    ensures
        parts.0@ == args@.take(separator_at(text::views(args@)) as int),
        match parts.1 {
            Some(passthrough) => separator_at(text::views(args@)) < args@.len() && passthrough@
                == args@.skip(separator_at(text::views(args@)) as int + 1),
            None => separator_at(text::views(args@)) == args@.len(),
        },
{
    let at = find_separator(args);
    let cargo_side = slice_subrange(args, 0, at);
    assert(cargo_side@ =~= args@.take(at as int));
    if at < args.len() {
        let passthrough = slice_subrange(args, at + 1, args.len());
        assert(passthrough@ =~= args@.skip(at + 1));
        (cargo_side, Some(passthrough))
    } else {
        (cargo_side, None)
    }
}

/// A word that makes cargo quiet.
pub open spec fn is_quiet(word: Seq<char>) -> bool {
    word == "--quiet"@ || word == "-q"@
}

/// A word that makes cargo verbose.
pub open spec fn is_verbose(word: Seq<char>) -> bool {
    word == "--verbose"@ || text::begins_with(word, "-v"@)
}

/// A word that sets cargo's message format.
pub open spec fn is_message_format(word: Seq<char>) -> bool {
    word == "--message-format"@ || text::begins_with(word, "--message-format="@)
}

/// A word that sets the number of cargo's jobs.
pub open spec fn is_jobs(word: Seq<char>) -> bool {
    word == "--jobs"@ || text::begins_with(word, "--jobs="@) || text::begins_with(word, "-j"@)
}

/// Whether one of the words is of a kind.
pub open spec fn any_word(words: Seq<Seq<char>>, kind: spec_fn(Seq<char>) -> bool) -> bool {
    exists|i: int| 0 <= i < words.len() && kind(#[trigger] words[i])
}

/// What a word on the command line can set.
#[derive(Clone, Copy, PartialEq, Eq, Structural)]
enum Setting {
    Quiet,
    Verbose,
    MessageFormat,
    Jobs,
}

/// Whether a word makes a setting.
spec fn makes(setting: Setting, word: Seq<char>) -> bool {
    match setting {
        Setting::Quiet => is_quiet(word),
        Setting::Verbose => is_verbose(word),
        Setting::MessageFormat => is_message_format(word),
        Setting::Jobs => is_jobs(word),
    }
}

/// Tells whether a word makes a setting.
fn is_made_by(setting: Setting, word: &str) -> (made: bool)
    ensures
        made == makes(setting, word@),
{
    match setting {
        Setting::Quiet => text::same_text(word, "--quiet") || text::same_text(word, "-q"),
        Setting::Verbose => text::same_text(word, "--verbose") || text::starts_with(word, "-v"),
        Setting::MessageFormat => text::same_text(word, "--message-format") || text::starts_with(
            word,
            "--message-format=",
        ),
        Setting::Jobs => text::same_text(word, "--jobs") || text::starts_with(word, "--jobs=")
            || text::starts_with(word, "-j"),
    }
}

/// Tells whether one of the words makes a setting.
fn is_made(setting: Setting, args: &[String]) -> (made: bool)
    ensures
        made == exists|i: int| 0 <= i < args@.len() && makes(setting, #[trigger] args@[i]@),
{
    let mut i: usize = 0;
    while i < args.len()
        invariant
            i <= args@.len(),
            forall|j: int| 0 <= j < i ==> !makes(setting, #[trigger] args@[j]@),
        decreases args@.len() - i,
    {
        if is_made_by(setting, args[i].as_str()) {
            return true;
        }
        i = i + 1;
    }
    false
}

/// Tells whether the user asked cargo to be quiet.
///
/// Every count this tool reports is derived from cargo's `-vv` status lines, and cargo refuses
/// to run with both `-vv` and `--quiet`, so the flag is a dead end rather than a degraded mode.
pub fn has_quiet_flag(args: &[String]) -> (quiet: bool)
    ensures
        quiet == any_word(text::views(args@), |word: Seq<char>| is_quiet(word)),
{
    let quiet = is_made(Setting::Quiet, args);
    proof {
        lemma_any_view(args@, Setting::Quiet, |word: Seq<char>| is_quiet(word));
    }
    quiet
}

/// A kind of word is found among the views exactly if it is found among the words.
proof fn lemma_any_view(args: Seq<String>, setting: Setting, kind: spec_fn(Seq<char>) -> bool)
    requires
        forall|word: Seq<char>| #[trigger] kind(word) == makes(setting, word),
    ensures
        any_word(text::views(args), kind) == exists|i: int|
            0 <= i < args.len() && makes(setting, #[trigger] args[i]@),
{
    let words = text::views(args);
    if any_word(words, kind) {
        let i = choose|i: int| 0 <= i < words.len() && kind(#[trigger] words[i]);
        assert(makes(setting, args[i]@));
    }
    if exists|i: int| 0 <= i < args.len() && makes(setting, #[trigger] args[i]@) {
        let i = choose|i: int| 0 <= i < args.len() && makes(setting, #[trigger] args[i]@);
        assert(kind(words[i]));
    }
}

/// The words that cargo itself reads, without the command: up to the separator.
pub open spec fn cargo_side(words: Seq<Seq<char>>) -> Seq<Seq<char>> {
    let args = words.skip(1);
    args.take(separator_at(args) as int)
}

/// The user's words in a range, forwarded.
pub open spec fn forwarded(from: int, to: int) -> Seq<CargoArgView> {
    Seq::new((to - from) as nat, |i: int| CargoArgView::Forwarded(from + i))
}

/// A flag, unless there is no need for it.
pub open spec fn injected(flag: Seq<char>, needed: bool) -> Seq<CargoArgView> {
    if needed {
        seq![CargoArgView::Injected(flag)]
    } else {
        Seq::empty()
    }
}

/// The place of the separator among all words, or their number if there is none.
pub open spec fn cargo_end(words: Seq<Seq<char>>) -> int {
    1 + separator_at(words.skip(1)) as int
}

/// The child's arguments: the user's own words, with each flag that is needed and not set by
/// the user among cargo's own words.
pub open spec fn composed(words: Seq<Seq<char>>, linear: bool) -> Seq<CargoArgView> {
    let own = cargo_side(words);
    injected(VERBOSE_FLAG@, !any_word(own, |word: Seq<char>| is_verbose(word))) + forwarded(
        0,
        cargo_end(words),
    ) + injected(
        MESSAGE_FORMAT_FLAG@,
        !any_word(own, |word: Seq<char>| is_message_format(word)),
    ) + injected(
        ONE_JOB_FLAG@,
        linear && !any_word(own, |word: Seq<char>| is_jobs(word)),
    ) + forwarded(cargo_end(words), words.len() as int)
}

/// Appends the user's words in a range.
fn forward(out: &mut Vec<CargoArg>, from: usize, to: usize)
    requires
        from <= to,
    ensures
        text::views(final(out)@) == text::views(old(out)@) + forwarded(from as int, to as int),
{
    let ghost before = text::views(out@);
    assert(before =~= before + forwarded(from as int, from as int));
    let mut i: usize = from;
    while i < to
        invariant
            from <= i <= to,
            text::views(out@) == before + forwarded(from as int, i as int),
        decreases to - i,
    {
        let ghost so_far = out@;
        out.push(CargoArg::Forwarded(i));
        assert(text::views(out@) =~= text::views(so_far).push(CargoArgView::Forwarded(i as int)));
        i = i + 1;
        assert(text::views(out@) =~= before + forwarded(from as int, i as int));
    }
}

/// Appends a flag, unless there is no need for it.
fn inject(out: &mut Vec<CargoArg>, flag: &'static str, needed: bool)
    ensures
        text::views(final(out)@) == text::views(old(out)@) + injected(flag@, needed),
{
    if needed {
        out.push(CargoArg::Injected(flag));
    }
    assert(text::views(out@) =~= text::views(old(out)@) + injected(flag@, needed));
}

/// Builds the child's argument list: the user's own arguments plus the flags this tool needs to
/// see staleness (`-vv`), read diagnostics (`--message-format=json`), and — under `--linear` —
/// keep the stream ordered (`--jobs=1`).
///
/// A flag is only injected when the user did not already set it, so their choice always wins.
/// Without a cargo command there is nothing to run.
pub fn compose_cargo_args(args: &Args) -> (composed: Result<Vec<CargoArg>, ArgsError>)
    ensures
        match composed {
            Ok(composed) => args.words().len() > 0 && text::views(composed@) == self::composed(
                args.words(),
                args.linear,
            ),
            Err(error) => args.words().len() == 0 && error == ArgsError::MissingCommand,
        },
{
    if args.cargo_cmd().is_none() {
        return Err(ArgsError::MissingCommand);
    }
    let count: usize = match &args.cargo {
        CargoSubcommand::Cargo(words) => words.len(),
    };
    let user_args = args.cargo_args();
    // Everything after `--` belongs to the user's binary, so it must neither be scanned for
    // flags we would otherwise skip injecting, nor receive our injected flags.
    let (own, _) = split_at_separator(user_args);
    let end = find_separator(user_args) + 1;
    let ghost words = args.words();
    proof {
        assert(text::views(own@) =~= cargo_side(words));
        lemma_any_view(own@, Setting::Verbose, |word: Seq<char>| is_verbose(word));
        lemma_any_view(own@, Setting::MessageFormat, |word: Seq<char>| is_message_format(word));
        lemma_any_view(own@, Setting::Jobs, |word: Seq<char>| is_jobs(word));
    }
    let mut out: Vec<CargoArg> = Vec::new();
    assert(text::views(out@) =~= Seq::empty());
    inject(&mut out, VERBOSE_FLAG, !is_made(Setting::Verbose, own));
    forward(&mut out, 0, end);
    inject(&mut out, MESSAGE_FORMAT_FLAG, !is_made(Setting::MessageFormat, own));
    inject(&mut out, ONE_JOB_FLAG, args.linear && !is_made(Setting::Jobs, own));
    forward(&mut out, end, count);
    assert(text::views(out@) =~= self::composed(words, args.linear));
    Ok(out)
}

/// What to warn the user about before cargo runs.
pub fn quiet_warning(args: &Args) -> (warning: Option<&'static str>)
    ensures
        match warning {
            Some(warning) => warning@ == QUIET_WARNING@,
            None => true,
        },
        warning is Some == (args.words().len() > 0 && any_word(
            cargo_side(args.words()),
            |word: Seq<char>| is_quiet(word),
        )),
{
    let (own, _) = split_at_separator(args.cargo_args());
    let quiet = has_quiet_flag(own);
    proof {
        if args.words().len() > 0 {
            assert(text::views(own@) =~= cargo_side(args.words()));
        } else {
            assert(own@.len() == 0);
        }
    }
    if quiet {
        Some(QUIET_WARNING)
    } else {
        None
    }
}

/// What is set in the child's environment: no colours, so that status lines can be read, and
/// under `--deep` cargo's fingerprint trace.
pub open spec fn environment(deep: bool) -> Seq<(Seq<char>, Seq<char>)> {
    if deep {
        seq![
            ("CARGO_TERM_COLOR"@, "never"@),
            ("CARGO_LOG"@, "cargo::core::compiler::fingerprint=trace"@),
        ]
    } else {
        seq![("CARGO_TERM_COLOR"@, "never"@)]
    }
}

/// Says what to set in the child's environment.
pub fn child_environment(args: &Args) -> (variables: Vec<(&'static str, &'static str)>)
    ensures
        variables@.map_values(|variable: (&'static str, &'static str)| (variable.0@, variable.1@))
            == environment(args.deep),
{
    let mut variables: Vec<(&'static str, &'static str)> = Vec::new();
    variables.push(("CARGO_TERM_COLOR", "never"));
    if args.deep {
        variables.push(("CARGO_LOG", "cargo::core::compiler::fingerprint=trace"));
    }
    assert(variables@.map_values(
        |variable: (&'static str, &'static str)| (variable.0@, variable.1@),
    ) =~= environment(args.deep));
    variables
}

/// The exit code that stands for how a child ended.
pub open spec fn mirrored(code: Option<i32>, signal: Option<i32>) -> int {
    match (code, signal) {
        (Some(code), _) => code as int,
        (None, Some(signal)) => 128 + signal,
        (None, None) => 1,
    }
}

/// Mirrors cargo's own exit status so wrapping a build in cargo-dirty stays transparent to
/// scripts, including the shell convention of reporting a signalled child as `128 + signal`.
pub fn exit_code(code: Option<i32>, signal: Option<i32>) -> (mirrored: i32)
    requires
        mirrored(code, signal) <= i32::MAX,
    ensures
        mirrored == self::mirrored(code, signal),
{
    match (code, signal) {
        (Some(code), _) => code,
        (None, Some(signal)) => 128 + signal,
        (None, None) => 1,
    }
}

} // verus!
