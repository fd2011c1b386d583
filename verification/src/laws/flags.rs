//! Which flags the child gets, told by the characters of the user's words.

use vstd::prelude::*;

use crate::cargo;
use crate::cargo::{CargoArgView, MESSAGE_FORMAT_FLAG, ONE_JOB_FLAG, SEPARATOR, VERBOSE_FLAG};
use crate::cli;
use crate::laws::cutting;
use crate::text;

verus! {

/// The word `--`.
pub open spec fn two_hyphens() -> Seq<char> {
    seq!['-', '-']
}

/// Whether cargo's own words end here: at the first `--` behind the command, or with the words.
pub open spec fn is_end(words: Seq<Seq<char>>, end: int) -> bool {
    &&& 1 <= end <= words.len()
    &&& end < words.len() ==> words[end] == two_hyphens()
    &&& forall|i: int| 1 <= i < end ==> #[trigger] words[i] != two_hyphens()
}

/// Whether a word is `--verbose` or has `-v` as its first two characters.
pub open spec fn asks_for_verbose(word: Seq<char>) -> bool {
    ||| word == seq!['-', '-', 'v', 'e', 'r', 'b', 'o', 's', 'e']
    ||| word.len() >= 2 && word[0] == '-' && word[1] == 'v'
}

/// Whether a word is `--message-format`, or that and an equals sign in front of anything.
pub open spec fn sets_message_format(word: Seq<char>) -> bool {
    let name = seq![
        '-', '-', 'm', 'e', 's', 's', 'a', 'g', 'e', '-', 'f', 'o', 'r', 'm', 'a', 't',
    ];
    ||| word == name
    ||| word.len() > name.len() && word.take(name.len() as int) == name && word[name.len() as int]
        == '='
}

/// Whether a word is `--jobs`, that and an equals sign in front of anything, or has `-j` as its
/// first two characters.
pub open spec fn sets_jobs(word: Seq<char>) -> bool {
    let name = seq!['-', '-', 'j', 'o', 'b', 's'];
    ||| word == name
    ||| word.len() > name.len() && word.take(name.len() as int) == name && word[name.len() as int]
        == '='
    ||| word.len() >= 2 && word[0] == '-' && word[1] == 'j'
}

/// Whether a word is `--quiet` or `-q`.
pub open spec fn asks_for_quiet(word: Seq<char>) -> bool {
    ||| word == seq!['-', '-', 'q', 'u', 'i', 'e', 't']
    ||| word == seq!['-', 'q']
}

/// The flags that are injected, letter by letter.
pub open spec fn flag_vv() -> CargoArgView {
    CargoArgView::Injected(seq!['-', 'v', 'v'])
}

/// The flag that asks for JSON.
pub open spec fn flag_json() -> CargoArgView {
    CargoArgView::Injected(
        seq![
            '-', '-', 'm', 'e', 's', 's', 'a', 'g', 'e', '-', 'f', 'o', 'r', 'm', 'a', 't', '=',
            'j', 's', 'o', 'n',
        ],
    )
}

/// The flag that asks for one job.
pub open spec fn flag_one_job() -> CargoArgView {
    CargoArgView::Injected(seq!['-', '-', 'j', 'o', 'b', 's', '=', '1'])
}

/// A name in front of an equals sign and anything.
proof fn lemma_with_value(word: Seq<char>, name: Seq<char>, assigned: Seq<char>)
    requires
        assigned == name + seq!['='],
    ensures
        text::begins_with(word, assigned) == (word.len() > name.len() && word.take(
            name.len() as int,
        ) == name && word[name.len() as int] == '='),
{
    cutting::law_front_is_what_it_begins_with(word, assigned);
    let n = name.len() as int;
    if text::begins_with(word, assigned) {
        assert(assigned[n] == '=');
        assert forall|i: int| 0 <= i < n implies word[i] == name[i] by {
            assert(assigned[i] == name[i]);
        }
        assert(word.take(n) =~= name);
    }
    if word.len() > n && word.take(n) == name && word[n] == '=' {
        assert forall|i: int| 0 <= i < assigned.len() implies #[trigger] assigned[i] == word[i] by {
            if i < n {
                assert(word.take(n)[i] == name[i]);
            }
        }
    }
}

/// A short flag, alone or with anything behind it.
proof fn lemma_short(word: Seq<char>, flag: Seq<char>, letter: char)
    requires
        flag == seq!['-', letter],
    ensures
        text::begins_with(word, flag) == (word.len() >= 2 && word[0] == '-' && word[1] == letter),
{
    cutting::law_front_is_what_it_begins_with(word, flag);
    if text::begins_with(word, flag) {
        assert(flag[0] == word[0]);
        assert(flag[1] == word[1]);
    }
}

/// A word makes a setting by its spelling, and in no other way.
pub proof fn law_settings_are_spelled(word: Seq<char>)
    ensures
        cargo::is_verbose(word) == asks_for_verbose(word),
        cargo::is_message_format(word) == sets_message_format(word),
        cargo::is_jobs(word) == sets_jobs(word),
        cargo::is_quiet(word) == asks_for_quiet(word),
{
    reveal_strlit("--verbose");
    reveal_strlit("-v");
    reveal_strlit("--message-format");
    reveal_strlit("--message-format=");
    reveal_strlit("--jobs");
    reveal_strlit("--jobs=");
    reveal_strlit("-j");
    reveal_strlit("--quiet");
    reveal_strlit("-q");
    let format = seq![
        '-', '-', 'm', 'e', 's', 's', 'a', 'g', 'e', '-', 'f', 'o', 'r', 'm', 'a', 't',
    ];
    let jobs = seq!['-', '-', 'j', 'o', 'b', 's'];
    assert("--verbose"@ =~= seq!['-', '-', 'v', 'e', 'r', 'b', 'o', 's', 'e']);
    assert("--message-format"@ =~= format);
    assert("--message-format="@ =~= format + seq!['=']);
    assert("--jobs"@ =~= jobs);
    assert("--jobs="@ =~= jobs + seq!['=']);
    assert("--quiet"@ =~= seq!['-', '-', 'q', 'u', 'i', 'e', 't']);
    assert("-q"@ =~= seq!['-', 'q']);
    assert("-v"@ =~= seq!['-', 'v']);
    assert("-j"@ =~= seq!['-', 'j']);
    lemma_short(word, "-v"@, 'v');
    lemma_short(word, "-j"@, 'j');
    lemma_with_value(word, format, "--message-format="@);
    lemma_with_value(word, jobs, "--jobs="@);
}

/// Cargo's own words end where the characters say so.
proof fn lemma_end(words: Seq<Seq<char>>, end: int)
    requires
        is_end(words, end),
    ensures
        cargo::cargo_end(words) == end,
        cargo::cargo_side(words).len() == end - 1,
        forall|i: int| 1 <= i < end ==> cargo::cargo_side(words)[i - 1] == #[trigger] words[i],
{
    reveal_strlit("--");
    assert(SEPARATOR@ =~= two_hyphens());
    let rest = words.skip(1);
    cargo::lemma_separator_at(rest);
    let found = cargo::separator_at(rest) as int;
    if found < end - 1 {
        assert(rest[found] == words[found + 1]);
    }
    if end - 1 < found {
        assert(rest[end - 1] == words[end]);
    }
}

/// A kind of word is found among cargo's own words exactly if one of them is of that kind.
proof fn lemma_any(
    words: Seq<Seq<char>>,
    end: int,
    kind: spec_fn(Seq<char>) -> bool,
    spelled: spec_fn(Seq<char>) -> bool,
)
    requires
        is_end(words, end),
        forall|word: Seq<char>| #[trigger] kind(word) == spelled(word),
    ensures
        cargo::any_word(cargo::cargo_side(words), kind) == exists|i: int|
            1 <= i < end && spelled(#[trigger] words[i]),
{
    lemma_end(words, end);
    let own = cargo::cargo_side(words);
    if cargo::any_word(own, kind) {
        let i = choose|i: int| 0 <= i < own.len() && kind(#[trigger] own[i]);
        assert(words[i + 1] == own[i]);
        assert(spelled(words[i + 1]));
    }
    if exists|i: int| 1 <= i < end && spelled(#[trigger] words[i]) {
        let i = choose|i: int| 1 <= i < end && spelled(#[trigger] words[i]);
        assert(own[i - 1] == words[i]);
        assert(kind(own[i - 1]));
    }
}

/// The child's arguments, one by one: `-vv` unless a word of cargo's own asks for verbose output;
/// the command and cargo's own words; `--message-format=json` unless one of them sets the format;
/// under `--linear`, `--jobs=1` unless one of them sets the jobs; and everything from the first
/// `--` on.
pub proof fn law_child_arguments_one_by_one(words: Seq<Seq<char>>, linear: bool, end: int)
    requires
        is_end(words, end),
    ensures
        ({
            let verbose = exists|i: int| 1 <= i < end && asks_for_verbose(#[trigger] words[i]);
            let format = exists|i: int| 1 <= i < end && sets_message_format(#[trigger] words[i]);
            let jobs = exists|i: int| 1 <= i < end && sets_jobs(#[trigger] words[i]);
            let none = Seq::<CargoArgView>::empty();
            cargo::composed(words, linear) == (if verbose {
                none
            } else {
                seq![flag_vv()]
            }) + Seq::new(end as nat, |i: int| CargoArgView::Forwarded(i)) + (if format {
                none
            } else {
                seq![flag_json()]
            }) + (if linear && !jobs {
                seq![flag_one_job()]
            } else {
                none
            }) + Seq::new((words.len() - end) as nat, |i: int| CargoArgView::Forwarded(end + i))
        }),
{
    lemma_flags();
    lemma_end(words, end);
    assert forall|word: Seq<char>| true implies #[trigger] cargo::is_verbose(word)
        == asks_for_verbose(word) by {
        law_settings_are_spelled(word);
    }
    assert forall|word: Seq<char>| true implies #[trigger] cargo::is_message_format(word)
        == sets_message_format(word) by {
        law_settings_are_spelled(word);
    }
    assert forall|word: Seq<char>| true implies #[trigger] cargo::is_jobs(word) == sets_jobs(
        word,
    ) by {
        law_settings_are_spelled(word);
    }
    lemma_any(
        words,
        end,
        |word: Seq<char>| cargo::is_verbose(word),
        |word: Seq<char>| asks_for_verbose(word),
    );
    lemma_any(
        words,
        end,
        |word: Seq<char>| cargo::is_message_format(word),
        |word: Seq<char>| sets_message_format(word),
    );
    lemma_any(
        words,
        end,
        |word: Seq<char>| cargo::is_jobs(word),
        |word: Seq<char>| sets_jobs(word),
    );
    let verbose = exists|i: int| 1 <= i < end && asks_for_verbose(#[trigger] words[i]);
    let format = exists|i: int| 1 <= i < end && sets_message_format(#[trigger] words[i]);
    let jobs = exists|i: int| 1 <= i < end && sets_jobs(#[trigger] words[i]);
    assert(verbose == exists|i: int|
        1 <= i < end && (|word: Seq<char>| asks_for_verbose(word))(#[trigger] words[i]));
    assert(format == exists|i: int|
        1 <= i < end && (|word: Seq<char>| sets_message_format(word))(#[trigger] words[i]));
    assert(jobs == exists|i: int|
        1 <= i < end && (|word: Seq<char>| sets_jobs(word))(#[trigger] words[i]));
    assert(cargo::forwarded(0, end) =~= Seq::new(
        end as nat,
        |i: int| CargoArgView::Forwarded(i),
    ));
    assert(cargo::forwarded(end, words.len() as int) =~= Seq::new(
        (words.len() - end) as nat,
        |i: int| CargoArgView::Forwarded(end + i),
    ));
}

/// The flags, letter by letter.
proof fn lemma_flags()
    ensures
        flag_vv() == CargoArgView::Injected(VERBOSE_FLAG@),
        flag_json() == CargoArgView::Injected(MESSAGE_FORMAT_FLAG@),
        flag_one_job() == CargoArgView::Injected(ONE_JOB_FLAG@),
{
    reveal_strlit("-vv");
    reveal_strlit("--message-format=json");
    reveal_strlit("--jobs=1");
    assert(VERBOSE_FLAG@ =~= seq!['-', 'v', 'v']);
    assert(MESSAGE_FORMAT_FLAG@ =~= seq![
        '-', '-', 'm', 'e', 's', 's', 'a', 'g', 'e', '-', 'f', 'o', 'r', 'm', 'a', 't', '=', 'j',
        's', 'o', 'n',
    ]);
    assert(ONE_JOB_FLAG@ =~= seq!['-', '-', 'j', 'o', 'b', 's', '=', '1']);
}

/// The child gets `-vv` exactly if no word between the command and the first `--` asks for
/// verbose output.
pub proof fn law_verbose_is_injected_unless_asked_for(
    words: Seq<Seq<char>>,
    linear: bool,
    end: int,
)
    requires
        is_end(words, end),
    ensures
        cargo::composed(words, linear).contains(flag_vv()) == !exists|i: int|
            1 <= i < end && asks_for_verbose(#[trigger] words[i]),
{
    lemma_contains(words, linear, end);
}

/// The child gets `--message-format=json` exactly if no word between the command and the first
/// `--` sets the message format.
pub proof fn law_json_is_injected_unless_a_format_is_set(
    words: Seq<Seq<char>>,
    linear: bool,
    end: int,
)
    requires
        is_end(words, end),
    ensures
        cargo::composed(words, linear).contains(flag_json()) == !exists|i: int|
            1 <= i < end && sets_message_format(#[trigger] words[i]),
{
    lemma_contains(words, linear, end);
}

/// The child gets `--jobs=1` exactly if the user asked for a linear run and no word between the
/// command and the first `--` sets the jobs.
pub proof fn law_one_job_is_injected_when_linear(words: Seq<Seq<char>>, linear: bool, end: int)
    requires
        is_end(words, end),
    ensures
        cargo::composed(words, linear).contains(flag_one_job()) == (linear && !exists|i: int|
            1 <= i < end && sets_jobs(#[trigger] words[i])),
{
    lemma_contains(words, linear, end);
}

/// Which flags the arguments contain.
proof fn lemma_contains(words: Seq<Seq<char>>, linear: bool, end: int)
    requires
        is_end(words, end),
    ensures
        cargo::composed(words, linear).contains(flag_vv()) == !exists|i: int|
            1 <= i < end && asks_for_verbose(#[trigger] words[i]),
        cargo::composed(words, linear).contains(flag_json()) == !exists|i: int|
            1 <= i < end && sets_message_format(#[trigger] words[i]),
        cargo::composed(words, linear).contains(flag_one_job()) == (linear && !exists|i: int|
            1 <= i < end && sets_jobs(#[trigger] words[i])),
{
    law_child_arguments_one_by_one(words, linear, end);
    let args = cargo::composed(words, linear);
    let verbose = exists|i: int| 1 <= i < end && asks_for_verbose(#[trigger] words[i]);
    let format = exists|i: int| 1 <= i < end && sets_message_format(#[trigger] words[i]);
    let jobs = exists|i: int| 1 <= i < end && sets_jobs(#[trigger] words[i]);
    let none = Seq::<CargoArgView>::empty();
    let first = if verbose {
        none
    } else {
        seq![flag_vv()]
    };
    let own = Seq::new(end as nat, |i: int| CargoArgView::Forwarded(i));
    let second = if format {
        none
    } else {
        seq![flag_json()]
    };
    let third = if linear && !jobs {
        seq![flag_one_job()]
    } else {
        none
    };
    let (a, b, c) = (seq!['-', 'v', 'v'], flag_json()->Injected_0, flag_one_job()->Injected_0);
    assert(a.len() == 3 && b.len() == 21 && c.len() == 8);
    let json_at = (first.len() + end) as int;
    let job_at = (json_at + second.len()) as int;
    assert forall|i: int| 0 <= i < args.len() && #[trigger] args[i] is Injected implies {
        ||| !verbose && args[i] == flag_vv()
        ||| !format && args[i] == flag_json()
        ||| linear && !jobs && args[i] == flag_one_job()
    } by {
        if i < first.len() {
            assert(args[i] == first[i]);
        } else if i < json_at {
            assert(args[i] == own[i - first.len()]);
        } else if i < job_at {
            assert(args[i] == second[i - json_at]);
        } else if i < job_at + third.len() {
            assert(args[i] == third[i - job_at]);
        }
    }
    if !verbose {
        assert(args[0] == flag_vv());
    }
    if !format {
        assert(args[json_at] == flag_json());
    }
    if linear && !jobs {
        assert(args[job_at] == flag_one_job());
    }
}

/// The user is warned exactly if a word between the command and the first `--` asks cargo to be
/// quiet.
pub proof fn law_quiet_is_noticed(words: Seq<Seq<char>>, end: int)
    requires
        is_end(words, end),
    ensures
        cargo::any_word(cargo::cargo_side(words), |word: Seq<char>| cargo::is_quiet(word))
            == exists|i: int| 1 <= i < end && asks_for_quiet(#[trigger] words[i]),
{
    assert forall|word: Seq<char>| true implies #[trigger] cargo::is_quiet(word)
        == asks_for_quiet(word) by {
        law_settings_are_spelled(word);
    }
    lemma_any(
        words,
        end,
        |word: Seq<char>| cargo::is_quiet(word),
        |word: Seq<char>| asks_for_quiet(word),
    );
    assert((exists|i: int| 1 <= i < end && asks_for_quiet(#[trigger] words[i])) == exists|i: int|
        1 <= i < end && (|word: Seq<char>| asks_for_quiet(word))(#[trigger] words[i]));
}

/// The words of any list are quiet exactly if one of them says so.
pub proof fn law_quiet_words(words: Seq<Seq<char>>)
    ensures
        cargo::any_word(words, |word: Seq<char>| cargo::is_quiet(word)) == exists|i: int|
            0 <= i < words.len() && asks_for_quiet(#[trigger] words[i]),
{
    let kind = |word: Seq<char>| cargo::is_quiet(word);
    if cargo::any_word(words, kind) {
        let i = choose|i: int| 0 <= i < words.len() && kind(#[trigger] words[i]);
        law_settings_are_spelled(words[i]);
        assert(asks_for_quiet(words[i]));
    }
    if exists|i: int| 0 <= i < words.len() && asks_for_quiet(#[trigger] words[i]) {
        let i = choose|i: int| 0 <= i < words.len() && asks_for_quiet(#[trigger] words[i]);
        law_settings_are_spelled(words[i]);
        assert(kind(words[i]));
    }
}

/// The separator is the first word that is `--`; without one it counts as behind the last word.
pub proof fn law_separator_is_the_first_two_hyphens(words: Seq<Seq<char>>, at: int)
    requires
        0 <= at <= words.len(),
        at < words.len() ==> words[at] == two_hyphens(),
        forall|i: int| 0 <= i < at ==> #[trigger] words[i] != two_hyphens(),
    ensures
        cargo::separator_at(words) == at,
{
    reveal_strlit("--");
    assert(SEPARATOR@ =~= two_hyphens());
    cargo::lemma_separator_at(words);
    let found = cargo::separator_at(words) as int;
    if found < at {
        assert(words[found] == SEPARATOR@);
    }
    if at < found {
        assert(words[at] != SEPARATOR@);
    }
}

/// The child runs without colours, and with the fingerprint trace exactly if it was asked for.
pub proof fn law_environment_of_the_child(deep: bool, name: Seq<char>, value: Seq<char>)
    ensures
        cargo::environment(deep).contains((name, value)) == ({
            ||| name == "CARGO_TERM_COLOR"@ && value == "never"@
            ||| deep && name == "CARGO_LOG"@ && value
                == "cargo::core::compiler::fingerprint=trace"@
        }),
{
    let all = cargo::environment(deep);
    assert(all[0] == ("CARGO_TERM_COLOR"@, "never"@));
    if deep {
        assert(all[1] == ("CARGO_LOG"@, "cargo::core::compiler::fingerprint=trace"@));
    }
}

/// The exit code is the child's own; for a child that a signal ended it is that many more than a
/// hundred and twenty-eight; and it is one for a child of which neither is known.
pub proof fn law_exit_code_is_mirrored(code: i32, signal: Option<i32>, number: i32)
    ensures
        cargo::mirrored(Some(code), signal) == code,
        cargo::mirrored(None, Some(number)) == number + 128,
        cargo::mirrored(None, None) == 1,
{
}

/// The subcommand's own name is dropped from the second place of an invocation, and nothing else
/// is.
pub proof fn law_own_name_is_dropped(
    program: Seq<char>,
    second: Seq<char>,
    rest: Seq<Seq<char>>,
)
    ensures
        cli::own_words(seq![program, second] + rest) == if second == seq!['d', 'i', 'r', 't', 'y'] {
            seq![program] + rest
        } else {
            seq![program, second] + rest
        },
        cli::own_words(seq![program]) == seq![program],
        cli::own_words(Seq::empty()) == Seq::<Seq<char>>::empty(),
{
    reveal_strlit("dirty");
    assert("dirty"@ =~= seq!['d', 'i', 'r', 't', 'y']);
    let argv = seq![program, second] + rest;
    assert(argv[1] == second);
    if second == seq!['d', 'i', 'r', 't', 'y'] {
        assert(argv.remove(1) =~= seq![program] + rest);
    }
}

} // verus!
