//! What the child's arguments promise for every command line.

use vstd::prelude::*;

use crate::cargo;
use crate::cargo::{CargoArgView, MESSAGE_FORMAT_FLAG, ONE_JOB_FLAG, SEPARATOR, VERBOSE_FLAG};

verus! {

/// Whether an argument is one of the user's words.
pub open spec fn is_forwarded(arg: CargoArgView) -> bool {
    arg is Forwarded
}

/// The user's words pass the filter for them.
proof fn lemma_forwarded_kept(from: int, to: int)
    requires
        from <= to,
    ensures
        cargo::forwarded(from, to).filter(|arg: CargoArgView| is_forwarded(arg))
            == cargo::forwarded(from, to),
    decreases to - from,
{
    reveal(Seq::filter);
    let keep = |arg: CargoArgView| is_forwarded(arg);
    let all = cargo::forwarded(from, to);
    if from < to {
        assert(all.drop_last() =~= cargo::forwarded(from, to - 1));
        lemma_forwarded_kept(from, to - 1);
        assert(all.last() == CargoArgView::Forwarded(to - 1));
        assert(all =~= all.drop_last().push(all.last()));
    } else {
        assert(all =~= Seq::empty());
        assert(all.filter(keep) =~= Seq::empty());
    }
}

/// A flag does not pass the filter for the user's words.
proof fn lemma_injected_dropped(flag: Seq<char>, needed: bool)
    ensures
        cargo::injected(flag, needed).filter(|arg: CargoArgView| is_forwarded(arg))
            == Seq::<CargoArgView>::empty(),
{
    reveal(Seq::filter);
    let keep = |arg: CargoArgView| is_forwarded(arg);
    let all = cargo::injected(flag, needed);
    if needed {
        assert(all.drop_last() =~= Seq::empty());
        assert(all.last() == CargoArgView::Injected(flag));
        assert(all.drop_last().filter(keep) =~= Seq::empty());
    }
    assert(all.filter(keep) =~= Seq::empty());
}

/// Each word of the user is forwarded exactly once, and in the user's order.
pub proof fn law_each_word_is_forwarded_once(words: Seq<Seq<char>>, linear: bool)
    requires
        words.len() > 0,
    ensures
        cargo::composed(words, linear).filter(|arg: CargoArgView| is_forwarded(arg))
            == cargo::forwarded(0, words.len() as int),
{
    let keep = |arg: CargoArgView| is_forwarded(arg);
    let own = cargo::cargo_side(words);
    let end = cargo::cargo_end(words);
    let len = words.len() as int;
    cargo::lemma_separator_at(words.skip(1));
    let verbose = cargo::injected(
        VERBOSE_FLAG@,
        !cargo::any_word(own, |word: Seq<char>| cargo::is_verbose(word)),
    );
    let format = cargo::injected(
        MESSAGE_FORMAT_FLAG@,
        !cargo::any_word(own, |word: Seq<char>| cargo::is_message_format(word)),
    );
    let jobs = cargo::injected(
        ONE_JOB_FLAG@,
        linear && !cargo::any_word(own, |word: Seq<char>| cargo::is_jobs(word)),
    );
    let head = cargo::forwarded(0, end);
    let tail = cargo::forwarded(end, len);
    assert(cargo::composed(words, linear) == verbose + head + format + jobs + tail);
    Seq::filter_distributes_over_add(verbose, head, keep);
    Seq::filter_distributes_over_add(verbose + head, format, keep);
    Seq::filter_distributes_over_add(verbose + head + format, jobs, keep);
    Seq::filter_distributes_over_add(verbose + head + format + jobs, tail, keep);
    lemma_injected_dropped(
        VERBOSE_FLAG@,
        !cargo::any_word(own, |word: Seq<char>| cargo::is_verbose(word)),
    );
    lemma_injected_dropped(
        MESSAGE_FORMAT_FLAG@,
        !cargo::any_word(own, |word: Seq<char>| cargo::is_message_format(word)),
    );
    lemma_injected_dropped(
        ONE_JOB_FLAG@,
        linear && !cargo::any_word(own, |word: Seq<char>| cargo::is_jobs(word)),
    );
    lemma_forwarded_kept(0, end);
    lemma_forwarded_kept(end, len);
    assert(cargo::composed(words, linear).filter(keep) =~= cargo::forwarded(0, len));
}

/// The three flags are different texts.
proof fn lemma_flags_differ()
    ensures
        VERBOSE_FLAG@ != MESSAGE_FORMAT_FLAG@,
        VERBOSE_FLAG@ != ONE_JOB_FLAG@,
        MESSAGE_FORMAT_FLAG@ != ONE_JOB_FLAG@,
{
    reveal_strlit("-vv");
    reveal_strlit("--message-format=json");
    reveal_strlit("--jobs=1");
    assert(VERBOSE_FLAG@.len() == 3);
    assert(MESSAGE_FORMAT_FLAG@.len() == 21);
    assert(ONE_JOB_FLAG@.len() == 8);
}

/// The user's choice wins: a flag is injected exactly if it is needed and no word that cargo
/// reads already makes that setting. No other flag is injected, and none twice.
pub proof fn law_the_users_choice_wins(words: Seq<Seq<char>>, linear: bool, flag: Seq<char>)
    requires
        words.len() > 0,
    ensures
        ({
            let own = cargo::cargo_side(words);
            let args = cargo::composed(words, linear);
            &&& args.contains(CargoArgView::Injected(flag)) == {
                ||| flag == VERBOSE_FLAG@ && !cargo::any_word(
                    own,
                    |word: Seq<char>| cargo::is_verbose(word),
                )
                ||| flag == MESSAGE_FORMAT_FLAG@ && !cargo::any_word(
                    own,
                    |word: Seq<char>| cargo::is_message_format(word),
                )
                ||| flag == ONE_JOB_FLAG@ && linear && !cargo::any_word(
                    own,
                    |word: Seq<char>| cargo::is_jobs(word),
                )
            }
            &&& forall|i: int, j: int|
                0 <= i < j < args.len() && #[trigger] args[i] == CargoArgView::Injected(flag)
                    ==> #[trigger] args[j] != CargoArgView::Injected(flag)
        }),
{
    lemma_flags_differ();
    let own = cargo::cargo_side(words);
    let end = cargo::cargo_end(words);
    let len = words.len() as int;
    cargo::lemma_separator_at(words.skip(1));
    let needs_verbose = !cargo::any_word(own, |word: Seq<char>| cargo::is_verbose(word));
    let needs_format = !cargo::any_word(own, |word: Seq<char>| cargo::is_message_format(word));
    let needs_jobs = linear && !cargo::any_word(own, |word: Seq<char>| cargo::is_jobs(word));
    let verbose = cargo::injected(VERBOSE_FLAG@, needs_verbose);
    let format = cargo::injected(MESSAGE_FORMAT_FLAG@, needs_format);
    let jobs = cargo::injected(ONE_JOB_FLAG@, needs_jobs);
    let head = cargo::forwarded(0, end);
    let tail = cargo::forwarded(end, len);
    let args = cargo::composed(words, linear);
    assert(args == verbose + head + format + jobs + tail);
    let format_at = verbose.len() + end;
    let jobs_at = format_at + format.len();
    if needs_verbose {
        assert(args[0] == CargoArgView::Injected(VERBOSE_FLAG@));
    }
    if needs_format {
        assert(args[format_at] == CargoArgView::Injected(MESSAGE_FORMAT_FLAG@));
    }
    if needs_jobs {
        assert(args[jobs_at] == CargoArgView::Injected(ONE_JOB_FLAG@));
    }
    assert forall|i: int| 0 <= i < args.len() && #[trigger] args[i] is Injected implies {
        ||| needs_verbose && i == 0 && args[i] == CargoArgView::Injected(VERBOSE_FLAG@)
        ||| needs_format && i == format_at && args[i] == CargoArgView::Injected(
            MESSAGE_FORMAT_FLAG@,
        )
        ||| needs_jobs && i == jobs_at && args[i] == CargoArgView::Injected(ONE_JOB_FLAG@)
    } by {
        if i < verbose.len() {
        } else if i < format_at {
            assert(args[i] == head[i - verbose.len()]);
        } else if i < jobs_at {
            assert(args[i] == format[i - format_at]);
        } else if i < jobs_at + jobs.len() {
            assert(args[i] == jobs[i - jobs_at]);
        } else {
            assert(args[i] == tail[i - jobs_at - jobs.len()]);
        }
    }
}

/// What belongs to the built binary reaches it untouched: everything from the separator on is
/// forwarded as one piece at the very end, behind every injected flag.
pub proof fn law_passthrough_is_untouched(words: Seq<Seq<char>>, linear: bool, at: int)
    requires
        1 <= at < words.len(),
        words[at] == SEPARATOR@,
        forall|i: int| 1 <= i < at ==> #[trigger] words[i] != SEPARATOR@,
    ensures
        ({
            let args = cargo::composed(words, linear);
            let behind = words.len() - at;
            &&& args.len() >= behind
            &&& args.skip(args.len() - behind) == cargo::forwarded(at, words.len() as int)
            &&& forall|i: int|
                0 <= i < args.len() && #[trigger] args[i] is Injected ==> i < args.len() - behind
        }),
{
    let args = cargo::composed(words, linear);
    let behind = words.len() - at;
    lemma_end_of(words, at);
    let tail = cargo::forwarded(at, words.len() as int);
    assert(args.skip(args.len() - behind) =~= tail);
    assert forall|i: int| 0 <= i < args.len() && #[trigger] args[i] is Injected implies i
        < args.len() - behind by {
        if i >= args.len() - behind {
            assert(args[i] == tail[i - (args.len() - behind)]);
        }
    }
}

/// What belongs to the built binary is never read: two command lines that agree up to the
/// separator get the same flags at the same places.
pub proof fn law_passthrough_is_not_read(
    words: Seq<Seq<char>>,
    others: Seq<Seq<char>>,
    linear: bool,
    at: int,
)
    requires
        1 <= at < words.len(),
        at < others.len(),
        words[at] == SEPARATOR@,
        forall|i: int| 1 <= i < at ==> #[trigger] words[i] != SEPARATOR@,
        words.take(at + 1) == others.take(at + 1),
    ensures
        ({
            let one = cargo::composed(words, linear);
            let other = cargo::composed(others, linear);
            one.take(one.len() - (words.len() - at)) == other.take(
                other.len() - (others.len() - at),
            )
        }),
{
    assert forall|i: int| 0 <= i <= at implies #[trigger] others[i] == words[i] by {
        assert(words.take(at + 1)[i] == others.take(at + 1)[i]);
    }
    lemma_end_of(words, at);
    lemma_end_of(others, at);
    assert(cargo::cargo_side(words) =~= cargo::cargo_side(others));
    let one = cargo::composed(words, linear);
    let other = cargo::composed(others, linear);
    assert(one.take(one.len() - (words.len() - at)) =~= other.take(
        other.len() - (others.len() - at),
    ));
}

/// The separator ends cargo's own words.
proof fn lemma_end_of(words: Seq<Seq<char>>, at: int)
    requires
        1 <= at < words.len(),
        words[at] == SEPARATOR@,
        forall|i: int| 1 <= i < at ==> #[trigger] words[i] != SEPARATOR@,
    ensures
        cargo::cargo_end(words) == at,
{
    let rest = words.skip(1);
    cargo::lemma_separator_at(rest);
    assert(rest[at - 1] == SEPARATOR@);
    let found = cargo::separator_at(rest) as int;
    if found < at - 1 {
        assert(rest[found] == words[found + 1]);
    }
}

} // verus!
