//! What reading a status line promises for every line.

use vstd::prelude::*;

use crate::parse;
use crate::parse::{StatusKindView, StderrLineView, WorkKind};
use crate::parse::pattern;
use crate::parse::pattern::{
    BUILDING_PATTERN, CHECKING_PATTERN, COMPILING_PATTERN, DIRTY_PATTERN, FRESH_PATTERN,
    LineSplit, RUNNING_PATTERN, STATUS_PATTERN,
};
use crate::parse::status;
use crate::parse::stderr_verbose;
use crate::parse::stderr_verbose::{CrateStatusEventView, CrateStatusKind};
use crate::raw_line;
use crate::text;

verus! {

/// Whether `pattern` cuts a line into the pieces of a status line.
pub open spec fn is_status_pattern(pattern: Seq<char>) -> bool {
    pattern::is_line_pattern(pattern) && pattern != RUNNING_PATTERN@
}

/// The text behind the verb and the white space that follows it.
spec fn behind_verb(split: LineSplit) -> Seq<char> {
    split.id + split.path_text() + split.reason_text()
}

/// The verbs hold no white space, and are five different texts.
pub proof fn lemma_verbs()
    ensures
        pattern::is_solid("Fresh"@),
        pattern::is_solid("Dirty"@),
        pattern::is_solid("Compiling"@),
        pattern::is_solid("Checking"@),
        pattern::is_solid("Building"@),
        "Fresh"@[0] == 'F',
        "Dirty"@[0] == 'D',
        "Compiling"@[1] == 'o',
        "Checking"@[1] == 'h',
        "Building"@[0] == 'B',
        "Compiling"@[0] == 'C',
        "Checking"@[0] == 'C',
{
    reveal_strlit("Fresh");
    reveal_strlit("Dirty");
    reveal_strlit("Compiling");
    reveal_strlit("Checking");
    reveal_strlit("Building");
}

/// Every split that a pattern admits has one of the five verbs.
pub proof fn lemma_admitted_verb(pattern: Seq<char>, line: Seq<char>, split: LineSplit)
    requires
        is_status_pattern(pattern),
        pattern::admits(pattern, line, split),
    ensures
        pattern::is_status_verb(split.verb),
{
    pattern::lemma_patterns_differ();
}

/// A unit id is a run of characters other than white space, white space, and another such run
/// that begins with a `v`.
proof fn lemma_unit_id(id: Seq<char>) -> (pieces: (Seq<char>, Seq<char>, Seq<char>))
    requires
        pattern::is_unit_id(id),
    ensures
        pattern::is_solid(pieces.0),
        pattern::is_gap(pieces.1),
        pattern::is_solid(pieces.2),
        pieces.2.len() > 1,
        id == pieces.0 + pieces.1 + pieces.2,
{
    let (name, gap, version) = choose|name: Seq<char>, gap: Seq<char>, version: Seq<char>|
        #![trigger pattern::unit_id(name, gap, version)]
        pattern::is_solid(name) && pattern::is_gap(gap) && pattern::is_solid(version) && id
            == pattern::unit_id(name, gap, version);
    let versioned = seq!['v'] + version;
    assert(id =~= name + gap + versioned);
    (name, gap, versioned)
}

/// White space in front of something else ends where that begins.
proof fn lemma_gap_ends(gap: Seq<char>, rest: Seq<char>)
    requires
        pattern::is_gap(gap),
        rest.len() > 0 ==> !text::is_white(rest[0]),
    ensures
        text::leading_white(gap + rest) == gap.len(),
        (gap + rest).skip(gap.len() as int) == rest,
{
    let whole = gap + rest;
    assert forall|i: int| 0 <= i < gap.len() implies text::is_white(#[trigger] whole[i]) by {
        assert(whole[i] == gap[i]);
    }
    text::lemma_leading_white(whole, gap.len() as int);
    assert(whole.skip(gap.len() as int) =~= rest);
}

/// A word in front of white space ends where that begins.
proof fn lemma_word_ends(word: Seq<char>, rest: Seq<char>)
    requires
        pattern::is_solid(word),
        rest.len() > 0 ==> text::is_white(rest[0]),
    ensures
        text::leading_word(word + rest) == word.len(),
        (word + rest).skip(word.len() as int) == rest,
{
    let whole = word + rest;
    assert forall|i: int| 0 <= i < word.len() implies !text::is_white(#[trigger] whole[i]) by {
        assert(whole[i] == word[i]);
    }
    text::lemma_leading_word(whole, word.len() as int);
    assert(whole.skip(word.len() as int) =~= rest);
}

/// A line fixes the verb of its splits, the white space behind it, and what follows.
proof fn lemma_same_front(split: LineSplit, other: LineSplit)
    requires
        pattern::is_status_verb(split.verb),
        pattern::is_status_verb(other.verb),
        split.well_spelled(),
        other.well_spelled(),
        split.line() == other.line(),
    ensures
        split.verb == other.verb,
        split.gap == other.gap,
        behind_verb(split) == behind_verb(other),
{
    lemma_verbs();
    lemma_front(split);
    lemma_front(other);
    let line = split.line();
    assert(split.verb =~= line.take(split.verb.len() as int));
    assert(other.verb =~= line.take(other.verb.len() as int));
    let rest = line.skip(split.verb.len() as int);
    assert(split.gap =~= rest.take(split.gap.len() as int));
    assert(other.gap =~= rest.take(other.gap.len() as int));
}

/// Where the pieces at the start of a line end.
proof fn lemma_front(split: LineSplit)
    requires
        pattern::is_solid(split.verb),
        split.well_spelled(),
    ensures
        split.line() == split.verb + (split.gap + behind_verb(split)),
        text::leading_word(split.line()) == split.verb.len(),
        split.line().skip(split.verb.len() as int) == split.gap + behind_verb(split),
        text::leading_white(split.gap + behind_verb(split)) == split.gap.len(),
        (split.gap + behind_verb(split)).skip(split.gap.len() as int) == behind_verb(split),
{
    let behind = behind_verb(split);
    let (name, _, _) = lemma_unit_id(split.id);
    assert(behind[0] == name[0]);
    lemma_gap_ends(split.gap, behind);
    assert((split.gap + behind)[0] == split.gap[0]);
    lemma_word_ends(split.verb, split.gap + behind);
    assert(split.line() =~= split.verb + (split.gap + behind));
}

/// How far a unit id at the start of a text can reach: no further than the second run of
/// characters other than white space.
proof fn lemma_id_reach(id: Seq<char>, behind: Seq<char>, other: Seq<char>, behind_other: Seq<char>)
    requires
        pattern::is_unit_id(id),
        pattern::is_unit_id(other),
        id + behind == other + behind_other,
    ensures
        other.len() > id.len() ==> forall|i: int|
            0 <= i < other.len() - id.len() ==> !text::is_white(#[trigger] behind[i]),
        other.len() == id.len() ==> other == id && behind == behind_other,
{
    let whole = id + behind;
    let (name, gap, version) = lemma_unit_id(id);
    let (other_name, other_gap, other_version) = lemma_unit_id(other);
    let rest = gap + (version + behind);
    let other_rest = other_gap + (other_version + behind_other);
    assert(rest[0] == gap[0]);
    assert(other_rest[0] == other_gap[0]);
    lemma_word_ends(name, rest);
    lemma_word_ends(other_name, other_rest);
    assert(whole =~= name + rest);
    assert(whole =~= other_name + other_rest);
    assert(name.len() == other_name.len());
    assert(rest == other_rest);
    assert((version + behind)[0] == version[0]);
    assert((other_version + behind_other)[0] == other_version[0]);
    lemma_gap_ends(gap, version + behind);
    lemma_gap_ends(other_gap, other_version + behind_other);
    assert(gap.len() == other_gap.len());
    let versions = version + behind;
    assert(versions == other_version + behind_other);
    if other.len() > id.len() {
        assert forall|i: int| 0 <= i < other.len() - id.len() implies !text::is_white(
            #[trigger] behind[i],
        ) by {
            assert(versions[version.len() + i] == behind[i]);
            assert(versions[version.len() + i] == other_version[version.len() + i]);
        }
    }
    if other.len() == id.len() {
        assert(id =~= whole.take(id.len() as int));
        assert(other =~= whole.take(id.len() as int));
        assert(behind =~= whole.skip(id.len() as int));
        assert(behind_other =~= whole.skip(id.len() as int));
    }
}

/// Parentheses behind white space begin at the same place, and end at the same place where what
/// stands between them is as long.
proof fn lemma_same_path(split: LineSplit, other: LineSplit)
    requires
        split.well_spelled(),
        other.well_spelled(),
        split.path_text() + split.reason_text() == other.path_text() + other.reason_text(),
        split.path is Some,
        other.path is Some,
    ensures
        split.path.unwrap().0 == other.path.unwrap().0,
        split.path.unwrap().1 + seq![')'] + split.reason_text() == other.path.unwrap().1 + seq![
            ')',
        ] + other.reason_text(),
        split.path.unwrap().1.len() == other.path.unwrap().1.len() ==> split.path == other.path
            && split.reason_text() == other.reason_text(),
{
    let (gap, path) = split.path.unwrap();
    let (other_gap, other_path) = other.path.unwrap();
    let whole = split.path_text() + split.reason_text();
    let inner = path + seq![')'] + split.reason_text();
    let other_inner = other_path + seq![')'] + other.reason_text();
    let rest = seq!['('] + inner;
    let other_rest = seq!['('] + other_inner;
    assert(whole =~= gap + rest);
    assert(whole =~= other_gap + other_rest);
    assert(rest[0] == '(');
    assert(other_rest[0] == '(');
    lemma_gap_ends(gap, rest);
    lemma_gap_ends(other_gap, other_rest);
    assert(gap =~= whole.take(gap.len() as int));
    assert(other_gap =~= whole.take(gap.len() as int));
    assert(inner =~= rest.skip(1));
    assert(other_inner =~= rest.skip(1));
    if path.len() == other_path.len() {
        assert(path =~= inner.take(path.len() as int));
        assert(other_path =~= inner.take(path.len() as int));
        assert(split.reason_text() =~= inner.skip(path.len() as int + 1));
        assert(other.reason_text() =~= inner.skip(path.len() as int + 1));
    }
}

/// A text in the place of a reason fixes the reason once the white space behind the colon is
/// fixed.
proof fn lemma_same_reason(split: LineSplit, other: LineSplit)
    requires
        split.well_spelled(),
        other.well_spelled(),
        split.reason_text() == other.reason_text(),
    ensures
        (split.reason is Some) == (other.reason is Some),
        split.reason is Some && split.reason.unwrap().0.len() == other.reason.unwrap().0.len()
            ==> split.reason == other.reason,
        split.reason is Some ==> split.reason.unwrap().0 + split.reason.unwrap().1
            == other.reason.unwrap().0 + other.reason.unwrap().1,
        split.reason is None ==> split.reason == other.reason,
{
    let whole = split.reason_text();
    if split.reason is Some {
        assert(whole.len() > 0);
    }
    if other.reason is Some {
        assert(whole.len() > 0);
    }
    if split.reason is Some {
        let (gap, reason) = split.reason.unwrap();
        let (other_gap, other_reason) = other.reason.unwrap();
        assert(gap + reason =~= whole.skip(1));
        assert(other_gap + other_reason =~= whole.skip(1));
        if gap.len() == other_gap.len() {
            assert(gap =~= whole.skip(1).take(gap.len() as int));
            assert(other_gap =~= whole.skip(1).take(gap.len() as int));
            assert(reason =~= whole.skip(1).skip(gap.len() as int));
            assert(other_reason =~= whole.skip(1).skip(gap.len() as int));
        }
    }
}

/// A line has at most one reading under a pattern: the pattern picks one way to cut it.
pub proof fn law_a_line_has_one_reading(
    pattern: Seq<char>,
    line: Seq<char>,
    split: LineSplit,
    other: LineSplit,
)
    requires
        is_status_pattern(pattern),
        pattern::picks(pattern, line, split),
        pattern::picks(pattern, line, other),
    ensures
        split == other,
        pattern::line_split(pattern, line) == Some(split),
{
    lemma_one_reading(pattern, line, split, other);
    let chosen = choose|split: LineSplit| pattern::picks(pattern, line, split);
    assert(pattern::picks(pattern, line, chosen));
    lemma_one_reading(pattern, line, split, chosen);
}

/// Two ways to cut a line that both come first are the same.
proof fn lemma_one_reading(
    pattern: Seq<char>,
    line: Seq<char>,
    split: LineSplit,
    other: LineSplit,
)
    requires
        is_status_pattern(pattern),
        pattern::picks(pattern, line, split),
        pattern::picks(pattern, line, other),
    ensures
        split == other,
{
    let lazy = pattern == STATUS_PATTERN@;
    lemma_admitted_verb(pattern, line, split);
    lemma_admitted_verb(pattern, line, other);
    assert(pattern::admits(pattern, line, split));
    assert(pattern::admits(pattern, line, other));
    assert(split.no_later_than(other, lazy));
    assert(other.no_later_than(split, lazy));
    lemma_same_front(split, other);
    assert(split.id.len() == other.id.len());
    let behind = split.path_text() + split.reason_text();
    let behind_other = other.path_text() + other.reason_text();
    assert(behind_verb(split) =~= split.id + behind);
    assert(behind_verb(other) =~= other.id + behind_other);
    lemma_id_reach(split.id, behind, other.id, behind_other);
    if split.path is Some {
        lemma_same_path(split, other);
    } else {
        assert(behind =~= split.reason_text());
        assert(behind_other =~= other.reason_text());
    }
    lemma_same_reason(split, other);
}

/// Something has the least rank among those that are good, as soon as one is good.
proof fn lemma_least<A>(good: spec_fn(A) -> bool, rank: spec_fn(A) -> nat, start: A) -> (least: A)
    requires
        good(start),
    ensures
        good(least),
        forall|other: A| good(other) ==> rank(least) <= #[trigger] rank(other),
    decreases rank(start),
{
    if exists|other: A| good(other) && #[trigger] rank(other) < rank(start) {
        let other = choose|other: A| good(other) && #[trigger] rank(other) < rank(start);
        lemma_least(good, rank, other)
    } else {
        start
    }
}

/// A line that can be cut as a pattern asks has a reading: one of the ways to cut it comes first.
pub proof fn law_a_matching_line_has_a_reading(
    pattern: Seq<char>,
    line: Seq<char>,
    start: LineSplit,
) -> (split: LineSplit)
    requires
        is_status_pattern(pattern),
        pattern::admits(pattern, line, start),
    ensures
        pattern::picks(pattern, line, split),
        pattern::line_split(pattern, line) == Some(split),
{
    let lazy = pattern == STATUS_PATTERN@;
    let len = line.len();
    let id_rank = |s: LineSplit| (len - s.id.len()) as nat;
    let some_rank = |s: LineSplit|
        if s.path is Some {
            0nat
        } else {
            1nat
        };
    let path_rank = |s: LineSplit|
        match s.path {
            Some((_, path)) => if lazy {
                path.len()
            } else {
                (len - path.len()) as nat
            },
            None => 0nat,
        };
    let gap_rank = |s: LineSplit|
        match s.reason {
            Some((gap, _)) => (len - gap.len()) as nat,
            None => 0nat,
        };
    let all = |s: LineSplit| pattern::admits(pattern, line, s);
    let one = lemma_least(all, id_rank, start);
    let same_id = |s: LineSplit| all(s) && id_rank(s) == id_rank(one);
    let two = lemma_least(same_id, some_rank, one);
    let same_some = |s: LineSplit| same_id(s) && some_rank(s) == some_rank(two);
    let three = lemma_least(same_some, path_rank, two);
    let same_path = |s: LineSplit| same_some(s) && path_rank(s) == path_rank(three);
    let split = lemma_least(same_path, gap_rank, three);
    assert forall|other: LineSplit| #[trigger]
        pattern::admits(pattern, line, other) implies split.no_later_than(other, lazy) by {
        assert(all(other));
        assert(id_rank(one) <= id_rank(other));
        lemma_pieces_fit(split);
        lemma_pieces_fit(other);
        if split.id.len() == other.id.len() {
            assert(same_id(other));
            assert(some_rank(two) <= some_rank(other));
            if some_rank(other) == some_rank(two) {
                assert(same_some(other));
                assert(path_rank(three) <= path_rank(other));
                if path_rank(other) == path_rank(three) {
                    assert(same_path(other));
                    assert(gap_rank(split) <= gap_rank(other));
                }
            }
        }
    }
    law_a_line_has_one_reading(pattern, line, split, split);
    split
}

/// The pieces of a line are no longer than the line.
proof fn lemma_pieces_fit(split: LineSplit)
    ensures
        split.id.len() <= split.line().len(),
        split.path matches Some((_, path)) ==> path.len() <= split.line().len(),
        split.reason matches Some((gap, _)) ==> gap.len() <= split.line().len(),
{
}

/// Whether a text holds a closing parenthesis, a colon and white space in a row: what follows a
/// source path in front of a reason.
pub open spec fn holds_path_end(text: Seq<char>) -> bool {
    exists|i: int|
        0 <= i && i + 2 < text.len() && #[trigger] text[i] == ')' && text[i + 1] == ':'
            && text::is_white(text[i + 2])
}

/// Whether a line made of these pieces cannot be mistaken for another: the reason does not begin
/// with white space; what looks like the end of a source path is not found inside the path, nor,
/// where the longest path is sought, inside the reason; and without a path the reason does not
/// look like one.
pub open spec fn is_plain(split: LineSplit, lazy_path: bool) -> bool {
    &&& split.reason matches Some((_, reason)) ==> reason.len() == 0 || !text::is_white(reason[0])
    &&& match split.path {
        Some((_, path)) => if lazy_path {
            !holds_path_end(path)
        } else {
            split.reason matches Some((_, reason)) ==> !holds_path_end(reason)
        },
        None => split.reason matches Some((_, reason)) ==> reason.len() == 0 || reason[0] != '(',
    }
}

/// The white space behind the colon of a plain line is as long as it can be.
proof fn lemma_longest_gap(split: LineSplit, other: LineSplit)
    requires
        split.well_spelled(),
        other.well_spelled(),
        split.reason_text() == other.reason_text(),
        split.reason matches Some((_, reason)) ==> reason.len() == 0 || !text::is_white(reason[0]),
    ensures
        split.reason is Some ==> split.reason.unwrap().0.len() >= other.reason.unwrap().0.len(),
{
    lemma_same_reason(split, other);
    if split.reason is Some {
        let (gap, reason) = split.reason.unwrap();
        let (other_gap, other_reason) = other.reason.unwrap();
        if other_gap.len() > gap.len() {
            let at = gap.len() as int;
            assert((gap + reason)[at] == reason[0]);
            assert((other_gap + other_reason)[at] == other_gap[at]);
            assert(text::is_white(other_gap[at]));
        }
    }
}

/// Of two ways to cut a line at the same id, that of a plain line comes first.
#[verifier::spinoff_prover]
proof fn lemma_plain_path_first(split: LineSplit, other: LineSplit, lazy: bool)
    requires
        split.well_spelled(),
        other.well_spelled(),
        split.path_text() + split.reason_text() == other.path_text() + other.reason_text(),
        split.id.len() == other.id.len(),
        is_plain(split, lazy),
        !lazy ==> (split.reason is Some) == (other.reason is Some),
    ensures
        split.no_later_than(other, lazy),
{
    let behind = split.path_text() + split.reason_text();
    match (split.path, other.path) {
        (Some((_, path)), Some((_, other_path))) => {
            lemma_same_path(split, other);
            if lazy {
                lemma_path_in_path(split, other);
            }
            if !lazy && other_path.len() > path.len() {
                lemma_path_in_reason(split, other);
            } else if path.len() == other_path.len() {
                lemma_longest_gap(split, other);
            }
        },
        (None, Some((other_gap, _))) => {
            assert(behind =~= split.reason_text());
            assert((other.path_text() + other.reason_text())[0] == other_gap[0]);
            assert(split.reason is Some);
            assert(behind[0] == ':');
            assert(text::is_white(other_gap[0]));
        },
        (None, None) => {
            assert(behind =~= split.reason_text());
            assert(other.path_text() + other.reason_text() =~= other.reason_text());
            lemma_longest_gap(split, other);
        },
        (Some(_), None) => {},
    }
}

/// A shorter path than that of a plain line does not end inside the path.
#[verifier::spinoff_prover]
proof fn lemma_path_in_path(split: LineSplit, other: LineSplit)
    requires
        split.well_spelled(),
        other.well_spelled(),
        split.path is Some,
        other.path is Some,
        split.path.unwrap().1 + seq![')'] + split.reason_text() == other.path.unwrap().1 + seq![
            ')',
        ] + other.reason_text(),
        !holds_path_end(split.path.unwrap().1),
    ensures
        other.path.unwrap().1.len() >= split.path.unwrap().1.len(),
{
    let (_, path) = split.path.unwrap();
    let (_, other_path) = other.path.unwrap();
    if other_path.len() < path.len() {
        let inner = path + seq![')'] + split.reason_text();
        let other_inner = other_path + seq![')'] + other.reason_text();
        let at = other_path.len() as int;
        assert(other_inner[at] == ')');
        assert(inner[at] == path[at]);
        assert(other.reason_text().len() == inner.len() - at - 1);
        assert(other.reason is Some);
        let (gap, _) = other.reason.unwrap();
        assert(other_inner[at + 1] == ':');
        assert(other_inner[at + 2] == gap[0]);
        if at + 2 < path.len() {
            assert(inner[at + 1] == path[at + 1]);
            assert(inner[at + 2] == path[at + 2]);
            assert(holds_path_end(path));
        } else if at + 2 == path.len() {
            assert(inner[at + 2] == ')');
        } else {
            assert(inner[at + 1] == ')');
        }
    }
}

/// A longer path than that of a plain line does not end inside the reason.
#[verifier::spinoff_prover]
proof fn lemma_path_in_reason(split: LineSplit, other: LineSplit)
    requires
        split.well_spelled(),
        other.well_spelled(),
        split.path is Some,
        other.path is Some,
        split.path.unwrap().1 + seq![')'] + split.reason_text() == other.path.unwrap().1 + seq![
            ')',
        ] + other.reason_text(),
        other.path.unwrap().1.len() > split.path.unwrap().1.len(),
        split.reason matches Some((_, reason)) ==> !holds_path_end(reason),
    ensures
        other.reason is None,
        split.reason is Some,
{
    let (_, path) = split.path.unwrap();
    let (_, other_path) = other.path.unwrap();
    let inner = path + seq![')'] + split.reason_text();
    let other_inner = other_path + seq![')'] + other.reason_text();
    let at = other_path.len() as int;
    assert(other_inner[at] == ')');
    assert(inner.len() > path.len() + 1);
    assert(split.reason is Some);
    let (gap, reason) = split.reason.unwrap();
    let from = path.len() + 2 + gap.len();
    assert(inner[path.len() as int + 1] == ':');
    assert forall|i: int| path.len() + 2 <= i < from implies text::is_white(#[trigger] inner[i]) by {
        assert(inner[i] == gap[i - path.len() - 2]);
    }
    assert(at >= from);
    assert(inner[at] == reason[at - from]);
    if other.reason is Some {
        let (other_gap, _) = other.reason.unwrap();
        assert(other_inner[at + 1] == ':');
        assert(other_inner[at + 2] == other_gap[0]);
        assert(inner[at + 1] == reason[at - from + 1]);
        assert(inner[at + 2] == reason[at - from + 2]);
        assert(holds_path_end(reason));
    }
}

/// No way to cut a plain line has a longer id.
proof fn lemma_plain_id_longest(split: LineSplit, other: LineSplit, lazy: bool)
    requires
        split.well_spelled(),
        other.well_spelled(),
        behind_verb(split) == behind_verb(other),
        is_plain(split, lazy),
    ensures
        other.id.len() <= split.id.len(),
{
    let behind = split.path_text() + split.reason_text();
    let behind_other = other.path_text() + other.reason_text();
    assert(behind_verb(split) =~= split.id + behind);
    assert(behind_verb(other) =~= other.id + behind_other);
    lemma_id_reach(split.id, behind, other.id, behind_other);
    if other.id.len() > split.id.len() {
        assert((split.id + behind).len() == (other.id + behind_other).len());
        assert(!text::is_white(behind[0]));
        match split.path {
            Some((gap, _)) => {
                assert(behind[0] == gap[0]);
            },
            None => {
                assert(behind =~= split.reason_text());
                let (gap, reason) = split.reason.unwrap();
                assert(behind[1] == gap[0]);
                assert(other.id.len() == split.id.len() + 1);
                assert(behind_other =~= (other.id + behind_other).skip(other.id.len() as int));
                assert(behind_other =~= gap + reason);
                match other.path {
                    Some((other_gap, path)) => {
                        let rest = seq!['('] + path + seq![')'] + other.reason_text();
                        assert(behind_other =~= other_gap + rest);
                        assert(rest[0] == '(');
                        lemma_gap_ends(other_gap, rest);
                        lemma_gap_ends(gap, reason);
                        assert(reason[0] == '(');
                    },
                    None => {
                        assert(behind_other =~= other.reason_text());
                        assert(behind_other[0] == gap[0]);
                    },
                }
            },
        }
    }
}

/// A plain line is read as it was written.
proof fn lemma_plain_is_picked(pattern: Seq<char>, split: LineSplit)
    requires
        is_status_pattern(pattern),
        pattern::admits(pattern, split.line(), split),
        is_plain(split, pattern == STATUS_PATTERN@),
    ensures
        pattern::line_split(pattern, split.line()) == Some(split),
{
    let lazy = pattern == STATUS_PATTERN@;
    let line = split.line();
    lemma_admitted_verb(pattern, line, split);
    assert forall|other: LineSplit| #[trigger]
        pattern::admits(pattern, line, other) implies split.no_later_than(other, lazy) by {
        lemma_admitted_verb(pattern, line, other);
        lemma_same_front(split, other);
        lemma_plain_id_longest(split, other, lazy);
        if other.id.len() == split.id.len() {
            let behind = split.path_text() + split.reason_text();
            let behind_other = other.path_text() + other.reason_text();
            assert(behind_verb(split) =~= split.id + behind);
            assert(behind_verb(other) =~= other.id + behind_other);
            lemma_id_reach(split.id, behind, other.id, behind_other);
            lemma_plain_path_first(split, other, lazy);
        }
    }
    assert(pattern::picks(pattern, line, split));
    law_a_line_has_one_reading(pattern, line, split, split);
}

/// What the reason of a split says.
pub open spec fn told_reason(split: LineSplit) -> Option<Seq<char>> {
    match split.reason {
        Some((_, reason)) => Some(reason),
        None => None,
    }
}

/// A status line reads back as it was written: its verb, its unit and its whole reason, with any
/// parentheses that the reason holds.
pub proof fn law_status_line_reads_back(split: LineSplit)
    requires
        pattern::is_status_verb(split.verb),
        split.well_spelled(),
        is_plain(split, true),
    ensures
        status::status_of(split.line()) == status::status_from(
            split.verb,
            split.id,
            told_reason(split),
        ),
{
    pattern::lemma_patterns_differ();
    lemma_plain_is_picked(STATUS_PATTERN@, split);
}

/// A `Dirty` line that states no reason is not a status.
pub proof fn law_dirty_without_reason_is_no_status(split: LineSplit)
    requires
        split.verb == "Dirty"@,
        split.reason is None,
        split.well_spelled(),
        is_plain(split, true),
    ensures
        status::status_of(split.line()) is None,
{
    lemma_verbs();
    law_status_line_reads_back(split);
}

/// The kind that a verb of a verbose line stands for.
pub open spec fn verbose_kind(verb: Seq<char>) -> CrateStatusKind {
    if verb == "Fresh"@ {
        CrateStatusKind::Fresh
    } else if verb == "Dirty"@ {
        CrateStatusKind::Dirty
    } else if verb == "Compiling"@ {
        CrateStatusKind::Compiling
    } else if verb == "Checking"@ {
        CrateStatusKind::Checking
    } else {
        CrateStatusKind::Building
    }
}

/// A line with another verb does not match a pattern.
proof fn lemma_other_verb(pattern: Seq<char>, verb: Seq<char>, split: LineSplit)
    requires
        is_status_pattern(pattern),
        pattern != STATUS_PATTERN@,
        pattern::is_status_verb(split.verb),
        split.well_spelled(),
        forall|other: LineSplit|
            pattern::admits(pattern, split.line(), other) ==> #[trigger] other.verb == verb,
        split.verb != verb,
    ensures
        pattern::line_split(pattern, split.line()) is None,
{
    assert forall|other: LineSplit| !pattern::admits(pattern, split.line(), other) by {
        if pattern::admits(pattern, split.line(), other) {
            lemma_admitted_verb(pattern, split.line(), other);
            lemma_same_front(split, other);
            assert(other.verb == verb);
        }
    }
}

/// A verbose line reads back as it was written: a `Dirty` line with its reason, and any other
/// without one.
pub proof fn law_verbose_line_reads_back(split: LineSplit)
    requires
        pattern::is_status_verb(split.verb),
        split.well_spelled(),
        is_plain(split, false),
        (split.verb == "Dirty"@) == (split.reason is Some),
    ensures
        stderr_verbose::event_of(split.line()) == Some(
            CrateStatusEventView {
                kind: verbose_kind(split.verb),
                crate_id: split.id,
                reason: told_reason(split),
            },
        ),
{
    pattern::lemma_patterns_differ();
    lemma_verbs();
    lemma_id_patterns_differ();
    let verb = split.verb;
    if verb == "Fresh"@ {
        lemma_plain_is_picked(FRESH_PATTERN@, split);
    } else {
        lemma_other_verb(FRESH_PATTERN@, "Fresh"@, split);
        if verb == "Dirty"@ {
            lemma_plain_is_picked(DIRTY_PATTERN@, split);
        } else {
            lemma_other_verb(DIRTY_PATTERN@, "Dirty"@, split);
            if verb == "Compiling"@ {
                lemma_plain_is_picked(COMPILING_PATTERN@, split);
            } else {
                lemma_other_verb(COMPILING_PATTERN@, "Compiling"@, split);
                if verb == "Checking"@ {
                    lemma_plain_is_picked(CHECKING_PATTERN@, split);
                } else {
                    lemma_other_verb(CHECKING_PATTERN@, "Checking"@, split);
                    lemma_plain_is_picked(BUILDING_PATTERN@, split);
                }
            }
        }
    }
}

/// Both readers of status lines make the same of a line that is plain to both.
pub proof fn law_both_readers_agree(split: LineSplit)
    requires
        pattern::is_status_verb(split.verb),
        split.well_spelled(),
        is_plain(split, true),
        is_plain(split, false),
        (split.verb == "Dirty"@) == (split.reason is Some),
    ensures
        status::status_of(split.line()) is Some,
        stderr_verbose::event_of(split.line()) is Some,
        ({
            let read = status::status_of(split.line())->0;
            let event = stderr_verbose::event_of(split.line())->0;
            &&& read.id == event.crate_id
            &&& match read.kind {
                StatusKindView::Fresh => event.kind is Fresh && event.reason is None,
                StatusKindView::Dirty { reason } => event.kind is Dirty && event.reason == Some(
                    reason,
                ),
                StatusKindView::Work(WorkKind::Compiling) => event.kind is Compiling
                    && event.reason is None,
                StatusKindView::Work(WorkKind::Checking) => event.kind is Checking
                    && event.reason is None,
                StatusKindView::Work(WorkKind::Building) => event.kind is Building
                    && event.reason is None,
            }
        }),
{
    law_status_line_reads_back(split);
    law_verbose_line_reads_back(split);
}

/// The patterns that capture the unit id alone are four different texts.
proof fn lemma_id_patterns_differ()
    ensures
        FRESH_PATTERN@ != COMPILING_PATTERN@,
        FRESH_PATTERN@ != CHECKING_PATTERN@,
        FRESH_PATTERN@ != BUILDING_PATTERN@,
        COMPILING_PATTERN@ != CHECKING_PATTERN@,
        COMPILING_PATTERN@ != BUILDING_PATTERN@,
        CHECKING_PATTERN@ != BUILDING_PATTERN@,
{
    reveal_strlit(r"^Fresh\s+(?P<id>[^\s]+\s+v[^\s]+)(?:\s+\(.*\))?$");
    reveal_strlit(r"^Compiling\s+(?P<id>[^\s]+\s+v[^\s]+)(?:\s+\(.*\))?$");
    reveal_strlit(r"^Checking\s+(?P<id>[^\s]+\s+v[^\s]+)(?:\s+\(.*\))?$");
    reveal_strlit(r"^Building\s+(?P<id>[^\s]+\s+v[^\s]+)(?:\s+\(.*\))?$");
    assert(FRESH_PATTERN@[1] == 'F');
    assert(COMPILING_PATTERN@[2] == 'o');
    assert(COMPILING_PATTERN@[1] == 'C');
    assert(CHECKING_PATTERN@[2] == 'h');
    assert(CHECKING_PATTERN@[1] == 'C');
    assert(BUILDING_PATTERN@[1] == 'B');
}

/// A status line begins with one of the five verbs, and names a unit.
pub proof fn law_status_names_a_unit(line: Seq<char>)
    requires
        status::status_of(line) is Some,
    ensures
        pattern::is_status_verb(line.take(text::leading_word(line) as int)),
        pattern::is_unit_id((status::status_of(line)->0).id),
{
    pattern::lemma_patterns_differ();
    lemma_verbs();
    let start = choose|split: LineSplit| pattern::admits(STATUS_PATTERN@, line, split);
    assert(pattern::admits(STATUS_PATTERN@, line, start));
    let split = law_a_matching_line_has_a_reading(STATUS_PATTERN@, line, start);
    lemma_front(split);
    assert(split.verb =~= line.take(split.verb.len() as int));
}

/// Indentation does not matter to what a status line or a line of the trace says.
pub proof fn law_indentation_is_ignored(indent: Seq<char>, line: Seq<char>)
    requires
        forall|i: int| 0 <= i < indent.len() ==> text::is_white(#[trigger] indent[i]),
    ensures
        match parse::classified(line) {
            StderrLineView::Other(_) => parse::classified(indent + line) == StderrLineView::Other(
                indent + line,
            ),
            read => parse::classified(indent + line) == read,
        },
{
    lemma_indent(indent, line);
}

/// Trimming takes indentation off.
proof fn lemma_indent(indent: Seq<char>, line: Seq<char>)
    requires
        forall|i: int| 0 <= i < indent.len() ==> text::is_white(#[trigger] indent[i]),
    ensures
        text::trimmed_start(indent + line) == text::trimmed_start(line),
    decreases indent.len(),
{
    if indent.len() == 0 {
        assert(indent + line =~= line);
    } else {
        let rest = indent.drop_first();
        let whole = indent + line;
        assert(whole.drop_first() =~= rest + line);
        assert(whole[0] == indent[0]);
        lemma_indent(rest, line);
        let white = text::leading_white(rest + line) as int;
        lemma_leading_white_fits(rest + line);
        assert(whole.skip(white + 1) =~= (rest + line).skip(white));
    }
}

/// A text does not begin with more white space than it has characters.
proof fn lemma_leading_white_fits(s: Seq<char>)
    ensures
        text::leading_white(s) <= s.len(),
    decreases s.len(),
{
    if s.len() > 0 {
        lemma_leading_white_fits(s.drop_first());
    }
}

/// A line reads the same whether a line feed, or a carriage return and a line feed, or nothing
/// ends it.
pub proof fn law_line_endings_are_dropped(line: Seq<u8>)
    requires
        line.len() > 0 ==> line.last() != 10 && line.last() != 13,
    ensures
        raw_line::line_text(line + seq![10u8]) == raw_line::line_text(line),
        raw_line::line_text(line + seq![13u8, 10u8]) == raw_line::line_text(line),
{
    let fed = line + seq![10u8];
    let returned = line + seq![13u8, 10u8];
    assert(fed.drop_last() =~= line);
    assert(returned.drop_last().drop_last() =~= line);
}

} // verus!
