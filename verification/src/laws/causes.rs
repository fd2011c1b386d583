//! Which causes are read out of cargo's reasons, and which story they make, told by the reasons
//! and the status lines themselves.

use vstd::prelude::*;

use crate::build_log;
use crate::build_log::BuildLogView;
use crate::explain;
use crate::explain::{CascadeEntryView, CulpritView};
use crate::laws::announced;
use crate::laws::cascade;
use crate::laws::cutting;
use crate::parse;
use crate::parse::fingerprint;
use crate::parse::{CrateStatusView, StatusKindView, WorkKind};
use crate::text;

verus! {

/// A reason that names a dependency between backticks behind a marker.
pub open spec fn naming(
    front: Seq<char>,
    marker: Seq<char>,
    name: Seq<char>,
    rest: Seq<char>,
) -> Seq<char> {
    cutting::joined(front, marker, name + "`"@ + rest)
}

/// Whether a text can stand between two backticks.
pub open spec fn is_quotable(name: Seq<char>) -> bool {
    name.len() > 0 && forall|i: int| 0 <= i < name.len() ==> #[trigger] name[i] != '`'
}

/// What stands between a marker and the next backtick is handed out as it is.
proof fn lemma_quoted(front: Seq<char>, marker: Seq<char>, name: Seq<char>, rest: Seq<char>)
    requires
        is_quotable(name),
        cutting::comes_first(front, marker),
    ensures
        explain::quoted_behind(naming(front, marker, name, rest), marker) == Some(name),
{
    reveal_strlit("`");
    assert("`"@ =~= seq!['`']);
    let behind = name + "`"@ + rest;
    cutting::law_split_at_the_first(front, marker, behind);
    cutting::lemma_char_comes_first(name, '`');
    assert(behind == cutting::joined(name, "`"@, rest));
    cutting::law_split_at_the_first(name, "`"@, rest);
}

/// A reason that says "dependency `x`" names `x`, whatever characters `x` is made of.
pub proof fn law_dependency_is_named(front: Seq<char>, name: Seq<char>, rest: Seq<char>)
    requires
        is_quotable(name),
        cutting::comes_first(front, "dependency `"@),
        !cutting::holds(naming(front, "dependency `"@, name, rest), "dependency on `"@),
    ensures
        explain::dependency_in(naming(front, "dependency `"@, name, rest)) == Some(name),
{
    let reason = naming(front, "dependency `"@, name, rest);
    lemma_quoted(front, "dependency `"@, name, rest);
    cutting::law_split_is_what_it_was(reason, "dependency on `"@);
}

/// A reason that says "dependency on `x`" names `x`, whatever characters `x` is made of and
/// whatever else the reason says.
pub proof fn law_dependency_on_is_named(front: Seq<char>, name: Seq<char>, rest: Seq<char>)
    requires
        is_quotable(name),
        cutting::comes_first(front, "dependency on `"@),
    ensures
        explain::dependency_in(naming(front, "dependency on `"@, name, rest)) == Some(name),
{
    lemma_quoted(front, "dependency on `"@, name, rest);
}

/// A reason that holds neither marker names no dependency.
pub proof fn law_no_marker_names_nothing(reason: Seq<char>)
    requires
        !cutting::holds(reason, "dependency on `"@),
        !cutting::holds(reason, "dependency `"@),
    ensures
        explain::dependency_in(reason) is None,
{
    cutting::law_split_is_what_it_was(reason, "dependency on `"@);
    cutting::law_split_is_what_it_was(reason, "dependency `"@);
}

/// What stands behind a marker is quoted.
proof fn lemma_quoted_stands(reason: Seq<char>, marker: Seq<char>) -> (sides: (
    Seq<char>,
    Seq<char>,
))
    requires
        explain::quoted_behind(reason, marker) is Some,
    ensures
        ({
            let name = explain::quoted_behind(reason, marker)->0;
            &&& is_quotable(name)
            &&& cutting::comes_first(sides.0, marker)
            &&& reason == naming(sides.0, marker, name, sides.1)
        }),
{
    reveal_strlit("`");
    assert("`"@ =~= seq!['`']);
    cutting::law_split_is_what_it_was(reason, marker);
    let (front, behind) = text::split_at_first(reason, marker)->0;
    cutting::law_split_is_what_it_was(behind, "`"@);
    let (name, rest) = text::split_at_first(behind, "`"@)->0;
    assert forall|i: int| 0 <= i < name.len() implies #[trigger] name[i] != '`' by {
        let mark = seq!['`'];
        if name[i] == '`' {
            assert((name + mark).subrange(i, i + mark.len()) =~= mark);
        }
    }
    (front, rest)
}

/// A dependency that a reason names stands in the reason, whole, between backticks behind one of
/// the markers.
pub proof fn law_named_dependency_is_quoted(reason: Seq<char>) -> (sides: (Seq<char>, Seq<char>))
    requires
        explain::dependency_in(reason) is Some,
    ensures
        is_quotable(explain::dependency_in(reason)->0),
        reason == naming(sides.0, "dependency on `"@, explain::dependency_in(reason)->0, sides.1)
            || reason == naming(
            sides.0,
            "dependency `"@,
            explain::dependency_in(reason)->0,
            sides.1,
        ),
{
    if explain::quoted_behind(reason, "dependency on `"@) is Some {
        lemma_quoted_stands(reason, "dependency on `"@)
    } else {
        lemma_quoted_stands(reason, "dependency `"@)
    }
}

/// Whether a name stands whole between the first marker of a reason and the next backtick.
pub open spec fn is_named_behind(
    reason: Seq<char>,
    marker: Seq<char>,
    name: Seq<char>,
) -> bool {
    is_quotable(name) && exists|front: Seq<char>, rest: Seq<char>|
        cutting::comes_first(front, marker) && reason == #[trigger] naming(
            front,
            marker,
            name,
            rest,
        )
}

/// What is read behind a marker is what stands there.
proof fn lemma_named_behind(reason: Seq<char>, marker: Seq<char>, name: Seq<char>)
    ensures
        (explain::quoted_behind(reason, marker) == Some(name)) == is_named_behind(
            reason,
            marker,
            name,
        ),
{
    if is_named_behind(reason, marker, name) {
        let (front, rest) = choose|front: Seq<char>, rest: Seq<char>|
            cutting::comes_first(front, marker) && reason == #[trigger] naming(
                front,
                marker,
                name,
                rest,
            );
        lemma_quoted(front, marker, name, rest);
    }
    if explain::quoted_behind(reason, marker) == Some(name) {
        let (front, rest) = lemma_quoted_stands(reason, marker);
        assert(reason == naming(front, marker, name, rest));
    }
}

/// A reason names a dependency exactly if the name stands between backticks behind "dependency
/// on", or, where nothing does, behind "dependency".
pub proof fn law_dependency_exactly(reason: Seq<char>, name: Seq<char>)
    ensures
        (explain::dependency_in(reason) == Some(name)) == (is_named_behind(
            reason,
            "dependency on `"@,
            name,
        ) || (is_named_behind(reason, "dependency `"@, name) && forall|other: Seq<char>|
            !#[trigger] is_named_behind(reason, "dependency on `"@, other))),
{
    lemma_named_behind(reason, "dependency on `"@, name);
    lemma_named_behind(reason, "dependency `"@, name);
    assert forall|other: Seq<char>| #[trigger]
        is_named_behind(reason, "dependency on `"@, other) == (explain::quoted_behind(
            reason,
            "dependency on `"@,
        ) == Some(other)) by {
        lemma_named_behind(reason, "dependency on `"@, other);
    }
    if let Some(on) = explain::quoted_behind(reason, "dependency on `"@) {
        assert(is_named_behind(reason, "dependency on `"@, on));
    }
}

/// Whether a unit id is this name, alone or in front of white space.
pub open spec fn bears_name(id: Seq<char>, name: Seq<char>) -> bool {
    &&& cutting::is_unbroken(name)
    &&& id.len() >= name.len()
    &&& id.take(name.len() as int) == name
    &&& id.len() > name.len() ==> text::is_white(id[name.len() as int])
}

/// A unit bears the name that is read out of its id, and no other.
pub proof fn law_a_unit_bears_its_name(id: Seq<char>, name: Seq<char>)
    ensures
        (parse::unit_name(id) == name) == bears_name(id, name),
{
    if bears_name(id, name) {
        let rest = id.skip(name.len() as int);
        assert(id =~= name + rest);
        cutting::law_unit_name(name, rest);
    }
    if parse::unit_name(id) == name {
        lemma_leading_word_is_a_word(id);
    }
}

/// The leading word of a text holds no white space, and white space ends it.
pub proof fn lemma_leading_word_is_a_word(s: Seq<char>)
    ensures
        text::leading_word(s) <= s.len(),
        cutting::is_unbroken(s.take(text::leading_word(s) as int)),
        text::leading_word(s) < s.len() ==> text::is_white(s[text::leading_word(s) as int]),
    decreases s.len(),
{
    if s.len() > 0 && !text::is_white(s[0]) {
        let rest = s.drop_first();
        lemma_leading_word_is_a_word(rest);
        let word = s.take(text::leading_word(s) as int);
        assert forall|i: int| 0 <= i < word.len() implies !text::is_white(#[trigger] word[i]) by {
            if i > 0 {
                assert(word[i] == rest.take(text::leading_word(rest) as int)[i - 1]);
            }
        }
    }
}

/// Whether a status line reports work on a unit.
pub open spec fn was_worked_on(statuses: Seq<CrateStatusView>, id: Seq<char>) -> bool {
    !announced::has_no_work(statuses, id)
}

/// Whether `cause` is the one worked-on unit of a name.
pub open spec fn is_sole_bearer(
    statuses: Seq<CrateStatusView>,
    name: Seq<char>,
    cause: Seq<char>,
) -> bool {
    &&& was_worked_on(statuses, cause)
    &&& bears_name(cause, name)
    &&& forall|other: Seq<char>| #[trigger]
        was_worked_on(statuses, other) && bears_name(other, name) ==> other == cause
}

/// A worked-on unit whose first reason names a dependency was caused by the one worked-on unit of
/// that name, if there is exactly one and it is another unit; otherwise it has no cause.
pub proof fn law_cause_is_the_sole_bearer_of_the_name(
    log: BuildLogView,
    id: Seq<char>,
    i: int,
    reason: Seq<char>,
    name: Seq<char>,
    cause: Seq<char>,
)
    requires
        was_worked_on(log.statuses, id),
        announced::is_first_dirty(log.statuses, id, i, reason),
        explain::dependency_in(reason) == Some(name),
    ensures
        is_sole_bearer(log.statuses, name, cause) && cause != id ==> {
            &&& explain::causes_of(log).contains_key(id)
            &&& explain::causes_of(log)[id] == cause
        },
        is_sole_bearer(log.statuses, name, id) ==> !explain::causes_of(log).contains_key(id),
        explain::causes_of(log).contains_key(id) ==> is_sole_bearer(
            log.statuses,
            name,
            explain::causes_of(log)[id],
        ) && explain::causes_of(log)[id] != id,
{
    let statuses = log.statuses;
    let work = explain::work_list(statuses);
    announced::law_reason_is_that_of_the_first_dirty_line(statuses, id, i, reason);
    lemma_worked_on(log);
    assert(explain::is_worked_on(work, id));
    if is_sole_bearer(statuses, name, cause) {
        let at = lemma_sole_bearer_listed(log, name, cause);
        explain::lemma_sole_unit(work, name, at);
    }
    if is_sole_bearer(statuses, name, id) {
        let at = lemma_sole_bearer_listed(log, name, id);
        explain::lemma_sole_unit(work, name, at);
    }
    if explain::causes_of(log).contains_key(id) {
        let found = explain::causes_of(log)[id];
        let at = choose|at: int| explain::only_one_named(work, name, at);
        assert(explain::only_one_named(work, name, at));
        assert(found == work[at].0);
        law_a_unit_bears_its_name(found, name);
        assert(explain::is_worked_on(work, found));
        assert forall|other: Seq<char>| #[trigger]
            was_worked_on(statuses, other) && bears_name(other, name) implies other == found by {
            law_a_unit_bears_its_name(other, name);
            assert(explain::is_worked_on(work, other));
            let j = choose|j: int| 0 <= j < work.len() && #[trigger] work[j].0 == other;
            if j != at {
                assert(parse::unit_name(work[j].0) != name);
            }
        }
    }
}

/// A unit that no work was reported on, or no reason was given for, or whose first reason names no
/// dependency, has no cause.
pub proof fn law_no_named_dependency_is_no_cause(
    log: BuildLogView,
    id: Seq<char>,
    i: int,
    reason: Seq<char>,
)
    ensures
        announced::has_no_work(log.statuses, id) ==> !explain::causes_of(log).contains_key(id),
        announced::has_no_dirty(log.statuses, id) ==> !explain::causes_of(log).contains_key(id),
        announced::is_first_dirty(log.statuses, id, i, reason) && explain::dependency_in(reason)
            is None ==> !explain::causes_of(log).contains_key(id),
{
    announced::law_reason_is_that_of_the_first_dirty_line(log.statuses, id, i, reason);
    lemma_worked_on(log);
    if announced::has_no_work(log.statuses, id) {
        assert(!was_worked_on(log.statuses, id));
        assert(!explain::is_worked_on(explain::work_list(log.statuses), id));
    }
}

/// "dependency `x` was rebuilt" means that the crate was invalidated by `x`: a worked-on unit
/// whose first reason says so was caused by the one worked-on unit with the name `x`.
pub proof fn law_rebuilt_dependency_is_the_cause(
    log: BuildLogView,
    id: Seq<char>,
    i: int,
    front: Seq<char>,
    on: bool,
    name: Seq<char>,
    rest: Seq<char>,
    cause: Seq<char>,
)
    requires
        was_worked_on(log.statuses, id),
        ({
            let marker = if on {
                "dependency on `"@
            } else {
                "dependency `"@
            };
            let reason = naming(front, marker, name, rest);
            &&& announced::is_first_dirty(log.statuses, id, i, reason)
            &&& cutting::comes_first(front, marker)
            &&& !on ==> !cutting::holds(reason, "dependency on `"@)
        }),
        is_quotable(name),
        is_sole_bearer(log.statuses, name, cause),
        cause != id,
    ensures
        explain::causes_of(log).contains_key(id),
        explain::causes_of(log)[id] == cause,
{
    if on {
        law_dependency_on_is_named(front, name, rest);
        let reason = naming(front, "dependency on `"@, name, rest);
        law_cause_is_the_sole_bearer_of_the_name(log, id, i, reason, name, cause);
    } else {
        law_dependency_is_named(front, name, rest);
        let reason = naming(front, "dependency `"@, name, rest);
        law_cause_is_the_sole_bearer_of_the_name(log, id, i, reason, name, cause);
    }
}

/// The work list names exactly the units that work was reported on.
proof fn lemma_worked_on(log: BuildLogView)
    ensures
        forall|id: Seq<char>| #[trigger]
            was_worked_on(log.statuses, id) == explain::is_worked_on(
                explain::work_list(log.statuses),
                id,
            ),
{
    law_work_is_listed_in_order(log.statuses);
    let work = explain::work_list(log.statuses);
    let at = lemma_work_positions(log.statuses);
    assert forall|id: Seq<char>| #[trigger]
        was_worked_on(log.statuses, id) == explain::is_worked_on(work, id) by {
        if was_worked_on(log.statuses, id) {
            let first = lemma_first_work(log.statuses, id);
            let k = choose|k: int| 0 <= k < at.len() && #[trigger] at[k] == first;
            assert(work[k].0 == id);
        }
        if explain::is_worked_on(work, id) {
            let k = choose|k: int| 0 <= k < work.len() && #[trigger] work[k].0 == id;
            assert(announced::is_first_work(log.statuses, id, at[k]));
        }
    }
}

/// A worked-on unit that alone bears a name stands alone in the work list with it.
proof fn lemma_sole_bearer_listed(log: BuildLogView, name: Seq<char>, cause: Seq<char>) -> (at: int)
    requires
        is_sole_bearer(log.statuses, name, cause),
    ensures
        explain::only_one_named(explain::work_list(log.statuses), name, at),
        explain::work_list(log.statuses)[at].0 == cause,
{
    let work = explain::work_list(log.statuses);
    lemma_worked_on(log);
    assert(was_worked_on(log.statuses, cause));
    assert(explain::is_worked_on(work, cause));
    let at = choose|at: int| 0 <= at < work.len() && #[trigger] work[at].0 == cause;
    law_a_unit_bears_its_name(cause, name);
    let places = lemma_work_positions(log.statuses);
    assert forall|other: int|
        0 <= other < work.len() && other != at implies parse::unit_name(#[trigger] work[other].0)
        != name by {
        let id = work[other].0;
        law_a_unit_bears_its_name(id, name);
        assert(explain::is_worked_on(work, id));
        if bears_name(id, name) {
            assert(was_worked_on(log.statuses, id));
            assert(id == cause);
            assert(announced::is_first_work(log.statuses, id, places[at]));
            assert(announced::is_first_work(log.statuses, id, places[other]));
            assert(places[at] != places[other]);
        }
    }
    at
}

/// A worked-on unit has a first work line.
proof fn lemma_first_work(statuses: Seq<CrateStatusView>, id: Seq<char>) -> (first: int)
    requires
        was_worked_on(statuses, id),
    ensures
        announced::is_first_work(statuses, id, first),
    decreases statuses.len(),
{
    let before = statuses.drop_last();
    if was_worked_on(before, id) {
        let first = lemma_first_work(before, id);
        assert forall|j: int| 0 <= j < first implies !((#[trigger] statuses[j]).id == id
            && statuses[j].kind is Work) by {
            assert(before[j] == statuses[j]);
        }
        assert(statuses[first] == before[first]);
        first
    } else {
        let first = statuses.len() - 1;
        assert forall|j: int| 0 <= j < first implies !((#[trigger] statuses[j]).id == id
            && statuses[j].kind is Work) by {
            assert(before[j] == statuses[j]);
        }
        let j = choose|j: int|
            0 <= j < statuses.len() && (#[trigger] statuses[j]).id == id && statuses[j].kind
                is Work;
        assert(j == first);
        first
    }
}

/// The places of the first work lines among the statuses, in the order of the work list.
proof fn lemma_work_positions(statuses: Seq<CrateStatusView>) -> (at: Seq<int>)
    ensures
        at.len() == explain::work_list(statuses).len(),
        cascade::are_rising(at, statuses.len() as int),
        forall|k: int|
            0 <= k < at.len() ==> announced::is_first_work(
                statuses,
                (#[trigger] explain::work_list(statuses)[k]).0,
                at[k],
            ) && statuses[at[k]].kind == StatusKindView::Work(explain::work_list(statuses)[k].1),
        forall|i: int, id: Seq<char>| #[trigger]
            announced::is_first_work(statuses, id, i) ==> exists|k: int|
                0 <= k < at.len() && #[trigger] at[k] == i,
    decreases statuses.len(),
{
    let work = explain::work_list(statuses);
    if statuses.len() == 0 {
        Seq::empty()
    } else {
        let before = statuses.drop_last();
        let status = statuses.last();
        let shorter = lemma_work_positions(before);
        let added = status.kind is Work && !build_log::said_work(before, status.id);
        let at = if added {
            shorter.push(statuses.len() - 1)
        } else {
            shorter
        };
        assert forall|id: Seq<char>, i: int|
            0 <= i < before.len() implies #[trigger] announced::is_first_work(statuses, id, i)
            == announced::is_first_work(before, id, i) by {
            assert(statuses[i] == before[i]);
            assert forall|j: int| 0 <= j < i implies statuses[j] == before[j] by {}
            if announced::is_first_work(before, id, i) {
                assert forall|j: int| 0 <= j < i implies !((#[trigger] statuses[j]).id == id
                    && statuses[j].kind is Work) by {
                    assert(before[j] == statuses[j]);
                }
            }
            if announced::is_first_work(statuses, id, i) {
                assert forall|j: int| 0 <= j < i implies !((#[trigger] before[j]).id == id
                    && before[j].kind is Work) by {
                    assert(before[j] == statuses[j]);
                }
            }
        }
        assert forall|k: int| 0 <= k < at.len() implies announced::is_first_work(
            statuses,
            (#[trigger] work[k]).0,
            at[k],
        ) && statuses[at[k]].kind == StatusKindView::Work(work[k].1) by {
            if k < shorter.len() {
                assert(work[k] == explain::work_list(before)[k]);
                assert(announced::is_first_work(before, work[k].0, shorter[k]));
                assert(announced::is_first_work(statuses, work[k].0, shorter[k]));
            } else {
                let last = statuses.len() - 1;
                assert(work[k].0 == status.id);
                assert forall|j: int| 0 <= j < last implies !((#[trigger] statuses[j]).id
                    == status.id && statuses[j].kind is Work) by {
                    assert(before[j] == statuses[j]);
                    if before[j].id == status.id && before[j].kind is Work {
                        assert(build_log::said_work(before, status.id));
                    }
                }
            }
        }
        assert forall|i: int, id: Seq<char>| #[trigger]
            announced::is_first_work(statuses, id, i) implies exists|k: int|
            0 <= k < at.len() && #[trigger] at[k] == i by {
            if i < before.len() {
                assert(announced::is_first_work(before, id, i));
                let k = choose|k: int| 0 <= k < shorter.len() && #[trigger] shorter[k] == i;
                assert(at[k] == i);
            } else {
                if build_log::said_work(before, id) {
                    let j = choose|j: int|
                        0 <= j < before.len() && #[trigger] before[j].id == id && before[j].kind
                            is Work;
                    assert(statuses[j].id == id);
                }
                assert(at[shorter.len() as int] == i);
            }
        }
        at
    }
}

/// The work list names each unit that work was reported on, once, with the kind of work that its
/// first work line stated, in the order of those lines.
pub proof fn law_work_is_listed_in_order(statuses: Seq<CrateStatusView>)
    ensures
        exists|at: Seq<int>|
            {
                &&& at.len() == explain::work_list(statuses).len()
                &&& #[trigger] cascade::are_rising(at, statuses.len() as int)
                &&& forall|k: int|
                    0 <= k < at.len() ==> announced::is_first_work(
                        statuses,
                        (#[trigger] explain::work_list(statuses)[k]).0,
                        at[k],
                    ) && statuses[at[k]].kind == StatusKindView::Work(
                        explain::work_list(statuses)[k].1,
                    )
                &&& forall|i: int, id: Seq<char>| #[trigger]
                    announced::is_first_work(statuses, id, i) ==> exists|k: int|
                        0 <= k < at.len() && #[trigger] at[k] == i
            },
{
    let at = lemma_work_positions(statuses);
    assert(cascade::are_rising(at, statuses.len() as int));
}

/// The culprit is the first worked-on unit that no other caused: it has no cause, and every unit
/// whose work was reported earlier has one. Where every worked-on unit has a cause, it is the
/// first of all.
pub proof fn law_culprit_is_the_first_without_a_cause(
    log: BuildLogView,
    root: Seq<char>,
    earlier: Seq<char>,
    i: int,
    j: int,
)
    requires
        explain::analysis(log) is Some,
        announced::is_first_work(log.statuses, (explain::analysis(log)->0).culprit, i),
        announced::is_first_work(log.statuses, earlier, j),
        j < i,
    ensures
        explain::causes_of(log).contains_key(earlier),
        !explain::causes_of(log).contains_key((explain::analysis(log)->0).culprit),
        was_worked_on(log.statuses, root) && !explain::causes_of(log).contains_key(root)
            ==> exists|k: int|
            i <= k && #[trigger] announced::is_first_work(log.statuses, root, k),
{
    let work = explain::work_list(log.statuses);
    let causes = explain::causes_of(log);
    let culprit = (explain::analysis(log)->0).culprit;
    let at = lemma_work_positions(log.statuses);
    let c = choose|k: int| 0 <= k < at.len() && #[trigger] at[k] == i;
    let e = choose|k: int| 0 <= k < at.len() && #[trigger] at[k] == j;
    assert(announced::is_first_work(log.statuses, work[c].0, at[c]));
    assert(announced::is_first_work(log.statuses, work[e].0, at[e]));
    assert(e < c);
    if cascade::has_root(log) {
        cascade::law_root_cascade_is_closed(log);
        let first = choose|first: int|
            explain::is_first_root(work, causes, first) && #[trigger] work[first].0 == culprit;
        assert(announced::is_first_work(log.statuses, work[first].0, at[first]));
        assert(at[first] == at[c]) by {
            if at[first] < i {
                assert(log.statuses[at[first]].id == culprit);
            } else if i < at[first] {
                assert(log.statuses[i].id == culprit);
            }
        }
        if first < c {
            assert(at[first] < at[c]);
        }
        if c < first {
            assert(at[c] < at[first]);
        }
        if was_worked_on(log.statuses, root) && !causes.contains_key(root) {
            let k = lemma_first_work(log.statuses, root);
            let r = choose|r: int| 0 <= r < at.len() && #[trigger] at[r] == k;
            assert(work[r].0 == root);
            if r < first {
                assert(causes.contains_key(work[r].0));
            }
            if first < r {
                assert(at[first] < at[r]);
            }
            assert(i <= k);
        }
    } else {
        cascade::law_circle_is_told_by_its_first_unit(log);
        assert(work[0].0 == culprit);
        assert(announced::is_first_work(log.statuses, work[0].0, at[0]));
        assert(at[0] == i) by {
            if at[0] < i {
                assert(log.statuses[at[0]].id == culprit);
            } else if i < at[0] {
                assert(log.statuses[i].id == culprit);
            }
        }
        assert(at[0] <= at[e]);
    }
}

/// If any worked-on unit has no cause, the culprit has none; if all have one, the culprit is the
/// unit of the first work line.
pub proof fn law_culprit_is_a_root_if_there_is_one(log: BuildLogView, root: Seq<char>, first: int)
    requires
        was_worked_on(log.statuses, root),
    ensures
        explain::analysis(log) is Some,
        was_worked_on(log.statuses, (explain::analysis(log)->0).culprit),
        !explain::causes_of(log).contains_key(root) ==> !explain::causes_of(log).contains_key(
            (explain::analysis(log)->0).culprit,
        ),
        ({
            &&& forall|id: Seq<char>| #[trigger]
                was_worked_on(log.statuses, id) ==> explain::causes_of(log).contains_key(id)
            &&& 0 <= first < log.statuses.len()
            &&& log.statuses[first].kind is Work
            &&& forall|j: int| 0 <= j < first ==> (#[trigger] log.statuses[j]).kind !is Work
        }) ==> (explain::analysis(log)->0).culprit == log.statuses[first].id,
{
    let work = explain::work_list(log.statuses);
    let causes = explain::causes_of(log);
    lemma_worked_on(log);
    assert(explain::is_worked_on(work, root));
    let r = choose|r: int| 0 <= r < work.len() && #[trigger] work[r].0 == root;
    let at = lemma_work_positions(log.statuses);
    if cascade::has_root(log) {
        cascade::law_root_cascade_is_closed(log);
        let culprit = (explain::analysis(log)->0).culprit;
        let place = choose|place: int|
            explain::is_first_root(work, causes, place) && #[trigger] work[place].0 == culprit;
        assert(explain::is_worked_on(work, culprit));
        assert(was_worked_on(log.statuses, culprit));
    } else {
        cascade::law_circle_is_told_by_its_first_unit(log);
        assert(explain::is_worked_on(work, work[0].0));
        assert(announced::is_first_work(log.statuses, work[0].0, at[0]));
        if 0 <= first < log.statuses.len() && log.statuses[first].kind is Work && forall|j: int|
            0 <= j < first ==> (#[trigger] log.statuses[j]).kind !is Work {
            let id = log.statuses[first].id;
            assert(announced::is_first_work(log.statuses, id, first));
            let k = choose|k: int| 0 <= k < at.len() && #[trigger] at[k] == first;
            if k > 0 {
                assert(at[0] < at[k]);
            }
            assert(announced::is_first_work(log.statuses, work[k].0, at[k]));
        }
    }
}

/// Among any listed units with any reasons, a unit is caused by the one other unit that alone
/// bears the name of the dependency that its reason names, and by nothing else.
pub proof fn law_causes_among_listed_units(
    work: Seq<(Seq<char>, WorkKind)>,
    reasons: Map<Seq<char>, Seq<char>>,
    id: Seq<char>,
    name: Seq<char>,
    p: int,
)
    ensures
        ({
            let listed = exists|k: int| 0 <= k < work.len() && #[trigger] work[k].0 == id;
            let causes = explain::causes_in(work, reasons);
            &&& listed && reasons.contains_key(id) && explain::dependency_in(reasons[id]) == Some(
                name,
            ) && 0 <= p < work.len() && bears_name(work[p].0, name) && work[p].0 != id && (
            forall|k: int|
                0 <= k < work.len() && k != p ==> !bears_name(#[trigger] work[k].0, name))
                ==> causes.contains_key(id) && causes[id] == work[p].0
            &&& causes.contains_key(id) ==> {
                &&& listed
                &&& reasons.contains_key(id)
                &&& causes[id] != id
                &&& explain::dependency_in(reasons[id]) matches Some(said) && exists|k: int|
                    {
                        &&& 0 <= k < work.len()
                        &&& #[trigger] work[k].0 == causes[id]
                        &&& bears_name(work[k].0, said)
                        &&& forall|other: int|
                            0 <= other < work.len() && other != k ==> !bears_name(
                                #[trigger] work[other].0,
                                said,
                            )
                    }
            }
        }),
{
    let causes = explain::causes_in(work, reasons);
    if 0 <= p < work.len() && bears_name(work[p].0, name) && forall|k: int|
        0 <= k < work.len() && k != p ==> !bears_name(#[trigger] work[k].0, name) {
        law_a_unit_bears_its_name(work[p].0, name);
        assert forall|k: int| 0 <= k < work.len() && k != p implies parse::unit_name(
            #[trigger] work[k].0,
        ) != name by {
            law_a_unit_bears_its_name(work[k].0, name);
        }
        explain::lemma_sole_unit(work, name, p);
    }
    if causes.contains_key(id) {
        let said = explain::dependency_in(reasons[id])->0;
        let k = choose|k: int| explain::only_one_named(work, said, k);
        assert(explain::only_one_named(work, said, k));
        law_a_unit_bears_its_name(work[k].0, said);
        assert forall|other: int| 0 <= other < work.len() && other != k implies !bears_name(
            #[trigger] work[other].0,
            said,
        ) by {
            law_a_unit_bears_its_name(work[other].0, said);
        }
        assert(work[k].0 == causes[id]);
    }
}

/// Among any listed units with any causes, the first one without a cause is the root; where all
/// have one, the first of all is reported instead; and of nothing there is no culprit.
pub proof fn law_culprit_among_listed_units(
    work: Seq<(Seq<char>, WorkKind)>,
    causes: Map<Seq<char>, Seq<char>>,
    at: int,
)
    ensures
        0 <= at < work.len() && !causes.contains_key(work[at].0) && (forall|k: int|
            0 <= k < at ==> causes.contains_key(#[trigger] work[k].0)) ==> explain::culprit_in(
            work,
            causes,
        ) == Some(CulpritView::Root(work[at].0)),
        work.len() > 0 && (forall|k: int|
            0 <= k < work.len() ==> causes.contains_key(#[trigger] work[k].0))
            ==> explain::culprit_in(work, causes) == Some(CulpritView::Fallback(work[0].0)),
        work.len() == 0 ==> explain::culprit_in(work, causes) is None,
{
    if 0 <= at < work.len() && !causes.contains_key(work[at].0) && forall|k: int|
        0 <= k < at ==> causes.contains_key(#[trigger] work[k].0) {
        explain::lemma_first_root(work, causes, at);
    }
    if forall|k: int| 0 <= k < work.len() ==> causes.contains_key(#[trigger] work[k].0) {
        assert forall|k: int| !explain::is_first_root(work, causes, k) by {
            if 0 <= k < work.len() {
                assert(causes.contains_key(work[k].0));
            }
        }
    }
}

/// A record in which no work was reported has no story.
pub proof fn law_no_work_no_story(log: BuildLogView)
    ensures
        (explain::analysis(log) is Some) == exists|i: int|
            0 <= i < log.statuses.len() && (#[trigger] log.statuses[i]).kind is Work,
{
    if exists|i: int| 0 <= i < log.statuses.len() && (#[trigger] log.statuses[i]).kind is Work {
        let i = choose|i: int|
            0 <= i < log.statuses.len() && (#[trigger] log.statuses[i]).kind is Work;
        assert(was_worked_on(log.statuses, log.statuses[i].id));
        law_culprit_is_a_root_if_there_is_one(log, log.statuses[i].id, 0);
    } else {
        cascade::law_nothing_to_explain_iff_no_work(log);
        assert forall|id: Seq<char>| !#[trigger] build_log::said_work(log.statuses, id) by {}
    }
}

/// Whether units form a chain, each caused by the next.
pub open spec fn is_chain(causes: Map<Seq<char>, Seq<char>>, chain: Seq<Seq<char>>) -> bool {
    &&& chain.len() > 0
    &&& forall|k: int|
        0 <= k < chain.len() - 1 ==> causes.contains_key(#[trigger] chain[k]) && causes[chain[k]]
            == chain[k + 1]
}

/// A unit traces back to a culprit exactly if a chain of causes, however long, leads there.
pub proof fn law_tracing_back_is_a_chain(
    causes: Map<Seq<char>, Seq<char>>,
    start: Seq<char>,
    culprit: Seq<char>,
)
    ensures
        explain::traces_back(causes, start, culprit) == exists|chain: Seq<Seq<char>>| #[trigger]
            is_chain(causes, chain) && chain[0] == start && chain.last() == culprit,
{
    if explain::traces_back(causes, start, culprit) {
        let steps = choose|steps: nat| explain::follow(causes, start, steps) == Some(culprit);
        let chain = lemma_chain(causes, start, steps);
        assert(is_chain(causes, chain));
    }
    if exists|chain: Seq<Seq<char>>| #[trigger]
        is_chain(causes, chain) && chain[0] == start && chain.last() == culprit {
        let chain = choose|chain: Seq<Seq<char>>| #[trigger]
            is_chain(causes, chain) && chain[0] == start && chain.last() == culprit;
        lemma_chain_is_followed(causes, chain, chain.len() - 1);
        assert(explain::follow(causes, start, (chain.len() - 1) as nat) == Some(culprit));
    }
}

/// Following the causes goes along the chain.
proof fn lemma_chain_is_followed(causes: Map<Seq<char>, Seq<char>>, chain: Seq<Seq<char>>, k: int)
    requires
        is_chain(causes, chain),
        0 <= k < chain.len(),
    ensures
        explain::follow(causes, chain[0], k as nat) == Some(chain[k]),
    decreases k,
{
    if k > 0 {
        lemma_chain_is_followed(causes, chain, k - 1);
        assert(causes[chain[k - 1]] == chain[k]);
    }
}

/// From every unit of the cascade a chain of causes leads to the culprit.
pub proof fn law_cascade_is_chained_to_the_culprit(log: BuildLogView, id: Seq<char>) -> (chain: Seq<
    Seq<char>,
>)
    requires
        explain::analysis(log) is Some,
        cascade::in_cascade((explain::analysis(log)->0).cascade, id),
    ensures
        is_chain(explain::causes_of(log), chain),
        chain[0] == id,
        chain.last() == (explain::analysis(log)->0).culprit,
{
    let causes = explain::causes_of(log);
    let culprit = (explain::analysis(log)->0).culprit;
    cascade::law_cascade_traces_back_to_the_culprit(log, id);
    let steps = choose|steps: nat| explain::follow(causes, id, steps) == Some(culprit);
    lemma_chain(causes, id, steps)
}

/// The units on the way make a chain.
proof fn lemma_chain(causes: Map<Seq<char>, Seq<char>>, start: Seq<char>, steps: nat) -> (chain: Seq<
    Seq<char>,
>)
    requires
        explain::follow(causes, start, steps) is Some,
    ensures
        is_chain(causes, chain),
        chain[0] == start,
        chain.last() == explain::follow(causes, start, steps)->0,
    decreases steps,
{
    if steps == 0 {
        seq![start]
    } else {
        let shorter = lemma_chain(causes, start, (steps - 1) as nat);
        let chain = shorter.push(explain::follow(causes, start, steps)->0);
        assert forall|k: int| 0 <= k < chain.len() - 1 implies causes.contains_key(
            #[trigger] chain[k],
        ) && causes[chain[k]] == chain[k + 1] by {
            if k < shorter.len() - 1 {
                assert(chain[k] == shorter[k]);
                assert(chain[k + 1] == shorter[k + 1]);
            } else {
                assert(chain[k] == shorter.last());
            }
        }
        chain
    }
}

/// Below a root the cascade holds exactly the culprit and every worked-on unit whose cause it
/// holds.
pub proof fn law_cascade_holds_all_that_followed(log: BuildLogView, id: Seq<char>)
    requires
        cascade::has_root(log),
        was_worked_on(log.statuses, id),
    ensures
        explain::analysis(log) is Some,
        ({
            let story = explain::analysis(log)->0;
            let causes = explain::causes_of(log);
            cascade::in_cascade(story.cascade, id) == (id == story.culprit || (
            causes.contains_key(id) && cascade::in_cascade(story.cascade, causes[id])))
        }),
{
    cascade::law_root_cascade_is_closed(log);
    let story = explain::analysis(log)->0;
    let causes = explain::causes_of(log);
    cascade::law_cascade_did_work(log, id);
    let first = lemma_first_work(log.statuses, id);
    assert(build_log::said_work(log.statuses, id)) by {
        assert(log.statuses[first].id == id);
    }
    if cascade::in_cascade(story.cascade, id) {
        let k = choose|k: int|
            0 <= k < story.cascade.len() && #[trigger] story.cascade[k].crate_id == id;
        lemma_entry(log, k);
    } else if causes.contains_key(id) && cascade::in_cascade(story.cascade, causes[id]) {
        cascade::law_cascade_traces_back_to_the_culprit(log, causes[id]);
        let steps = choose|steps: nat|
            explain::follow(causes, causes[id], steps) == Some(story.culprit);
        explain::lemma_follow_on(causes, id, 1, steps);
        reveal_with_fuel(explain::follow, 2);
        assert(explain::follow(causes, id, 1) == Some(causes[id]));
        assert(explain::follow(causes, id, 1 + steps) == Some(story.culprit));
        assert(explain::traces_back(causes, id, story.culprit));
    }
}

/// What an entry of the cascade tells.
proof fn lemma_entry(log: BuildLogView, k: int)
    requires
        explain::analysis(log) is Some,
        0 <= k < (explain::analysis(log)->0).cascade.len(),
    ensures
        ({
            let story = explain::analysis(log)->0;
            let entry = story.cascade[k];
            let causes = explain::causes_of(log);
            &&& entry.crate_id != story.culprit ==> causes.contains_key(entry.crate_id)
                && entry.caused_by == Some(causes[entry.crate_id])
            &&& entry.crate_id == story.culprit ==> entry.caused_by is None
        }),
{
    cascade::law_only_the_culprit_has_no_cause(log, k);
    if !cascade::has_root(log) {
        if explain::work_list(log.statuses).len() > 0 {
            cascade::law_circle_is_told_by_its_first_unit(log);
        } else {
            assert forall|at: int|
                !explain::is_first_root(
                    explain::work_list(log.statuses),
                    explain::causes_of(log),
                    at,
                ) by {}
        }
    } else {
        cascade::law_root_cascade_is_closed(log);
    }
}

/// Each entry of the cascade tells of its unit: the kind of work that its first work line stated,
/// the reason of its first `Dirty` line, its cause unless it is the culprit, and its details.
pub proof fn law_entry_tells_of_its_unit(
    log: BuildLogView,
    k: int,
    entry: CascadeEntryView,
    i: int,
    d: int,
    why: Seq<char>,
)
    requires
        explain::analysis(log) is Some,
        0 <= k < (explain::analysis(log)->0).cascade.len(),
        entry == (explain::analysis(log)->0).cascade[k],
        announced::is_first_work(log.statuses, entry.crate_id, i),
    ensures
        log.statuses[i].kind == StatusKindView::Work(entry.kind),
        announced::is_first_dirty(log.statuses, entry.crate_id, d, why) ==> entry.reason == Some(
            why,
        ),
        announced::has_no_dirty(log.statuses, entry.crate_id) ==> entry.reason is None,
        entry.crate_id == (explain::analysis(log)->0).culprit ==> entry.caused_by is None,
        entry.crate_id != (explain::analysis(log)->0).culprit ==> explain::causes_of(
            log,
        ).contains_key(entry.crate_id) && entry.caused_by == Some(
            explain::causes_of(log)[entry.crate_id],
        ),
        entry.details == fingerprint::details_for(log.fingerprint_lines, entry.crate_id),
{
    let id = entry.crate_id;
    announced::law_reason_is_that_of_the_first_dirty_line(log.statuses, id, d, why);
    cascade::law_entries_tell_first_reasons(log, k);
    lemma_entry(log, k);
    cascade::law_cascade_keeps_the_order_of_work(log);
    let work = explain::work_list(log.statuses);
    let story = explain::analysis(log)->0;
    let places = choose|places: Seq<int>|
        {
            &&& places.len() == story.cascade.len()
            &&& #[trigger] cascade::are_rising(places, work.len() as int)
            &&& forall|i: int|
                0 <= i < places.len() ==> work[places[i]] == (
                    (#[trigger] story.cascade[i]).crate_id,
                    story.cascade[i].kind,
                )
        };
    let at = lemma_work_positions(log.statuses);
    let p = places[k];
    assert(work[p] == (id, entry.kind));
    assert(announced::is_first_work(log.statuses, work[p].0, at[p]));
    if at[p] < i {
        assert(log.statuses[at[p]].id == id);
    } else if i < at[p] {
        assert(log.statuses[i].id == id);
    }
}

} // verus!
