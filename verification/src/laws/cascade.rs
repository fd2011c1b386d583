//! What the rebuild story promises of every record.

use vstd::prelude::*;

use crate::build_log;
use crate::build_log::BuildLogView;
use crate::explain;
use crate::explain::{CascadeEntryView, CulpritView};
use crate::parse;
use crate::parse::fingerprint;
use crate::parse::{CrateStatusView, WorkKind};

verus! {

/// The units that did work, in the order of their first work.
pub open spec fn work_of(log: BuildLogView) -> Seq<(Seq<char>, WorkKind)> {
    explain::work_list(log.statuses)
}

/// Whether the cascade holds an entry for a unit.
pub open spec fn in_cascade(cascade: Seq<CascadeEntryView>, id: Seq<char>) -> bool {
    exists|i: int| 0 <= i < cascade.len() && #[trigger] cascade[i].crate_id == id
}

/// Whether the positions are increasing and in range.
pub open spec fn are_rising(at: Seq<int>, end: int) -> bool {
    &&& forall|i: int| 0 <= i < at.len() ==> 0 <= #[trigger] at[i] < end
    &&& forall|i: int, j: int| 0 <= i < j < at.len() ==> #[trigger] at[i] < #[trigger] at[j]
}

/// The list of work names each unit with a work line, and none twice.
proof fn lemma_work_list(statuses: Seq<CrateStatusView>)
    ensures
        forall|id: Seq<char>| #[trigger]
            explain::is_worked_on(explain::work_list(statuses), id) == build_log::said_work(
                statuses,
                id,
            ),
        forall|i: int, j: int|
            0 <= i < j < explain::work_list(statuses).len() ==> (#[trigger] explain::work_list(
                statuses,
            )[i]).0 != (#[trigger] explain::work_list(statuses)[j]).0,
    decreases statuses.len(),
{
    let list = explain::work_list(statuses);
    if statuses.len() > 0 {
        let before = statuses.drop_last();
        let status = statuses.last();
        let shorter = explain::work_list(before);
        lemma_work_list(before);
        build_log::lemma_one_more_status(before, status);
        assert(before.push(status) =~= statuses);
        assert forall|id: Seq<char>| explain::is_worked_on(shorter, id) implies #[trigger]
            explain::is_worked_on(list, id) by {
            let at = choose|at: int| 0 <= at < shorter.len() && #[trigger] shorter[at].0 == id;
            assert(list[at].0 == id);
        }
        if status.kind is Work && !build_log::said_work(before, status.id) {
            assert(list[shorter.len() as int].0 == status.id);
            assert(explain::is_worked_on(list, status.id));
            assert forall|i: int| 0 <= i < shorter.len() implies (#[trigger] shorter[i]).0
                != status.id by {
                assert(explain::is_worked_on(shorter, shorter[i].0));
            }
            assert forall|id: Seq<char>| #[trigger] explain::is_worked_on(list, id) implies (
            explain::is_worked_on(shorter, id) || id == status.id) by {
                let at = choose|at: int| 0 <= at < list.len() && #[trigger] list[at].0 == id;
                if at < shorter.len() {
                    assert(shorter[at].0 == id);
                }
            }
        }
    } else {
        assert(list.len() == 0);
    }
}

/// The kept elements of a sequence stand at rising positions of it, and every element that is to
/// be kept is among them.
proof fn lemma_filtered_positions<A>(items: Seq<A>, keep: spec_fn(A) -> bool) -> (at: Seq<int>)
    ensures
        at.len() == items.filter(keep).len(),
        are_rising(at, items.len() as int),
        forall|i: int| 0 <= i < at.len() ==> items[#[trigger] at[i]] == items.filter(keep)[i],
        forall|i: int| 0 <= i < at.len() ==> keep(#[trigger] items.filter(keep)[i]),
        forall|i: int|
            0 <= i < items.len() && keep(#[trigger] items[i]) ==> items.filter(keep).contains(
                items[i],
            ),
    decreases items.len(),
{
    reveal(Seq::filter);
    if items.len() == 0 {
        Seq::empty()
    } else {
        let before = items.drop_last();
        let kept = before.filter(keep);
        let shorter = lemma_filtered_positions(before, keep);
        let at = if keep(items.last()) {
            shorter.push(items.len() - 1)
        } else {
            shorter
        };
        assert forall|i: int| 0 <= i < items.len() && keep(#[trigger] items[i]) implies items.filter(
            keep,
        ).contains(items[i]) by {
            if i < before.len() {
                assert(before[i] == items[i]);
                assert(kept.contains(items[i]));
                let k = choose|k: int| 0 <= k < kept.len() && kept[k] == items[i];
                assert(items.filter(keep)[k] == items[i]);
            } else {
                assert(items.filter(keep)[kept.len() as int] == items[i]);
            }
        }
        assert forall|i: int| 0 <= i < at.len() implies items[#[trigger] at[i]] == items.filter(
            keep,
        )[i] by {
            if i < shorter.len() {
                assert(before[shorter[i]] == kept[i]);
            }
        }
        assert forall|i: int| 0 <= i < at.len() implies keep(#[trigger] items.filter(keep)[i]) by {
            if i < shorter.len() {
                assert(keep(kept[i]));
            }
        }
        at
    }
}

/// Whether an entry tells of a unit all that the record does, but for its cause.
spec fn is_entry_for(
    log: BuildLogView,
    entry: CascadeEntryView,
    unit: (Seq<char>, WorkKind),
) -> bool {
    entry == CascadeEntryView {
        caused_by: entry.caused_by,
        ..explain::cascade_entry(log, explain::causes_of(log), unit)
    }
}

/// What a story is made of: the culprit that the causes single out, and a cascade of units that
/// stand at rising positions of the work list.
proof fn lemma_story(log: BuildLogView) -> (at: Seq<int>)
    requires
        explain::analysis(log) is Some,
    ensures
        ({
            let work = work_of(log);
            let causes = explain::causes_of(log);
            let story = explain::analysis(log)->0;
            &&& at.len() == story.cascade.len()
            &&& are_rising(at, work.len() as int)
            &&& forall|i: int|
                0 <= i < at.len() ==> is_entry_for(log, #[trigger] story.cascade[i], work[at[i]])
            &&& forall|i: int|
                0 <= i < at.len() && has_root(log) ==> #[trigger] story.cascade[i]
                    == explain::cascade_entry(log, causes, work[at[i]])
            &&& forall|i: int|
                0 <= i < at.len() ==> explain::traces_back(
                    causes,
                    (#[trigger] story.cascade[i]).crate_id,
                    story.culprit,
                )
            &&& work.len() > 0
        }),
{
    let work = work_of(log);
    let causes = explain::causes_of(log);
    let story = explain::analysis(log)->0;
    match explain::culprit_in(work, causes) {
        Some(CulpritView::Root(culprit)) => {
            let keep = |unit: (Seq<char>, WorkKind)| explain::traces_back(causes, unit.0, culprit);
            let first = choose|at: int| explain::is_first_root(work, causes, at);
            assert(explain::is_first_root(work, causes, first));
            assert(explain::units_from(log, culprit) == work.filter(keep));
            let at = lemma_filtered_positions(work, keep);
            assert forall|i: int| 0 <= i < at.len() implies #[trigger] story.cascade[i]
                == explain::cascade_entry(log, causes, work[at[i]]) && explain::traces_back(
                causes,
                story.cascade[i].crate_id,
                story.culprit,
            ) by {
                assert(keep(work.filter(keep)[i]));
            }
            at
        },
        _ => {
            assert(explain::follow(causes, story.culprit, 0) == Some(story.culprit));
            let at = seq![0int];
            assert(story.cascade[0].crate_id == story.culprit);
            if has_root(log) {
                let root = choose|at: int|
                    0 <= at < work.len() && !causes.contains_key(#[trigger] work[at].0);
                let first = lemma_first_root_exists(work, causes, root);
                assert(explain::is_first_root(work, causes, first));
            }
            at
        },
    }
}

/// There is nothing to explain exactly if no unit did work.
pub proof fn law_nothing_to_explain_iff_no_work(log: BuildLogView)
    ensures
        (explain::analysis(log) is None) == (forall|id: Seq<char>|
            !#[trigger] build_log::said_work(log.statuses, id)),
{
    let work = work_of(log);
    lemma_work_list(log.statuses);
    if work.len() > 0 {
        assert(explain::is_worked_on(work, work[0].0));
    } else {
        assert forall|at: int| !explain::is_first_root(work, explain::causes_of(log), at) by {}
        assert forall|id: Seq<char>| !#[trigger] build_log::said_work(log.statuses, id) by {
            assert(!explain::is_worked_on(work, id));
        }
    }
}

/// Each unit of the cascade did work, and the culprit is one of them.
pub proof fn law_cascade_did_work(log: BuildLogView, id: Seq<char>)
    requires
        explain::analysis(log) is Some,
    ensures
        in_cascade((explain::analysis(log)->0).cascade, (explain::analysis(log)->0).culprit),
        in_cascade((explain::analysis(log)->0).cascade, id) ==> build_log::said_work(
            log.statuses,
            id,
        ),
        build_log::said_work(log.statuses, (explain::analysis(log)->0).culprit),
{
    let work = work_of(log);
    let story = explain::analysis(log)->0;
    let at = lemma_story(log);
    lemma_work_list(log.statuses);
    lemma_culprit_in_cascade(log);
    assert forall|unit: Seq<char>| #[trigger]
        in_cascade(story.cascade, unit) implies build_log::said_work(log.statuses, unit) by {
        let i = choose|i: int|
            0 <= i < story.cascade.len() && #[trigger] story.cascade[i].crate_id == unit;
        assert(is_entry_for(log, story.cascade[i], work[at[i]]));
        assert(work[at[i]].0 == unit);
        assert(explain::is_worked_on(work, unit));
    }
}

/// The culprit has an entry in the cascade.
proof fn lemma_culprit_in_cascade(log: BuildLogView)
    requires
        explain::analysis(log) is Some,
    ensures
        in_cascade((explain::analysis(log)->0).cascade, (explain::analysis(log)->0).culprit),
{
    let work = work_of(log);
    let causes = explain::causes_of(log);
    let story = explain::analysis(log)->0;
    match explain::culprit_in(work, causes) {
        Some(CulpritView::Root(culprit)) => {
            let first = choose|at: int| explain::is_first_root(work, causes, at);
            assert(explain::is_first_root(work, causes, first));
            assert(explain::follow(causes, culprit, 0) == Some(culprit));
            lemma_root_cascade_is_complete(log, work[first].0);
        },
        _ => {
            assert(story.cascade[0].crate_id == story.culprit);
        },
    }
}

/// Below a root, every worked-on unit that traces back to it has an entry.
proof fn lemma_root_cascade_is_complete(log: BuildLogView, id: Seq<char>)
    requires
        explain::culprit_in(work_of(log), explain::causes_of(log)) matches Some(
            CulpritView::Root(culprit),
        ) && explain::traces_back(explain::causes_of(log), id, culprit),
        explain::is_worked_on(work_of(log), id),
    ensures
        in_cascade((explain::analysis(log)->0).cascade, id),
{
    let work = work_of(log);
    let causes = explain::causes_of(log);
    let story = explain::analysis(log)->0;
    let keep = |unit: (Seq<char>, WorkKind)| explain::traces_back(causes, unit.0, story.culprit);
    lemma_filtered_positions(work, keep);
    assert(explain::units_from(log, story.culprit) == work.filter(keep));
    let at = choose|at: int| 0 <= at < work.len() && #[trigger] work[at].0 == id;
    assert(keep(work[at]));
    assert(work.filter(keep).contains(work[at]));
    let i = choose|i: int| 0 <= i < work.filter(keep).len() && work.filter(keep)[i] == work[at];
    assert(story.cascade[i].crate_id == id);
}

/// The cascade keeps the order of the work: its entries are, from first to last, units at rising
/// positions of the work list, each with the kind of its first work. No unit stands in it twice.
pub proof fn law_cascade_keeps_the_order_of_work(log: BuildLogView)
    requires
        explain::analysis(log) is Some,
    ensures
        ({
            let cascade = (explain::analysis(log)->0).cascade;
            &&& exists|at: Seq<int>|
                {
                    &&& at.len() == cascade.len()
                    &&& #[trigger] are_rising(at, work_of(log).len() as int)
                    &&& forall|i: int|
                        0 <= i < at.len() ==> work_of(log)[at[i]] == (
                            (#[trigger] cascade[i]).crate_id,
                            cascade[i].kind,
                        )
                }
            &&& forall|i: int, j: int|
                0 <= i < j < cascade.len() ==> (#[trigger] cascade[i]).crate_id != (
                #[trigger] cascade[j]).crate_id
        }),
{
    let work = work_of(log);
    let cascade = (explain::analysis(log)->0).cascade;
    let at = lemma_story(log);
    lemma_work_list(log.statuses);
    assert forall|i: int| 0 <= i < at.len() implies work[at[i]] == (
        (#[trigger] cascade[i]).crate_id,
        cascade[i].kind,
    ) by {
        assert(is_entry_for(log, cascade[i], work[at[i]]));
    }
    assert(are_rising(at, work.len() as int));
    assert forall|i: int, j: int| 0 <= i < j < cascade.len() implies (#[trigger] cascade[i]).crate_id
        != (#[trigger] cascade[j]).crate_id by {
        assert(at[i] < at[j]);
        assert(work[at[i]].0 != work[at[j]].0);
    }
}

/// Every unit of the cascade traces back to the culprit along the causes.
pub proof fn law_cascade_traces_back_to_the_culprit(log: BuildLogView, id: Seq<char>)
    requires
        explain::analysis(log) is Some,
        in_cascade((explain::analysis(log)->0).cascade, id),
    ensures
        explain::traces_back(explain::causes_of(log), id, (explain::analysis(log)->0).culprit),
{
    let story = explain::analysis(log)->0;
    lemma_story(log);
    let i = choose|i: int|
        0 <= i < story.cascade.len() && #[trigger] story.cascade[i].crate_id == id;
    assert(explain::traces_back(
        explain::causes_of(log),
        story.cascade[i].crate_id,
        story.culprit,
    ));
}

/// Whether some worked-on unit was invalidated by no other.
pub open spec fn has_root(log: BuildLogView) -> bool {
    exists|at: int|
        0 <= at < work_of(log).len() && !explain::causes_of(log).contains_key(
            #[trigger] work_of(log)[at].0,
        )
}

/// The first unit without a cause exists as soon as there is one without a cause.
proof fn lemma_first_root_exists(
    work: Seq<(Seq<char>, WorkKind)>,
    causes: Map<Seq<char>, Seq<char>>,
    at: int,
) -> (first: int)
    requires
        0 <= at < work.len(),
        !causes.contains_key(work[at].0),
    ensures
        explain::is_first_root(work, causes, first),
    decreases at,
{
    if exists|earlier: int|
        0 <= earlier < at && !causes.contains_key(#[trigger] work[earlier].0) {
        let earlier = choose|earlier: int|
            0 <= earlier < at && !causes.contains_key(#[trigger] work[earlier].0);
        lemma_first_root_exists(work, causes, earlier)
    } else {
        at
    }
}

/// Where some worked-on unit has no cause, the culprit is the first such unit. The cascade then
/// holds each worked-on unit that traces back to it, and every unit of the cascade but the
/// culprit names a cause that is itself in the cascade.
pub proof fn law_root_cascade_is_closed(log: BuildLogView)
    requires
        has_root(log),
    ensures
        explain::analysis(log) is Some,
        ({
            let story = explain::analysis(log)->0;
            &&& exists|first: int|
                explain::is_first_root(work_of(log), explain::causes_of(log), first)
                    && #[trigger] work_of(log)[first].0 == story.culprit
            &&& forall|id: Seq<char>|
                build_log::said_work(log.statuses, id) && explain::traces_back(
                    explain::causes_of(log),
                    id,
                    story.culprit,
                ) ==> #[trigger] in_cascade(story.cascade, id)
            &&& forall|i: int|
                0 <= i < story.cascade.len() ==> match (#[trigger] story.cascade[i]).caused_by {
                    Some(cause) => story.cascade[i].crate_id != story.culprit && in_cascade(
                        story.cascade,
                        cause,
                    ),
                    None => story.cascade[i].crate_id == story.culprit,
                }
        }),
{
    let work = work_of(log);
    let causes = explain::causes_of(log);
    let root = choose|at: int| 0 <= at < work.len() && !causes.contains_key(#[trigger] work[at].0);
    let first = lemma_first_root_exists(work, causes, root);
    explain::lemma_first_root(work, causes, first);
    let story = explain::analysis(log)->0;
    assert(work[first].0 == story.culprit);
    lemma_work_list(log.statuses);
    assert forall|id: Seq<char>|
        build_log::said_work(log.statuses, id) && explain::traces_back(
            causes,
            id,
            story.culprit,
        ) implies #[trigger] in_cascade(story.cascade, id) by {
        assert(explain::is_worked_on(work, id));
        lemma_root_cascade_is_complete(log, id);
    }
    let at = lemma_story(log);
    assert forall|i: int| 0 <= i < story.cascade.len() implies match (
    #[trigger] story.cascade[i]).caused_by {
        Some(cause) => story.cascade[i].crate_id != story.culprit && in_cascade(
            story.cascade,
            cause,
        ),
        None => story.cascade[i].crate_id == story.culprit,
    } by {
        let unit = story.cascade[i].crate_id;
        assert(story.cascade[i] == explain::cascade_entry(log, causes, work[at[i]]));
        assert(explain::traces_back(causes, unit, story.culprit));
        let steps = choose|steps: nat|
            explain::follow(causes, unit, steps) == Some(story.culprit);
        if steps == 0 {
            assert(unit == story.culprit);
        } else {
            let rest = (steps - 1) as nat;
            explain::lemma_follow_on(causes, unit, 1, rest);
            reveal_with_fuel(explain::follow, 2);
            assert(explain::follow(causes, unit, 1) is Some);
            assert(causes.contains_key(unit));
            let cause = causes[unit];
            assert(explain::follow(causes, cause, rest) == Some(story.culprit));
            assert(explain::traces_back(causes, cause, story.culprit));
            law_cause_is_another_worked_unit(log, unit);
            assert(in_cascade(story.cascade, cause));
        }
    }
}

/// Where every worked-on unit has a cause, the causes run in a circle. The story then holds the
/// first unit that did work, alone and without a cause.
pub proof fn law_circle_is_told_by_its_first_unit(log: BuildLogView)
    requires
        work_of(log).len() > 0,
        !has_root(log),
    ensures
        explain::analysis(log) is Some,
        (explain::analysis(log)->0).culprit == work_of(log)[0].0,
        (explain::analysis(log)->0).cascade.len() == 1,
        (explain::analysis(log)->0).cascade[0].crate_id == work_of(log)[0].0,
        (explain::analysis(log)->0).cascade[0].caused_by is None,
{
    let work = work_of(log);
    let causes = explain::causes_of(log);
    assert forall|at: int| !explain::is_first_root(work, causes, at) by {
        if 0 <= at < work.len() {
            assert(causes.contains_key(work[at].0));
        }
    }
}

/// The culprit has no cause, and is the only unit of the cascade without one.
pub proof fn law_only_the_culprit_has_no_cause(log: BuildLogView, i: int)
    requires
        explain::analysis(log) is Some,
        0 <= i < (explain::analysis(log)->0).cascade.len(),
    ensures
        ({
            let story = explain::analysis(log)->0;
            (story.cascade[i].caused_by is None) == (story.cascade[i].crate_id == story.culprit)
        }),
{
    lemma_story(log);
    if has_root(log) {
        law_root_cascade_is_closed(log);
    } else {
        law_circle_is_told_by_its_first_unit(log);
    }
}

/// A cause is a unit that did work, never the unit itself, and bears the name of the dependency
/// that the unit's first reason names.
pub proof fn law_cause_is_another_worked_unit(log: BuildLogView, id: Seq<char>)
    requires
        explain::causes_of(log).contains_key(id),
    ensures
        ({
            let cause = explain::causes_of(log)[id];
            &&& cause != id
            &&& build_log::said_work(log.statuses, cause)
            &&& build_log::said_work(log.statuses, id)
            &&& build_log::first_reason(log.statuses, id) matches Some(reason)
                && explain::dependency_in(reason) == Some(parse::unit_name(cause))
        }),
{
    let work = work_of(log);
    let reasons = build_log::first_reasons(log.statuses);
    lemma_work_list(log.statuses);
    assert(explain::cause_of(work, reasons, id) is Some);
    let name = explain::dependency_in(reasons[id])->0;
    let at = choose|at: int| explain::only_one_named(work, name, at);
    assert(explain::only_one_named(work, name, at));
    assert(explain::is_worked_on(work, work[at].0));
    assert(explain::is_worked_on(work, id));
}

/// Two worked-on units of one name, such as two versions of a crate, are never blamed by that
/// name.
pub proof fn law_ambiguous_name_is_no_cause(
    log: BuildLogView,
    one: Seq<char>,
    other: Seq<char>,
    id: Seq<char>,
)
    requires
        one != other,
        build_log::said_work(log.statuses, one),
        build_log::said_work(log.statuses, other),
        parse::unit_name(one) == parse::unit_name(other),
        build_log::first_reason(log.statuses, id) matches Some(reason)
            && explain::dependency_in(reason) == Some(parse::unit_name(one)),
    ensures
        !explain::causes_of(log).contains_key(id),
{
    let work = work_of(log);
    let name = parse::unit_name(one);
    lemma_work_list(log.statuses);
    assert(explain::is_worked_on(work, one));
    assert(explain::is_worked_on(work, other));
    let i = choose|i: int| 0 <= i < work.len() && #[trigger] work[i].0 == one;
    let j = choose|j: int| 0 <= j < work.len() && #[trigger] work[j].0 == other;
    assert forall|at: int| !explain::only_one_named(work, name, at) by {
        if explain::only_one_named(work, name, at) {
            assert(parse::unit_name(work[i].0) == name);
            assert(parse::unit_name(work[j].0) == name);
        }
    }
}

/// Each entry of the cascade tells the first reason that cargo gave for its unit, and all the
/// trace details of it. Without a fingerprint trace there are no details.
pub proof fn law_entries_tell_first_reasons(log: BuildLogView, i: int)
    requires
        explain::analysis(log) is Some,
        0 <= i < (explain::analysis(log)->0).cascade.len(),
    ensures
        ({
            let entry = (explain::analysis(log)->0).cascade[i];
            &&& entry.reason == build_log::first_reason(log.statuses, entry.crate_id)
            &&& entry.details == fingerprint::details_for(log.fingerprint_lines, entry.crate_id)
            &&& log.fingerprint_lines.len() == 0 ==> entry.details.len() == 0
        }),
{
    let at = lemma_story(log);
    let entry = (explain::analysis(log)->0).cascade[i];
    assert(is_entry_for(log, entry, work_of(log)[at[i]]));
}

} // verus!
