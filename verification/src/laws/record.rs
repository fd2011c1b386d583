//! What a [`crate::build_log::BuildLog`] keeps and shows over a whole run.

use vstd::prelude::*;

use crate::build_log;
use crate::build_log::{BuildLogView, DisplayEventView};
use crate::laws::counting;
use crate::parse;
use crate::parse::{CrateStatusView, StatusKindView, StderrLineView};

verus! {

/// The record of a run that wrote these lines.
pub open spec fn recorded(lines: Seq<Seq<char>>) -> BuildLogView
    decreases lines.len(),
{
    if lines.len() == 0 {
        BuildLogView::nothing()
    } else {
        recorded(lines.drop_last()).with_line(lines.last())
    }
}

/// The events that a run that wrote these lines was worth.
pub open spec fn shown(lines: Seq<Seq<char>>) -> Seq<DisplayEventView>
    decreases lines.len(),
{
    if lines.len() == 0 {
        Seq::empty()
    } else {
        shown(lines.drop_last()) + recorded(lines.drop_last()).events_of(lines.last())
    }
}

/// Whether an event says that a unit was skipped as up to date.
pub open spec fn tells_fresh(event: DisplayEventView, unit: Seq<char>) -> bool {
    event matches DisplayEventView::Fresh { id } && id == unit
}

/// Whether an event says that work on a unit started.
pub open spec fn tells_start(event: DisplayEventView, unit: Seq<char>) -> bool {
    event matches DisplayEventView::WorkStarted { id, .. } && id == unit
}

/// The reason that an event gives for a unit.
pub open spec fn told_reason(event: DisplayEventView, unit: Seq<char>) -> Option<Seq<char>> {
    match event {
        DisplayEventView::WorkStarted { id, reason, .. } if id == unit => reason,
        DisplayEventView::LateReason { id, reason } if id == unit => Some(reason),
        _ => None,
    }
}

/// How many events say that a unit was skipped as up to date.
pub open spec fn fresh_told(events: Seq<DisplayEventView>, unit: Seq<char>) -> nat {
    events.filter(|event: DisplayEventView| tells_fresh(event, unit)).len()
}

/// How many events say that work on a unit started.
pub open spec fn starts_told(events: Seq<DisplayEventView>, unit: Seq<char>) -> nat {
    events.filter(|event: DisplayEventView| tells_start(event, unit)).len()
}

/// How many events give a reason for a unit.
pub open spec fn reasons_told(events: Seq<DisplayEventView>, unit: Seq<char>) -> nat {
    events.filter(|event: DisplayEventView| told_reason(event, unit) is Some).len()
}

/// Each line ends up in exactly one of the three lists, and each list keeps the order of the
/// lines.
pub proof fn law_every_line_is_kept_once(lines: Seq<Seq<char>>)
    ensures
        recorded(lines).statuses == lines.filter_map(
            |line: Seq<char>|
                match parse::classified(line) {
                    StderrLineView::Status(status) => Some(status),
                    _ => None,
                },
        ),
        recorded(lines).fingerprint_lines == lines.filter_map(
            |line: Seq<char>|
                match parse::classified(line) {
                    StderrLineView::FingerprintTrace(line) => Some(line),
                    _ => None,
                },
        ),
        recorded(lines).other_stderr == lines.filter_map(
            |line: Seq<char>|
                match parse::classified(line) {
                    StderrLineView::Other(line) => Some(line),
                    _ => None,
                },
        ),
        recorded(lines).statuses.len() + recorded(lines).fingerprint_lines.len() + recorded(
            lines,
        ).other_stderr.len() == lines.len(),
    decreases lines.len(),
{
    if lines.len() > 0 {
        law_every_line_is_kept_once(lines.drop_last());
    }
}

/// A line that is neither a status nor part of the trace is kept as it came, indentation and
/// all.
pub proof fn law_other_lines_are_verbatim(log: BuildLogView, line: Seq<char>)
    requires
        parse::classified(line) is Other,
    ensures
        log.with_line(line).other_stderr == log.other_stderr.push(line),
        log.with_line(line).statuses == log.statuses,
        log.with_line(line).fingerprint_lines == log.fingerprint_lines,
        log.events_of(line) == Seq::<DisplayEventView>::empty(),
{
}

/// How often each thing is told of a unit.
proof fn lemma_told_once(lines: Seq<Seq<char>>, unit: Seq<char>)
    ensures
        fresh_told(shown(lines), unit) == counting::once_if(
            build_log::said_fresh(recorded(lines).statuses, unit),
        ),
        starts_told(shown(lines), unit) == counting::once_if(
            build_log::said_work(recorded(lines).statuses, unit),
        ),
        reasons_told(shown(lines), unit) == counting::once_if(
            build_log::said_work(recorded(lines).statuses, unit)
                && build_log::said_dirty(recorded(lines).statuses, unit),
        ),
    decreases lines.len(),
{
    let fresh = |event: DisplayEventView| tells_fresh(event, unit);
    let start = |event: DisplayEventView| tells_start(event, unit);
    let reason = |event: DisplayEventView| told_reason(event, unit) is Some;
    if lines.len() == 0 {
        counting::lemma_filter_at_most_one(shown(lines), fresh);
        counting::lemma_filter_at_most_one(shown(lines), start);
        counting::lemma_filter_at_most_one(shown(lines), reason);
    } else {
        let above = lines.drop_last();
        let log = recorded(above);
        lemma_told_once(above, unit);
        let new = log.events_of(lines.last());
        Seq::filter_distributes_over_add(shown(above), new, fresh);
        Seq::filter_distributes_over_add(shown(above), new, start);
        Seq::filter_distributes_over_add(shown(above), new, reason);
        counting::lemma_filter_at_most_one(new, fresh);
        counting::lemma_filter_at_most_one(new, start);
        counting::lemma_filter_at_most_one(new, reason);
        if let StderrLineView::Status(status) = parse::classified(lines.last()) {
            build_log::lemma_one_more_status(log.statuses, status);
            build_log::lemma_reason_iff_dirty(log.statuses, unit);
            build_log::lemma_reason_iff_dirty(log.statuses, status.id);
        }
    }
}

/// A unit is announced as fresh at most once: once if some line reported it fresh, else never.
pub proof fn law_fresh_is_told_once(lines: Seq<Seq<char>>, unit: Seq<char>)
    ensures
        fresh_told(shown(lines), unit) == counting::once_if(
            build_log::said_fresh(recorded(lines).statuses, unit),
        ),
{
    lemma_told_once(lines, unit);
}

/// Work on a unit is announced at most once: once if some line reported work on it, else never.
pub proof fn law_work_start_is_told_once(lines: Seq<Seq<char>>, unit: Seq<char>)
    ensures
        starts_told(shown(lines), unit) == counting::once_if(
            build_log::said_work(recorded(lines).statuses, unit),
        ),
{
    lemma_told_once(lines, unit);
}

/// The reason of a unit that was worked on is shown exactly once, with the start of the work or
/// later, however the lines about the unit were ordered; a unit without work or without a reason
/// has none shown.
pub proof fn law_reason_is_told_once(lines: Seq<Seq<char>>, unit: Seq<char>)
    ensures
        reasons_told(shown(lines), unit) == counting::once_if(
            build_log::said_work(recorded(lines).statuses, unit)
                && build_log::said_dirty(recorded(lines).statuses, unit),
        ),
{
    lemma_told_once(lines, unit);
}

/// A reason once known is never replaced: later lines leave it as it is.
pub proof fn law_first_reason_stays(
    statuses: Seq<CrateStatusView>,
    later: Seq<CrateStatusView>,
    unit: Seq<char>,
)
    requires
        build_log::first_reason(statuses, unit) is Some,
    ensures
        build_log::first_reason(statuses + later, unit) == build_log::first_reason(statuses, unit),
    decreases later.len(),
{
    if later.len() == 0 {
        assert(statuses + later =~= statuses);
    } else {
        law_first_reason_stays(statuses, later.drop_last(), unit);
        assert((statuses + later).drop_last() =~= statuses + later.drop_last());
    }
}

/// Every reason that is shown for a unit is the first one cargo gave for it.
pub proof fn law_told_reason_is_the_first(lines: Seq<Seq<char>>, unit: Seq<char>, at: int)
    requires
        0 <= at < shown(lines).len(),
        told_reason(shown(lines)[at], unit) is Some,
    ensures
        build_log::first_reason(recorded(lines).statuses, unit) == told_reason(
            shown(lines)[at],
            unit,
        ),
    decreases lines.len(),
{
    let above = lines.drop_last();
    let log = recorded(above);
    let last = parse::classified(lines.last());
    if at < shown(above).len() {
        law_told_reason_is_the_first(above, unit, at);
    }
    if let StderrLineView::Status(status) = last {
        build_log::lemma_one_more_status(log.statuses, status);
        assert(recorded(lines).statuses == log.statuses.push(status));
    }
}

/// A reason that comes late comes after the announcement of the work that it explains, and that
/// announcement gave none.
pub proof fn law_late_reason_follows_its_start(lines: Seq<Seq<char>>, unit: Seq<char>, at: int)
    requires
        0 <= at < shown(lines).len(),
        shown(lines)[at] is LateReason,
        told_reason(shown(lines)[at], unit) is Some,
    ensures
        exists|start: int|
            0 <= start < at && tells_start(#[trigger] shown(lines)[start], unit) && told_reason(
                shown(lines)[start],
                unit,
            ) is None,
    decreases lines.len(),
{
    let above = lines.drop_last();
    let log = recorded(above);
    if at < shown(above).len() {
        law_late_reason_follows_its_start(above, unit, at);
        let start = choose|start: int|
            0 <= start < at && tells_start(#[trigger] shown(above)[start], unit) && told_reason(
                shown(above)[start],
                unit,
            ) is None;
        assert(shown(lines)[start] == shown(above)[start]);
    } else {
        let start = lemma_work_was_told(above, unit);
        assert(shown(lines)[start] == shown(above)[start]);
        if told_reason(shown(above)[start], unit) is Some {
            law_told_reason_is_the_first(above, unit, start);
        }
    }
}

/// A unit that was worked on has been announced.
proof fn lemma_work_was_told(lines: Seq<Seq<char>>, unit: Seq<char>) -> (start: int)
    requires
        build_log::said_work(recorded(lines).statuses, unit),
    ensures
        0 <= start < shown(lines).len(),
        tells_start(shown(lines)[start], unit),
{
    law_work_start_is_told_once(lines, unit);
    let start = |event: DisplayEventView| tells_start(event, unit);
    let told = shown(lines).filter(start);
    assert(told.len() == 1);
    shown(lines).lemma_filter_pred(start, 0);
    assert(told.contains(told[0]));
    shown(lines).lemma_filter_contains_rev(start, told[0]);
    choose|i: int| 0 <= i < shown(lines).len() && shown(lines)[i] == told[0]
}

/// As many units are announced as fresh, and as many as being worked on, as the tallies count.
pub proof fn law_events_agree_with_counts(lines: Seq<Seq<char>>)
    ensures
        shown(lines).filter(|event: DisplayEventView| event is Fresh).len()
            == build_log::fresh_units(recorded(lines).statuses).len(),
        shown(lines).filter(|event: DisplayEventView| event is WorkStarted).len()
            == build_log::work_units(recorded(lines).statuses).len(),
        build_log::fresh_units(recorded(lines).statuses).finite(),
        build_log::work_units(recorded(lines).statuses).finite(),
    decreases lines.len(),
{
    let fresh = |event: DisplayEventView| event is Fresh;
    let start = |event: DisplayEventView| event is WorkStarted;
    let units = build_log::fresh_units(recorded(lines).statuses);
    let worked = build_log::work_units(recorded(lines).statuses);
    if lines.len() == 0 {
        counting::lemma_filter_at_most_one(shown(lines), fresh);
        counting::lemma_filter_at_most_one(shown(lines), start);
        assert(units =~= Set::empty());
        assert(worked =~= Set::empty());
    } else {
        let above = lines.drop_last();
        let log = recorded(above);
        let new = log.events_of(lines.last());
        law_events_agree_with_counts(above);
        Seq::filter_distributes_over_add(shown(above), new, fresh);
        Seq::filter_distributes_over_add(shown(above), new, start);
        counting::lemma_filter_at_most_one(new, fresh);
        counting::lemma_filter_at_most_one(new, start);
        let units_above = build_log::fresh_units(log.statuses);
        let worked_above = build_log::work_units(log.statuses);
        if let StderrLineView::Status(status) = parse::classified(lines.last()) {
            build_log::lemma_one_more_status(log.statuses, status);
            if status.kind is Fresh {
                assert(units =~= units_above.insert(status.id));
                assert(worked =~= worked_above);
            } else if status.kind is Work {
                assert(units =~= units_above);
                assert(worked =~= worked_above.insert(status.id));
            } else {
                assert(units =~= units_above);
                assert(worked =~= worked_above);
            }
        }
    }
}

} // verus!
