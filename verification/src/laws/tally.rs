//! What the running tally and the parsed output promise over a whole run.

use vstd::prelude::*;

use crate::engine;
use crate::engine::{EngineView, EventView};
use crate::laws::counting;
use crate::parse::ParsedView;
use crate::parse::stderr_verbose;
use crate::text;

verus! {

/// The tally of a run that wrote these lines.
pub open spec fn tallied(lines: Seq<Seq<char>>) -> EngineView
    decreases lines.len(),
{
    if lines.len() == 0 {
        EngineView::nothing()
    } else {
        tallied(lines.drop_last()).with_line(lines.last())
    }
}

/// The events that a run that wrote these lines was worth.
pub open spec fn told(lines: Seq<Seq<char>>) -> Seq<EventView>
    decreases lines.len(),
{
    if lines.len() == 0 {
        Seq::empty()
    } else {
        told(lines.drop_last()) + tallied(lines.drop_last()).events_of(lines.last())
    }
}

/// Whether an event says that work on a unit started.
pub open spec fn tells_start(event: EventView, unit: Seq<char>) -> bool {
    event matches EventView::WorkStarted { crate_id, .. } && crate_id == unit
}

/// The reason that an event gives for a unit.
pub open spec fn reason_told(event: EventView, unit: Seq<char>) -> Option<Seq<char>> {
    match event {
        EventView::WorkStarted { crate_id, reason, .. } if crate_id == unit => reason,
        EventView::WorkReason { crate_id, reason } if crate_id == unit => Some(reason),
        _ => None,
    }
}

/// How many events say that work on a unit started.
pub open spec fn starts_told(events: Seq<EventView>, unit: Seq<char>) -> nat {
    events.filter(|event: EventView| tells_start(event, unit)).len()
}

/// How many events give a reason for a unit.
pub open spec fn reasons_told(events: Seq<EventView>, unit: Seq<char>) -> nat {
    events.filter(|event: EventView| reason_told(event, unit) is Some).len()
}

/// Work on a unit is announced exactly once if it was worked on, else never. Its reason is told
/// exactly once if it was both worked on and explained, with the start of the work or later,
/// however the lines about it were ordered.
pub proof fn law_tally_tells_each_thing_once(lines: Seq<Seq<char>>, unit: Seq<char>)
    ensures
        starts_told(told(lines), unit) == counting::once_if(tallied(lines).work.contains(unit)),
        reasons_told(told(lines), unit) == counting::once_if(
            tallied(lines).work.contains(unit) && tallied(lines).reasons.contains_key(unit),
        ),
    decreases lines.len(),
{
    let start = |event: EventView| tells_start(event, unit);
    let reason = |event: EventView| reason_told(event, unit) is Some;
    if lines.len() == 0 {
        counting::lemma_filter_at_most_one(told(lines), start);
        counting::lemma_filter_at_most_one(told(lines), reason);
    } else {
        let above = lines.drop_last();
        let new = tallied(above).events_of(lines.last());
        law_tally_tells_each_thing_once(above, unit);
        Seq::filter_distributes_over_add(told(above), new, start);
        Seq::filter_distributes_over_add(told(above), new, reason);
        counting::lemma_filter_at_most_one(new, start);
        counting::lemma_filter_at_most_one(new, reason);
    }
}

/// A reason that comes late comes after the announcement of the work that it explains, and that
/// announcement gave none.
pub proof fn law_tallied_late_reason_follows_its_start(
    lines: Seq<Seq<char>>,
    unit: Seq<char>,
    at: int,
)
    requires
        0 <= at < told(lines).len(),
        told(lines)[at] is WorkReason,
        reason_told(told(lines)[at], unit) is Some,
    ensures
        exists|start: int|
            0 <= start < at && tells_start(#[trigger] told(lines)[start], unit) && reason_told(
                told(lines)[start],
                unit,
            ) is None,
    decreases lines.len(),
{
    let above = lines.drop_last();
    if at < told(above).len() {
        law_tallied_late_reason_follows_its_start(above, unit, at);
        let start = choose|start: int|
            0 <= start < at && tells_start(#[trigger] told(above)[start], unit) && reason_told(
                told(above)[start],
                unit,
            ) is None;
        assert(told(lines)[start] == told(above)[start]);
    } else {
        let tells = |event: EventView| tells_start(event, unit);
        let explains = |event: EventView| reason_told(event, unit) is Some;
        law_tally_tells_each_thing_once(above, unit);
        let starts = told(above).filter(tells);
        assert(starts.len() == 1);
        told(above).lemma_filter_pred(tells, 0);
        assert(starts.contains(starts[0]));
        told(above).lemma_filter_contains_rev(tells, starts[0]);
        let start = choose|i: int| 0 <= i < told(above).len() && told(above)[i] == starts[0];
        assert(told(lines)[start] == told(above)[start]);
        if explains(told(above)[start]) {
            told(above).lemma_filter_contains(explains, start);
        }
    }
}

/// A reason once tallied is never replaced.
pub proof fn law_tallied_reason_stays(tally: EngineView, line: Seq<char>, unit: Seq<char>)
    requires
        tally.reasons.contains_key(unit),
    ensures
        tally.with_line(line).reason_of(unit) == tally.reason_of(unit),
{
}

/// A unit has a reason exactly if it was reported as invalidated.
pub proof fn law_tallied_dirty_has_a_reason(lines: Seq<Seq<char>>)
    ensures
        tallied(lines).reasons.dom() == tallied(lines).dirty,
    decreases lines.len(),
{
    if lines.len() > 0 {
        let above = tallied(lines.drop_last());
        law_tallied_dirty_has_a_reason(lines.drop_last());
        assert(tallied(lines).reasons.dom() =~= tallied(lines).dirty);
    } else {
        assert(tallied(lines).reasons.dom() =~= tallied(lines).dirty);
    }
}

/// Lines about the build as a whole, which name what runs or say that it has finished, leave the
/// tally as it is.
pub proof fn law_build_lines_are_not_tallied(tally: EngineView, line: Seq<char>)
    requires
        stderr_verbose::event_of(text::trimmed_start(line)) matches Some(event) && (
        event.kind is Running || event.kind is Finished),
    ensures
        tally.with_line(line) == tally,
        tally.events_of(line) == Seq::<EventView>::empty(),
{
}

/// Each line of stderr is kept in exactly one place, and nothing else changes but the reasons.
pub proof fn law_parsed_line_is_kept_once(parsed: ParsedView, line: Seq<char>)
    ensures
        ({
            let after = parsed.with_line(line);
            &&& after.stderr_events.len() + after.fingerprint_lines.len() + after.other_stderr.len()
                == parsed.stderr_events.len() + parsed.fingerprint_lines.len()
                + parsed.other_stderr.len() + 1
            &&& parsed.stderr_events.is_prefix_of(after.stderr_events)
            &&& parsed.fingerprint_lines.is_prefix_of(after.fingerprint_lines)
            &&& parsed.other_stderr.is_prefix_of(after.other_stderr)
            &&& after.messages == parsed.messages
        }),
{
}

/// The reason kept for a unit is the latest one given.
pub proof fn law_parsed_reason_is_the_latest(parsed: ParsedView, line: Seq<char>)
    requires
        stderr_verbose::event_of(text::trimmed_start(line)) matches Some(event)
            && event.reason is Some,
    ensures
        ({
            let event = stderr_verbose::event_of(text::trimmed_start(line))->0;
            parsed.with_line(line).crate_reasons == parsed.crate_reasons.insert(
                event.crate_id,
                event.reason->0,
            )
        }),
{
}

} // verus!
