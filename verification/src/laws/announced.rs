//! What is announced of a unit, told by the status lines themselves.

use vstd::prelude::*;

use crate::build_log;
use crate::build_log::{BuildLogView, DisplayEventView};
use crate::laws::record;
use crate::parse;
use crate::parse::{CrateStatusView, StatusKindView, StderrLineView, WorkKind};

verus! {

/// Whether the status at `i` is the first to report work on a unit.
pub open spec fn is_first_work(statuses: Seq<CrateStatusView>, id: Seq<char>, i: int) -> bool {
    &&& 0 <= i < statuses.len()
    &&& statuses[i].id == id
    &&& statuses[i].kind is Work
    &&& forall|j: int|
        0 <= j < i ==> !((#[trigger] statuses[j]).id == id && statuses[j].kind is Work)
}

/// Whether the status at `i` is the first to report a unit as invalidated, for this reason.
pub open spec fn is_first_dirty(
    statuses: Seq<CrateStatusView>,
    id: Seq<char>,
    i: int,
    reason: Seq<char>,
) -> bool {
    &&& 0 <= i < statuses.len()
    &&& statuses[i].id == id
    &&& statuses[i].kind == (StatusKindView::Dirty { reason })
    &&& forall|j: int|
        0 <= j < i ==> !((#[trigger] statuses[j]).id == id && statuses[j].kind is Dirty)
}

/// Whether no status reports work on a unit.
pub open spec fn has_no_work(statuses: Seq<CrateStatusView>, id: Seq<char>) -> bool {
    forall|j: int|
        0 <= j < statuses.len() ==> !((#[trigger] statuses[j]).id == id && statuses[j].kind
            is Work)
}

/// Whether no status reports a unit as invalidated.
pub open spec fn has_no_dirty(statuses: Seq<CrateStatusView>, id: Seq<char>) -> bool {
    forall|j: int|
        0 <= j < statuses.len() ==> !((#[trigger] statuses[j]).id == id && statuses[j].kind
            is Dirty)
}

/// Whether no status reports a unit as up to date.
pub open spec fn has_no_fresh(statuses: Seq<CrateStatusView>, id: Seq<char>) -> bool {
    forall|j: int|
        0 <= j < statuses.len() ==> !((#[trigger] statuses[j]).id == id && statuses[j].kind
            is Fresh)
}

/// A tally counts a unit exactly if a status line of its kind named it.
pub proof fn law_tallies_count_what_was_reported(statuses: Seq<CrateStatusView>, id: Seq<char>)
    ensures
        build_log::fresh_units(statuses).contains(id) == !has_no_fresh(statuses, id),
        build_log::dirty_units(statuses).contains(id) == !has_no_dirty(statuses, id),
        build_log::work_units(statuses).contains(id) == !has_no_work(statuses, id),
{
}

/// The reason held for a unit is that of its first `Dirty` line, word for word; a unit without
/// one has no reason.
pub proof fn law_reason_is_that_of_the_first_dirty_line(
    statuses: Seq<CrateStatusView>,
    id: Seq<char>,
    i: int,
    reason: Seq<char>,
)
    ensures
        is_first_dirty(statuses, id, i, reason) ==> {
            &&& build_log::first_reason(statuses, id) == Some(reason)
            &&& build_log::first_reasons(statuses).contains_key(id)
            &&& build_log::first_reasons(statuses)[id] == reason
        },
        has_no_dirty(statuses, id) ==> {
            &&& build_log::first_reason(statuses, id) is None
            &&& !build_log::first_reasons(statuses).contains_key(id)
        },
    decreases statuses.len(),
{
    if has_no_dirty(statuses, id) {
        build_log::lemma_reason_iff_dirty(statuses, id);
    }
    if is_first_dirty(statuses, id, i, reason) {
        let before = statuses.drop_last();
        if i < before.len() {
            assert forall|j: int| 0 <= j < i implies !((#[trigger] before[j]).id == id
                && before[j].kind is Dirty) by {
                assert(before[j] == statuses[j]);
            }
            law_reason_is_that_of_the_first_dirty_line(before, id, i, reason);
        } else {
            assert(has_no_dirty(before, id)) by {
                assert forall|j: int| 0 <= j < before.len() implies !((#[trigger] before[j]).id
                    == id && before[j].kind is Dirty) by {
                    assert(before[j] == statuses[j]);
                }
            }
            build_log::lemma_reason_iff_dirty(before, id);
        }
    }
}

/// A status line that reports a unit as up to date is worth exactly one announcement, of that
/// unit, the first time, and none later.
pub proof fn law_fresh_line_announces_its_unit(log: BuildLogView, line: Seq<char>, id: Seq<char>)
    requires
        parse::classified(line) == StderrLineView::Status(
            CrateStatusView { id, kind: StatusKindView::Fresh },
        ),
    ensures
        has_no_fresh(log.statuses, id) ==> log.events_of(line) == seq![
            DisplayEventView::Fresh { id },
        ],
        !has_no_fresh(log.statuses, id) ==> log.events_of(line).len() == 0,
{
}

/// A status line that reports work on a unit is worth exactly one announcement the first time,
/// and none later. It names the kind of work that the line states, the unit, and the reason of
/// the unit's first `Dirty` line if that came before.
pub proof fn law_work_line_announces_its_kind(
    log: BuildLogView,
    line: Seq<char>,
    id: Seq<char>,
    kind: WorkKind,
    i: int,
    why: Seq<char>,
)
    requires
        parse::classified(line) == StderrLineView::Status(
            CrateStatusView { id, kind: StatusKindView::Work(kind) },
        ),
    ensures
        !has_no_work(log.statuses, id) ==> log.events_of(line).len() == 0,
        has_no_work(log.statuses, id) && has_no_dirty(log.statuses, id) ==> log.events_of(line)
            == seq![DisplayEventView::WorkStarted { kind, id, reason: None }],
        has_no_work(log.statuses, id) && is_first_dirty(log.statuses, id, i, why)
            ==> log.events_of(line) == seq![
            DisplayEventView::WorkStarted { kind, id, reason: Some(why) },
        ],
{
    law_reason_is_that_of_the_first_dirty_line(log.statuses, id, i, why);
}

/// A status line that gives the reason of a unit is worth exactly one announcement, of that unit
/// and that reason, if it is the unit's first and work on the unit was reported before; and none
/// otherwise.
pub proof fn law_dirty_line_announces_a_late_reason(
    log: BuildLogView,
    line: Seq<char>,
    id: Seq<char>,
    reason: Seq<char>,
)
    requires
        parse::classified(line) == StderrLineView::Status(
            CrateStatusView { id, kind: StatusKindView::Dirty { reason } },
        ),
    ensures
        has_no_dirty(log.statuses, id) && !has_no_work(log.statuses, id) ==> log.events_of(line)
            == seq![DisplayEventView::LateReason { id, reason }],
        !has_no_dirty(log.statuses, id) || has_no_work(log.statuses, id) ==> log.events_of(
            line,
        ).len() == 0,
{
    build_log::lemma_reason_iff_dirty(log.statuses, id);
}

/// A line that is no status is never announced.
pub proof fn law_other_lines_announce_nothing(log: BuildLogView, line: Seq<char>)
    requires
        parse::classified(line) !is Status,
    ensures
        log.events_of(line).len() == 0,
        log.with_line(line).statuses == log.statuses,
{
}

/// Every announcement of work names the kind of work that the first work line of its unit stated.
pub proof fn law_announced_kind_is_the_first_reported(
    lines: Seq<Seq<char>>,
    at: int,
    kind: WorkKind,
    id: Seq<char>,
    reason: Option<Seq<char>>,
) -> (i: int)
    requires
        0 <= at < record::shown(lines).len(),
        record::shown(lines)[at] == (DisplayEventView::WorkStarted { kind, id, reason }),
    ensures
        is_first_work(record::recorded(lines).statuses, id, i),
        record::recorded(lines).statuses[i].kind == StatusKindView::Work(kind),
    decreases lines.len(),
{
    let above = lines.drop_last();
    let before = record::recorded(above).statuses;
    let after = record::recorded(lines).statuses;
    if at < record::shown(above).len() {
        let i = law_announced_kind_is_the_first_reported(above, at, kind, id, reason);
        assert(after[i] == before[i]);
        assert forall|j: int| 0 <= j < i implies !((#[trigger] after[j]).id == id && after[j].kind
            is Work) by {
            assert(after[j] == before[j]);
        }
        i
    } else {
        let i = before.len() as int;
        let status = (parse::classified(lines.last()))->Status_0;
        assert(after == before.push(status));
        assert(!build_log::said_work(before, id));
        assert forall|j: int| 0 <= j < i implies !((#[trigger] after[j]).id == id && after[j].kind
            is Work) by {
            assert(after[j] == before[j]);
            if before[j].id == id && before[j].kind is Work {
                assert(build_log::said_work(before, id));
            }
        }
        i
    }
}

} // verus!
