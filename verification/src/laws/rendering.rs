//! What is printed, letter by letter.

use vstd::prelude::*;

use crate::build_log;
use crate::build_log::{BuildLogView, DisplayEventView};
use crate::explain;
use crate::explain::{AnalysisView, CascadeEntryView};
use crate::parse::WorkKind;
use crate::report;
use crate::style;

verus! {

/// Dim text.
pub open spec fn dim(text: Seq<char>) -> Seq<char> {
    "\u{1b}[2m"@ + text + "\u{1b}[0m"@
}

/// Bold text.
pub open spec fn strong(text: Seq<char>) -> Seq<char> {
    "\u{1b}[1m"@ + text + "\u{1b}[0m"@
}

/// Bold green text.
pub open spec fn strong_green(text: Seq<char>) -> Seq<char> {
    "\u{1b}[1m"@ + ("\u{1b}[32m"@ + text + "\u{1b}[39m"@) + "\u{1b}[0m"@
}

/// The verb that stands for a kind of work.
pub open spec fn verb_of(kind: WorkKind) -> Seq<char> {
    match kind {
        WorkKind::Compiling => "Compiling"@,
        WorkKind::Checking => "Checking"@,
        WorkKind::Building => "Building"@,
    }
}

/// An indented line that labels a text.
pub open spec fn note(label: Seq<char>, text: Seq<char>) -> Seq<char> {
    "     "@ + (dim(label) + " "@ + dim(text))
}

/// A crate that was skipped is shown by its name behind `Fresh`, on request alone.
pub proof fn law_fresh_crate_is_shown(id: Seq<char>)
    ensures
        report::event_lines(DisplayEventView::Fresh { id }, true) == seq![
            dim("Fresh"@) + " "@ + dim(id),
        ],
        report::event_lines(DisplayEventView::Fresh { id }, false).len() == 0,
{
}

/// Work that starts is shown by its verb and the crate, with the reason on a line of its own if
/// it is known.
pub proof fn law_started_work_is_shown(
    kind: WorkKind,
    id: Seq<char>,
    reason: Seq<char>,
    show_fresh: bool,
)
    ensures
        report::event_lines(
            DisplayEventView::WorkStarted { kind, id, reason: None },
            show_fresh,
        ) == seq![strong_green(verb_of(kind)) + " "@ + strong(id)],
        report::event_lines(
            DisplayEventView::WorkStarted { kind, id, reason: Some(reason) },
            show_fresh,
        ) == seq![
            strong_green(verb_of(kind)) + " "@ + strong(id),
            note("reason:"@, reason),
        ],
{
    assert(report::event_lines(
        DisplayEventView::WorkStarted { kind, id, reason: None },
        show_fresh,
    ) =~= seq![strong_green(verb_of(kind)) + " "@ + strong(id)]);
    assert(report::event_lines(
        DisplayEventView::WorkStarted { kind, id, reason: Some(reason) },
        show_fresh,
    ) =~= seq![
        strong_green(verb_of(kind)) + " "@ + strong(id),
        note("reason:"@, reason),
    ]);
}

/// A reason that comes late is shown with the crate it belongs to.
pub proof fn law_late_reason_is_shown(id: Seq<char>, reason: Seq<char>, show_fresh: bool)
    ensures
        report::event_lines(DisplayEventView::LateReason { id, reason }, show_fresh) == seq![
            note("reason("@ + id + "):"@, reason),
        ],
{
}

/// The summary tells the outcome, the seconds and the three counts.
pub proof fn law_summary_tells_the_counts(
    seconds: Seq<char>,
    fresh: nat,
    dirty: nat,
    work: nat,
)
    ensures
        ({
            let tally = "in "@ + seconds + "s (fresh "@ + style::decimal(fresh) + ", dirty "@
                + style::decimal(dirty) + ", work "@ + style::decimal(work) + ")"@;
            &&& report::summary(true, seconds, fresh, dirty, work) == ("\u{1b}[32m"@ + "ok"@
                + "\u{1b}[39m"@) + " "@ + dim(tally)
            &&& report::summary(false, seconds, fresh, dirty, work) == ("\u{1b}[31m"@ + "failed"@
                + "\u{1b}[39m"@) + " "@ + dim(tally)
        }),
{
}

/// A place in the cascade is written in decimal, at the right of three columns.
pub proof fn law_places_are_aligned(n: nat)
    ensures
        n < 10 ==> report::place(n) == seq![' ', ' '] + style::decimal(n),
        10 <= n < 100 ==> report::place(n) == seq![' '] + style::decimal(n),
        100 <= n ==> report::place(n) == style::decimal(n),
{
    style::lemma_decimal_len(n);
    if n < 10 {
        assert(report::place(n) =~= seq![' ', ' '] + style::decimal(n));
    } else if n < 100 {
        assert(report::place(n) =~= seq![' '] + style::decimal(n));
    }
}

/// Each crate of a cascade is shown by its place, counted from one, its kind of work and its
/// name; then its cause, its reason and each of its details, as far as they are known.
pub proof fn law_cascade_is_shown_entry_by_entry(
    cascade: Seq<CascadeEntryView>,
    entry: CascadeEntryView,
)
    ensures
        report::cascade_lines(cascade.push(entry)) == report::cascade_lines(cascade) + seq![
            dim(report::place((cascade.len() + 1) as nat)) + " "@ + (strong_green(
                verb_of(entry.kind),
            ) + " "@ + strong(entry.crate_id)),
        ] + (match entry.caused_by {
            Some(cause) => seq![note("caused by:"@, cause)],
            None => Seq::empty(),
        }) + (match entry.reason {
            Some(reason) => seq![note("reason:"@, reason)],
            None => Seq::empty(),
        }) + Seq::new(entry.details.len(), |i: int| note("detail:"@, entry.details[i])),
        report::cascade_lines(Seq::empty()).len() == 0,
{
    assert(cascade.push(entry).drop_last() =~= cascade);
    assert(report::detail_lines(entry.details) =~= Seq::new(
        entry.details.len(),
        |i: int| note("detail:"@, entry.details[i]),
    ));
    assert(report::cascade_lines(cascade.push(entry)) =~= report::cascade_lines(cascade) + seq![
        dim(report::place((cascade.len() + 1) as nat)) + " "@ + (strong_green(verb_of(entry.kind))
            + " "@ + strong(entry.crate_id)),
    ] + (match entry.caused_by {
        Some(cause) => seq![note("caused by:"@, cause)],
        None => Seq::empty(),
    }) + (match entry.reason {
        Some(reason) => seq![note("reason:"@, reason)],
        None => Seq::empty(),
    }) + Seq::new(entry.details.len(), |i: int| note("detail:"@, entry.details[i])));
}

/// A story is shown by its culprit and then its cascade; without a story nothing is.
pub proof fn law_story_is_shown(culprit: Seq<char>, cascade: Seq<CascadeEntryView>)
    ensures
        report::story_lines(Some(AnalysisView { culprit, cascade })) == seq![
            strong_green("culprit"@) + " "@ + strong(culprit),
        ] + report::cascade_lines(cascade),
        report::story_lines(None).len() == 0,
{
}

/// What closes a run is the story, if it was asked for, and then the summary with the numbers of
/// units that were fresh, dirty and worked on.
pub proof fn law_closing_is_story_then_summary(
    log: BuildLogView,
    success: bool,
    seconds: Seq<char>,
)
    ensures
        ({
            let line = report::summary(
                success,
                seconds,
                build_log::fresh_units(log.statuses).len(),
                build_log::dirty_units(log.statuses).len(),
                build_log::work_units(log.statuses).len(),
            );
            &&& report::closing(log, true, success, seconds) == report::story_lines(
                explain::analysis(log),
            ) + seq![line]
            &&& report::closing(log, false, success, seconds) == seq![line]
        }),
{
    let line = report::summary(
        success,
        seconds,
        build_log::fresh_units(log.statuses).len(),
        build_log::dirty_units(log.statuses).len(),
        build_log::work_units(log.statuses).len(),
    );
    assert(report::closing(log, true, success, seconds) =~= report::story_lines(
        explain::analysis(log),
    ) + seq![line]);
    assert(report::closing(log, false, success, seconds) =~= seq![line]);
}

} // verus!
