//! Everything the tool prints, line by line.
//!
//! Rendering lives here alone — live status lines, compiler errors, the failure dump, the
//! `--explain` cascade, and the summary — so an output change is a change to one file.

use vstd::prelude::*;
use vstd::string::StringExecFns;

use crate::build_log;
use crate::build_log::{BuildLog, BuildLogView, Counts, DisplayEvent, DisplayEventView};
use crate::explain;
use crate::explain::{AnalysisView, CascadeEntry, CascadeEntryView};
use crate::message;
use crate::message::{CargoMessage, CargoMessageView};
use crate::parse;
use crate::style;
use crate::style::{bold, dimmed, green, index_text, number_text, red};
use crate::text;

verus! {

/// Two texts with a space between them.
pub open spec fn spaced(left: Seq<char>, right: Seq<char>) -> Seq<char> {
    left + " "@ + right
}

/// An indented line with a label, both dimmed.
pub open spec fn labelled(label: Seq<char>, text: Seq<char>) -> Seq<char> {
    "     "@ + spaced(style::dimmed_text(label), style::dimmed_text(text))
}

/// A line that tells of work on a unit.
pub open spec fn work_line(verb: Seq<char>, id: Seq<char>) -> Seq<char> {
    spaced(style::bold_text(style::green_text(verb)), style::bold_text(id))
}

/// A list of one line, or of none.
pub open spec fn optional_line(label: Seq<char>, text: Option<Seq<char>>) -> Seq<Seq<char>> {
    match text {
        Some(text) => seq![labelled(label, text)],
        None => Seq::empty(),
    }
}

/// The lines of one live build event.
pub open spec fn event_lines(event: DisplayEventView, show_fresh: bool) -> Seq<Seq<char>> {
    match event {
        DisplayEventView::Fresh { id } => if show_fresh {
            seq![spaced(style::dimmed_text("Fresh"@), style::dimmed_text(id))]
        } else {
            Seq::empty()
        },
        DisplayEventView::WorkStarted { kind, id, reason } => seq![
            work_line(parse::work_verb(kind), id),
        ] + optional_line("reason:"@, reason),
        DisplayEventView::LateReason { id, reason } => seq![
            labelled("reason("@ + id + "):"@, reason),
        ],
    }
}

/// Joins two texts with a space.
fn with_space(left: &str, right: &str) -> (joined: String)
    ensures
        joined@ == spaced(left@, right@),
{
    let mut joined = left.to_owned();
    joined.append(" ");
    joined.append(right);
    joined
}

/// Writes an indented line with a label.
fn labelled_line(label: &str, text: &str) -> (line: String)
    ensures
        line@ == labelled(label@, text@),
{
    let mut line = "     ".to_owned();
    line.append(with_space(dimmed(label).as_str(), dimmed(text).as_str()).as_str());
    line
}

/// Writes a line that tells of work on a unit.
fn work_started_line(verb: &str, id: &str) -> (line: String)
    ensures
        line@ == work_line(verb@, id@),
{
    with_space(bold(green(verb).as_str()).as_str(), bold(id).as_str())
}

/// Appends a line.
fn add_line(lines: &mut Vec<String>, line: String)
    ensures
        text::views(final(lines)@) == text::views(old(lines)@).push(line@),
{
    lines.push(line);
    assert(text::views(lines@) =~= text::views(old(lines)@).push(line@));
}

/// Renders one live build event. `show_fresh` decides whether untouched crates are listed;
/// they are always tracked, only their display is optional.
pub fn stream_event_lines(event: &DisplayEvent, show_fresh: bool) -> (lines: Vec<String>)
    ensures
        text::views(lines@) == event_lines(event@, show_fresh),
{
    let mut lines: Vec<String> = Vec::new();
    assert(text::views(lines@) =~= Seq::empty());
    match event {
        DisplayEvent::Fresh { id } => {
            if show_fresh {
                add_line(
                    &mut lines,
                    with_space(dimmed("Fresh").as_str(), dimmed(id.as_str()).as_str()),
                );
            }
        },
        DisplayEvent::WorkStarted { kind, id, reason } => {
            add_line(&mut lines, work_started_line(kind.verb(), id.as_str()));
            if let Some(reason) = reason {
                add_line(&mut lines, labelled_line("reason:", reason.as_str()));
            }
        },
        // A late reason lands after other crates have already been announced, so it has to name
        // the crate it belongs to.
        DisplayEvent::LateReason { id, reason } => {
            let mut label = "reason(".to_owned();
            label.append(id.as_str());
            label.append("):");
            add_line(&mut lines, labelled_line(label.as_str(), reason.as_str()));
        },
    }
    assert(text::views(lines@) =~= event_lines(event@, show_fresh));
    lines
}

/// How long cargo took and the staleness tally.
pub open spec fn summary_details(seconds: Seq<char>, fresh: nat, dirty: nat, work: nat) -> Seq<
    char,
> {
    "in "@ + seconds + "s (fresh "@ + style::decimal(fresh) + ", dirty "@ + style::decimal(dirty)
        + ", work "@ + style::decimal(work) + ")"@
}

/// The closing line.
pub open spec fn summary(
    success: bool,
    seconds: Seq<char>,
    fresh: nat,
    dirty: nat,
    work: nat,
) -> Seq<char> {
    let outcome = if success {
        style::green_text("ok"@)
    } else {
        style::red_text("failed"@)
    };
    spaced(outcome, style::dimmed_text(summary_details(seconds, fresh, dirty, work)))
}

/// Renders the closing line: the outcome, how long cargo took, and the staleness tally.
pub fn summary_line(success: bool, seconds: &str, counts: Counts) -> (line: String)
    ensures
        line@ == summary(
            success,
            seconds@,
            counts.fresh as nat,
            counts.dirty as nat,
            counts.work as nat,
        ),
{
    let mut details = "in ".to_owned();
    details.append(seconds);
    details.append("s (fresh ");
    details.append(number_text(counts.fresh).as_str());
    details.append(", dirty ");
    details.append(number_text(counts.dirty).as_str());
    details.append(", work ");
    details.append(number_text(counts.work).as_str());
    details.append(")");
    let outcome = if success {
        green("ok")
    } else {
        red("failed")
    };
    with_space(outcome.as_str(), dimmed(details.as_str()).as_str())
}

/// How many trailing stderr lines to show when cargo failed without saying `error` anywhere.
pub const RAW_STDERR_TAIL_LINES: usize = 20;

/// Whether a line is where cargo's own error begins.
pub open spec fn begins_error(line: Seq<char>) -> bool {
    text::begins_with(text::trimmed_start(line), "error"@)
}

/// The first line where cargo's own error begins.
pub open spec fn is_error_start(lines: Seq<Seq<char>>, at: int) -> bool {
    &&& 0 <= at < lines.len()
    &&& begins_error(lines[at])
    &&& forall|earlier: int| 0 <= earlier < at ==> !begins_error(#[trigger] lines[earlier])
}

/// The lines that tell why cargo failed: from the first error on, or the last few where there is
/// none.
pub open spec fn stderr_tail(lines: Seq<Seq<char>>) -> Seq<Seq<char>> {
    if exists|at: int| is_error_start(lines, at) {
        lines.skip(choose|at: int| is_error_start(lines, at))
    } else if lines.len() > RAW_STDERR_TAIL_LINES {
        lines.skip(lines.len() - RAW_STDERR_TAIL_LINES)
    } else {
        lines
    }
}

/// The first error is where no error comes before it.
pub proof fn lemma_error_start(lines: Seq<Seq<char>>, at: int)
    requires
        is_error_start(lines, at),
    ensures
        stderr_tail(lines) == lines.skip(at),
{
    let chosen = choose|at: int| is_error_start(lines, at);
    assert(is_error_start(lines, chosen));
    assert(begins_error(lines[chosen]));
    assert(begins_error(lines[at]));
}

/// Copies the lines from `from` on.
fn lines_from(lines: &[String], from: usize) -> (tail: Vec<String>)
    requires
        from <= lines@.len(),
    ensures
        text::views(tail@) == text::views(lines@).skip(from as int),
{
    let mut tail: Vec<String> = Vec::new();
    assert(text::views(tail@) =~= text::views(lines@).subrange(from as int, from as int));
    let mut i: usize = from;
    while i < lines.len()
        invariant
            from <= i <= lines@.len(),
            text::views(tail@) == text::views(lines@).subrange(from as int, i as int),
        decreases lines@.len() - i,
    {
        add_line(&mut tail, lines[i].clone());
        i = i + 1;
        assert(text::views(tail@) =~= text::views(lines@).subrange(from as int, i as int));
    }
    assert(text::views(lines@).subrange(from as int, i as int) =~= text::views(lines@).skip(
        from as int,
    ));
    tail
}

/// Picks from cargo's own stderr for failures that produce no compiler diagnostics — a missing
/// manifest, a build script that died, a bad profile name.
pub fn raw_stderr_tail(log: &BuildLog) -> (tail: Vec<String>)
    ensures
        text::views(tail@) == stderr_tail(log@.other_stderr),
{
    let lines = log.other_stderr();
    let ghost all = log@.other_stderr;
    let mut i: usize = 0;
    while i < lines.len()
        invariant
            i <= lines@.len(),
            all == text::views(lines@),
            all == log@.other_stderr,
            forall|earlier: int| 0 <= earlier < i ==> !begins_error(#[trigger] all[earlier]),
        decreases lines@.len() - i,
    {
        assert(all[i as int] == lines@[i as int]@);
        if text::starts_with(text::trim_start(lines[i].as_str()), "error") {
            proof {
                lemma_error_start(all, i as int);
            }
            return lines_from(lines, i);
        }
        i = i + 1;
    }
    assert forall|at: int| !is_error_start(all, at) by {}
    let len = lines.len();
    if len > RAW_STDERR_TAIL_LINES {
        lines_from(lines, len - RAW_STDERR_TAIL_LINES)
    } else {
        let tail = lines_from(lines, 0);
        assert(all.skip(0) =~= all);
        tail
    }
}

/// What is told of a failure: the compiler's errors, or cargo's own words where there are none.
pub open spec fn failure(
    success: bool,
    messages: Seq<CargoMessageView>,
    log: BuildLogView,
) -> Seq<Seq<char>> {
    let errors = message::rendered_errors(messages);
    if success {
        Seq::empty()
    } else if errors.len() > 0 {
        errors
    } else {
        stderr_tail(log.other_stderr)
    }
}

/// Says why cargo failed, if it did.
pub fn failure_lines(success: bool, messages: &[CargoMessage], log: &BuildLog) -> (lines: Vec<
    String,
>)
    ensures
        text::views(lines@) == failure(success, text::views(messages@), log@),
{
    if success {
        let none: Vec<String> = Vec::new();
        assert(text::views(none@) =~= Seq::empty());
        return none;
    }
    let errors = message::errors(messages);
    assert(errors@.len() == text::views(errors@).len());
    if errors.len() > 0 {
        errors
    } else {
        raw_stderr_tail(log)
    }
}

/// The lines of the details of a crate.
pub open spec fn detail_lines(details: Seq<Seq<char>>) -> Seq<Seq<char>> {
    details.map_values(|detail: Seq<char>| labelled("detail:"@, detail))
}

/// A place in the cascade, counted from one.
pub open spec fn place(number: nat) -> Seq<char> {
    if style::decimal(number).len() < 3 {
        style::right_aligned(style::decimal(number), 3)
    } else {
        style::decimal(number)
    }
}

/// The lines of one crate of the cascade.
pub open spec fn entry_lines(number: nat, entry: CascadeEntryView) -> Seq<Seq<char>> {
    seq![
        spaced(
            style::dimmed_text(place(number)),
            work_line(parse::work_verb(entry.kind), entry.crate_id),
        ),
    ] + optional_line("caused by:"@, entry.caused_by) + optional_line("reason:"@, entry.reason)
        + detail_lines(entry.details)
}

/// The lines of a cascade.
pub open spec fn cascade_lines(cascade: Seq<CascadeEntryView>) -> Seq<Seq<char>>
    decreases cascade.len(),
{
    if cascade.len() == 0 {
        Seq::empty()
    } else {
        cascade_lines(cascade.drop_last()) + entry_lines(cascade.len(), cascade.last())
    }
}

/// The lines of a rebuild story: the culprit, then the cascade. None where there is no story.
pub open spec fn story_lines(story: Option<AnalysisView>) -> Seq<Seq<char>> {
    match story {
        Some(story) => seq![work_line("culprit"@, story.culprit)] + cascade_lines(story.cascade),
        None => Seq::empty(),
    }
}

/// Appends the lines of one crate of the cascade.
fn add_entry_lines(lines: &mut Vec<String>, number: usize, entry: &CascadeEntry)
    ensures
        text::views(final(lines)@) == text::views(old(lines)@) + entry_lines(
            number as nat,
            entry@,
        ),
{
    let ghost before = text::views(lines@);
    add_line(
        lines,
        with_space(
            dimmed(index_text(number).as_str()).as_str(),
            work_started_line(entry.kind.verb(), entry.crate_id.as_str()).as_str(),
        ),
    );
    if let Some(caused_by) = &entry.caused_by {
        add_line(lines, labelled_line("caused by:", caused_by.as_str()));
    }
    if let Some(reason) = &entry.reason {
        add_line(lines, labelled_line("reason:", reason.as_str()));
    }
    let ghost head = text::views(lines@);
    let ghost details = entry@.details;
    assert(head =~= head + detail_lines(details.take(0)));
    let mut i: usize = 0;
    while i < entry.details.len()
        invariant
            i <= entry.details@.len(),
            details == text::views(entry.details@),
            text::views(lines@) == head + detail_lines(details.take(i as int)),
        decreases entry.details@.len() - i,
    {
        assert(details[i as int] == entry.details@[i as int]@);
        add_line(lines, labelled_line("detail:", entry.details[i].as_str()));
        i = i + 1;
        assert(text::views(lines@) =~= head + detail_lines(details.take(i as int)));
    }
    assert(details.take(i as int) =~= details);
    assert(text::views(lines@) =~= before + entry_lines(number as nat, entry@));
}

/// Renders the crate blamed for the rebuild and the cascade that followed from it. Renders
/// nothing when the build did no work.
pub fn explain_lines(log: &BuildLog) -> (lines: Vec<String>)
    requires
        log.wf(),
    ensures
        text::views(lines@) == story_lines(explain::analysis(log@)),
{
    let mut lines: Vec<String> = Vec::new();
    assert(text::views(lines@) =~= Seq::empty());
    let story = match explain::analyze(log) {
        Some(story) => story,
        None => {
            return lines;
        },
    };
    let ghost cascade = story@.cascade;
    add_line(&mut lines, work_started_line("culprit", story.culprit.as_str()));
    let ghost head = text::views(lines@);
    assert(head =~= head + cascade_lines(cascade.take(0)));
    let mut i: usize = 0;
    while i < story.cascade.len()
        invariant
            i <= story.cascade@.len(),
            cascade == text::views(story.cascade@),
            text::views(lines@) == head + cascade_lines(cascade.take(i as int)),
        decreases story.cascade@.len() - i,
    {
        assert(cascade[i as int] == story.cascade@[i as int]@);
        assert(cascade.take(i + 1).drop_last() =~= cascade.take(i as int));
        add_entry_lines(&mut lines, i + 1, &story.cascade[i]);
        i = i + 1;
        assert(text::views(lines@) =~= head + cascade_lines(cascade.take(i as int)));
    }
    assert(cascade.take(i as int) =~= cascade);
    assert(text::views(lines@) =~= story_lines(explain::analysis(log@)));
    lines
}

/// What is told on stdout once cargo is done: the rebuild story if the user asked for it, then
/// the summary.
pub open spec fn closing(
    log: BuildLogView,
    tell_story: bool,
    success: bool,
    seconds: Seq<char>,
) -> Seq<Seq<char>> {
    let story = if tell_story {
        story_lines(explain::analysis(log))
    } else {
        Seq::empty()
    };
    story.push(
        summary(
            success,
            seconds,
            build_log::fresh_units(log.statuses).len(),
            build_log::dirty_units(log.statuses).len(),
            build_log::work_units(log.statuses).len(),
        ),
    )
}

/// Renders what is told on stdout once cargo is done.
pub fn closing_lines(
    log: &BuildLog,
    tell_story: bool,
    success: bool,
    seconds: &str,
) -> (lines: Vec<String>)
    requires
        log.wf(),
    ensures
        text::views(lines@) == closing(log@, tell_story, success, seconds@),
{
    let mut lines: Vec<String> = if tell_story {
        explain_lines(log)
    } else {
        Vec::new()
    };
    assert(!tell_story ==> text::views(lines@) =~= Seq::empty());
    add_line(&mut lines, summary_line(success, seconds, log.counts()));
    lines
}

} // verus!
