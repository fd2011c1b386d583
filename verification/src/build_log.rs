//! The record of a single cargo run.
//!
//! [`BuildLog`] is both the streaming tracker and the accumulator: it decides what to show while
//! the build runs and keeps everything [`crate::explain`] and [`crate::report`] need afterwards.
//! Holding both in one place is what guarantees each stderr line is classified exactly once.

use vstd::hash_set::StringHashSet;
use vstd::prelude::*;

use crate::ordered;
use crate::ordered::OrderedMap;
use crate::parse;
use crate::parse::{
    CrateId, CrateStatus, CrateStatusView, StatusKind, StatusKindView, StderrLine, StderrLineView,
    WorkKind, classify,
};
use crate::raw_line;
use crate::text;

verus! {

/// How many distinct crates fell into each bucket.
///
/// The buckets overlap and need not agree: cargo can declare a unit `Dirty` and then report no
/// work for it, so `dirty` is routinely larger than `work`.
#[derive(Debug, Clone, Copy, PartialEq, Eq, Structural)]
pub struct Counts {
    /// Crates cargo reported as up to date.
    pub fresh: usize,
    /// Crates cargo reported as invalidated, whether or not work followed.
    pub dirty: usize,
    /// Crates cargo actually compiled, checked, or built.
    pub work: usize,
}

impl Default for Counts {
    fn default() -> (counts: Self)
        ensures
            counts == (Counts { fresh: 0, dirty: 0, work: 0 }),
    {
        Counts { fresh: 0, dirty: 0, work: 0 }
    }
}

/// Something worth showing the user as the build unfolds.
///
/// Each event fires at most once per crate, on its first sighting.
#[allow(inconsistent_fields)]
#[derive(Debug, PartialEq, Eq)]
pub enum DisplayEvent {
    /// A crate cargo skipped as up to date.
    Fresh { id: CrateId },
    /// A crate cargo started working on. `reason` is present when cargo had already explained
    /// the invalidation by then.
    WorkStarted { kind: WorkKind, id: CrateId, reason: Option<String> },
    /// A reason cargo reported only after the crate's work had already been announced, which is
    /// routine with parallel jobs.
    LateReason { id: CrateId, reason: String },
}

/// A [`DisplayEvent`] with its text as sequences of characters.
#[allow(inconsistent_fields)]
pub enum DisplayEventView {
    Fresh { id: Seq<char> },
    WorkStarted { kind: WorkKind, id: Seq<char>, reason: Option<Seq<char>> },
    LateReason { id: Seq<char>, reason: Seq<char> },
}

impl View for DisplayEvent {
    type V = DisplayEventView;

    open spec fn view(&self) -> DisplayEventView {
        match self {
            DisplayEvent::Fresh { id } => DisplayEventView::Fresh { id: id@ },
            DisplayEvent::WorkStarted { kind, id, reason } => DisplayEventView::WorkStarted {
                kind: *kind,
                id: id@,
                reason: text::opt_view(*reason),
            },
            DisplayEvent::LateReason { id, reason } => DisplayEventView::LateReason {
                id: id@,
                reason: reason@,
            },
        }
    }
}

impl Clone for DisplayEvent {
    fn clone(&self) -> (copy: Self)
        ensures
            copy@ == self@,
    {
        match self {
            DisplayEvent::Fresh { id } => DisplayEvent::Fresh { id: id.clone() },
            DisplayEvent::WorkStarted { kind, id, reason } => DisplayEvent::WorkStarted {
                kind: *kind,
                id: id.clone(),
                reason: text::copy_of(reason),
            },
            DisplayEvent::LateReason { id, reason } => DisplayEvent::LateReason {
                id: id.clone(),
                reason: reason.clone(),
            },
        }
    }
}

/// Whether a status line said that a unit was up to date.
pub open spec fn said_fresh(statuses: Seq<CrateStatusView>, id: Seq<char>) -> bool {
    exists|i: int| 0 <= i < statuses.len() && #[trigger] statuses[i].id == id && statuses[i].kind is Fresh
}

/// Whether a status line said that a unit was invalidated.
pub open spec fn said_dirty(statuses: Seq<CrateStatusView>, id: Seq<char>) -> bool {
    exists|i: int| 0 <= i < statuses.len() && #[trigger] statuses[i].id == id && statuses[i].kind is Dirty
}

/// Whether a status line said that cargo worked on a unit.
pub open spec fn said_work(statuses: Seq<CrateStatusView>, id: Seq<char>) -> bool {
    exists|i: int| 0 <= i < statuses.len() && #[trigger] statuses[i].id == id && statuses[i].kind is Work
}

/// The units reported as up to date.
pub open spec fn fresh_units(statuses: Seq<CrateStatusView>) -> Set<Seq<char>> {
    Set::new(|id: Seq<char>| said_fresh(statuses, id))
}

/// The units reported as invalidated.
pub open spec fn dirty_units(statuses: Seq<CrateStatusView>) -> Set<Seq<char>> {
    Set::new(|id: Seq<char>| said_dirty(statuses, id))
}

/// The units reported as worked on.
pub open spec fn work_units(statuses: Seq<CrateStatusView>) -> Set<Seq<char>> {
    Set::new(|id: Seq<char>| said_work(statuses, id))
}

/// The reason in the first `Dirty` line of a unit.
pub open spec fn first_reason(statuses: Seq<CrateStatusView>, id: Seq<char>) -> Option<Seq<char>>
    decreases statuses.len(),
{
    if statuses.len() == 0 {
        None
    } else {
        match first_reason(statuses.drop_last(), id) {
            Some(reason) => Some(reason),
            None => match statuses.last().kind {
                StatusKindView::Dirty { reason } if statuses.last().id == id => Some(reason),
                _ => None,
            },
        }
    }
}

/// The first reason of every unit that has one.
pub open spec fn first_reasons(statuses: Seq<CrateStatusView>) -> Map<Seq<char>, Seq<char>> {
    Map::new(
        |id: Seq<char>| first_reason(statuses, id) is Some,
        |id: Seq<char>| first_reason(statuses, id)->0,
    )
}

/// What a status is worth showing for, given the statuses before it: the first `Fresh` of a
/// unit, the first work on a unit with the reason known by then, and the first reason of a unit
/// that is already being worked on.
pub open spec fn events_for(before: Seq<CrateStatusView>, status: CrateStatusView) -> Seq<
    DisplayEventView,
> {
    let id = status.id;
    match status.kind {
        StatusKindView::Fresh => if said_fresh(before, id) {
            Seq::empty()
        } else {
            seq![DisplayEventView::Fresh { id }]
        },
        StatusKindView::Dirty { reason } => if first_reason(before, id) is None && said_work(
            before,
            id,
        ) {
            seq![DisplayEventView::LateReason { id, reason }]
        } else {
            Seq::empty()
        },
        StatusKindView::Work(kind) => if said_work(before, id) {
            Seq::empty()
        } else {
            seq![DisplayEventView::WorkStarted { kind, id, reason: first_reason(before, id) }]
        },
    }
}

/// What a [`BuildLog`] has recorded.
#[verifier::ext_equal]
pub struct BuildLogView {
    /// The status lines, in the order in which they came.
    pub statuses: Seq<CrateStatusView>,
    /// The lines of the fingerprint trace.
    pub fingerprint_lines: Seq<Seq<char>>,
    /// Every other line.
    pub other_stderr: Seq<Seq<char>>,
}

impl BuildLogView {
    /// Nothing recorded yet.
    pub open spec fn nothing() -> BuildLogView {
        BuildLogView {
            statuses: Seq::empty(),
            fingerprint_lines: Seq::empty(),
            other_stderr: Seq::empty(),
        }
    }

    /// The record after one more line.
    pub open spec fn with_line(self, line: Seq<char>) -> BuildLogView {
        match parse::classified(line) {
            StderrLineView::Status(status) => BuildLogView {
                statuses: self.statuses.push(status),
                ..self
            },
            StderrLineView::FingerprintTrace(line) => BuildLogView {
                fingerprint_lines: self.fingerprint_lines.push(line),
                ..self
            },
            StderrLineView::Other(line) => BuildLogView {
                other_stderr: self.other_stderr.push(line),
                ..self
            },
        }
    }

    /// What one more line is worth showing for.
    pub open spec fn events_of(self, line: Seq<char>) -> Seq<DisplayEventView> {
        match parse::classified(line) {
            StderrLineView::Status(status) => events_for(self.statuses, status),
            _ => Seq::empty(),
        }
    }
}

/// The single record of a cargo run; see the module docs for why it is one type.
pub struct BuildLog {
    fresh: StringHashSet,
    dirty: StringHashSet,
    work: StringHashSet,
    started: StringHashSet,
    reason_emitted: StringHashSet,
    reasons: OrderedMap<CrateId, String>,
    statuses: Vec<CrateStatus>,
    fingerprint_lines: Vec<String>,
    other_stderr: Vec<String>,
}

impl View for BuildLog {
    type V = BuildLogView;

    closed spec fn view(&self) -> BuildLogView {
        BuildLogView {
            statuses: text::views(self.statuses@),
            fingerprint_lines: text::views(self.fingerprint_lines@),
            other_stderr: text::views(self.other_stderr@),
        }
    }
}

impl Default for BuildLog {
    fn default() -> (log: Self)
        ensures
            log.wf(),
            log@ == BuildLogView::nothing(),
    {
        BuildLog::new()
    }
}

impl BuildLog {
    /// Whether the tallies agree with the status lines: each set holds the units of its kind of
    /// status, a unit is started once it is worked on, a reason is held for each invalidated unit
    /// and is the first one given, and a reason has been shown for each unit that is both started
    /// and explained.
    pub closed spec fn wf(&self) -> bool {
        let statuses = self@.statuses;
        &&& self.fresh@ == fresh_units(statuses)
        &&& self.dirty@ == dirty_units(statuses)
        &&& self.work@ == work_units(statuses)
        &&& self.started@ == work_units(statuses)
        &&& self.reason_emitted@ == work_units(statuses).intersect(dirty_units(statuses))
        &&& ordered::value_views(self.reasons@) == first_reasons(statuses)
    }

    /// An empty record.
    pub fn new() -> (log: Self)
        ensures
            log.wf(),
            log@ == BuildLogView::nothing(),
    {
        let log = BuildLog {
            fresh: StringHashSet::new(),
            dirty: StringHashSet::new(),
            work: StringHashSet::new(),
            started: StringHashSet::new(),
            reason_emitted: StringHashSet::new(),
            reasons: OrderedMap::new(),
            statuses: Vec::new(),
            fingerprint_lines: Vec::new(),
            other_stderr: Vec::new(),
        };
        proof {
            let none = log@.statuses;
            assert(none =~= Seq::empty());
            assert(log.fresh@ =~= fresh_units(none));
            assert(log.dirty@ =~= dirty_units(none));
            assert(log.work@ =~= work_units(none));
            assert(log.reason_emitted@ =~= work_units(none).intersect(dirty_units(none)));
            assert(ordered::value_views(log.reasons@) =~= first_reasons(none));
            assert(log@ =~= BuildLogView::nothing());
        }
        log
    }

    /// Records one raw line of cargo's stderr and reports what it means for the live display.
    pub fn ingest_line(&mut self, line: &str) -> (events: Vec<DisplayEvent>)
        requires
            old(self).wf(),
        ensures
            final(self).wf(),
            final(self)@ == old(self)@.with_line(line@),
            text::views(events@) == old(self)@.events_of(line@),
    {
        let mut out: Vec<DisplayEvent> = Vec::new();
        let ghost before = *self;
        let status = match classify(line) {
            StderrLine::Status(status) => status,
            StderrLine::FingerprintTrace(line) => {
                self.fingerprint_lines.push(line);
                proof {
                    assert(self@.fingerprint_lines =~= before@.fingerprint_lines.push(line@));
                    assert(text::views(out@) =~= Seq::empty());
                }
                return out;
            },
            StderrLine::Other(line) => {
                self.other_stderr.push(line);
                proof {
                    assert(self@.other_stderr =~= before@.other_stderr.push(line@));
                    assert(text::views(out@) =~= Seq::empty());
                }
                return out;
            },
        };
        proof {
            lemma_one_more_status(before@.statuses, status@);
            assert forall|id: Seq<char>| #[trigger] before.reasons@.dom().contains(id) == (
            first_reason(before@.statuses, id) is Some) by {
                assert(ordered::value_views(before.reasons@).dom().contains(id)
                    == before.reasons@.dom().contains(id));
                assert(first_reasons(before@.statuses).dom().contains(id) == (first_reason(
                    before@.statuses,
                    id,
                ) is Some));
            }
            assert forall|id: Seq<char>| #[trigger]
                before.reasons@.dom().contains(id) implies before.reasons@[id]@ == first_reason(
                before@.statuses,
                id,
            )->0 by {
                assert(ordered::value_views(before.reasons@)[id] == first_reasons(before@.statuses)[id]);
            }
        }
        match &status.kind {
            StatusKind::Fresh => {
                if self.fresh.insert(status.id.as_str().to_owned()) {
                    out.push(DisplayEvent::Fresh { id: status.id.clone() });
                }
            },
            StatusKind::Dirty { reason } => {
                self.dirty.insert(status.id.as_str().to_owned());
                // Cargo can report a unit dirty more than once; the first reason is the one
                // that explains the rebuild.
                if !self.reasons.contains_key(&status.id) {
                    self.reasons.insert(status.id.clone(), reason.clone());
                    if self.started.contains(status.id.as_str()) && self.reason_emitted.insert(
                        status.id.as_str().to_owned(),
                    ) {
                        out.push(
                            DisplayEvent::LateReason {
                                id: status.id.clone(),
                                reason: reason.clone(),
                            },
                        );
                    }
                }
            },
            StatusKind::Work(kind) => {
                self.work.insert(status.id.as_str().to_owned());
                if self.started.insert(status.id.as_str().to_owned()) {
                    let reason = match self.reasons.get(&status.id) {
                        Some(reason) => Some(reason.clone()),
                        None => None,
                    };
                    if reason.is_some() {
                        self.reason_emitted.insert(status.id.as_str().to_owned());
                    }
                    out.push(
                        DisplayEvent::WorkStarted { kind: *kind, id: status.id.clone(), reason },
                    );
                }
            },
        }
        let ghost status_view = status@;
        self.statuses.push(status);
        proof {
            let statuses = self@.statuses;
            assert(statuses =~= before@.statuses.push(status_view));
            assert(self.fresh@ =~= fresh_units(statuses));
            assert(self.dirty@ =~= dirty_units(statuses));
            assert(self.work@ =~= work_units(statuses));
            assert(self.started@ =~= work_units(statuses));
            assert(self.reason_emitted@ =~= work_units(statuses).intersect(dirty_units(statuses)));
            assert forall|id: Seq<char>| #[trigger] self.reasons@.dom().contains(id) == (
            first_reason(statuses, id) is Some) by {
                assert(before.reasons@.dom().contains(id) == (first_reason(before@.statuses, id)
                    is Some));
            }
            assert(ordered::value_views(self.reasons@) =~= first_reasons(statuses));
            assert(text::views(out@) =~= events_for(before@.statuses, status_view));
        }
        out
    }

    /// Records one line of cargo's stderr as it came off the pipe, and reports what it means for
    /// the live display.
    pub fn ingest_raw_line(&mut self, raw: &[u8]) -> (events: Vec<DisplayEvent>)
        requires
            old(self).wf(),
        ensures
            final(self).wf(),
            final(self)@ == old(self)@.with_line(raw_line::line_text(raw@)),
            text::views(events@) == old(self)@.events_of(raw_line::line_text(raw@)),
    {
        let line = raw_line::decode_line(raw);
        self.ingest_line(line.as_str())
    }

    /// How many distinct crates fell into each bucket so far.
    pub fn counts(&self) -> (counts: Counts)
        requires
            self.wf(),
        ensures
            counts.fresh == fresh_units(self@.statuses).len(),
            counts.dirty == dirty_units(self@.statuses).len(),
            counts.work == work_units(self@.statuses).len(),
    {
        Counts { fresh: self.fresh.len(), dirty: self.dirty.len(), work: self.work.len() }
    }

    /// Why each invalidated crate was invalidated, keyed by crate and holding the *first* reason
    /// cargo gave: the one that explains the rebuild rather than a later consequence of it.
    pub fn reasons(&self) -> (reasons: &OrderedMap<CrateId, String>)
        requires
            self.wf(),
        ensures
            ordered::value_views(reasons@) == first_reasons(self@.statuses),
    {
        &self.reasons
    }

    /// Every status line seen, in the order cargo emitted them.
    pub fn statuses(&self) -> (statuses: &[CrateStatus])
        ensures
            text::views(statuses@) == self@.statuses,
    {
        self.statuses.as_slice()
    }

    /// The fingerprint trace lines, empty unless `--deep` was passed.
    pub fn fingerprint_lines(&self) -> (lines: &[String])
        ensures
            text::views(lines@) == self@.fingerprint_lines,
    {
        self.fingerprint_lines.as_slice()
    }

    /// Cargo's stderr lines that carried no crate status, kept verbatim with their
    /// indentation so a failing build can be reported in cargo's own words.
    pub fn other_stderr(&self) -> (lines: &[String])
        ensures
            text::views(lines@) == self@.other_stderr,
    {
        self.other_stderr.as_slice()
    }
}

/// What one more status adds to the tallies.
pub proof fn lemma_one_more_status(before: Seq<CrateStatusView>, status: CrateStatusView)
    ensures
        forall|id: Seq<char>|
            #![trigger said_fresh(before.push(status), id)]
            said_fresh(before.push(status), id) == (said_fresh(before, id) || (status.id == id
                && status.kind is Fresh)),
        forall|id: Seq<char>|
            #![trigger said_dirty(before.push(status), id)]
            said_dirty(before.push(status), id) == (said_dirty(before, id) || (status.id == id
                && status.kind is Dirty)),
        forall|id: Seq<char>|
            #![trigger said_work(before.push(status), id)]
            said_work(before.push(status), id) == (said_work(before, id) || (status.id == id
                && status.kind is Work)),
        forall|id: Seq<char>|
            #![trigger first_reason(before.push(status), id)]
            first_reason(before.push(status), id) == match first_reason(before, id) {
                Some(reason) => Some(reason),
                None => match status.kind {
                    StatusKindView::Dirty { reason } if status.id == id => Some(reason),
                    _ => None,
                },
            },
        forall|id: Seq<char>| said_dirty(before, id) == (#[trigger] first_reason(before, id) is Some),
{
    let after = before.push(status);
    assert(after.drop_last() =~= before);
    assert forall|id: Seq<char>| true implies {
        &&& #[trigger] said_fresh(before, id) ==> said_fresh(after, id)
        &&& said_dirty(before, id) ==> said_dirty(after, id)
        &&& said_work(before, id) ==> said_work(after, id)
    } by {
        assert forall|i: int| 0 <= i < before.len() implies after[i] == before[i] by {}
    }
    assert(after[before.len() as int] == status);
    assert forall|id: Seq<char>| said_dirty(before, id) == (#[trigger] first_reason(before, id)
        is Some) by {
        lemma_reason_iff_dirty(before, id);
    }
}

/// A unit has a reason exactly if a status line said that it was invalidated.
pub proof fn lemma_reason_iff_dirty(statuses: Seq<CrateStatusView>, id: Seq<char>)
    ensures
        said_dirty(statuses, id) == (first_reason(statuses, id) is Some),
    decreases statuses.len(),
{
    if statuses.len() > 0 {
        let before = statuses.drop_last();
        lemma_reason_iff_dirty(before, id);
        if said_dirty(statuses, id) {
            let i = choose|i: int|
                0 <= i < statuses.len() && #[trigger] statuses[i].id == id
                    && statuses[i].kind is Dirty;
            if i < before.len() {
                assert(before[i].id == id);
            }
        }
        if said_dirty(before, id) {
            let i = choose|i: int|
                0 <= i < before.len() && #[trigger] before[i].id == id && before[i].kind is Dirty;
            assert(statuses[i].id == id);
        }
        if statuses.last().id == id {
            assert(statuses[before.len() as int].id == id);
        }
    }
}

} // verus!
