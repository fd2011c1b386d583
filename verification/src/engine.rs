//! A running tally of cargo's status lines, without the record of them.
//!
//! [`Engine`] follows a build as [`crate::build_log::BuildLog`] does, but keeps only what the
//! live display needs: which units were fresh, dirty and worked on, and the first reason of each
//! dirty one.

use vstd::hash_set::StringHashSet;
use vstd::prelude::*;

use crate::ordered;
use crate::ordered::OrderedMap;
use crate::parse::stderr_verbose;
use crate::parse::{CrateStatusEventView, CrateStatusKind, parse_status_line};
use crate::text;

verus! {

/// How many distinct units fell into each bucket.
#[derive(Debug, Clone, Copy, PartialEq, Eq, Structural)]
pub struct Counts {
    pub fresh: usize,
    pub dirty: usize,
    pub work: usize,
}

impl Default for Counts {
    fn default() -> (counts: Self)
        ensures
            counts == (Counts { fresh: 0, dirty: 0, work: 0 }),
    {
        Counts { fresh: 0, dirty: 0, work: 0 }
    }
}

/// Something worth showing the user as the build unfolds.
#[allow(inconsistent_fields)]
#[derive(Debug, PartialEq, Eq)]
pub enum Event {
    /// Work on a unit has begun, with the reason known by then.
    WorkStarted { kind: CrateStatusKind, crate_id: String, reason: Option<String> },
    /// The reason of a unit came after its work had begun.
    WorkReason { crate_id: String, reason: String },
}

/// An [`Event`] with its text as sequences of characters.
#[allow(inconsistent_fields)]
pub enum EventView {
    WorkStarted { kind: CrateStatusKind, crate_id: Seq<char>, reason: Option<Seq<char>> },
    WorkReason { crate_id: Seq<char>, reason: Seq<char> },
}

impl View for Event {
    type V = EventView;

    open spec fn view(&self) -> EventView {
        match self {
            Event::WorkStarted { kind, crate_id, reason } => EventView::WorkStarted {
                kind: *kind,
                crate_id: crate_id@,
                reason: text::opt_view(*reason),
            },
            Event::WorkReason { crate_id, reason } => EventView::WorkReason {
                crate_id: crate_id@,
                reason: reason@,
            },
        }
    }
}

impl Clone for Event {
    fn clone(&self) -> (copy: Self)
        ensures
            copy@ == self@,
    {
        match self {
            Event::WorkStarted { kind, crate_id, reason } => Event::WorkStarted {
                kind: *kind,
                crate_id: crate_id.clone(),
                reason: text::copy_of(reason),
            },
            Event::WorkReason { crate_id, reason } => Event::WorkReason {
                crate_id: crate_id.clone(),
                reason: reason.clone(),
            },
        }
    }
}

/// What an [`Engine`] has tallied.
#[verifier::ext_equal]
pub struct EngineView {
    /// The units reported as up to date.
    pub fresh: Set<Seq<char>>,
    /// The units reported as invalidated.
    pub dirty: Set<Seq<char>>,
    /// The units reported as worked on.
    pub work: Set<Seq<char>>,
    /// The first reason of every invalidated unit.
    pub reasons: Map<Seq<char>, Seq<char>>,
}

/// What a line says of a unit. Lines about the build as a whole name none: what stands for its
/// id is in angle brackets.
pub open spec fn unit_event(line: Seq<char>) -> Option<CrateStatusEventView> {
    match stderr_verbose::event_of(text::trimmed_start(line)) {
        Some(event) if !text::begins_with(event.crate_id, "<"@) => Some(event),
        _ => None,
    }
}

/// Whether a status says that cargo works on the unit.
pub open spec fn is_work(kind: CrateStatusKind) -> bool {
    kind is Compiling || kind is Checking || kind is Building
}

impl EngineView {
    /// Nothing tallied yet.
    pub open spec fn nothing() -> EngineView {
        EngineView {
            fresh: Set::empty(),
            dirty: Set::empty(),
            work: Set::empty(),
            reasons: Map::empty(),
        }
    }

    /// The first reason known for a unit.
    pub open spec fn reason_of(self, id: Seq<char>) -> Option<Seq<char>> {
        if self.reasons.contains_key(id) {
            Some(self.reasons[id])
        } else {
            None
        }
    }

    /// The tally after one more status.
    pub open spec fn with_event(self, event: CrateStatusEventView) -> EngineView {
        let id = event.crate_id;
        if event.kind is Fresh {
            EngineView { fresh: self.fresh.insert(id), ..self }
        } else if event.kind is Dirty {
            EngineView {
                dirty: self.dirty.insert(id),
                reasons: match event.reason {
                    Some(reason) if !self.reasons.contains_key(id) => self.reasons.insert(
                        id,
                        reason,
                    ),
                    _ => self.reasons,
                },
                ..self
            }
        } else if is_work(event.kind) {
            EngineView { work: self.work.insert(id), ..self }
        } else {
            self
        }
    }

    /// What one more status is worth showing for: the first work on a unit, with the reason known
    /// by then, and the first reason of a unit that is already being worked on.
    pub open spec fn events_for(self, event: CrateStatusEventView) -> Seq<EventView> {
        let id = event.crate_id;
        if event.kind is Dirty {
            match event.reason {
                Some(reason) if !self.reasons.contains_key(id) && self.work.contains(id) => seq![
                    EventView::WorkReason { crate_id: id, reason },
                ],
                _ => Seq::empty(),
            }
        } else if is_work(event.kind) && !self.work.contains(id) {
            seq![
                EventView::WorkStarted {
                    kind: event.kind,
                    crate_id: id,
                    reason: self.reason_of(id),
                },
            ]
        } else {
            Seq::empty()
        }
    }

    /// The tally after one more line.
    pub open spec fn with_line(self, line: Seq<char>) -> EngineView {
        match unit_event(line) {
            Some(event) => self.with_event(event),
            None => self,
        }
    }

    /// What one more line is worth showing for.
    pub open spec fn events_of(self, line: Seq<char>) -> Seq<EventView> {
        match unit_event(line) {
            Some(event) => self.events_for(event),
            None => Seq::empty(),
        }
    }
}

/// The running tally.
pub struct Engine {
    fresh: StringHashSet,
    dirty: StringHashSet,
    work: StringHashSet,
    started: StringHashSet,
    reason_emitted: StringHashSet,
    reasons: OrderedMap<String, String>,
}

impl View for Engine {
    type V = EngineView;

    closed spec fn view(&self) -> EngineView {
        EngineView {
            fresh: self.fresh@,
            dirty: self.dirty@,
            work: self.work@,
            reasons: ordered::value_views(self.reasons@),
        }
    }
}

impl Default for Engine {
    fn default() -> (engine: Self)
        ensures
            engine.wf(),
            engine@ == EngineView::nothing(),
    {
        Engine::new()
    }
}

impl Engine {
    /// Whether the tallies agree: a unit is started once it is worked on, and a reason has been
    /// shown for each unit that is both started and explained.
    pub closed spec fn wf(&self) -> bool {
        &&& self.started@ == self.work@
        &&& self.reason_emitted@ == self.work@.intersect(self.reasons@.dom())
    }

    /// An empty tally.
    pub fn new() -> (engine: Self)
        ensures
            engine.wf(),
            engine@ == EngineView::nothing(),
    {
        let engine = Engine {
            fresh: StringHashSet::new(),
            dirty: StringHashSet::new(),
            work: StringHashSet::new(),
            started: StringHashSet::new(),
            reason_emitted: StringHashSet::new(),
            reasons: OrderedMap::new(),
        };
        proof {
            assert(engine.reason_emitted@ =~= engine.work@.intersect(engine.reasons@.dom()));
            assert(engine@ =~= EngineView::nothing());
        }
        engine
    }

    /// How many distinct units fell into each bucket so far.
    pub fn counts(&self) -> (counts: Counts)
        ensures
            counts.fresh == self@.fresh.len(),
            counts.dirty == self@.dirty.len(),
            counts.work == self@.work.len(),
    {
        Counts { fresh: self.fresh.len(), dirty: self.dirty.len(), work: self.work.len() }
    }

    /// Tallies one raw line of cargo's stderr and reports what it means for the live display.
    pub fn ingest_stderr_line(&mut self, line: &str) -> (events: Vec<Event>)
        requires
            old(self).wf(),
        ensures
            final(self).wf(),
            final(self)@ == old(self)@.with_line(line@),
            text::views(events@) == old(self)@.events_of(line@),
    {
        let mut out: Vec<Event> = Vec::new();
        assert(text::views(out@) =~= Seq::empty());
        let event = match parse_status_line(text::trim_start(line)) {
            Some(event) => event,
            None => {
                return out;
            },
        };
        if text::starts_with(event.crate_id.as_str(), "<") {
            return out;
        }
        let ghost before = *self;
        let ghost read = event@;
        let id = event.crate_id;
        assert(before@.reasons.contains_key(id@) == before.reasons@.contains_key(id@));
        match event.kind {
            CrateStatusKind::Fresh => {
                self.fresh.insert(id);
            },
            CrateStatusKind::Dirty => {
                self.dirty.insert(id.clone());
                if let Some(reason) = event.reason {
                    if !self.reasons.contains_key(&id) {
                        self.reasons.insert(id.clone(), reason.clone());
                        if self.started.contains(id.as_str()) && self.reason_emitted.insert(
                            id.clone(),
                        ) {
                            out.push(Event::WorkReason { crate_id: id, reason });
                        }
                    }
                }
            },
            CrateStatusKind::Compiling | CrateStatusKind::Checking | CrateStatusKind::Building => {
                self.work.insert(id.clone());
                if self.started.insert(id.clone()) {
                    let reason = match self.reasons.get(&id) {
                        Some(reason) => Some(reason.clone()),
                        None => None,
                    };
                    if reason.is_some() {
                        self.reason_emitted.insert(id.clone());
                    }
                    out.push(Event::WorkStarted { kind: event.kind, crate_id: id, reason });
                }
            },
            _ => {},
        }
        proof {
            assert(self.started@ =~= self.work@);
            assert(self.reason_emitted@ =~= self.work@.intersect(self.reasons@.dom()));
            assert(self@ =~= before@.with_event(read));
            assert(text::views(out@) =~= before@.events_for(read));
        }
        out
    }
}

} // verus!
