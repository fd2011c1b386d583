//! Cargo's verbose status lines, one pattern per verb.

use vstd::prelude::*;

use super::pattern;
use super::pattern::{
    BUILDING_PATTERN, CHECKING_PATTERN, COMPILING_PATTERN, DIRTY_PATTERN, FRESH_PATTERN,
    RUNNING_PATTERN,
};
use crate::text;

verus! {

/// What becomes of a line of stderr.
#[derive(Debug, Clone, Copy, PartialEq, Eq, Structural)]
pub enum StderrLineDisposition {
    /// The line is passed on to the terminal.
    Forward,
    /// The line is kept from the terminal.
    Suppress,
}

/// What a status line says of a unit, or of the build.
#[derive(Debug, Clone, Copy, PartialEq, Eq, Structural)]
pub enum CrateStatusKind {
    Fresh,
    Dirty,
    Compiling,
    Checking,
    Building,
    Running,
    Finished,
}

/// One status line.
#[derive(Debug, PartialEq, Eq)]
pub struct CrateStatusEvent {
    pub kind: CrateStatusKind,
    /// The `name vX.Y.Z` id of the unit, or a name in angle brackets where the line is not about
    /// a unit.
    pub crate_id: String,
    /// Why the unit is dirty, or the whole line where it is not about a unit.
    pub reason: Option<String>,
}

/// A [`CrateStatusEvent`] with its text as sequences of characters.
pub struct CrateStatusEventView {
    pub kind: CrateStatusKind,
    pub crate_id: Seq<char>,
    pub reason: Option<Seq<char>>,
}

impl View for CrateStatusEvent {
    type V = CrateStatusEventView;

    open spec fn view(&self) -> CrateStatusEventView {
        CrateStatusEventView {
            kind: self.kind,
            crate_id: self.crate_id@,
            reason: text::opt_view(self.reason),
        }
    }
}

impl Clone for CrateStatusEvent {
    fn clone(&self) -> (copy: Self)
        ensures
            copy@ == self@,
    {
        CrateStatusEvent {
            kind: self.kind,
            crate_id: self.crate_id.clone(),
            reason: text::copy_of(&self.reason),
        }
    }
}

/// The unit that a line names under a pattern.
pub open spec fn unit_under(pattern: Seq<char>, line: Seq<char>) -> Option<Seq<char>> {
    match pattern::line_split(pattern, line) {
        Some(split) => Some(split.id),
        None => None,
    }
}

/// The event of a unit without a reason.
pub open spec fn plain_event(kind: CrateStatusKind, id: Seq<char>) -> CrateStatusEventView {
    CrateStatusEventView { kind, crate_id: id, reason: None }
}

/// What a line says, once its indentation is gone: the first pattern that it matches decides.
pub open spec fn event_of(line: Seq<char>) -> Option<CrateStatusEventView> {
    if let Some(id) = unit_under(FRESH_PATTERN@, line) {
        Some(plain_event(CrateStatusKind::Fresh, id))
    } else if let Some(split) = pattern::line_split(DIRTY_PATTERN@, line) {
        Some(
            CrateStatusEventView {
                kind: CrateStatusKind::Dirty,
                crate_id: split.id,
                reason: Some(split.reason.unwrap().1),
            },
        )
    } else if let Some(id) = unit_under(COMPILING_PATTERN@, line) {
        Some(plain_event(CrateStatusKind::Compiling, id))
    } else if let Some(id) = unit_under(CHECKING_PATTERN@, line) {
        Some(plain_event(CrateStatusKind::Checking, id))
    } else if let Some(id) = unit_under(BUILDING_PATTERN@, line) {
        Some(plain_event(CrateStatusKind::Building, id))
    } else if pattern::running_rest(line) is Some {
        Some(
            CrateStatusEventView {
                kind: CrateStatusKind::Running,
                crate_id: "<running>"@,
                reason: Some(line),
            },
        )
    } else if text::begins_with(line, "Finished"@) {
        Some(
            CrateStatusEventView {
                kind: CrateStatusKind::Finished,
                crate_id: "<finished>"@,
                reason: Some(line),
            },
        )
    } else {
        None
    }
}

/// An event by its view.
pub open spec fn event_view(event: Option<CrateStatusEvent>) -> Option<CrateStatusEventView> {
    match event {
        Some(event) => Some(event@),
        None => None,
    }
}

/// Reads the unit that a line names under one of the patterns that capture nothing else.
fn unit_named(pattern: &str, line: &str) -> (id: Option<String>)
    requires
        pattern::is_id_pattern(pattern@),
    ensures
        text::opt_view(id) == unit_under(pattern@, line@),
{
    proof {
        pattern::lemma_patterns_differ();
    }
    match pattern::captures(pattern, line) {
        Some(mut groups) => {
            let ghost captured = groups@.map_values(|group: Option<String>| text::opt_view(group));
            assert(captured.len() == groups@.len());
            assert(captured[1] == text::opt_view(groups@[1]));
            groups.pop().unwrap()
        },
        None => None,
    }
}

/// Reads the unit and the reason of a `Dirty` line.
fn dirty_unit(line: &str) -> (dirty: Option<(String, String)>)
    ensures
        match dirty {
            Some((id, reason)) => pattern::line_split(DIRTY_PATTERN@, line@) matches Some(split)
                && id@ == split.id && reason@ == split.reason.unwrap().1,
            None => pattern::line_split(DIRTY_PATTERN@, line@) is None,
        },
{
    proof {
        pattern::lemma_patterns_differ();
    }
    match pattern::captures(DIRTY_PATTERN, line) {
        Some(mut groups) => {
            let ghost captured = groups@.map_values(|group: Option<String>| text::opt_view(group));
            assert(captured.len() == groups@.len());
            assert(captured[1] == text::opt_view(groups@[1]));
            assert(captured[2] == text::opt_view(groups@[2]));
            let reason = groups.pop().unwrap();
            let id = groups.pop().unwrap();
            Some((id.unwrap(), reason.unwrap()))
        },
        None => None,
    }
}

/// Makes the event of a unit without a reason.
fn event_without_reason(kind: CrateStatusKind, crate_id: String) -> (event: Option<
    CrateStatusEvent,
>)
    ensures
        event_view(event) == Some(plain_event(kind, crate_id@)),
{
    Some(CrateStatusEvent { kind, crate_id, reason: None })
}

/// Parses one already-trimmed stderr line as a status line, or `None` if it is not one.
pub fn parse_line(line: &str) -> (event: Option<CrateStatusEvent>)
    ensures
        event_view(event) == event_of(line@),
{
    if let Some(id) = unit_named(FRESH_PATTERN, line) {
        return event_without_reason(CrateStatusKind::Fresh, id);
    }
    if let Some((crate_id, reason)) = dirty_unit(line) {
        return Some(
            CrateStatusEvent { kind: CrateStatusKind::Dirty, crate_id, reason: Some(reason) },
        );
    }
    if let Some(id) = unit_named(COMPILING_PATTERN, line) {
        return event_without_reason(CrateStatusKind::Compiling, id);
    }
    if let Some(id) = unit_named(CHECKING_PATTERN, line) {
        return event_without_reason(CrateStatusKind::Checking, id);
    }
    if let Some(id) = unit_named(BUILDING_PATTERN, line) {
        return event_without_reason(CrateStatusKind::Building, id);
    }
    if pattern::captures(RUNNING_PATTERN, line).is_some() {
        return Some(
            CrateStatusEvent {
                kind: CrateStatusKind::Running,
                crate_id: "<running>".to_owned(),
                reason: Some(line.to_owned()),
            },
        );
    }
    if text::starts_with(line, "Finished") {
        return Some(
            CrateStatusEvent {
                kind: CrateStatusKind::Finished,
                crate_id: "<finished>".to_owned(),
                reason: Some(line.to_owned()),
            },
        );
    }
    None
}

} // verus!
