//! The grammar of cargo's `-vv` status lines.

use vstd::prelude::*;

use super::pattern;
use super::pattern::STATUS_PATTERN;
use super::{CrateId, CrateStatus, CrateStatusView, StatusKind, StatusKindView, WorkKind};
use crate::text;

verus! {

/// What the groups captured from a status line say about a unit.
///
/// A `Dirty` line always states why. One without a reason is a different line that merely starts
/// with the same word, so it is not a status.
pub open spec fn status_from(
    verb: Seq<char>,
    id: Seq<char>,
    reason: Option<Seq<char>>,
) -> Option<CrateStatusView> {
    let kind = if verb == "Fresh"@ {
        Some(StatusKindView::Fresh)
    } else if verb == "Dirty"@ {
        match reason {
            Some(reason) => Some(StatusKindView::Dirty { reason }),
            None => None,
        }
    } else if verb == "Compiling"@ {
        Some(StatusKindView::Work(WorkKind::Compiling))
    } else if verb == "Checking"@ {
        Some(StatusKindView::Work(WorkKind::Checking))
    } else if verb == "Building"@ {
        Some(StatusKindView::Work(WorkKind::Building))
    } else {
        None
    };
    match kind {
        Some(kind) => Some(CrateStatusView { id, kind }),
        None => None,
    }
}

/// The status that a line states, if it is a status line.
pub open spec fn status_of(line: Seq<char>) -> Option<CrateStatusView> {
    match pattern::line_split(STATUS_PATTERN@, line) {
        Some(split) => status_from(
            split.verb,
            split.id,
            match split.reason {
                Some((_, reason)) => Some(reason),
                None => None,
            },
        ),
        None => None,
    }
}

/// A status by its view.
pub open spec fn status_view(status: Option<CrateStatus>) -> Option<CrateStatusView> {
    match status {
        Some(status) => Some(status@),
        None => None,
    }
}

/// Reads the groups captured from a status line.
pub fn read_groups(verb: &str, id: &str, reason: Option<String>) -> (status: Option<CrateStatus>)
    ensures
        status_view(status) == status_from(verb@, id@, text::opt_view(reason)),
{
    let kind = if text::same_text(verb, "Fresh") {
        StatusKind::Fresh
    } else if text::same_text(verb, "Dirty") {
        match reason {
            Some(reason) => StatusKind::Dirty { reason },
            None => {
                return None;
            },
        }
    } else if text::same_text(verb, "Compiling") {
        StatusKind::Work(WorkKind::Compiling)
    } else if text::same_text(verb, "Checking") {
        StatusKind::Work(WorkKind::Checking)
    } else if text::same_text(verb, "Building") {
        StatusKind::Work(WorkKind::Building)
    } else {
        return None;
    };
    Some(CrateStatus { id: CrateId::new(id), kind })
}

/// Parses one already-trimmed stderr line as a crate status, or `None` if it is not one.
pub fn parse(line: &str) -> (status: Option<CrateStatus>)
    ensures
        status_view(status) == status_of(line@),
{
    let groups = pattern::captures(STATUS_PATTERN, line);
    proof {
        pattern::lemma_patterns_differ();
    }
    match groups {
        Some(mut groups) => {
            let ghost captured = groups@.map_values(|group: Option<String>| text::opt_view(group));
            assert(captured.len() == groups@.len());
            assert(captured[1] == text::opt_view(groups@[1]));
            assert(captured[2] == text::opt_view(groups@[2]));
            assert(captured[3] == text::opt_view(groups@[3]));
            let reason = groups.pop().unwrap();
            let id = groups.pop().unwrap();
            let verb = groups.pop().unwrap();
            read_groups(verb.unwrap().as_str(), id.unwrap().as_str(), reason)
        },
        None => None,
    }
}

} // verus!
