//! Cargo's fingerprint trace, as enabled by `--deep`.
//!
//! Setting `CARGO_LOG=cargo::core::compiler::fingerprint=trace` makes cargo log why each unit's
//! fingerprint comparison failed. The output is a best-effort debugging aid rather than a stable
//! format, so everything here degrades to "no details" instead of failing.

use vstd::prelude::*;
use vstd::string::StringExecFns;

use super::CrateId;
use crate::ordered::OrderedMap;
use crate::text;

verus! {

/// Whether a text names the tracing module.
pub open spec fn is_trace(line: Seq<char>) -> bool {
    text::has_part(line, "cargo::core::compiler::fingerprint"@)
}

/// Whether a stderr line belongs to the fingerprint trace.
pub fn is_fingerprint_trace_line(line: &str) -> (trace: bool)
    ensures
        trace == is_trace(line@),
{
    text::contains(line, "cargo::core::compiler::fingerprint")
}

/// A trace line without its log framing (`TRACE <target>:` or `[<target>]`): the message cargo
/// wrote.
pub open spec fn message(line: Seq<char>) -> Seq<char> {
    let trimmed = text::trimmed(line);
    match text::split_at_first(trimmed, "cargo::core::compiler::fingerprint]"@) {
        Some((_, rest)) => text::trimmed(rest),
        None => match text::split_at_first(trimmed, "cargo::core::compiler::fingerprint:"@) {
            Some((_, rest)) => text::trimmed(rest),
            None => trimmed,
        },
    }
}

/// Strips the log framing (`TRACE <target>:` or `[<target>]`) off a trace line, leaving the
/// message cargo actually wrote.
pub fn payload(line: &str) -> (rest: &str)
    ensures
        rest@ == message(line@),
{
    let trimmed = text::trim(line);
    if let Some((_, rest)) = text::split_once(trimmed, "cargo::core::compiler::fingerprint]") {
        return text::trim(rest);
    }
    if let Some((_, rest)) = text::split_once(trimmed, "cargo::core::compiler::fingerprint:") {
        return text::trim(rest);
    }
    trimmed
}

/// What follows the words that open a block of detail lines. Cargo renamed this message, so both
/// spellings count.
pub open spec fn header_rest(line: Seq<char>) -> Option<Seq<char>> {
    match text::without_prefix(line, "fingerprint error for "@) {
        Some(rest) => Some(rest),
        None => text::without_prefix(line, "fingerprint dirty for "@),
    }
}

/// The part of a text before its first slash.
pub open spec fn before_slash(s: Seq<char>) -> Seq<char> {
    match text::split_at_first(s, "/"@) {
        Some((before, _)) => before,
        None => s,
    }
}

/// The unit id in a header line: the name and the version are its first two words, the version
/// up to its first slash, and the version begins with a `v`.
pub open spec fn header_id(line: Seq<char>) -> Option<Seq<char>> {
    match header_rest(line) {
        Some(rest) => {
            let name = text::first_word(rest);
            let second = text::first_word(text::after_first_word(rest));
            let version = before_slash(second);
            if name.len() > 0 && second.len() > 0 && text::begins_with(version, "v"@) {
                Some(name + " "@ + version)
            } else {
                None
            }
        },
        None => None,
    }
}

/// An id by its view.
pub open spec fn id_view(id: Option<CrateId>) -> Option<Seq<char>> {
    match id {
        Some(id) => Some(id@),
        None => None,
    }
}

/// Reads the unit id out of a header line.
///
/// Cargo writes the package's source path between the version and the unit description, and the
/// separators differ between versions, so the id is taken from the first two whitespace-separated
/// tokens rather than by splitting on `/`.
pub fn header_crate_id(line: &str) -> (id: Option<CrateId>)
    ensures
        id_view(id) == header_id(line@),
{
    let remainder = match text::strip_prefix(line, "fingerprint error for ") {
        Some(rest) => rest,
        None => match text::strip_prefix(line, "fingerprint dirty for ") {
            Some(rest) => rest,
            None => {
                return None;
            },
        },
    };
    let (name, rest) = text::split_word(remainder);
    let (second, _) = text::split_word(rest);
    if name.is_empty() || second.is_empty() {
        return None;
    }
    let version = match text::split_once(second, "/") {
        Some((before, _)) => before,
        None => second,
    };
    if !text::starts_with(version, "v") {
        return None;
    }
    let mut id = name.to_owned();
    id.append(" ");
    id.append(version);
    Some(CrateId::new(id.as_str()))
}

/// The detail behind a label, if the line begins with the label and says anything behind it. The
/// label itself is kept where it reads as prose.
pub open spec fn labelled_detail(line: Seq<char>, label: Seq<char>, keep_label: bool) -> Option<
    Seq<char>,
> {
    match text::without_prefix(line, label) {
        Some(rest) => {
            let said = text::trimmed(rest);
            if said.len() == 0 {
                None
            } else if keep_label {
                Some(label + " "@ + said)
            } else {
                Some(said)
            }
        },
        None => None,
    }
}

/// The detail that a line carries, by the first of the labels that gives one.
pub open spec fn detail_in(line: Seq<char>) -> Option<Seq<char>> {
    match labelled_detail(line, "err:"@, false) {
        Some(detail) => Some(detail),
        None => match labelled_detail(line, "dirty:"@, false) {
            Some(detail) => Some(detail),
            None => match labelled_detail(line, "Caused by:"@, true) {
                Some(detail) => Some(detail),
                None => labelled_detail(line, "Caused by"@, false),
            },
        },
    }
}

/// Reads the detail behind one label.
fn detail_behind(line: &str, label: &str, keep_label: bool) -> (detail: Option<String>)
    ensures
        text::opt_view(detail) == labelled_detail(line@, label@, keep_label),
{
    match text::strip_prefix(line, label) {
        Some(rest) => {
            let said = text::trim(rest);
            if said.is_empty() {
                None
            } else if keep_label {
                let mut detail = label.to_owned();
                detail.append(" ");
                detail.append(said);
                Some(detail)
            } else {
                Some(said.to_owned())
            }
        },
        None => None,
    }
}

/// Reads the detail that a line carries. `Caused by:` reads as prose and stays in the text; the
/// other labels do not.
pub fn detail_of(line: &str) -> (detail: Option<String>)
    ensures
        text::opt_view(detail) == detail_in(line@),
{
    if let Some(detail) = detail_behind(line, "err:", false) {
        return Some(detail);
    }
    if let Some(detail) = detail_behind(line, "dirty:", false) {
        return Some(detail);
    }
    if let Some(detail) = detail_behind(line, "Caused by:", true) {
        return Some(detail);
    }
    detail_behind(line, "Caused by", false)
}

/// The crate named by the last header among these trace lines.
pub open spec fn named_by_header(lines: Seq<Seq<char>>) -> Option<Seq<char>>
    decreases lines.len(),
{
    if lines.len() == 0 {
        None
    } else {
        match header_id(message(lines.last())) {
            Some(id) => Some(id),
            None => named_by_header(lines.drop_last()),
        }
    }
}

/// The details that these trace lines give for a crate, in their order: those of the lines that
/// carry one, are no header, and have a header of that crate as the last one above them.
pub open spec fn details_for(lines: Seq<Seq<char>>, id: Seq<char>) -> Seq<Seq<char>>
    decreases lines.len(),
{
    if lines.len() == 0 {
        Seq::empty()
    } else {
        let above = lines.drop_last();
        let said = message(lines.last());
        let so_far = details_for(above, id);
        match detail_in(said) {
            Some(detail) if header_id(said) is None && named_by_header(above) == Some(id) =>
                so_far.push(detail),
            _ => so_far,
        }
    }
}

/// Whether a map holds exactly the crates that have details, each with its own.
pub open spec fn holds_details(
    map: Map<Seq<char>, Vec<String>>,
    lines: Seq<Seq<char>>,
) -> bool {
    forall|id: Seq<char>| #![trigger map.dom().contains(id)] #![trigger details_for(lines, id)]
        {
            &&& map.dom().contains(id) <==> details_for(lines, id).len() > 0
            &&& map.dom().contains(id) ==> text::views(map[id]@) == details_for(lines, id)
        }
}

/// Groups `--deep` fingerprint trace lines by the crate whose fingerprint comparison failed.
///
/// The trace is a flat stream: a header names a crate, and the detail lines that follow belong
/// to it until the next header. Lines cargo emits before any header, and any line that is not a
/// recognised detail, are dropped.
pub fn parse_details(lines: &[String]) -> (details: OrderedMap<CrateId, Vec<String>>)
    ensures
        holds_details(details@, text::views(lines@)),
{
    let mut out: OrderedMap<CrateId, Vec<String>> = OrderedMap::new();
    let mut current: Option<CrateId> = None;
    let ghost all = text::views(lines@);
    let mut i: usize = 0;
    while i < lines.len()
        invariant
            i <= lines@.len(),
            all == text::views(lines@),
            id_view(current) == named_by_header(all.take(i as int)),
            holds_details(out@, all.take(i as int)),
        decreases lines@.len() - i,
    {
        let ghost above = all.take(i as int);
        let ghost seen = all.take(i + 1);
        let line = payload(lines[i].as_str());
        proof {
            assert(seen.drop_last() =~= above);
            assert(seen.last() == lines@[i as int]@);
        }
        i = i + 1;
        if let Some(id) = header_crate_id(line) {
            current = Some(id);
            assert(holds_details(out@, seen)) by {
                assert forall|id: Seq<char>| details_for(seen, id) == details_for(above, id) by {}
            }
            continue ;
        }
        let id = match &current {
            Some(id) => id.clone(),
            None => {
                assert(holds_details(out@, seen)) by {
                    assert forall|id: Seq<char>| details_for(seen, id) == details_for(
                        above,
                        id,
                    ) by {}
                }
                continue ;
            },
        };
        let detail = match detail_of(line) {
            Some(detail) => detail,
            None => {
                assert(holds_details(out@, seen)) by {
                    assert forall|id: Seq<char>| details_for(seen, id) == details_for(
                        above,
                        id,
                    ) by {}
                }
                continue ;
            },
        };
        let ghost held = out@;
        let mut details = match out.remove(&id) {
            Some(details) => details,
            None => Vec::new(),
        };
        let ghost so_far = details@;
        details.push(detail);
        proof {
            assert(details_for(above, id@) =~= text::views(so_far));
            assert(text::views(details@) =~= text::views(so_far).push(detail@));
            assert(details_for(seen, id@) =~= text::views(details@));
            assert forall|other: Seq<char>| other != id@ implies details_for(seen, other)
                == details_for(above, other) by {}
        }
        out.insert(id, details);
    }
    assert(all.take(lines@.len() as int) =~= all);
    out
}

} // verus!
