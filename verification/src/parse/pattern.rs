//! The patterns of cargo's `-vv` status lines, and what matching a line against one gives.
//!
//! A status line has the same shape under every pattern: a verb, a `name vX.Y.Z` unit id, an
//! optional parenthesised source path and an optional reason. [`LineSplit`] holds those pieces,
//! [`line_groups`] says which of the ways to cut a line into them a pattern picks, and
//! [`captures`] asks the `regex` crate.

use vstd::prelude::*;

use crate::text;

verus! {

/// Every status line cargo emits under `-vv` has the same shape: a verb, a `name vX.Y.Z` unit
/// id, an optional parenthesised source path, and, for `Dirty`, a trailing reason.
///
/// The path group is lazy on purpose. A greedy one swallows the reason's own parentheses (cargo
/// appends timestamps to file-change reasons) and leaves the reason unmatched.
pub const STATUS_PATTERN: &'static str =
    r"^(?P<verb>Fresh|Dirty|Compiling|Checking|Building)\s+(?P<id>\S+\s+v\S+)(?:\s+\(.*?\))?(?::\s+(?P<reason>.*))?$";

/// A `Fresh` line.
pub const FRESH_PATTERN: &'static str = r"^Fresh\s+(?P<id>[^\s]+\s+v[^\s]+)(?:\s+\(.*\))?$";

/// A `Dirty` line, which has to state a reason.
pub const DIRTY_PATTERN: &'static str =
    r"^Dirty\s+(?P<id>[^\s]+\s+v[^\s]+)(?:\s+\(.*\))?:\s+(?P<reason>.*)$";

/// A `Compiling` line.
pub const COMPILING_PATTERN: &'static str =
    r"^Compiling\s+(?P<id>[^\s]+\s+v[^\s]+)(?:\s+\(.*\))?$";

/// A `Checking` line.
pub const CHECKING_PATTERN: &'static str =
    r"^Checking\s+(?P<id>[^\s]+\s+v[^\s]+)(?:\s+\(.*\))?$";

/// A `Building` line.
pub const BUILDING_PATTERN: &'static str =
    r"^Building\s+(?P<id>[^\s]+\s+v[^\s]+)(?:\s+\(.*\))?$";

/// A `Running` line.
pub const RUNNING_PATTERN: &'static str = r"^Running\s+(?P<rest>.*)$";

/// One way to cut a line into the pieces of a status line.
pub struct LineSplit {
    /// The word the line begins with.
    pub verb: Seq<char>,
    /// The white space behind the verb.
    pub gap: Seq<char>,
    /// The unit id.
    pub id: Seq<char>,
    /// The white space in front of the parentheses, and what stands between them.
    pub path: Option<(Seq<char>, Seq<char>)>,
    /// The white space behind the colon, and what follows it.
    pub reason: Option<(Seq<char>, Seq<char>)>,
}

/// White space, at least one character of it: `\s+`.
pub open spec fn is_gap(s: Seq<char>) -> bool {
    s.len() > 0 && forall|i: int| 0 <= i < s.len() ==> text::is_white(#[trigger] s[i])
}

/// At least one character, none of them white space: `\S+` and `[^\s]+`.
pub open spec fn is_solid(s: Seq<char>) -> bool {
    s.len() > 0 && forall|i: int| 0 <= i < s.len() ==> !text::is_white(#[trigger] s[i])
}

/// Any characters but line feeds: `.*`.
pub open spec fn is_one_line(s: Seq<char>) -> bool {
    forall|i: int| 0 <= i < s.len() ==> #[trigger] s[i] != '\n'
}

/// A unit id made of these pieces: `\S+\s+v\S+`.
pub open spec fn unit_id(name: Seq<char>, gap: Seq<char>, version: Seq<char>) -> Seq<char> {
    name + gap + seq!['v'] + version
}

/// Whether `id` is a name, white space, and a version behind a `v`.
pub open spec fn is_unit_id(id: Seq<char>) -> bool {
    exists|name: Seq<char>, gap: Seq<char>, version: Seq<char>|
        #![trigger unit_id(name, gap, version)]
        is_solid(name) && is_gap(gap) && is_solid(version) && id == unit_id(name, gap, version)
}

impl LineSplit {
    /// The path with its parentheses and the white space in front of them.
    pub open spec fn path_text(self) -> Seq<char> {
        match self.path {
            Some((gap, path)) => gap + seq!['('] + path + seq![')'],
            None => Seq::empty(),
        }
    }

    /// The reason with its colon and the white space behind it.
    pub open spec fn reason_text(self) -> Seq<char> {
        match self.reason {
            Some((gap, reason)) => seq![':'] + gap + reason,
            None => Seq::empty(),
        }
    }

    /// The line that these pieces make up.
    pub open spec fn line(self) -> Seq<char> {
        self.verb + self.gap + self.id + self.path_text() + self.reason_text()
    }

    /// Whether every piece has the characters that the patterns allow in it.
    pub open spec fn well_spelled(self) -> bool {
        &&& is_gap(self.gap)
        &&& is_unit_id(self.id)
        &&& self.path matches Some((gap, path)) ==> is_gap(gap) && is_one_line(path)
        &&& self.reason matches Some((gap, reason)) ==> is_gap(gap) && is_one_line(reason)
    }

    /// Whether a search tries these pieces no later than those of `other`, a split of the same
    /// line: the longer id first, a path before none, then the shorter path where the path is
    /// lazy and the longer one where it is greedy, then the longer gap behind the colon.
    pub open spec fn no_later_than(self, other: LineSplit, lazy_path: bool) -> bool {
        if self.id.len() != other.id.len() {
            self.id.len() > other.id.len()
        } else {
            match (self.path, other.path) {
                (Some(_), None) => true,
                (None, Some(_)) => false,
                (Some((_, mine)), Some((_, theirs))) if mine.len() != theirs.len() => if lazy_path {
                    mine.len() < theirs.len()
                } else {
                    mine.len() > theirs.len()
                },
                _ => match (self.reason, other.reason) {
                    (Some((mine, _)), Some((theirs, _))) => mine.len() >= theirs.len(),
                    _ => true,
                },
            }
        }
    }
}

/// The verbs of a status line.
pub open spec fn is_status_verb(verb: Seq<char>) -> bool {
    ||| verb == "Fresh"@
    ||| verb == "Dirty"@
    ||| verb == "Compiling"@
    ||| verb == "Checking"@
    ||| verb == "Building"@
}

/// Whether `split` cuts `line` as `pattern` asks.
pub open spec fn admits(pattern: Seq<char>, line: Seq<char>, split: LineSplit) -> bool {
    &&& split.well_spelled()
    &&& split.line() == line
    &&& if pattern == STATUS_PATTERN@ {
        is_status_verb(split.verb)
    } else if pattern == DIRTY_PATTERN@ {
        split.verb == "Dirty"@ && split.reason is Some
    } else {
        &&& split.reason is None
        &&& pattern == FRESH_PATTERN@ ==> split.verb == "Fresh"@
        &&& pattern == COMPILING_PATTERN@ ==> split.verb == "Compiling"@
        &&& pattern == CHECKING_PATTERN@ ==> split.verb == "Checking"@
        &&& pattern == BUILDING_PATTERN@ ==> split.verb == "Building"@
    }
}

/// Whether `split` is the way to cut `line` that a search for `pattern` finds first.
pub open spec fn picks(pattern: Seq<char>, line: Seq<char>, split: LineSplit) -> bool {
    &&& admits(pattern, line, split)
    &&& forall|other: LineSplit| #[trigger]
        admits(pattern, line, other) ==> split.no_later_than(other, pattern == STATUS_PATTERN@)
}

/// How a line is cut under one of the patterns other than [`RUNNING_PATTERN`]; `None` where it
/// does not match.
pub open spec fn line_split(pattern: Seq<char>, line: Seq<char>) -> Option<LineSplit> {
    if exists|split: LineSplit| admits(pattern, line, split) {
        Some(choose|split: LineSplit| picks(pattern, line, split))
    } else {
        None
    }
}

/// What a `Running` line runs; `None` where the line is not one.
pub open spec fn running_rest(line: Seq<char>) -> Option<Seq<char>> {
    let behind = line.skip("Running"@.len() as int);
    if text::begins_with(line, "Running"@) && text::leading_white(behind) > 0 && is_one_line(
        text::trimmed_start(behind),
    ) {
        Some(text::trimmed_start(behind))
    } else {
        None
    }
}

/// The capture groups of a match of `pattern` against `line`, the whole match first, or `None`
/// where there is no match.
pub open spec fn line_groups(pattern: Seq<char>, line: Seq<char>) -> Option<
    Seq<Option<Seq<char>>>,
> {
    if pattern == RUNNING_PATTERN@ {
        match running_rest(line) {
            Some(rest) => Some(seq![Some(line), Some(rest)]),
            None => None,
        }
    } else {
        match line_split(pattern, line) {
            Some(split) => if pattern == STATUS_PATTERN@ {
                Some(
                    seq![
                        Some(line),
                        Some(split.verb),
                        Some(split.id),
                        match split.reason {
                            Some((_, reason)) => Some(reason),
                            None => None,
                        },
                    ],
                )
            } else if pattern == DIRTY_PATTERN@ {
                Some(seq![Some(line), Some(split.id), Some(split.reason.unwrap().1)])
            } else {
                Some(seq![Some(line), Some(split.id)])
            },
            None => None,
        }
    }
}

/// The patterns that capture the unit id alone.
pub open spec fn is_id_pattern(pattern: Seq<char>) -> bool {
    ||| pattern == FRESH_PATTERN@
    ||| pattern == COMPILING_PATTERN@
    ||| pattern == CHECKING_PATTERN@
    ||| pattern == BUILDING_PATTERN@
}

/// The patterns whose groups are read differently are different texts.
pub proof fn lemma_patterns_differ()
    ensures
        STATUS_PATTERN@ != RUNNING_PATTERN@,
        STATUS_PATTERN@ != DIRTY_PATTERN@,
        DIRTY_PATTERN@ != RUNNING_PATTERN@,
        !is_id_pattern(STATUS_PATTERN@),
        !is_id_pattern(DIRTY_PATTERN@),
        !is_id_pattern(RUNNING_PATTERN@),
{
    reveal_strlit(
        r"^(?P<verb>Fresh|Dirty|Compiling|Checking|Building)\s+(?P<id>\S+\s+v\S+)(?:\s+\(.*?\))?(?::\s+(?P<reason>.*))?$",
    );
    reveal_strlit(r"^Running\s+(?P<rest>.*)$");
    reveal_strlit(r"^Dirty\s+(?P<id>[^\s]+\s+v[^\s]+)(?:\s+\(.*\))?:\s+(?P<reason>.*)$");
    reveal_strlit(r"^Fresh\s+(?P<id>[^\s]+\s+v[^\s]+)(?:\s+\(.*\))?$");
    reveal_strlit(r"^Compiling\s+(?P<id>[^\s]+\s+v[^\s]+)(?:\s+\(.*\))?$");
    reveal_strlit(r"^Checking\s+(?P<id>[^\s]+\s+v[^\s]+)(?:\s+\(.*\))?$");
    reveal_strlit(r"^Building\s+(?P<id>[^\s]+\s+v[^\s]+)(?:\s+\(.*\))?$");
    assert(STATUS_PATTERN@.len() > 100);
    assert(RUNNING_PATTERN@.len() < 30);
    assert(58 < DIRTY_PATTERN@.len() < 100);
    assert(30 < FRESH_PATTERN@.len() < 58);
    assert(30 < COMPILING_PATTERN@.len() < 58);
    assert(30 < CHECKING_PATTERN@.len() < 58);
    assert(30 < BUILDING_PATTERN@.len() < 58);
}

/// Whether `pattern` is one of the patterns above.
pub open spec fn is_line_pattern(pattern: Seq<char>) -> bool {
    ||| pattern == STATUS_PATTERN@
    ||| pattern == FRESH_PATTERN@
    ||| pattern == DIRTY_PATTERN@
    ||| pattern == COMPILING_PATTERN@
    ||| pattern == CHECKING_PATTERN@
    ||| pattern == BUILDING_PATTERN@
    ||| pattern == RUNNING_PATTERN@
}

/// Captured groups, each by its view.
pub open spec fn group_views(groups: Option<Vec<Option<String>>>) -> Option<
    Seq<Option<Seq<char>>>,
> {
    match groups {
        Some(groups) => Some(groups@.map_values(|group: Option<String>| text::opt_view(group))),
        None => None,
    }
}

/// Matches a line against a pattern with `regex::Regex::captures` and hands out every group, in
/// the order of `regex::Captures::iter`, as owned text.
///
/// Trusted: for each of the patterns above, the result is what the syntax documented by `regex`
/// gives it. The pattern is anchored at both ends; `\s` is Unicode white space, `\S` anything
/// else, `.` anything but a line feed; and among several ways to match, repetitions and optional
/// groups are tried greedily from left to right, except for the lazy `.*?`.
#[verifier::external_body]
pub(crate) fn captures(pattern: &str, line: &str) -> (groups: Option<Vec<Option<String>>>)
    requires
        is_line_pattern(pattern@),
    ensures
        group_views(groups) == line_groups(pattern@, line@),
{
    let found = regex::Regex::new(pattern).ok()?.captures(line)?;
    Some(found.iter().map(|group| group.map(|text| text.as_str().to_owned())).collect())
}

} // verus!
