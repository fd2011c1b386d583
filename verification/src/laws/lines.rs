//! What a line is read as, told by its characters.

use vstd::prelude::*;

use crate::engine::{EngineView, EventView};
use crate::laws::cutting;
use crate::laws::reading;
use crate::message;
use crate::message::{CargoMessageView, PassedOnView, StdoutLine};
use crate::parse;
use crate::parse::ParsedView;
use crate::parse::pattern;
use crate::parse::pattern::{
    BUILDING_PATTERN, CHECKING_PATTERN, COMPILING_PATTERN, DIRTY_PATTERN, FRESH_PATTERN,
    LineSplit, STATUS_PATTERN,
};
use crate::parse::status;
use crate::parse::stderr_verbose;
use crate::parse::stderr_verbose::{CrateStatusEventView, CrateStatusKind};
use crate::parse::{CrateStatusView, StatusKindView, StderrLineView, WorkKind};
use crate::raw_line;
use crate::text;

verus! {

/// The pieces of a status line.
pub struct Pieces {
    /// The white space behind the verb.
    pub gap: Seq<char>,
    /// The crate's name.
    pub name: Seq<char>,
    /// The white space behind the name.
    pub name_gap: Seq<char>,
    /// The version, behind its `v`.
    pub version: Seq<char>,
    /// The source path between parentheses, behind white space, if the line has one.
    pub path: Option<(Seq<char>, Seq<char>)>,
}

impl Pieces {
    /// Whether each piece is made of the characters that it can be made of.
    pub open spec fn are_sound(self) -> bool {
        &&& self.gap.len() > 0 && cutting::is_blank(self.gap)
        &&& self.name.len() > 0 && cutting::is_unbroken(self.name)
        &&& self.name_gap.len() > 0 && cutting::is_blank(self.name_gap)
        &&& self.version.len() > 0 && cutting::is_unbroken(self.version)
        &&& self.path matches Some((gap, path)) ==> gap.len() > 0 && cutting::is_blank(gap)
            && on_one_line(path)
    }

    /// The unit that the line names.
    pub open spec fn unit(self) -> Seq<char> {
        self.name + self.name_gap + seq!['v'] + self.version
    }

    /// The source path with its parentheses.
    pub open spec fn place(self) -> Seq<char> {
        match self.path {
            Some((gap, path)) => gap + seq!['('] + path + seq![')'],
            None => Seq::empty(),
        }
    }

    /// The line with this verb and no reason.
    pub open spec fn line(self, verb: Seq<char>) -> Seq<char> {
        verb + self.gap + self.unit() + self.place()
    }

    /// The line with this verb and this reason.
    pub open spec fn line_with_reason(
        self,
        verb: Seq<char>,
        reason_gap: Seq<char>,
        reason: Seq<char>,
    ) -> Seq<char> {
        verb + self.gap + self.unit() + self.place() + (seq![':'] + reason_gap + reason)
    }

    /// The same pieces, as a way to cut a line.
    spec fn split(self, verb: Seq<char>, reason: Option<(Seq<char>, Seq<char>)>) -> LineSplit {
        LineSplit { verb, gap: self.gap, id: self.unit(), path: self.path, reason }
    }
}

/// Whether a text holds no line feed.
pub open spec fn on_one_line(s: Seq<char>) -> bool {
    forall|i: int| 0 <= i < s.len() ==> #[trigger] s[i] != '\n'
}

/// Whether a text holds a closing parenthesis, a colon and white space in a row.
pub open spec fn looks_like_a_path_end(s: Seq<char>) -> bool {
    exists|i: int|
        0 <= i && i + 2 < s.len() && #[trigger] s[i] == ')' && s[i + 1] == ':' && text::is_white(
            s[i + 2],
        )
}

/// The pieces make a way to cut the line.
proof fn lemma_pieces(
    pieces: Pieces,
    verb: Seq<char>,
    reason: Option<(Seq<char>, Seq<char>)>,
)
    requires
        pieces.are_sound(),
        reason matches Some((gap, why)) ==> gap.len() > 0 && cutting::is_blank(gap) && on_one_line(
            why,
        ),
    ensures
        pieces.split(verb, reason).well_spelled(),
        reason is None ==> pieces.split(verb, reason).line() == pieces.line(verb),
        reason matches Some((gap, why)) ==> pieces.split(verb, reason).line()
            == pieces.line_with_reason(verb, gap, why),
{
    let split = pieces.split(verb, reason);
    assert(split.id == pattern::unit_id(pieces.name, pieces.name_gap, pieces.version));
    assert(pattern::is_unit_id(split.id));
    if reason is None {
        assert(split.line() =~= pieces.line(verb));
    }
}

/// The kind that a verb of a line without a reason stands for.
pub open spec fn kind_of_verb(verb: Seq<char>) -> Option<StatusKindView> {
    if verb == "Fresh"@ {
        Some(StatusKindView::Fresh)
    } else if verb == "Compiling"@ {
        Some(StatusKindView::Work(WorkKind::Compiling))
    } else if verb == "Checking"@ {
        Some(StatusKindView::Work(WorkKind::Checking))
    } else if verb == "Building"@ {
        Some(StatusKindView::Work(WorkKind::Building))
    } else {
        None
    }
}

/// A `Fresh`, `Compiling`, `Checking` or `Building` line, indented or not, with or without a
/// source path, is a status of the unit that it names, of that kind.
pub proof fn law_status_line_is_read(
    indent: Seq<char>,
    verb: Seq<char>,
    kind: StatusKindView,
    pieces: Pieces,
)
    requires
        cutting::is_blank(indent),
        pieces.are_sound(),
        kind_of_verb(verb) == Some(kind),
        pieces.path matches Some((_, path)) ==> !looks_like_a_path_end(path),
    ensures
        parse::classified(indent + pieces.line(verb)) == StderrLineView::Status(
            CrateStatusView { id: pieces.unit(), kind },
        ),
{
    reading::lemma_verbs();
    let split = pieces.split(verb, None);
    lemma_pieces(pieces, verb, None);
    if let Some((_, path)) = pieces.path {
        if reading::holds_path_end(path) {
            let i = choose|i: int|
                0 <= i && i + 2 < path.len() && #[trigger] path[i] == ')' && path[i + 1] == ':'
                    && text::is_white(path[i + 2]);
            assert(looks_like_a_path_end(path));
        }
    }
    reading::law_status_line_reads_back(split);
    let line = pieces.line(verb);
    assert(line[0] == verb[0]);
    cutting::law_start_is_trimmed(indent, line);
}

/// A `Dirty` line, indented or not, is a status of the unit that it names, with the reason that
/// it states, word for word, parentheses and all.
pub proof fn law_dirty_line_is_read(
    indent: Seq<char>,
    pieces: Pieces,
    reason_gap: Seq<char>,
    reason: Seq<char>,
)
    requires
        cutting::is_blank(indent),
        pieces.are_sound(),
        reason_gap.len() > 0,
        cutting::is_blank(reason_gap),
        on_one_line(reason),
        reason.len() > 0 ==> !text::is_white(reason[0]),
        pieces.path matches Some((_, path)) ==> !looks_like_a_path_end(path),
        pieces.path is None && reason.len() > 0 ==> reason[0] != '(',
    ensures
        parse::classified(indent + pieces.line_with_reason("Dirty"@, reason_gap, reason))
            == StderrLineView::Status(
            CrateStatusView { id: pieces.unit(), kind: StatusKindView::Dirty { reason } },
        ),
{
    reading::lemma_verbs();
    let told = Some((reason_gap, reason));
    let split = pieces.split("Dirty"@, told);
    lemma_pieces(pieces, "Dirty"@, told);
    if let Some((_, path)) = pieces.path {
        if reading::holds_path_end(path) {
            let i = choose|i: int|
                0 <= i && i + 2 < path.len() && #[trigger] path[i] == ')' && path[i + 1] == ':'
                    && text::is_white(path[i + 2]);
            assert(looks_like_a_path_end(path));
        }
    }
    reading::law_status_line_reads_back(split);
    let line = pieces.line_with_reason("Dirty"@, reason_gap, reason);
    assert(line[0] == "Dirty"@[0]);
    cutting::law_start_is_trimmed(indent, line);
}

/// A `Fresh`, `Compiling`, `Checking` or `Building` line is the same status if something stands
/// behind a colon at its end.
pub proof fn law_only_dirty_lines_have_reasons(
    indent: Seq<char>,
    verb: Seq<char>,
    kind: StatusKindView,
    pieces: Pieces,
    reason_gap: Seq<char>,
    reason: Seq<char>,
)
    requires
        cutting::is_blank(indent),
        pieces.are_sound(),
        kind_of_verb(verb) == Some(kind),
        reason_gap.len() > 0,
        cutting::is_blank(reason_gap),
        on_one_line(reason),
        reason.len() > 0 ==> !text::is_white(reason[0]),
        pieces.path matches Some((_, path)) ==> !looks_like_a_path_end(path),
        pieces.path is None && reason.len() > 0 ==> reason[0] != '(',
    ensures
        parse::classified(indent + pieces.line_with_reason(verb, reason_gap, reason))
            == StderrLineView::Status(CrateStatusView { id: pieces.unit(), kind }),
{
    reading::lemma_verbs();
    let told = Some((reason_gap, reason));
    let split = pieces.split(verb, told);
    lemma_pieces(pieces, verb, told);
    if let Some((_, path)) = pieces.path {
        if reading::holds_path_end(path) {
            let i = choose|i: int|
                0 <= i && i + 2 < path.len() && #[trigger] path[i] == ')' && path[i + 1] == ':'
                    && text::is_white(path[i + 2]);
            assert(looks_like_a_path_end(path));
        }
    }
    reading::law_status_line_reads_back(split);
    let line = pieces.line_with_reason(verb, reason_gap, reason);
    assert(line[0] == verb[0]);
    cutting::law_start_is_trimmed(indent, line);
}

/// A `Dirty` line without a reason is no status.
pub proof fn law_dirty_line_needs_a_reason(pieces: Pieces)
    requires
        pieces.are_sound(),
        pieces.path matches Some((_, path)) ==> !looks_like_a_path_end(path),
    ensures
        status::status_of(pieces.line("Dirty"@)) is None,
        parse::classified(pieces.line("Dirty"@)) !is Status,
{
    reading::lemma_verbs();
    lemma_pieces(pieces, "Dirty"@, None);
    if let Some((_, path)) = pieces.path {
        if reading::holds_path_end(path) {
            let i = choose|i: int|
                0 <= i && i + 2 < path.len() && #[trigger] path[i] == ')' && path[i + 1] == ':'
                    && text::is_white(path[i + 2]);
            assert(looks_like_a_path_end(path));
        }
    }
    reading::law_dirty_without_reason_is_no_status(pieces.split("Dirty"@, None));
    let line = pieces.line("Dirty"@);
    assert(line[0] == "Dirty"@[0]);
    cutting::law_start_is_trimmed(Seq::empty(), line);
    assert(Seq::<char>::empty() + line =~= line);
}

/// What the groups captured from a status line say, verb by verb.
pub proof fn law_groups_are_read_by_their_verb(
    verb: Seq<char>,
    id: Seq<char>,
    reason: Option<Seq<char>>,
)
    ensures
        verb != "Dirty"@ ==> status::status_from(verb, id, reason) == match kind_of_verb(verb) {
            Some(kind) => Some(CrateStatusView { id, kind }),
            None => None,
        },
        verb == "Dirty"@ ==> status::status_from(verb, id, reason) == match reason {
            Some(reason) => Some(CrateStatusView { id, kind: StatusKindView::Dirty { reason } }),
            None => None,
        },
{
    reading::lemma_verbs();
}

/// Whether a line begins with a verb and white space behind it.
pub open spec fn opens_with(line: Seq<char>, verb: Seq<char>) -> bool {
    &&& line.len() > verb.len()
    &&& line.take(verb.len() as int) == verb
    &&& text::is_white(line[verb.len() as int])
}

/// A way to cut a line begins with its verb.
proof fn lemma_split_opens(split: LineSplit)
    requires
        split.well_spelled(),
    ensures
        opens_with(split.line(), split.verb),
{
    let line = split.line();
    assert(line.take(split.verb.len() as int) =~= split.verb);
    assert(line[split.verb.len() as int] == split.gap[0]);
}

/// Whether a line opens with none of the verbs of a status.
pub open spec fn opens_otherwise(line: Seq<char>) -> bool {
    &&& !opens_with(line, "Fresh"@)
    &&& !opens_with(line, "Dirty"@)
    &&& !opens_with(line, "Compiling"@)
    &&& !opens_with(line, "Checking"@)
    &&& !opens_with(line, "Building"@)
}

/// A line that opens with none of the verbs is no status: it is part of the trace if it names the
/// tracing module, and kept as it came otherwise.
pub proof fn law_other_openings_are_no_status(indent: Seq<char>, line: Seq<char>)
    requires
        cutting::is_blank(indent),
        line.len() > 0 ==> !text::is_white(line[0]),
        opens_otherwise(line),
    ensures
        parse::classified(indent + line) == if cutting::holds(
            line,
            "cargo::core::compiler::fingerprint"@,
        ) {
            StderrLineView::FingerprintTrace(line)
        } else {
            StderrLineView::Other(indent + line)
        },
{
    cutting::law_start_is_trimmed(indent, line);
    cutting::law_part_is_found(line, "cargo::core::compiler::fingerprint"@);
    assert forall|split: LineSplit| !pattern::admits(STATUS_PATTERN@, line, split) by {
        if pattern::admits(STATUS_PATTERN@, line, split) {
            lemma_split_opens(split);
        }
    }
}

/// A status says nothing that its line does not: the line is the verb of its kind, white space,
/// the unit, and something behind it, at the end of which stands the reason of a `Dirty` line.
pub proof fn law_status_stands_in_its_line(line: Seq<char>) -> (pieces: (
    Seq<char>,
    Seq<char>,
    Seq<char>,
))
    requires
        status::status_of(line) is Some,
    ensures
        ({
            let (verb, gap, rest) = pieces;
            let read = status::status_of(line)->0;
            &&& line == verb + gap + read.id + rest
            &&& gap.len() > 0 && cutting::is_blank(gap)
            &&& match read.kind {
                StatusKindView::Dirty { reason } => verb == "Dirty"@ && reason.len() < rest.len()
                    && rest.skip(rest.len() - reason.len()) == reason,
                kind => kind_of_verb(verb) == Some(kind),
            }
        }),
{
    pattern::lemma_patterns_differ();
    reading::lemma_verbs();
    let start = choose|split: LineSplit| pattern::admits(STATUS_PATTERN@, line, split);
    assert(pattern::admits(STATUS_PATTERN@, line, start));
    let split = reading::law_a_matching_line_has_a_reading(STATUS_PATTERN@, line, start);
    let rest = split.path_text() + split.reason_text();
    assert(line =~= split.verb + split.gap + split.id + rest);
    if let Some((gap, reason)) = split.reason {
        assert(rest.skip(rest.len() - reason.len()) =~= reason);
    }
    (split.verb, split.gap, rest)
}

/// No pattern for a verb finds anything in a line that opens otherwise.
proof fn lemma_no_split(line: Seq<char>)
    requires
        opens_otherwise(line),
    ensures
        pattern::line_split(FRESH_PATTERN@, line) is None,
        pattern::line_split(DIRTY_PATTERN@, line) is None,
        pattern::line_split(COMPILING_PATTERN@, line) is None,
        pattern::line_split(CHECKING_PATTERN@, line) is None,
        pattern::line_split(BUILDING_PATTERN@, line) is None,
{
    pattern::lemma_patterns_differ();
    assert forall|p: Seq<char>, split: LineSplit|
        p == FRESH_PATTERN@ || p == DIRTY_PATTERN@ || p == COMPILING_PATTERN@ || p
            == CHECKING_PATTERN@ || p == BUILDING_PATTERN@ implies !#[trigger] pattern::admits(
        p,
        line,
        split,
    ) by {
        if pattern::admits(p, line, split) {
            reading::lemma_admitted_verb(p, line, split);
            lemma_split_opens(split);
        }
    }
}

/// A line that says what runs is read as such, whole.
pub proof fn law_running_line_is_read(gap: Seq<char>, command: Seq<char>)
    requires
        gap.len() > 0,
        cutting::is_blank(gap),
        on_one_line(command),
        command.len() > 0 ==> !text::is_white(command[0]),
    ensures
        stderr_verbose::event_of("Running"@ + gap + command) == Some(
            CrateStatusEventView {
                kind: CrateStatusKind::Running,
                crate_id: "<running>"@,
                reason: Some("Running"@ + gap + command),
            },
        ),
{
    reveal_strlit("Running");
    reading::lemma_verbs();
    let line = "Running"@ + gap + command;
    assert(line[0] == 'R');
    lemma_opens_otherwise(line);
    lemma_no_split(line);
    let behind = gap + command;
    assert(line =~= "Running"@ + behind);
    cutting::law_begins_with_its_front("Running"@, behind);
    assert(line.skip("Running"@.len() as int) =~= behind);
    cutting::law_start_is_trimmed(gap, command);
    assert forall|i: int| 0 <= i < gap.len() implies text::is_white(#[trigger] behind[i]) by {
        assert(behind[i] == gap[i]);
    }
    if command.len() > 0 {
        assert(behind[gap.len() as int] == command[0]);
    }
    text::lemma_leading_white(behind, gap.len() as int);
}

/// A line whose first characters are in none of the verbs opens otherwise.
proof fn lemma_opens_otherwise(line: Seq<char>)
    requires
        line.len() > 1,
        line[0] != 'D',
        line[0] != 'C',
        line[0] != 'B',
        line[0] == 'F' ==> line[1] != 'r',
    ensures
        opens_otherwise(line),
{
    reading::lemma_verbs();
    reveal_strlit("Fresh");
    if opens_with(line, "Fresh"@) {
        assert(line.take(5)[0] == line[0]);
        assert(line.take(5)[1] == line[1]);
        assert("Fresh"@.len() == 5);
    }
    if opens_with(line, "Dirty"@) {
        assert(line.take("Dirty"@.len() as int)[0] == line[0]);
    }
    if opens_with(line, "Compiling"@) {
        assert(line.take("Compiling"@.len() as int)[0] == line[0]);
    }
    if opens_with(line, "Checking"@) {
        assert(line.take("Checking"@.len() as int)[0] == line[0]);
    }
    if opens_with(line, "Building"@) {
        assert(line.take("Building"@.len() as int)[0] == line[0]);
    }
}

/// A line that says that the build has finished is read as such, whole.
pub proof fn law_finished_line_is_read(rest: Seq<char>)
    ensures
        stderr_verbose::event_of("Finished"@ + rest) == Some(
            CrateStatusEventView {
                kind: CrateStatusKind::Finished,
                crate_id: "<finished>"@,
                reason: Some("Finished"@ + rest),
            },
        ),
{
    reveal_strlit("Finished");
    reveal_strlit("Running");
    let line = "Finished"@ + rest;
    assert(line[0] == 'F' && line[1] == 'i');
    lemma_opens_otherwise(line);
    lemma_no_split(line);
    cutting::law_front_is_what_it_begins_with(line, "Running"@);
    assert("Running"@[0] == 'R');
    cutting::law_begins_with_its_front("Finished"@, rest);
}

/// A line that opens with none of the words that verbose lines open with is none of them.
pub proof fn law_other_lines_are_not_verbose(line: Seq<char>)
    requires
        opens_otherwise(line),
        !opens_with(line, "Running"@),
        line.len() < 8 || line.take(8) != "Finished"@,
    ensures
        stderr_verbose::event_of(line) is None,
{
    reveal_strlit("Running");
    reveal_strlit("Finished");
    lemma_no_split(line);
    cutting::law_front_is_what_it_begins_with(line, "Finished"@);
    if text::begins_with(line, "Finished"@) {
        assert(line.take(8) =~= "Finished"@);
    }
    if pattern::running_rest(line) is Some {
        cutting::law_front_is_what_it_begins_with(line, "Running"@);
        let behind = line.skip(7);
        assert(text::is_white(behind[0]));
        assert(line.take(7) =~= "Running"@);
        assert(line[7] == behind[0]);
    }
}

/// The kind of a verbose line with this verb.
pub open spec fn verbose_kind_of(verb: Seq<char>) -> Option<CrateStatusKind> {
    if verb == "Fresh"@ {
        Some(CrateStatusKind::Fresh)
    } else if verb == "Compiling"@ {
        Some(CrateStatusKind::Compiling)
    } else if verb == "Checking"@ {
        Some(CrateStatusKind::Checking)
    } else if verb == "Building"@ {
        Some(CrateStatusKind::Building)
    } else {
        None
    }
}

/// A verbose line without a reason is read as its verb says, of the unit that it names.
pub proof fn law_verbose_line_is_read(verb: Seq<char>, kind: CrateStatusKind, pieces: Pieces)
    requires
        pieces.are_sound(),
        verbose_kind_of(verb) == Some(kind),
    ensures
        stderr_verbose::event_of(pieces.line(verb)) == Some(
            CrateStatusEventView { kind, crate_id: pieces.unit(), reason: None },
        ),
{
    reading::lemma_verbs();
    lemma_pieces(pieces, verb, None);
    reading::law_verbose_line_reads_back(pieces.split(verb, None));
}

/// A verbose `Dirty` line is read with the unit that it names and the reason that it states.
pub proof fn law_verbose_dirty_line_is_read(
    pieces: Pieces,
    reason_gap: Seq<char>,
    reason: Seq<char>,
)
    requires
        pieces.are_sound(),
        reason_gap.len() > 0,
        cutting::is_blank(reason_gap),
        on_one_line(reason),
        reason.len() > 0 ==> !text::is_white(reason[0]),
        pieces.path is Some ==> !looks_like_a_path_end(reason),
        pieces.path is None && reason.len() > 0 ==> reason[0] != '(',
    ensures
        stderr_verbose::event_of(pieces.line_with_reason("Dirty"@, reason_gap, reason)) == Some(
            CrateStatusEventView {
                kind: CrateStatusKind::Dirty,
                crate_id: pieces.unit(),
                reason: Some(reason),
            },
        ),
{
    reading::lemma_verbs();
    let told = Some((reason_gap, reason));
    lemma_pieces(pieces, "Dirty"@, told);
    if reading::holds_path_end(reason) {
        let i = choose|i: int|
            0 <= i && i + 2 < reason.len() && #[trigger] reason[i] == ')' && reason[i + 1] == ':'
                && text::is_white(reason[i + 2]);
        assert(looks_like_a_path_end(reason));
    }
    reading::law_verbose_line_reads_back(pieces.split("Dirty"@, told));
}

/// A line comes off the pipe without the line feed that ends it, and without the one carriage
/// return in front of that; without a line feed nothing is taken off.
pub proof fn law_line_ending_is_all_that_is_dropped(line: Seq<u8>)
    ensures
        raw_line::line_bytes(line + seq![13u8, 10u8]) == line,
        line.len() == 0 || line[line.len() - 1] != 13 ==> raw_line::line_bytes(line + seq![10u8])
            == line,
        line.len() == 0 || line[line.len() - 1] != 10 ==> raw_line::line_bytes(line) == line,
        raw_line::line_text(line) == raw_line::lossy_text(raw_line::line_bytes(line)),
{
    let returned = line + seq![13u8, 10u8];
    assert(returned.drop_last().drop_last() =~= line);
    assert((line + seq![10u8]).drop_last() =~= line);
}

/// Of cargo's stdout, text goes to stdout as it stands, an unreadable line is warned about with
/// the reason, and a message is kept behind those before it and passed on to nobody.
pub proof fn law_stdout_lines_are_sorted(kept: Seq<CargoMessageView>, line: StdoutLine)
    ensures
        line matches StdoutLine::Text(said) ==> message::passed_on(line) == Some(
            PassedOnView::Stdout(said@),
        ) && message::kept_with(kept, line) == kept,
        line matches StdoutLine::Unreadable(why) ==> message::passed_on(line) == Some(
            PassedOnView::Stderr(
                "warning: cargo-dirty: unreadable cargo output line: "@ + why@,
            ),
        ) && message::kept_with(kept, line) == kept,
        line matches StdoutLine::Message(found) ==> message::passed_on(line) is None
            && message::kept_with(kept, line) == kept.push(found@),
{
}

/// What is passed on of the bytes of a line follows from how it is read.
pub proof fn law_bytes_are_passed_on_as_read(line: Seq<u8>)
    ensures
        match message::reading_of(line) {
            Ok(None) => message::passed_of(line) == Some(
                PassedOnView::Stdout(vstd::utf8::decode_utf8(line)),
            ),
            Ok(Some(_)) => message::passed_of(line) is None,
            Err(why) => message::passed_of(line) == Some(
                PassedOnView::Stderr(
                    "warning: cargo-dirty: unreadable cargo output line: "@ + why,
                ),
            ),
        },
{
}

/// How many bytes open a bracket or a brace.
pub open spec fn openings(bytes: Seq<u8>) -> nat {
    bytes.filter(|byte: u8| byte == 91 || byte == 123).len()
}

/// A line is nested no deeper than it opens brackets, and just so deep where it does nothing but
/// open them; so a line that opens few is always read.
pub proof fn law_nesting_is_bounded_by_openings(bytes: Seq<u8>)
    ensures
        message::nesting(bytes) <= openings(bytes),
        (forall|i: int|
            0 <= i < bytes.len() ==> (#[trigger] bytes[i] == 91 || bytes[i] == 123))
            ==> message::nesting(bytes) == bytes.len(),
        openings(bytes) <= 768 ==> message::is_bearable(bytes),
    decreases bytes.len(),
{
    reveal(Seq::filter);
    lemma_openings(bytes);
}

/// The scan never has more brackets open than were opened.
proof fn lemma_openings(bytes: Seq<u8>)
    ensures
        message::scanned(bytes).open <= message::scanned(bytes).deepest,
        message::scanned(bytes).deepest <= openings(bytes),
        (forall|i: int|
            0 <= i < bytes.len() ==> (#[trigger] bytes[i] == 91 || bytes[i] == 123)) ==> {
            &&& message::scanned(bytes).open == bytes.len()
            &&& message::scanned(bytes).deepest == bytes.len()
            &&& !message::scanned(bytes).in_string
        },
    decreases bytes.len(),
{
    reveal(Seq::filter);
    if bytes.len() > 0 {
        let before = bytes.drop_last();
        lemma_openings(before);
        assert(bytes.last() == bytes[bytes.len() - 1]);
        if forall|i: int| 0 <= i < bytes.len() ==> (#[trigger] bytes[i] == 91 || bytes[i] == 123) {
            assert forall|i: int| 0 <= i < before.len() implies (#[trigger] before[i] == 91
                || before[i] == 123) by {
                assert(before[i] == bytes[i]);
            }
        }
    }
}

/// A line that does not begin as JSON does, by its first byte, is always read.
pub proof fn law_lines_that_begin_otherwise_are_read(bytes: Seq<u8>)
    requires
        bytes.len() > 0 ==> bytes[0] != 123 && bytes[0] != 91 && bytes[0] != 32 && bytes[0] != 9
            && bytes[0] != 13,
    ensures
        message::is_bearable(bytes),
        !message::may_begin_json(bytes),
{
}

/// What the running tally makes of a line that reports on a unit, kind by kind. A unit whose id
/// begins with an angle bracket is none.
pub proof fn law_tally_counts_by_kind(
    tally: EngineView,
    line: Seq<char>,
    event: CrateStatusEventView,
    reason: Seq<char>,
)
    requires
        stderr_verbose::event_of(text::trimmed_start(line)) == Some(event),
        event.crate_id.len() > 0 ==> event.crate_id[0] != '<',
    ensures
        ({
            let id = event.crate_id;
            let after = tally.with_line(line);
            let events = tally.events_of(line);
            let known = if tally.reasons.contains_key(id) {
                Some(tally.reasons[id])
            } else {
                None
            };
            &&& event.kind is Fresh ==> {
                &&& after == EngineView { fresh: tally.fresh.insert(id), ..tally }
                &&& events.len() == 0
            }
            &&& event.kind is Dirty && event.reason == Some(reason) ==> {
                &&& after.dirty == tally.dirty.insert(id)
                &&& after.fresh == tally.fresh
                &&& after.work == tally.work
                &&& known is None ==> after.reasons == tally.reasons.insert(id, reason)
                &&& known is Some ==> after.reasons == tally.reasons
                &&& events == if known is None && tally.work.contains(id) {
                    seq![EventView::WorkReason { crate_id: id, reason }]
                } else {
                    Seq::empty()
                }
            }
            &&& event.kind is Compiling || event.kind is Checking || event.kind is Building ==> {
                &&& after == EngineView { work: tally.work.insert(id), ..tally }
                &&& events == if tally.work.contains(id) {
                    Seq::empty()
                } else {
                    seq![EventView::WorkStarted { kind: event.kind, crate_id: id, reason: known }]
                }
            }
            &&& event.kind is Running || event.kind is Finished ==> after == tally && events.len()
                == 0
        }),
{
    reveal_strlit("<");
    cutting::law_front_is_what_it_begins_with(event.crate_id, "<"@);
    assert("<"@[0] == '<');
}

/// A line that is no verbose line, or whose unit begins with an angle bracket, leaves the tally as
/// it is and is worth nothing.
pub proof fn law_tally_passes_over_the_rest(tally: EngineView, line: Seq<char>)
    requires
        match stderr_verbose::event_of(text::trimmed_start(line)) {
            Some(event) => event.crate_id.len() > 0 && event.crate_id[0] == '<',
            None => true,
        },
    ensures
        tally.with_line(line) == tally,
        tally.events_of(line).len() == 0,
{
    reveal_strlit("<");
    if let Some(event) = stderr_verbose::event_of(text::trimmed_start(line)) {
        cutting::law_front_is_what_it_begins_with(event.crate_id, "<"@);
        assert("<"@.len() == 1);
    }
}

/// A line of stderr is kept in the place that it belongs to, and nowhere else: a verbose line as
/// what it says, with its reason as the latest of its unit; a line of the trace without its
/// indentation; any other line as it came.
pub proof fn law_parsed_line_is_kept_in_its_place(parsed: ParsedView, line: Seq<char>)
    ensures
        ({
            let said = text::trimmed_start(line);
            let after = parsed.with_line(line);
            match stderr_verbose::event_of(said) {
                Some(event) => {
                    &&& after.stderr_events == parsed.stderr_events.push(event)
                    &&& after.fingerprint_lines == parsed.fingerprint_lines
                    &&& after.other_stderr == parsed.other_stderr
                    &&& after.messages == parsed.messages
                    &&& event.reason matches Some(reason) ==> after.crate_reasons
                        == parsed.crate_reasons.insert(event.crate_id, reason)
                    &&& event.reason is None ==> after.crate_reasons == parsed.crate_reasons
                },
                None => {
                    &&& after.stderr_events == parsed.stderr_events
                    &&& after.messages == parsed.messages
                    &&& after.crate_reasons == parsed.crate_reasons
                    &&& cutting::holds(said, "cargo::core::compiler::fingerprint"@) ==> {
                        &&& after.fingerprint_lines == parsed.fingerprint_lines.push(said)
                        &&& after.other_stderr == parsed.other_stderr
                    }
                    &&& !cutting::holds(said, "cargo::core::compiler::fingerprint"@) ==> {
                        &&& after.fingerprint_lines == parsed.fingerprint_lines
                        &&& after.other_stderr == parsed.other_stderr.push(line)
                    }
                },
            }
        }),
{
    cutting::law_part_is_found(
        text::trimmed_start(line),
        "cargo::core::compiler::fingerprint"@,
    );
}

} // verus!
