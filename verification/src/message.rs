//! The messages that cargo writes to its stdout.
//!
//! Under `--message-format=json` cargo's own messages are lines of JSON, and everything that a
//! built program writes is mixed in between them.

use vstd::prelude::*;
use vstd::slice::slice_subrange;
use vstd::string::StringExecFns;

use crate::raw_line;
use crate::text;

verus! {

/// How grave a compiler message is, as far as it matters here.
#[derive(Debug, Clone, Copy, PartialEq, Eq, Structural)]
pub enum DiagnosticLevel {
    /// An error in the user's code.
    Error,
    /// Anything else: warnings, notes, internal errors.
    Other,
}

/// One of cargo's JSON messages, as far as it matters here.
#[derive(Debug, PartialEq, Eq)]
pub enum CargoMessage {
    /// The compiler has something to say, and how it would render it.
    CompilerMessage { level: DiagnosticLevel, rendered: Option<String> },
    /// Any other message.
    Other,
}

/// A [`CargoMessage`] with its text as a sequence of characters.
pub enum CargoMessageView {
    CompilerMessage { level: DiagnosticLevel, rendered: Option<Seq<char>> },
    Other,
}

impl View for CargoMessage {
    type V = CargoMessageView;

    open spec fn view(&self) -> CargoMessageView {
        match self {
            CargoMessage::CompilerMessage { level, rendered } => CargoMessageView::CompilerMessage {
                level: *level,
                rendered: text::opt_view(*rendered),
            },
            CargoMessage::Other => CargoMessageView::Other,
        }
    }
}

/// What one line of cargo's stdout turned out to be.
#[derive(Debug, PartialEq, Eq)]
pub enum StdoutLine {
    /// Text that the built program wrote, without its line feed.
    Text(String),
    /// A message of cargo.
    Message(CargoMessage),
    /// A line that cannot be read, and why.
    Unreadable(String),
}

/// What becomes of a line of cargo's stdout that is not kept.
#[derive(Debug, PartialEq, Eq)]
pub enum PassedOn {
    /// This line goes to stdout.
    Stdout(String),
    /// This line goes to stderr.
    Stderr(String),
}

/// A [`PassedOn`] with its text as a sequence of characters.
pub enum PassedOnView {
    Stdout(Seq<char>),
    Stderr(Seq<char>),
}

impl View for PassedOn {
    type V = PassedOnView;

    open spec fn view(&self) -> PassedOnView {
        match self {
            PassedOn::Stdout(line) => PassedOnView::Stdout(line@),
            PassedOn::Stderr(line) => PassedOnView::Stderr(line@),
        }
    }
}

/// What goes in front of the reason why a line could not be read.
pub const UNREADABLE_LABEL: &'static str =
    "warning: cargo-dirty: unreadable cargo output line: ";

/// The bytes in front of the first line feed.
pub open spec fn first_line(bytes: Seq<u8>) -> Seq<u8>
    decreases bytes.len(),
{
    if bytes.len() == 0 || bytes[0] == 10 {
        Seq::empty()
    } else {
        seq![bytes[0]] + first_line(bytes.skip(1))
    }
}

/// How far a scan for brackets has come.
pub struct BracketScan {
    /// How many brackets are open.
    pub open: nat,
    /// How many brackets were open at most.
    pub deepest: nat,
    /// Whether a string is open, in which brackets do not count.
    pub in_string: bool,
    /// Whether a backslash in a string takes its meaning from the next byte.
    pub escaped: bool,
}

impl BracketScan {
    /// The scan after one more byte.
    pub open spec fn with_byte(self, byte: u8) -> BracketScan {
        if self.in_string {
            if self.escaped {
                BracketScan { escaped: false, ..self }
            } else if byte == BACKSLASH {
                BracketScan { escaped: true, ..self }
            } else if byte == QUOTE {
                BracketScan { in_string: false, ..self }
            } else {
                self
            }
        } else if byte == QUOTE {
            BracketScan { in_string: true, ..self }
        } else if byte == OPEN_BRACE || byte == OPEN_BRACKET {
            BracketScan {
                open: self.open + 1,
                deepest: if self.open == self.deepest {
                    self.deepest + 1
                } else {
                    self.deepest
                },
                ..self
            }
        } else if (byte == CLOSE_BRACE || byte == CLOSE_BRACKET) && self.open > 0 {
            BracketScan { open: (self.open - 1) as nat, ..self }
        } else {
            self
        }
    }
}

/// The scan of all bytes, from the first to the last.
pub open spec fn scanned(bytes: Seq<u8>) -> BracketScan
    decreases bytes.len(),
{
    if bytes.len() == 0 {
        BracketScan { open: 0, deepest: 0, in_string: false, escaped: false }
    } else {
        scanned(bytes.drop_last()).with_byte(bytes.last())
    }
}

/// How deep brackets outside of JSON strings are nested.
pub open spec fn nesting(bytes: Seq<u8>) -> nat {
    scanned(bytes).deepest
}

/// A double quote.
pub const QUOTE: u8 = 34;

/// A backslash.
pub const BACKSLASH: u8 = 92;

/// An opening square bracket.
pub const OPEN_BRACKET: u8 = 91;

/// A closing square bracket.
pub const CLOSE_BRACKET: u8 = 93;

/// An opening brace.
pub const OPEN_BRACE: u8 = 123;

/// A closing brace.
pub const CLOSE_BRACE: u8 = 125;

/// How deep JSON may be nested in a line that is read. The JSON reader recurses once for each
/// level and sets itself no limit, so it is the stack that sets one: a line that is nested without
/// bound ends the process. This depth stays well within the stack that a thread gets by default.
/// Cargo's messages stay below it: what nests deepest in them is the expansion of macros in
/// macros, two levels for each.
pub const MAX_NESTING: usize = 768;

/// Finds the end of the first line.
fn first_line_of(bytes: &[u8]) -> (line: &[u8])
    ensures
        line@ == first_line(bytes@),
{
    let mut at: usize = 0;
    assert(bytes@.skip(0) =~= bytes@);
    assert(bytes@.take(0) + first_line(bytes@) =~= first_line(bytes@));
    while at < bytes.len() && bytes[at] != 10
        invariant
            at <= bytes@.len(),
            first_line(bytes@) == bytes@.take(at as int) + first_line(bytes@.skip(at as int)),
        decreases bytes@.len() - at,
    {
        let ghost rest = bytes@.skip(at as int);
        assert(rest[0] == bytes@[at as int]);
        assert(rest.skip(1) =~= bytes@.skip(at + 1));
        assert(bytes@.take(at as int) + (seq![rest[0]] + first_line(rest.skip(1)))
            =~= bytes@.take(at + 1) + first_line(rest.skip(1)));
        at = at + 1;
    }
    let line = slice_subrange(bytes, 0, at);
    assert(first_line(bytes@.skip(at as int)) =~= Seq::empty()) by {
        if at < bytes@.len() {
            assert(bytes@.skip(at as int)[0] == bytes@[at as int]);
        }
    }
    assert(line@ =~= first_line(bytes@));
    line
}

/// Measures how deep brackets outside of JSON strings are nested.
fn nesting_of(bytes: &[u8]) -> (depth: usize)
    ensures
        depth == nesting(bytes@),
{
    let mut open: usize = 0;
    let mut deepest: usize = 0;
    let mut in_string = false;
    let mut escaped = false;
    let mut i: usize = 0;
    while i < bytes.len()
        invariant
            i <= bytes@.len(),
            open <= deepest <= i,
            scanned(bytes@.take(i as int)) == (BracketScan {
                open: open as nat,
                deepest: deepest as nat,
                in_string,
                escaped,
            }),
        decreases bytes@.len() - i,
    {
        let byte = bytes[i];
        assert(bytes@.take(i + 1).drop_last() =~= bytes@.take(i as int));
        if in_string {
            if escaped {
                escaped = false;
            } else if byte == BACKSLASH {
                escaped = true;
            } else if byte == QUOTE {
                in_string = false;
            }
        } else if byte == QUOTE {
            in_string = true;
        } else if byte == OPEN_BRACE || byte == OPEN_BRACKET {
            if open == deepest {
                deepest = deepest + 1;
            }
            open = open + 1;
        } else if (byte == CLOSE_BRACE || byte == CLOSE_BRACKET) && open > 0 {
            open = open - 1;
        }
        i = i + 1;
    }
    assert(bytes@.take(i as int) =~= bytes@);
    deepest
}

/// A space.
pub const SPACE: u8 = 32;

/// A horizontal tab.
pub const TAB: u8 = 9;

/// A carriage return.
pub const CARRIAGE_RETURN: u8 = 13;

/// Whether a line begins as a JSON object or array can.
pub open spec fn may_begin_json(line: Seq<u8>) -> bool {
    line.len() > 0 && (line[0] == OPEN_BRACE || line[0] == OPEN_BRACKET || line[0] == SPACE
        || line[0] == TAB || line[0] == CARRIAGE_RETURN)
}

/// Whether the stack bears the reading of a line: it is not UTF-8 or does not begin as JSON, so
/// that no JSON is read at all, or its JSON is not nested too deep.
pub open spec fn is_bearable(line: Seq<u8>) -> bool {
    ||| !vstd::utf8::valid_utf8(line)
    ||| !may_begin_json(line)
    ||| nesting(line) <= MAX_NESTING
}

/// What `cargo_metadata` makes of the bytes of a line: the message that it holds, none where it
/// is text, or why it cannot be read.
pub uninterp spec fn reading_of(line: Seq<u8>) -> Result<Option<CargoMessageView>, Seq<char>>;

/// Reads the first line of `bytes` with `cargo_metadata::Message::parse_stream`, and keeps of a
/// compiler message its level and its rendering.
///
/// Trusted: there is a line unless there are no bytes; what comes of it depends on its bytes
/// alone; a line that is not UTF-8 is an error, and nothing else is; a line that does not hold
/// one of cargo's messages is text and is handed out as it stands, without its line feed; and a
/// line that does begins as JSON does. Which message a line of JSON holds, and how an error is
/// worded, is left to [`reading_of`]. The call recurses once for each level of nesting in the
/// JSON, without a limit of its own, so lines that are nested too deep are kept from it; a line
/// that is not UTF-8 is refused, and one that begins otherwise than JSON is text, before anything
/// nested in it is read.
#[verifier::external_body]
fn parse_first_line(bytes: &[u8]) -> (found: Option<StdoutLine>)
    requires
        is_bearable(first_line(bytes@)),
    ensures
        (found is None) == (bytes@.len() == 0),
        match found {
            Some(StdoutLine::Unreadable(why)) => reading_of(first_line(bytes@)) == Err::<
                Option<CargoMessageView>,
                Seq<char>,
            >(why@) && !vstd::utf8::valid_utf8(first_line(bytes@)),
            Some(StdoutLine::Text(text)) => reading_of(first_line(bytes@)) == Ok::<
                Option<CargoMessageView>,
                Seq<char>,
            >(None) && vstd::utf8::valid_utf8(first_line(bytes@)) && text@
                == vstd::utf8::decode_utf8(first_line(bytes@)),
            Some(StdoutLine::Message(message)) => reading_of(first_line(bytes@)) == Ok::<
                Option<CargoMessageView>,
                Seq<char>,
            >(Some(message@)) && vstd::utf8::valid_utf8(first_line(bytes@)) && may_begin_json(
                first_line(bytes@),
            ),
            None => true,
        },
{
    let message = match cargo_metadata::Message::parse_stream(bytes).next()? {
        Ok(cargo_metadata::Message::TextLine(text)) => return Some(StdoutLine::Text(text)),
        Ok(cargo_metadata::Message::CompilerMessage(found)) => found.message,
        Ok(_) => return Some(StdoutLine::Message(CargoMessage::Other)),
        Err(error) => return Some(StdoutLine::Unreadable(error.to_string())),
    };
    let level = match message.level {
        cargo_metadata::diagnostic::DiagnosticLevel::Error => DiagnosticLevel::Error,
        _ => DiagnosticLevel::Other,
    };
    let rendered = message.rendered;
    Some(StdoutLine::Message(CargoMessage::CompilerMessage { level, rendered }))
}

/// What is passed on of a line.
pub open spec fn passed_on(line: StdoutLine) -> Option<PassedOnView> {
    match line {
        StdoutLine::Text(text) => Some(PassedOnView::Stdout(text@)),
        StdoutLine::Message(_) => None,
        StdoutLine::Unreadable(why) => Some(PassedOnView::Stderr(UNREADABLE_LABEL@ + why@)),
    }
}

/// The messages kept once a line has come.
pub open spec fn kept_with(kept: Seq<CargoMessageView>, line: StdoutLine) -> Seq<CargoMessageView> {
    match line {
        StdoutLine::Message(message) => kept.push(message@),
        _ => kept,
    }
}

/// What is passed on, by its view.
pub open spec fn passed_view(passed: Option<PassedOn>) -> Option<PassedOnView> {
    match passed {
        Some(passed) => Some(passed@),
        None => None,
    }
}

/// Sorts one line of cargo's stdout. A message is kept. Text that the built program wrote is
/// passed on at once, which is what keeps `cargo dirty run` and `cargo dirty test` usable. An
/// unreadable line is reported and skipped: cargo's exit status stays the source of truth, so
/// one such line must not blind us to the rest of the stream.
pub fn sort_line(messages: &mut Vec<CargoMessage>, line: StdoutLine) -> (passed: Option<PassedOn>)
    ensures
        passed_view(passed) == passed_on(line),
        text::views(final(messages)@) == kept_with(text::views(old(messages)@), line),
{
    match line {
        StdoutLine::Text(text) => Some(PassedOn::Stdout(text)),
        StdoutLine::Message(message) => {
            messages.push(message);
            assert(text::views(messages@) =~= text::views(old(messages)@).push(message@));
            None
        },
        StdoutLine::Unreadable(why) => {
            let mut warning = UNREADABLE_LABEL.to_owned();
            warning.append(why.as_str());
            Some(PassedOn::Stderr(warning))
        },
    }
}

/// What is passed on of the bytes of a line: text as it stands, a warning with the reason where
/// the line cannot be read, nothing of a message.
pub open spec fn passed_of(line: Seq<u8>) -> Option<PassedOnView> {
    match reading_of(line) {
        Ok(None) => Some(PassedOnView::Stdout(vstd::utf8::decode_utf8(line))),
        Ok(Some(_)) => None,
        Err(why) => Some(PassedOnView::Stderr(UNREADABLE_LABEL@ + why)),
    }
}

/// Tells whether the stack bears the reading of a line as it came off cargo's stdout.
pub fn can_be_read(raw: &[u8]) -> (bearable: bool)
    ensures
        bearable == is_bearable(first_line(raw@)),
{
    let line = first_line_of(raw);
    if line.len() == 0 {
        return true;
    }
    let first = line[0];
    let may_be_json = first == OPEN_BRACE || first == OPEN_BRACKET || first == SPACE || first == TAB
        || first == CARRIAGE_RETURN;
    !may_be_json || nesting_of(line) <= MAX_NESTING || !raw_line::is_utf8(line)
}

/// Takes one line as it came off cargo's stdout: keeps it if it is a message, and says what to
/// pass on otherwise. Without any bytes nothing happens. A line that is nested so deep that
/// reading it can exhaust the stack is not for this function: [`can_be_read`] tells.
pub fn ingest_stdout_line(messages: &mut Vec<CargoMessage>, raw: &[u8]) -> (passed: Option<
    PassedOn,
>)
    requires
        is_bearable(first_line(raw@)),
    ensures
        passed_view(passed) == if raw@.len() > 0 {
            passed_of(first_line(raw@))
        } else {
            None
        },
        text::views(final(messages)@) == match reading_of(first_line(raw@)) {
            Ok(Some(message)) if raw@.len() > 0 => text::views(old(messages)@).push(message),
            _ => text::views(old(messages)@),
        },
        (passed matches Some(PassedOn::Stderr(_))) == !vstd::utf8::valid_utf8(first_line(raw@)),
        passed is None && raw@.len() > 0 ==> may_begin_json(first_line(raw@)),
{
    match parse_first_line(raw) {
        Some(line) => sort_line(messages, line),
        None => None,
    }
}

/// Whether a message is a compiler error with a rendering, and the rendering.
pub open spec fn rendered_error(message: CargoMessageView) -> Option<Seq<char>> {
    match message {
        CargoMessageView::CompilerMessage { level: DiagnosticLevel::Error, rendered } => rendered,
        _ => None,
    }
}

/// The rendered compiler errors among messages, in their order.
pub open spec fn rendered_errors(messages: Seq<CargoMessageView>) -> Seq<Seq<char>>
    decreases messages.len(),
{
    if messages.len() == 0 {
        Seq::empty()
    } else {
        let earlier = rendered_errors(messages.drop_last());
        match rendered_error(messages.last()) {
            Some(rendered) => earlier.push(rendered),
            None => earlier,
        }
    }
}

/// Collects every rendered compiler error.
pub fn errors(messages: &[CargoMessage]) -> (rendered: Vec<String>)
    ensures
        text::views(rendered@) == rendered_errors(text::views(messages@)),
{
    let ghost all = text::views(messages@);
    let mut out: Vec<String> = Vec::new();
    assert(text::views(out@) =~= rendered_errors(all.take(0)));
    let mut i: usize = 0;
    while i < messages.len()
        invariant
            i <= messages@.len(),
            all == text::views(messages@),
            text::views(out@) == rendered_errors(all.take(i as int)),
        decreases messages@.len() - i,
    {
        let ghost before = out@;
        assert(all.take(i + 1).drop_last() =~= all.take(i as int));
        assert(all[i as int] == messages@[i as int]@);
        match &messages[i] {
            CargoMessage::CompilerMessage { level: DiagnosticLevel::Error, rendered: Some(text) } =>
            {
                out.push(text.clone());
                assert(text::views(out@) =~= text::views(before).push(text@));
            },
            _ => {},
        }
        i = i + 1;
    }
    assert(all.take(i as int) =~= all);
    out
}

} // verus!
