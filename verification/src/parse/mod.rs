//! What a line of cargo's stderr says.

pub mod fingerprint;
pub mod pattern;
pub mod status;
pub mod stderr_verbose;

use vstd::prelude::*;

pub use self::stderr_verbose::parse_line as parse_status_line;
pub use self::stderr_verbose::{
    CrateStatusEvent, CrateStatusEventView, CrateStatusKind, StderrLineDisposition,
};
use crate::message::{CargoMessage, CargoMessageView};
use crate::ordered;
use crate::ordered::{OrderedMap, TextKey};
use crate::text;

verus! {

/// A compilation unit's `name vX.Y.Z` id, as cargo writes it.
#[derive(Debug, PartialEq, Eq, PartialOrd, Ord, Hash)]
pub struct CrateId(String);

impl View for CrateId {
    type V = Seq<char>;

    closed spec fn view(&self) -> Seq<char> {
        self.0@
    }
}

impl Clone for CrateId {
    fn clone(&self) -> (copy: Self)
        ensures
            copy == *self,
    {
        CrateId(self.0.clone())
    }
}

impl TextKey for CrateId {
    fn key_text(&self) -> (key: &str) {
        self.0.as_str()
    }
}

/// The name in a unit id: what stands in front of its first white space.
pub open spec fn unit_name(id: Seq<char>) -> Seq<char> {
    id.take(text::leading_word(id) as int)
}

impl CrateId {
    /// The unit with this id.
    pub fn new(id: &str) -> (unit: CrateId)
        ensures
            unit@ == id@,
    {
        CrateId(id.to_owned())
    }

    /// The id as cargo writes it.
    pub fn as_str(&self) -> (id: &str)
        ensures
            id@ == self@,
    {
        self.0.as_str()
    }

    /// The crate's name, without its version.
    pub fn name(&self) -> (name: &str)
        ensures
            name@ == unit_name(self@),
    {
        text::leading_word_of(self.0.as_str())
    }

    /// Tells whether two ids are the same.
    pub fn same_as(&self, other: &CrateId) -> (same: bool)
        ensures
            same == (self@ == other@),
    {
        self.0 == other.0
    }
}

/// The kinds of work cargo reports.
#[derive(Debug, Clone, Copy, PartialEq, Eq, Structural)]
pub enum WorkKind {
    Compiling,
    Checking,
    Building,
}

/// The verb cargo uses for a kind of work.
pub open spec fn work_verb(kind: WorkKind) -> Seq<char> {
    match kind {
        WorkKind::Compiling => "Compiling"@,
        WorkKind::Checking => "Checking"@,
        WorkKind::Building => "Building"@,
    }
}

impl WorkKind {
    /// The verb cargo uses for this kind of work.
    pub fn verb(self) -> (verb: &'static str)
        ensures
            verb@ == work_verb(self),
    {
        match self {
            WorkKind::Compiling => "Compiling",
            WorkKind::Checking => "Checking",
            WorkKind::Building => "Building",
        }
    }
}

/// What cargo says about a unit.
#[derive(Debug, PartialEq, Eq)]
pub enum StatusKind {
    /// The unit is up to date.
    Fresh,
    /// The unit was invalidated, and why.
    Dirty { reason: String },
    /// Cargo works on the unit.
    Work(WorkKind),
}

impl Clone for StatusKind {
    fn clone(&self) -> (copy: Self)
        ensures
            copy@ == self@,
    {
        match self {
            StatusKind::Fresh => StatusKind::Fresh,
            StatusKind::Dirty { reason } => StatusKind::Dirty { reason: reason.clone() },
            StatusKind::Work(kind) => StatusKind::Work(*kind),
        }
    }
}

/// A [`StatusKind`] with its text as a sequence of characters.
pub enum StatusKindView {
    Fresh,
    Dirty { reason: Seq<char> },
    Work(WorkKind),
}

impl View for StatusKind {
    type V = StatusKindView;

    open spec fn view(&self) -> StatusKindView {
        match self {
            StatusKind::Fresh => StatusKindView::Fresh,
            StatusKind::Dirty { reason } => StatusKindView::Dirty { reason: reason@ },
            StatusKind::Work(kind) => StatusKindView::Work(*kind),
        }
    }
}

/// One status line: a unit and what cargo says about it.
#[derive(Debug, PartialEq, Eq)]
pub struct CrateStatus {
    pub id: CrateId,
    pub kind: StatusKind,
}

impl Clone for CrateStatus {
    fn clone(&self) -> (copy: Self)
        ensures
            copy@ == self@,
    {
        CrateStatus { id: self.id.clone(), kind: self.kind.clone() }
    }
}

/// A [`CrateStatus`] with its text as sequences of characters.
pub struct CrateStatusView {
    pub id: Seq<char>,
    pub kind: StatusKindView,
}

impl View for CrateStatus {
    type V = CrateStatusView;

    open spec fn view(&self) -> CrateStatusView {
        CrateStatusView { id: self.id@, kind: self.kind@ }
    }
}

/// What one line of cargo's stderr turned out to be.
#[derive(Debug, PartialEq, Eq)]
pub enum StderrLine {
    /// A status of a unit.
    Status(CrateStatus),
    /// A line of the fingerprint trace, without its indentation.
    FingerprintTrace(String),
    /// Any other line, verbatim.
    Other(String),
}

/// A [`StderrLine`] with its text as sequences of characters.
pub enum StderrLineView {
    Status(CrateStatusView),
    FingerprintTrace(Seq<char>),
    Other(Seq<char>),
}

impl View for StderrLine {
    type V = StderrLineView;

    open spec fn view(&self) -> StderrLineView {
        match self {
            StderrLine::Status(status) => StderrLineView::Status(status@),
            StderrLine::FingerprintTrace(line) => StderrLineView::FingerprintTrace(line@),
            StderrLine::Other(line) => StderrLineView::Other(line@),
        }
    }
}

/// What a line of stderr is: a status if it reads as one once its indentation is gone, a line
/// of the fingerprint trace if it names the tracing module, anything else otherwise.
pub open spec fn classified(line: Seq<char>) -> StderrLineView {
    let trimmed = text::trimmed_start(line);
    match status::status_of(trimmed) {
        Some(status) => StderrLineView::Status(status),
        None => if fingerprint::is_trace(trimmed) {
            StderrLineView::FingerprintTrace(trimmed)
        } else {
            StderrLineView::Other(line)
        },
    }
}

/// Classifies one raw line of cargo's stderr.
pub fn classify(line: &str) -> (classified: StderrLine)
    ensures
        classified@ == self::classified(line@),
{
    let trimmed = text::trim_start(line);
    match status::parse(trimmed) {
        Some(status) => StderrLine::Status(status),
        None => if fingerprint::is_fingerprint_trace_line(trimmed) {
            StderrLine::FingerprintTrace(trimmed.to_owned())
        } else {
            StderrLine::Other(line.to_owned())
        },
    }
}

/// Everything read from a cargo run, line by line.
#[derive(Debug)]
pub struct ParsedCargoOutput {
    /// The status lines, in the order in which they came.
    pub stderr_events: Vec<CrateStatusEvent>,
    /// The lines of the fingerprint trace, without their indentation.
    pub fingerprint_lines: Vec<String>,
    /// Every other line, verbatim.
    pub other_stderr: Vec<String>,
    /// Cargo's JSON messages.
    pub messages: Vec<CargoMessage>,
    /// The latest reason given for each unit.
    pub crate_reasons: OrderedMap<String, String>,
}

/// A [`ParsedCargoOutput`] with its text as sequences of characters.
#[verifier::ext_equal]
pub struct ParsedView {
    pub stderr_events: Seq<CrateStatusEventView>,
    pub fingerprint_lines: Seq<Seq<char>>,
    pub other_stderr: Seq<Seq<char>>,
    pub messages: Seq<CargoMessageView>,
    pub crate_reasons: Map<Seq<char>, Seq<char>>,
}

impl View for ParsedCargoOutput {
    type V = ParsedView;

    open spec fn view(&self) -> ParsedView {
        ParsedView {
            stderr_events: text::views(self.stderr_events@),
            fingerprint_lines: text::views(self.fingerprint_lines@),
            other_stderr: text::views(self.other_stderr@),
            messages: text::views(self.messages@),
            crate_reasons: ordered::value_views(self.crate_reasons@),
        }
    }
}

impl ParsedView {
    /// Nothing read yet.
    pub open spec fn nothing() -> ParsedView {
        ParsedView {
            stderr_events: Seq::empty(),
            fingerprint_lines: Seq::empty(),
            other_stderr: Seq::empty(),
            messages: Seq::empty(),
            crate_reasons: Map::empty(),
        }
    }

    /// What has been read after one more line of stderr.
    pub open spec fn with_line(self, line: Seq<char>) -> ParsedView {
        let trimmed = text::trimmed_start(line);
        match stderr_verbose::event_of(trimmed) {
            Some(event) => ParsedView {
                stderr_events: self.stderr_events.push(event),
                crate_reasons: match event.reason {
                    Some(reason) => self.crate_reasons.insert(event.crate_id, reason),
                    None => self.crate_reasons,
                },
                ..self
            },
            None => if fingerprint::is_trace(trimmed) {
                ParsedView { fingerprint_lines: self.fingerprint_lines.push(trimmed), ..self }
            } else {
                ParsedView { other_stderr: self.other_stderr.push(line), ..self }
            },
        }
    }
}

impl Default for ParsedCargoOutput {
    fn default() -> (parsed: Self)
        ensures
            parsed@ == ParsedView::nothing(),
    {
        let parsed = ParsedCargoOutput {
            stderr_events: Vec::new(),
            fingerprint_lines: Vec::new(),
            other_stderr: Vec::new(),
            messages: Vec::new(),
            crate_reasons: OrderedMap::new(),
        };
        assert(parsed@ =~= ParsedView::nothing());
        parsed
    }
}

impl ParsedCargoOutput {
    /// Records one line of stderr. Nothing of it is passed on to the terminal.
    pub fn ingest_stderr_line(&mut self, line: &str) -> (disposition: StderrLineDisposition)
        ensures
            disposition == StderrLineDisposition::Suppress,
            final(self)@ == old(self)@.with_line(line@),
    {
        let ghost before = self@;
        let trimmed = text::trim_start(line);
        if let Some(event) = stderr_verbose::parse_line(trimmed) {
            if let Some(reason) = &event.reason {
                self.crate_reasons.insert(event.crate_id.clone(), reason.clone());
                assert(self@.crate_reasons =~= before.crate_reasons.insert(
                    event.crate_id@,
                    reason@,
                ));
            }
            let ghost read = event@;
            self.stderr_events.push(event);
            assert(self@.stderr_events =~= before.stderr_events.push(read));
            assert(self@ =~= before.with_line(line@));
            return StderrLineDisposition::Suppress;
        }
        if fingerprint::is_fingerprint_trace_line(trimmed) {
            self.fingerprint_lines.push(trimmed.to_owned());
            assert(self@.fingerprint_lines =~= before.fingerprint_lines.push(trimmed@));
            assert(self@ =~= before.with_line(line@));
            return StderrLineDisposition::Suppress;
        }
        self.other_stderr.push(line.to_owned());
        assert(self@.other_stderr =~= before.other_stderr.push(line@));
        assert(self@ =~= before.with_line(line@));
        StderrLineDisposition::Suppress
    }

    /// Records one of cargo's messages.
    pub fn ingest_message(&mut self, msg: CargoMessage)
        ensures
            final(self)@ == (ParsedView { messages: old(self)@.messages.push(msg@), ..old(self)@ }),
    {
        let ghost before = self@;
        self.messages.push(msg);
        assert(self@.messages =~= before.messages.push(msg@));
        assert(self@ =~= (ParsedView { messages: before.messages.push(msg@), ..before }));
    }
}

} // verus!
