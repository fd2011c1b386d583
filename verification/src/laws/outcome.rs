//! What the report promises for every run.

use vstd::prelude::*;

use crate::build_log::{BuildLogView, DisplayEventView};
use crate::message;
use crate::message::CargoMessageView;
use crate::report;
use crate::style;

verus! {

/// A build that succeeds has no failure to tell of.
pub proof fn law_success_is_terse(messages: Seq<CargoMessageView>, log: BuildLogView)
    ensures
        report::failure(true, messages, log) == Seq::<Seq<char>>::empty(),
{
}

/// A build that fails is never silent as long as anything was said: the compiler's errors are
/// shown, and where there are none, something of what cargo itself said.
pub proof fn law_failure_is_told(messages: Seq<CargoMessageView>, log: BuildLogView)
    ensures
        message::rendered_errors(messages).len() > 0 ==> report::failure(false, messages, log)
            == message::rendered_errors(messages),
        message::rendered_errors(messages).len() == 0 ==> report::failure(false, messages, log)
            == report::stderr_tail(log.other_stderr),
        message::rendered_errors(messages).len() == 0 && log.other_stderr.len() > 0
            ==> report::failure(false, messages, log).len() > 0,
{
    let lines = log.other_stderr;
    if exists|at: int| report::is_error_start(lines, at) {
        let at = choose|at: int| report::is_error_start(lines, at);
        assert(report::is_error_start(lines, at));
    }
}

/// What is shown of cargo's own words is the end of them, unbroken. Every line from the first
/// error on is shown, and where there is no error no more than the last few lines are.
pub proof fn law_stderr_tail_is_the_end(lines: Seq<Seq<char>>, at: int)
    requires
        0 <= at < lines.len(),
    ensures
        report::stderr_tail(lines).is_suffix_of(lines),
        report::begins_error(lines[at]) ==> report::stderr_tail(lines).len() >= lines.len() - at,
        (forall|i: int| 0 <= i < lines.len() ==> !report::begins_error(#[trigger] lines[i]))
            ==> report::stderr_tail(lines).len() <= report::RAW_STDERR_TAIL_LINES,
{
    if report::begins_error(lines[at]) {
        let first = lemma_first_error(lines, at);
        report::lemma_error_start(lines, first);
    } else if exists|start: int| report::is_error_start(lines, start) {
        let start = choose|start: int| report::is_error_start(lines, start);
        assert(report::is_error_start(lines, start));
        assert(report::begins_error(lines[start]));
    }
}

/// Where a line begins an error, one of the lines up to it is the first to do so.
proof fn lemma_first_error(lines: Seq<Seq<char>>, at: int) -> (first: int)
    requires
        0 <= at < lines.len(),
        report::begins_error(lines[at]),
    ensures
        0 <= first <= at,
        report::is_error_start(lines, first),
    decreases at,
{
    if exists|earlier: int| 0 <= earlier < at && report::begins_error(#[trigger] lines[earlier]) {
        let earlier = choose|earlier: int|
            0 <= earlier < at && report::begins_error(#[trigger] lines[earlier]);
        lemma_first_error(lines, earlier)
    } else {
        at
    }
}

/// Fresh crates are listed only on request; everything else is shown either way.
pub proof fn law_fresh_is_shown_on_request(event: DisplayEventView)
    ensures
        event is Fresh ==> report::event_lines(event, false) == Seq::<Seq<char>>::empty(),
        event is Fresh ==> report::event_lines(event, true).len() == 1,
        event !is Fresh ==> report::event_lines(event, true) == report::event_lines(event, false),
        event !is Fresh ==> report::event_lines(event, false).len() > 0,
{
}

/// The number that decimal digits stand for.
pub open spec fn number_in(digits: Seq<char>) -> nat
    decreases digits.len(),
{
    if digits.len() == 0 {
        0
    } else {
        10 * number_in(digits.drop_last()) + (digits.last() as nat - 48) as nat
    }
}

/// A number that is written in decimal reads back as itself.
pub proof fn law_decimal_reads_back(n: nat)
    ensures
        number_in(style::decimal(n)) == n,
        n > 0 ==> style::decimal(n)[0] != '0',
        forall|i: int|
            0 <= i < style::decimal(n).len() ==> '0' <= #[trigger] style::decimal(n)[i] <= '9',
    decreases n,
{
    let digits = style::decimal(n);
    if n < 10 {
        assert(digits.drop_last() =~= Seq::empty());
        assert(number_in(digits.drop_last()) == 0);
    } else {
        law_decimal_reads_back(n / 10);
        assert(digits.drop_last() =~= style::decimal(n / 10));
        assert(digits[0] == style::decimal(n / 10)[0]);
        assert forall|i: int| 0 <= i < digits.len() implies '0' <= #[trigger] digits[i]
            <= '9' by {
            if i < digits.len() - 1 {
                assert(digits[i] == style::decimal(n / 10)[i]);
            }
        }
    }
}

/// A line of cargo's stdout is read without the line feed that ends it.
pub proof fn law_stdout_lines_lose_their_line_feed(line: Seq<u8>)
    requires
        forall|i: int| 0 <= i < line.len() ==> #[trigger] line[i] != 10,
    ensures
        message::first_line(line) == line,
        message::first_line(line.push(10)) == line,
    decreases line.len(),
{
    let fed = line.push(10);
    if line.len() == 0 {
        assert(message::first_line(line) =~= line);
        assert(message::first_line(fed) =~= line);
    } else {
        let rest = line.skip(1);
        assert forall|i: int| 0 <= i < rest.len() implies #[trigger] rest[i] != 10 by {
            assert(rest[i] == line[i + 1]);
        }
        law_stdout_lines_lose_their_line_feed(rest);
        assert(line[0] != 10);
        assert(fed.skip(1) =~= rest.push(10));
        assert(seq![line[0]] + rest =~= line);
    }
}

} // verus!
