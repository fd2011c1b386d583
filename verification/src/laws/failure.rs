//! Why a build failed, told by the messages and by the lines of stderr themselves.

use vstd::prelude::*;

use crate::build_log::BuildLogView;
use crate::laws::cutting;
use crate::message;
use crate::message::{CargoMessageView, DiagnosticLevel};
use crate::report;
use crate::text;

verus! {

/// The collected errors are the renderings of the compiler messages of level error, all of them,
/// whatever they say, in the order of the messages, and nothing else.
pub proof fn law_errors_are_the_rendered_errors(messages: Seq<CargoMessageView>)
    ensures
        message::rendered_errors(messages) == messages.filter_map(
            |message: CargoMessageView|
                match message {
                    CargoMessageView::CompilerMessage {
                        level: DiagnosticLevel::Error,
                        rendered: Some(rendered),
                    } => Some(rendered),
                    _ => None,
                },
        ),
    decreases messages.len(),
{
    if messages.len() > 0 {
        law_errors_are_the_rendered_errors(messages.drop_last());
    }
}

/// Each compiler message of level error that is rendered is among the collected errors.
pub proof fn law_every_rendered_error_is_collected(
    messages: Seq<CargoMessageView>,
    i: int,
    rendered: Seq<char>,
)
    requires
        0 <= i < messages.len(),
        messages[i] == (CargoMessageView::CompilerMessage {
            level: DiagnosticLevel::Error,
            rendered: Some(rendered),
        }),
    ensures
        message::rendered_errors(messages).contains(rendered),
    decreases messages.len(),
{
    let before = messages.drop_last();
    let earlier = message::rendered_errors(before);
    let all = message::rendered_errors(messages);
    if i < before.len() {
        law_every_rendered_error_is_collected(before, i, rendered);
        let k = choose|k: int| 0 <= k < earlier.len() && earlier[k] == rendered;
        assert(all[k] == rendered);
    } else {
        assert(all[earlier.len() as int] == rendered);
    }
}

/// What is told of a run that failed: the rendered errors of the compiler if there is any, the
/// end of cargo's own words otherwise. Of a run that succeeded nothing is told.
pub proof fn law_failure_is_told_by_the_compiler_first(
    messages: Seq<CargoMessageView>,
    log: BuildLogView,
    i: int,
    rendered: Seq<char>,
)
    ensures
        report::failure(true, messages, log).len() == 0,
        0 <= i < messages.len() && messages[i] == (CargoMessageView::CompilerMessage {
            level: DiagnosticLevel::Error,
            rendered: Some(rendered),
        }) ==> report::failure(false, messages, log) == message::rendered_errors(messages),
        (forall|k: int|
            0 <= k < messages.len() ==> !(#[trigger] messages[k] matches
                CargoMessageView::CompilerMessage {
                level: DiagnosticLevel::Error,
                rendered: Some(_),
            })) ==> report::failure(false, messages, log) == report::stderr_tail(
            log.other_stderr,
        ),
{
    if 0 <= i < messages.len() && messages[i] == (CargoMessageView::CompilerMessage {
        level: DiagnosticLevel::Error,
        rendered: Some(rendered),
    }) {
        law_every_rendered_error_is_collected(messages, i, rendered);
    }
    if forall|k: int|
        0 <= k < messages.len() ==> !(#[trigger] messages[k] matches
            CargoMessageView::CompilerMessage {
            level: DiagnosticLevel::Error,
            rendered: Some(_),
        }) {
        lemma_no_errors(messages);
    }
}

/// Without a rendered error nothing is collected.
proof fn lemma_no_errors(messages: Seq<CargoMessageView>)
    requires
        forall|k: int|
            0 <= k < messages.len() ==> !(#[trigger] messages[k] matches
                CargoMessageView::CompilerMessage {
                level: DiagnosticLevel::Error,
                rendered: Some(_),
            }),
    ensures
        message::rendered_errors(messages).len() == 0,
    decreases messages.len(),
{
    if messages.len() > 0 {
        let before = messages.drop_last();
        assert forall|k: int| 0 <= k < before.len() implies !(#[trigger] before[k] matches
            CargoMessageView::CompilerMessage {
            level: DiagnosticLevel::Error,
            rendered: Some(_),
        }) by {
            assert(before[k] == messages[k]);
        }
        lemma_no_errors(before);
        assert(messages.last() == messages[messages.len() - 1]);
    }
}

/// The word `error`.
pub open spec fn error_word() -> Seq<char> {
    seq!['e', 'r', 'r', 'o', 'r']
}

/// Whether a line says `error` behind white space or at once, with anything after it.
pub open spec fn says_error(line: Seq<char>) -> bool {
    exists|indent: Seq<char>, rest: Seq<char>|
        cutting::is_blank(indent) && line == #[trigger] cutting::joined(
            indent,
            error_word(),
            rest,
        )
}

/// An error begins where a line says so, indented or not.
pub proof fn law_error_begins_where_it_is_said(line: Seq<char>)
    ensures
        report::begins_error(line) == says_error(line),
{
    reveal_strlit("error");
    let word = error_word();
    assert("error"@ =~= word);
    if says_error(line) {
        let (indent, rest) = choose|indent: Seq<char>, rest: Seq<char>|
            cutting::is_blank(indent) && line == #[trigger] cutting::joined(indent, word, rest);
        let behind = word + rest;
        assert(behind[0] == 'e');
        assert(line =~= indent + behind);
        cutting::law_start_is_trimmed(indent, behind);
        cutting::law_begins_with_its_front(word, rest);
    }
    if report::begins_error(line) {
        let n = lemma_leading_white_is_blank(line);
        let indent = line.take(n);
        let behind = line.skip(n);
        cutting::law_front_is_what_it_begins_with(behind, "error"@);
        let rest = behind.skip(5);
        assert(line =~= cutting::joined(indent, word, rest));
    }
}

/// What is trimmed off the start of a text is white space.
pub proof fn lemma_leading_white_is_blank(s: Seq<char>) -> (n: int)
    ensures
        0 <= n <= s.len(),
        n == text::leading_white(s),
        cutting::is_blank(s.take(n)),
    decreases s.len(),
{
    if s.len() > 0 && text::is_white(s[0]) {
        let rest = s.drop_first();
        let n = lemma_leading_white_is_blank(rest);
        let blank = s.take(n + 1);
        assert forall|i: int| 0 <= i < blank.len() implies text::is_white(#[trigger] blank[i]) by {
            if i > 0 {
                assert(blank[i] == rest.take(n)[i - 1]);
            }
        }
        n + 1
    } else {
        0
    }
}

/// Of cargo's own words everything is shown from the first line that says `error` on.
pub proof fn law_words_are_shown_from_the_first_error(lines: Seq<Seq<char>>, at: int)
    requires
        0 <= at < lines.len(),
        says_error(lines[at]),
        forall|i: int| 0 <= i < at ==> !says_error(#[trigger] lines[i]),
    ensures
        report::stderr_tail(lines) == lines.skip(at),
{
    law_error_begins_where_it_is_said(lines[at]);
    assert forall|i: int| 0 <= i < at implies !report::begins_error(#[trigger] lines[i]) by {
        law_error_begins_where_it_is_said(lines[i]);
    }
    report::lemma_error_start(lines, at);
}

/// Where no line says `error`, the last twenty lines are shown, or all if there are no more.
pub proof fn law_last_words_are_shown_without_an_error(lines: Seq<Seq<char>>)
    requires
        forall|i: int| 0 <= i < lines.len() ==> !says_error(#[trigger] lines[i]),
    ensures
        report::stderr_tail(lines) == if lines.len() > 20 {
            lines.skip(lines.len() - 20)
        } else {
            lines
        },
{
    assert forall|at: int| !report::is_error_start(lines, at) by {
        if 0 <= at < lines.len() {
            law_error_begins_where_it_is_said(lines[at]);
            assert(!says_error(lines[at]));
        }
    }
}

} // verus!
