//! What is read out of the lines of the fingerprint trace, told by their characters.

use vstd::prelude::*;

use crate::laws::causes;
use crate::laws::cutting;
use crate::laws::failure;
use crate::parse::fingerprint;
use crate::text;

verus! {

/// Whether a text is what a line says: something, without white space at its ends.
pub open spec fn is_saying(said: Seq<char>) -> bool {
    said.len() > 0 && cutting::is_tight(said)
}

/// A label followed by white space and a saying gives the saying.
proof fn lemma_labelled(
    label: Seq<char>,
    gap: Seq<char>,
    said: Seq<char>,
    end: Seq<char>,
    keep_label: bool,
)
    requires
        cutting::is_blank(gap),
        cutting::is_blank(end),
        is_saying(said),
    ensures
        fingerprint::labelled_detail(label + gap + said + end, label, keep_label) == Some(
            if keep_label {
                label + " "@ + said
            } else {
                said
            },
        ),
{
    let rest = gap + said + end;
    assert(label + gap + said + end =~= label + rest);
    cutting::law_begins_with_its_front(label, rest);
    cutting::law_both_ends_are_trimmed(gap, said, end);
}

/// A label with nothing but white space behind it gives nothing.
proof fn lemma_bare_label(label: Seq<char>, blank: Seq<char>, keep_label: bool)
    requires
        cutting::is_blank(blank),
    ensures
        fingerprint::labelled_detail(label + blank, label, keep_label) is None,
{
    let none = Seq::<char>::empty();
    cutting::law_begins_with_its_front(label, blank);
    cutting::law_both_ends_are_trimmed(blank, none, none);
    assert(blank =~= blank + none + none);
}

/// A line without a label gives nothing by it.
proof fn lemma_unlabelled(line: Seq<char>, label: Seq<char>, keep_label: bool)
    requires
        line.len() < label.len() || line.take(label.len() as int) != label,
    ensures
        fingerprint::labelled_detail(line, label, keep_label) is None,
{
    cutting::law_front_is_what_it_begins_with(line, label);
    if text::begins_with(line, label) {
        assert(line.take(label.len() as int) =~= label);
    }
}

/// The labels are told apart by their first characters.
proof fn lemma_labels()
    ensures
        "err:"@[0] == 'e',
        "dirty:"@[0] == 'd',
        "Caused by:"@[0] == 'C',
        "Caused by"@[0] == 'C',
        "err:"@.len() == 4,
        "dirty:"@.len() == 6,
        "Caused by:"@.len() == 10,
        "Caused by"@.len() == 9,
        "Caused by:"@[9] == ':',
        "Caused by:"@ =~= "Caused by"@ + seq![':'],
{
    reveal_strlit("err:");
    reveal_strlit("dirty:");
    reveal_strlit("Caused by:");
    reveal_strlit("Caused by");
}

/// A text that begins with another character does not begin with the label.
proof fn lemma_other_label(line: Seq<char>, label: Seq<char>)
    requires
        line.len() > 0,
        label.len() > 0,
        line[0] != label[0],
    ensures
        line.len() < label.len() || line.take(label.len() as int) != label,
{
    if line.len() >= label.len() {
        assert(line.take(label.len() as int)[0] == line[0]);
    }
}

/// The detail behind `err:` is everything said there, word for word.
pub proof fn law_err_detail_is_verbatim(gap: Seq<char>, said: Seq<char>, end: Seq<char>)
    requires
        cutting::is_blank(gap),
        cutting::is_blank(end),
        is_saying(said),
    ensures
        fingerprint::detail_in("err:"@ + gap + said + end) == Some(said),
{
    lemma_labelled("err:"@, gap, said, end, false);
}

/// The detail behind `dirty:` is everything said there, word for word.
pub proof fn law_dirty_detail_is_verbatim(gap: Seq<char>, said: Seq<char>, end: Seq<char>)
    requires
        cutting::is_blank(gap),
        cutting::is_blank(end),
        is_saying(said),
    ensures
        fingerprint::detail_in("dirty:"@ + gap + said + end) == Some(said),
{
    lemma_labels();
    let line = "dirty:"@ + gap + said + end;
    assert(line[0] == 'd');
    lemma_other_label(line, "err:"@);
    lemma_unlabelled(line, "err:"@, false);
    lemma_labelled("dirty:"@, gap, said, end, false);
}

/// The detail behind `Caused by:` is everything said there, word for word, behind the label and
/// a space.
pub proof fn law_cause_detail_keeps_its_label(gap: Seq<char>, said: Seq<char>, end: Seq<char>)
    requires
        cutting::is_blank(gap),
        cutting::is_blank(end),
        is_saying(said),
    ensures
        fingerprint::detail_in("Caused by:"@ + gap + said + end) == Some("Caused by:"@ + " "@ + said),
{
    lemma_labels();
    let line = "Caused by:"@ + gap + said + end;
    assert(line[0] == 'C');
    lemma_other_label(line, "err:"@);
    lemma_unlabelled(line, "err:"@, false);
    lemma_other_label(line, "dirty:"@);
    lemma_unlabelled(line, "dirty:"@, false);
    lemma_labelled("Caused by:"@, gap, said, end, true);
}

/// The detail behind `Caused by` without a colon is everything said there, word for word.
pub proof fn law_bare_cause_detail_is_verbatim(gap: Seq<char>, said: Seq<char>, end: Seq<char>)
    requires
        cutting::is_blank(gap),
        cutting::is_blank(end),
        is_saying(said),
        gap.len() > 0 || said[0] != ':',
    ensures
        fingerprint::detail_in("Caused by"@ + gap + said + end) == Some(said),
{
    lemma_labels();
    let line = "Caused by"@ + gap + said + end;
    assert(line[0] == 'C');
    lemma_other_label(line, "err:"@);
    lemma_unlabelled(line, "err:"@, false);
    lemma_other_label(line, "dirty:"@);
    lemma_unlabelled(line, "dirty:"@, false);
    if line.len() >= 10 {
        assert(line.take(10)[9] == line[9]);
        if gap.len() > 0 {
            assert(line[9] == gap[0]);
        } else {
            assert(line[9] == said[0]);
        }
    }
    lemma_unlabelled(line, "Caused by:"@, true);
    lemma_labelled("Caused by"@, gap, said, end, false);
}

/// A line that begins with none of the labels carries no detail, nor does a bare label.
pub proof fn law_unlabelled_lines_carry_nothing(line: Seq<char>)
    requires
        line.len() < 4 || line.take(4) != "err:"@,
        line.len() < 6 || line.take(6) != "dirty:"@,
        line.len() < 9 || line.take(9) != "Caused by"@,
    ensures
        fingerprint::detail_in(line) is None,
{
    lemma_labels();
    lemma_unlabelled(line, "err:"@, false);
    lemma_unlabelled(line, "dirty:"@, false);
    lemma_unlabelled(line, "Caused by"@, false);
    if line.len() >= 10 && line.take(10) == "Caused by:"@ {
        assert(line.take(9) =~= line.take(10).take(9));
        assert("Caused by:"@.take(9) =~= "Caused by"@);
    }
    lemma_unlabelled(line, "Caused by:"@, true);
}

/// A bare label carries no detail; a bare `Caused by:` leaves its colon.
pub proof fn law_bare_labels(blank: Seq<char>)
    requires
        cutting::is_blank(blank),
    ensures
        fingerprint::detail_in("err:"@ + blank) is None,
        fingerprint::detail_in("dirty:"@ + blank) is None,
        fingerprint::detail_in("Caused by"@ + blank) is None,
        fingerprint::detail_in("Caused by:"@ + blank) == Some(seq![':']),
{
    lemma_labels();
    let err = "err:"@ + blank;
    let dirty = "dirty:"@ + blank;
    let bare = "Caused by"@ + blank;
    let cause = "Caused by:"@ + blank;
    assert(err[0] == 'e' && dirty[0] == 'd' && bare[0] == 'C' && cause[0] == 'C');
    lemma_bare_label("err:"@, blank, false);
    lemma_other_label(err, "dirty:"@);
    lemma_unlabelled(err, "dirty:"@, false);
    lemma_other_label(err, "Caused by:"@);
    lemma_unlabelled(err, "Caused by:"@, true);
    lemma_other_label(err, "Caused by"@);
    lemma_unlabelled(err, "Caused by"@, false);
    lemma_other_label(dirty, "err:"@);
    lemma_unlabelled(dirty, "err:"@, false);
    lemma_bare_label("dirty:"@, blank, false);
    lemma_other_label(dirty, "Caused by:"@);
    lemma_unlabelled(dirty, "Caused by:"@, true);
    lemma_other_label(dirty, "Caused by"@);
    lemma_unlabelled(dirty, "Caused by"@, false);
    lemma_other_label(bare, "err:"@);
    lemma_unlabelled(bare, "err:"@, false);
    lemma_other_label(bare, "dirty:"@);
    lemma_unlabelled(bare, "dirty:"@, false);
    if bare.len() >= 10 {
        assert(bare.take(10)[9] == blank[0]);
    }
    lemma_unlabelled(bare, "Caused by:"@, true);
    lemma_bare_label("Caused by"@, blank, false);
    lemma_other_label(cause, "err:"@);
    lemma_unlabelled(cause, "err:"@, false);
    lemma_other_label(cause, "dirty:"@);
    lemma_unlabelled(cause, "dirty:"@, false);
    lemma_bare_label("Caused by:"@, blank, true);
    let none = Seq::<char>::empty();
    assert(cause =~= "Caused by"@ + none + seq![':'] + blank);
    lemma_labelled("Caused by"@, none, seq![':'], blank, false);
}

/// What a header says of a unit: its name, white space, its version, and what follows.
pub open spec fn header(
    opening: Seq<char>,
    blank: Seq<char>,
    name: Seq<char>,
    gap: Seq<char>,
    version: Seq<char>,
    rest: Seq<char>,
) -> Seq<char> {
    opening + (blank + name + (gap + (version + rest)))
}

/// A header names its unit: the name, a space and the version, whatever follows the version
/// behind a slash or white space.
pub proof fn law_header_names_its_unit(
    dirty: bool,
    blank: Seq<char>,
    name: Seq<char>,
    gap: Seq<char>,
    version: Seq<char>,
    rest: Seq<char>,
)
    requires
        cutting::is_blank(blank),
        cutting::is_blank(gap),
        gap.len() > 0,
        name.len() > 0,
        cutting::is_unbroken(name),
        version.len() > 0,
        version[0] == 'v',
        cutting::is_unbroken(version),
        forall|i: int| 0 <= i < version.len() ==> #[trigger] version[i] != '/',
        rest.len() > 0 ==> rest[0] == '/' || text::is_white(rest[0]),
    ensures
        fingerprint::header_id(
            header(
                if dirty {
                    "fingerprint dirty for "@
                } else {
                    "fingerprint error for "@
                },
                blank,
                name,
                gap,
                version,
                rest,
            ),
        ) == Some(name + " "@ + version),
{
    reveal_strlit("fingerprint dirty for ");
    reveal_strlit("fingerprint error for ");
    reveal_strlit("/");
    reveal_strlit("v");
    assert("/"@ =~= seq!['/']);
    assert("v"@ =~= seq!['v']);
    let opening = if dirty {
        "fingerprint dirty for "@
    } else {
        "fingerprint error for "@
    };
    let behind = gap + (version + rest);
    let body = blank + name + behind;
    let line = opening + body;
    cutting::law_begins_with_its_front(opening, body);
    if dirty {
        cutting::law_front_is_what_it_begins_with(line, "fingerprint error for "@);
        assert(line[12] == 'd');
        assert("fingerprint error for "@[12] == 'e');
    }
    assert(behind[0] == gap[0]);
    cutting::law_first_word(blank, name, behind);
    let (word, after) = lemma_word_and_rest(version, rest);
    assert(behind =~= gap + word + after);
    cutting::law_first_word(gap, word, after);
    let cut = word.skip(version.len() as int);
    if cut.len() > 0 {
        assert(word =~= cutting::joined(version, "/"@, cut.skip(1)));
        cutting::lemma_char_comes_first(version, '/');
        cutting::law_split_at_the_first(version, "/"@, cut.skip(1));
    } else {
        assert(word =~= version);
        cutting::law_split_is_what_it_was(word, "/"@);
        if cutting::holds(word, "/"@) {
            let (a, b) = choose|a: Seq<char>, b: Seq<char>|
                word == #[trigger] cutting::joined(a, "/"@, b);
            assert(word[a.len() as int] == '/');
        }
    }
    assert(version.subrange(0, 1) =~= seq!['v']);
}

/// The word that a version begins, and what follows it.
proof fn lemma_word_and_rest(version: Seq<char>, rest: Seq<char>) -> (parts: (Seq<char>, Seq<char>))
    requires
        version.len() > 0,
        cutting::is_unbroken(version),
        rest.len() > 0 ==> rest[0] == '/' || text::is_white(rest[0]),
    ensures
        parts.0 + parts.1 == version + rest,
        cutting::is_unbroken(parts.0),
        parts.0.len() >= version.len(),
        parts.0.take(version.len() as int) == version,
        parts.0.len() > version.len() ==> parts.0[version.len() as int] == '/',
        parts.1.len() > 0 ==> text::is_white(parts.1[0]),
{
    let n = lemma_unbroken_run(rest);
    let word = version + rest.take(n);
    let after = rest.skip(n);
    assert(word + after =~= version + rest);
    assert forall|i: int| 0 <= i < word.len() implies !text::is_white(#[trigger] word[i]) by {
        if i < version.len() {
            assert(word[i] == version[i]);
        } else {
            assert(word[i] == rest[i - version.len()]);
        }
    }
    assert(word.take(version.len() as int) =~= version);
    (word, after)
}

/// How far a text goes on without white space.
proof fn lemma_unbroken_run(s: Seq<char>) -> (n: int)
    ensures
        0 <= n <= s.len(),
        forall|i: int| 0 <= i < n ==> !text::is_white(#[trigger] s[i]),
        n < s.len() ==> text::is_white(s[n]),
    decreases s.len(),
{
    if s.len() == 0 || text::is_white(s[0]) {
        0
    } else {
        let rest = s.drop_first();
        let n = lemma_unbroken_run(rest);
        assert forall|i: int| 0 <= i < n + 1 implies !text::is_white(#[trigger] s[i]) by {
            if i > 0 {
                assert(rest[i - 1] == s[i]);
            }
        }
        if n < rest.len() {
            assert(rest[n] == s[n + 1]);
        }
        n + 1
    }
}

/// A header says the unit that is read out of it: behind one of the two openings stand the name
/// and the version, which begins with a `v` and ends at a slash, white space or the end.
pub proof fn law_unit_stands_in_its_header(line: Seq<char>) -> (pieces: (
    Seq<char>,
    Seq<char>,
    Seq<char>,
    Seq<char>,
    Seq<char>,
))
    requires
        fingerprint::header_id(line) is Some,
    ensures
        ({
            let (blank, name, gap, version, rest) = pieces;
            &&& line == header("fingerprint dirty for "@, blank, name, gap, version, rest) || line
                == header("fingerprint error for "@, blank, name, gap, version, rest)
            &&& cutting::is_blank(blank)
            &&& name.len() > 0 && cutting::is_unbroken(name)
            &&& gap.len() > 0 && cutting::is_blank(gap)
            &&& version.len() > 0 && version[0] == 'v' && cutting::is_unbroken(version)
            &&& forall|i: int| 0 <= i < version.len() ==> #[trigger] version[i] != '/'
            &&& rest.len() > 0 ==> rest[0] == '/' || text::is_white(rest[0])
            &&& fingerprint::header_id(line) == Some(name + " "@ + version)
        }),
{
    reveal_strlit("/");
    reveal_strlit("v");
    assert("/"@ =~= seq!['/']);
    assert("v"@ =~= seq!['v']);
    cutting::law_front_is_what_it_begins_with(line, "fingerprint dirty for "@);
    cutting::law_front_is_what_it_begins_with(line, "fingerprint error for "@);
    let body = fingerprint::header_rest(line)->0;
    let (blank, name, behind) = lemma_word_in(body);
    let (gap, second, after) = lemma_word_in(behind);
    let version = fingerprint::before_slash(second);
    cutting::law_split_is_what_it_was(second, "/"@);
    let cut = second.skip(version.len() as int);
    if let Some((front, back)) = text::split_at_first(second, "/"@) {
        assert(cut =~= seq!['/'] + back);
        assert forall|i: int| 0 <= i < version.len() implies #[trigger] version[i] != '/' by {
            let mark = "/"@;
            if version[i] == '/' {
                assert((version + mark).subrange(i, i + mark.len()) =~= mark);
            }
        }
    } else {
        assert(cut =~= Seq::empty());
        assert forall|i: int| 0 <= i < version.len() implies #[trigger] version[i] != '/' by {
            if version[i] == '/' {
                assert(second =~= cutting::joined(second.take(i), "/"@, second.skip(i + 1)));
            }
        }
    }
    cutting::law_front_is_what_it_begins_with(version, "v"@);
    assert("v"@[0] == version[0]);
    let rest = cut + after;
    assert(second =~= version + cut);
    assert forall|i: int| 0 <= i < version.len() implies !text::is_white(#[trigger] version[i]) by {
        assert(version[i] == second[i]);
    }
    assert(gap + (version + rest) =~= gap + second + after);
    assert(body =~= blank + name + (gap + (version + rest)));
    if cut.len() > 0 {
        assert(rest[0] == cut[0]);
    } else {
        assert(rest =~= after);
    }
    (blank, name, gap, version, rest)
}

/// A text is white space, its first word, and the rest.
proof fn lemma_word_in(s: Seq<char>) -> (parts: (Seq<char>, Seq<char>, Seq<char>))
    ensures
        s == parts.0 + parts.1 + parts.2,
        cutting::is_blank(parts.0),
        cutting::is_unbroken(parts.1),
        parts.1 == text::first_word(s),
        parts.2 == text::after_first_word(s),
        parts.2.len() > 0 ==> text::is_white(parts.2[0]),
        s.len() > 0 && text::is_white(s[0]) ==> parts.0.len() > 0,
{
    let n = failure::lemma_leading_white_is_blank(s);
    let behind = s.skip(n);
    causes::lemma_leading_word_is_a_word(behind);
    let m = text::leading_word(behind) as int;
    assert(s =~= s.take(n) + behind.take(m) + behind.skip(m));
    (s.take(n), behind.take(m), behind.skip(m))
}

/// A line that opens in neither way is no header.
pub proof fn law_other_openings_are_no_header(line: Seq<char>)
    requires
        line.len() < 22 || line.take(22) != "fingerprint dirty for "@,
        line.len() < 22 || line.take(22) != "fingerprint error for "@,
    ensures
        fingerprint::header_id(line) is None,
{
    reveal_strlit("fingerprint dirty for ");
    reveal_strlit("fingerprint error for ");
    cutting::law_front_is_what_it_begins_with(line, "fingerprint dirty for "@);
    cutting::law_front_is_what_it_begins_with(line, "fingerprint error for "@);
    if text::begins_with(line, "fingerprint dirty for "@) {
        assert(line.take(22) =~= "fingerprint dirty for "@);
    }
    if text::begins_with(line, "fingerprint error for "@) {
        assert(line.take(22) =~= "fingerprint error for "@);
    }
}

/// What the name of the tracing module begins and ends with.
proof fn lemma_marks()
    ensures
        "cargo::core::compiler::fingerprint]"@.len() > 0,
        "cargo::core::compiler::fingerprint:"@.len() > 0,
        "cargo::core::compiler::fingerprint]"@[0] == 'c',
        "cargo::core::compiler::fingerprint:"@[0] == 'c',
        "cargo::core::compiler::fingerprint]"@.last() == ']',
        "cargo::core::compiler::fingerprint:"@.last() == ':',
{
    reveal_strlit("cargo::core::compiler::fingerprint]");
    reveal_strlit("cargo::core::compiler::fingerprint:");
}

/// What a line of the trace says is what stands behind the name of the tracing module and its
/// colon, or behind the name in brackets, without the white space around it.
#[verifier::spinoff_prover]
pub proof fn law_framing_is_stripped(
    indent: Seq<char>,
    frame: Seq<char>,
    bracket: bool,
    gap: Seq<char>,
    said: Seq<char>,
    end: Seq<char>,
)
    requires
        cutting::is_blank(indent),
        cutting::is_blank(gap),
        cutting::is_blank(end),
        frame.len() > 0 ==> !text::is_white(frame[0]),
        is_saying(said),
        ({
            let mark = if bracket {
                "cargo::core::compiler::fingerprint]"@
            } else {
                "cargo::core::compiler::fingerprint:"@
            };
            &&& cutting::comes_first(frame, mark)
            &&& !bracket ==> !cutting::holds(
                cutting::joined(frame, mark, gap + said),
                "cargo::core::compiler::fingerprint]"@,
            )
        }),
    ensures
        fingerprint::message(
            indent + cutting::joined(
                frame,
                if bracket {
                    "cargo::core::compiler::fingerprint]"@
                } else {
                    "cargo::core::compiler::fingerprint:"@
                },
                gap + said,
            ) + end,
        ) == said,
{
    lemma_marks();
    let mark = if bracket {
        "cargo::core::compiler::fingerprint]"@
    } else {
        "cargo::core::compiler::fingerprint:"@
    };
    let body = cutting::joined(frame, mark, gap + said);
    assert(mark[0] == 'c');
    if frame.len() > 0 {
        assert(body[0] == frame[0]);
    } else {
        assert(body[0] == mark[0]);
    }
    assert(body[body.len() - 1] == said[said.len() - 1]);
    cutting::law_both_ends_are_trimmed(indent, body, end);
    cutting::law_split_at_the_first(frame, mark, gap + said);
    let none = Seq::<char>::empty();
    assert(gap + said =~= gap + said + none);
    cutting::law_both_ends_are_trimmed(gap, said, none);
    if !bracket {
        cutting::law_split_is_what_it_was(body, "cargo::core::compiler::fingerprint]"@);
    }
}

/// A line of the trace with nothing behind its framing says nothing.
#[verifier::spinoff_prover]
pub proof fn law_empty_message(indent: Seq<char>, frame: Seq<char>, bracket: bool, end: Seq<char>)
    requires
        cutting::is_blank(indent),
        cutting::is_blank(end),
        frame.len() > 0 ==> !text::is_white(frame[0]),
        ({
            let mark = if bracket {
                "cargo::core::compiler::fingerprint]"@
            } else {
                "cargo::core::compiler::fingerprint:"@
            };
            &&& cutting::comes_first(frame, mark)
            &&& !bracket ==> !cutting::holds(frame + mark, "cargo::core::compiler::fingerprint]"@)
        }),
    ensures
        fingerprint::message(
            indent + (frame + if bracket {
                "cargo::core::compiler::fingerprint]"@
            } else {
                "cargo::core::compiler::fingerprint:"@
            }) + end,
        ).len() == 0,
{
    lemma_marks();
    let mark = if bracket {
        "cargo::core::compiler::fingerprint]"@
    } else {
        "cargo::core::compiler::fingerprint:"@
    };
    let none = Seq::<char>::empty();
    let body = frame + mark;
    assert(mark[0] == 'c');
    assert(body[0] == if frame.len() > 0 {
        frame[0]
    } else {
        mark[0]
    });
    assert(body[body.len() - 1] == mark[mark.len() - 1]);
    cutting::law_both_ends_are_trimmed(indent, body, end);
    assert(body =~= cutting::joined(frame, mark, none));
    cutting::law_split_at_the_first(frame, mark, none);
    cutting::law_both_ends_are_trimmed(none, none, none);
    assert(none + none + none =~= none);
    if !bracket {
        cutting::law_split_is_what_it_was(body, "cargo::core::compiler::fingerprint]"@);
    }
}

/// A line that does not name the tracing module with a colon or in brackets says itself, without
/// the white space around it.
pub proof fn law_unframed_line_says_itself(indent: Seq<char>, said: Seq<char>, end: Seq<char>)
    requires
        cutting::is_blank(indent),
        cutting::is_blank(end),
        cutting::is_tight(said),
        !cutting::holds(said, "cargo::core::compiler::fingerprint]"@),
        !cutting::holds(said, "cargo::core::compiler::fingerprint:"@),
    ensures
        fingerprint::message(indent + said + end) == said,
{
    cutting::law_both_ends_are_trimmed(indent, said, end);
    cutting::law_split_is_what_it_was(said, "cargo::core::compiler::fingerprint]"@);
    cutting::law_split_is_what_it_was(said, "cargo::core::compiler::fingerprint:"@);
}

/// A line belongs to the trace exactly if it names the tracing module somewhere.
pub proof fn law_trace_names_its_module(line: Seq<char>)
    ensures
        fingerprint::is_trace(line) == cutting::holds(
            line,
            "cargo::core::compiler::fingerprint"@,
        ),
{
    cutting::law_part_is_found(line, "cargo::core::compiler::fingerprint"@);
}

/// The details of a crate are those of the lines that carry one, are no header, and stand below a
/// header of that crate with no other header between: one line more adds its detail to the crate
/// of the latest header, and to no other.
pub proof fn law_details_grow_line_by_line(
    lines: Seq<Seq<char>>,
    h: int,
    line: Seq<char>,
    id: Seq<char>,
)
    requires
        0 <= h < lines.len(),
        fingerprint::header_id(fingerprint::message(lines[h])) is Some,
        forall|i: int|
            h < i < lines.len() ==> fingerprint::header_id(
                fingerprint::message(#[trigger] lines[i]),
            ) is None,
    ensures
        fingerprint::named_by_header(lines) == fingerprint::header_id(
            fingerprint::message(lines[h]),
        ),
        ({
            let said = fingerprint::message(line);
            let before = fingerprint::details_for(lines, id);
            let after = fingerprint::details_for(lines.push(line), id);
            &&& fingerprint::header_id(said) is Some ==> after == before
            &&& fingerprint::detail_in(said) is None ==> after == before
            &&& fingerprint::header_id(fingerprint::message(lines[h])) != Some(id) ==> after
                == before
            &&& fingerprint::header_id(said) is None && fingerprint::header_id(
                fingerprint::message(lines[h]),
            ) == Some(id) ==> (fingerprint::detail_in(said) matches Some(detail) ==> after
                == before.push(detail))
        }),
{
    lemma_named_by(lines, h);
    assert(lines.push(line).drop_last() =~= lines);
}

/// The latest header is the one that names.
proof fn lemma_named_by(lines: Seq<Seq<char>>, h: int)
    requires
        0 <= h < lines.len(),
        fingerprint::header_id(fingerprint::message(lines[h])) is Some,
        forall|i: int|
            h < i < lines.len() ==> fingerprint::header_id(
                fingerprint::message(#[trigger] lines[i]),
            ) is None,
    ensures
        fingerprint::named_by_header(lines) == fingerprint::header_id(
            fingerprint::message(lines[h]),
        ),
    decreases lines.len(),
{
    let above = lines.drop_last();
    if h < above.len() {
        assert(lines.last() == lines[lines.len() - 1]);
        assert(above[h] == lines[h]);
        assert forall|i: int| h < i < above.len() implies fingerprint::header_id(
            fingerprint::message(#[trigger] above[i]),
        ) is None by {
            assert(above[i] == lines[i]);
        }
        lemma_named_by(above, h);
    } else {
        assert(lines.last() == lines[h]);
    }
}

} // verus!
