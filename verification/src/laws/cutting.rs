//! What trimming, searching and splitting promise for every text.

use vstd::prelude::*;

use crate::ordered;
use crate::parse;
use crate::text;

verus! {

/// Whether a text is made of white space alone.
pub open spec fn is_blank(s: Seq<char>) -> bool {
    forall|i: int| 0 <= i < s.len() ==> text::is_white(#[trigger] s[i])
}

/// Whether a text holds no white space.
pub open spec fn is_unbroken(s: Seq<char>) -> bool {
    forall|i: int| 0 <= i < s.len() ==> !text::is_white(#[trigger] s[i])
}

/// Whether a text neither begins nor ends with white space.
pub open spec fn is_tight(s: Seq<char>) -> bool {
    s.len() > 0 ==> !text::is_white(s[0]) && !text::is_white(s[s.len() - 1])
}

/// Whether a text holds another.
pub open spec fn holds(s: Seq<char>, part: Seq<char>) -> bool {
    exists|front: Seq<char>, back: Seq<char>| s == #[trigger] joined(front, part, back)
}

/// Three texts in a row.
pub open spec fn joined(front: Seq<char>, part: Seq<char>, back: Seq<char>) -> Seq<char> {
    front + part + back
}

/// Whether `part` behind `front` is the first of its kind there.
pub open spec fn comes_first(front: Seq<char>, part: Seq<char>) -> bool {
    forall|i: int|
        0 <= i < front.len() ==> #[trigger] (front + part).subrange(i, i + part.len()) != part
}

/// White space is what Unicode calls so, character by character.
pub proof fn law_white_space_is_unicodes(c: char)
    ensures
        text::is_white(c) == (c == '\u{9}' || c == '\u{a}' || c == '\u{b}' || c == '\u{c}' || c
            == '\u{d}' || c == '\u{20}' || c == '\u{85}' || c == '\u{a0}' || c == '\u{1680}' || c
            == '\u{2000}' || c == '\u{2001}' || c == '\u{2002}' || c == '\u{2003}' || c
            == '\u{2004}' || c == '\u{2005}' || c == '\u{2006}' || c == '\u{2007}' || c
            == '\u{2008}' || c == '\u{2009}' || c == '\u{200a}' || c == '\u{2028}' || c
            == '\u{2029}' || c == '\u{202f}' || c == '\u{205f}' || c == '\u{3000}'),
{
}

/// Trimming the start takes off the white space in front, and nothing else.
pub proof fn law_start_is_trimmed(blank: Seq<char>, s: Seq<char>)
    requires
        is_blank(blank),
        s.len() > 0 ==> !text::is_white(s[0]),
    ensures
        text::trimmed_start(blank + s) == s,
{
    let whole = blank + s;
    assert forall|i: int| 0 <= i < blank.len() implies text::is_white(#[trigger] whole[i]) by {
        assert(whole[i] == blank[i]);
    }
    text::lemma_leading_white(whole, blank.len() as int);
    assert(whole.skip(blank.len() as int) =~= s);
}

/// Trimming takes off the white space on both sides, and nothing else.
pub proof fn law_both_ends_are_trimmed(front: Seq<char>, s: Seq<char>, back: Seq<char>)
    requires
        is_blank(front),
        is_blank(back),
        is_tight(s),
    ensures
        text::trimmed(front + s + back) == s,
        text::trimmed_end(s + back) == s,
{
    let whole = front + s + back;
    let rest = s + back;
    assert forall|i: int| s.len() <= i < rest.len() implies text::is_white(#[trigger] rest[i]) by {
        assert(rest[i] == back[i - s.len()]);
    }
    if s.len() > 0 {
        assert(rest[s.len() - 1] == s[s.len() - 1]);
    }
    text::lemma_trimmed_end(rest, s.len() as int);
    assert(rest.take(s.len() as int) =~= s);
    if s.len() > 0 {
        assert(rest[0] == s[0]);
        assert(whole =~= front + rest);
        law_start_is_trimmed(front, rest);
    } else {
        let blank = front + back;
        assert(whole =~= blank + s);
        assert forall|i: int| 0 <= i < blank.len() implies text::is_white(#[trigger] blank[i]) by {
            if i < front.len() {
                assert(blank[i] == front[i]);
            } else {
                assert(blank[i] == back[i - front.len()]);
            }
        }
        law_start_is_trimmed(blank, s);
        assert(text::trimmed_end(s) =~= s);
    }
}

/// The first word of a text is what stands between the white space in front of it and the next.
pub proof fn law_first_word(blank: Seq<char>, word: Seq<char>, rest: Seq<char>)
    requires
        is_blank(blank),
        is_unbroken(word),
        word.len() > 0,
        rest.len() > 0 ==> text::is_white(rest[0]),
    ensures
        text::first_word(blank + word + rest) == word,
        text::after_first_word(blank + word + rest) == rest,
{
    let behind = word + rest;
    assert(behind[0] == word[0]);
    assert(blank + word + rest =~= blank + behind);
    law_start_is_trimmed(blank, behind);
    assert forall|i: int| 0 <= i < word.len() implies !text::is_white(#[trigger] behind[i]) by {
        assert(behind[i] == word[i]);
    }
    text::lemma_leading_word(behind, word.len() as int);
    assert(behind.take(word.len() as int) =~= word);
    assert(behind.skip(word.len() as int) =~= rest);
}

/// The name of a unit is what stands in front of the first white space of its id.
pub proof fn law_unit_name(name: Seq<char>, rest: Seq<char>)
    requires
        is_unbroken(name),
        rest.len() > 0 ==> text::is_white(rest[0]),
    ensures
        parse::unit_name(name + rest) == name,
{
    let whole = name + rest;
    assert forall|i: int| 0 <= i < name.len() implies !text::is_white(#[trigger] whole[i]) by {
        assert(whole[i] == name[i]);
    }
    text::lemma_leading_word(whole, name.len() as int);
    assert(whole.take(name.len() as int) =~= name);
}

/// A text begins with its front, and what follows is left without it.
pub proof fn law_begins_with_its_front(front: Seq<char>, back: Seq<char>)
    ensures
        text::begins_with(front + back, front),
        text::without_prefix(front + back, front) == Some(back),
{
    assert((front + back).subrange(0, front.len() as int) =~= front);
    assert((front + back).skip(front.len() as int) =~= back);
}

/// A text that begins with a front is that front and something behind it.
pub proof fn law_front_is_what_it_begins_with(s: Seq<char>, front: Seq<char>)
    ensures
        text::begins_with(s, front) == (s.len() >= front.len() && forall|i: int|
            0 <= i < front.len() ==> #[trigger] front[i] == s[i]),
        text::begins_with(s, front) ==> s == front + s.skip(front.len() as int),
        (text::without_prefix(s, front) is Some) == text::begins_with(s, front),
{
    if text::begins_with(s, front) {
        let start = s.subrange(0, front.len() as int);
        assert forall|i: int| 0 <= i < front.len() implies #[trigger] front[i] == s[i] by {
            assert(start[i] == s[i]);
        }
        assert(s =~= front + s.skip(front.len() as int));
    }
    if s.len() >= front.len() && forall|i: int|
        0 <= i < front.len() ==> #[trigger] front[i] == s[i] {
        assert(s.subrange(0, front.len() as int) =~= front);
    }
}

/// A part is found in a text exactly if the text is made of it and of something on either side.
pub proof fn law_part_is_found(s: Seq<char>, part: Seq<char>)
    ensures
        text::has_part(s, part) == holds(s, part),
{
    if text::has_part(s, part) {
        let at = choose|at: int| text::occurs_at(s, part, at);
        assert(text::occurs_at(s, part, at));
        assert(s =~= joined(s.take(at), part, s.skip(at + part.len())));
    }
    if holds(s, part) {
        let (front, back) = choose|front: Seq<char>, back: Seq<char>|
            s == #[trigger] joined(front, part, back);
        let at = front.len() as int;
        assert(s.subrange(at, at + part.len()) =~= part);
        assert(text::occurs_at(s, part, at));
    }
}

/// A text is split at the first occurrence of a part: what stands before it and what behind.
pub proof fn law_split_at_the_first(front: Seq<char>, part: Seq<char>, back: Seq<char>)
    requires
        comes_first(front, part),
    ensures
        text::split_at_first(joined(front, part, back), part) == Some((front, back)),
{
    let s = joined(front, part, back);
    let at = front.len() as int;
    assert(s.subrange(at, at + part.len()) =~= part);
    assert forall|earlier: int| 0 <= earlier < at implies !text::occurs_at(s, part, earlier) by {
        if text::occurs_at(s, part, earlier) {
            assert((front + part).subrange(earlier, earlier + part.len()) =~= s.subrange(
                earlier,
                earlier + part.len(),
            ));
        }
    }
    assert(text::first_at(s, part, at));
    text::lemma_split_at_first(s, part, at);
    assert(s.take(at) =~= front);
    assert(s.skip(at + part.len()) =~= back);
}

/// A text is split exactly if the part is in it; it is then made of the two pieces and the part
/// between them, and the part is not found earlier.
pub proof fn law_split_is_what_it_was(s: Seq<char>, part: Seq<char>)
    ensures
        (text::split_at_first(s, part) is Some) == holds(s, part),
        text::split_at_first(s, part) matches Some((front, back)) ==> s == joined(
            front,
            part,
            back,
        ) && comes_first(front, part),
{
    law_part_is_found(s, part);
    if text::has_part(s, part) {
        let at = choose|at: int| text::occurs_at(s, part, at);
        assert(text::occurs_at(s, part, at));
        let first = lemma_first_occurrence(s, part, at);
        text::lemma_split_at_first(s, part, first);
        let front = s.take(first);
        assert(s =~= joined(front, part, s.skip(first + part.len())));
        assert forall|i: int| 0 <= i < front.len() implies #[trigger] (front + part).subrange(
            i,
            i + part.len(),
        ) != part by {
            assert(!text::occurs_at(s, part, i));
            assert((front + part).subrange(i, i + part.len()) =~= s.subrange(i, i + part.len()));
        }
    }
}

/// Where a part occurs, it has a first occurrence.
proof fn lemma_first_occurrence(s: Seq<char>, part: Seq<char>, at: int) -> (first: int)
    requires
        text::occurs_at(s, part, at),
    ensures
        text::first_at(s, part, first),
    decreases at,
{
    if exists|earlier: int| 0 <= earlier < at && text::occurs_at(s, part, earlier) {
        let earlier = choose|earlier: int| 0 <= earlier < at && text::occurs_at(s, part, earlier);
        lemma_first_occurrence(s, part, earlier)
    } else {
        at
    }
}

/// A single character comes first behind a text that does not hold it.
pub proof fn lemma_char_comes_first(front: Seq<char>, c: char)
    requires
        forall|i: int| 0 <= i < front.len() ==> #[trigger] front[i] != c,
    ensures
        comes_first(front, seq![c]),
{
    let mark = seq![c];
    assert forall|i: int| 0 <= i < front.len() implies #[trigger] (front + mark).subrange(
        i,
        i + mark.len(),
    ) != mark by {
        assert((front + mark).subrange(i, i + 1)[0] == front[i]);
    }
}

/// Of two texts, one comes before the other exactly if it is the other's beginning, or has the
/// smaller character at the first place where they differ.
pub proof fn law_dictionary_order(a: Seq<char>, b: Seq<char>)
    ensures
        ordered::text_before(a, b) == exists|n: int|
            {
                &&& 0 <= n <= a.len()
                &&& n < b.len()
                &&& #[trigger] a.take(n) == b.take(n)
                &&& n == a.len() || a[n] < b[n]
            },
    decreases a.len(),
{
    let holds_at = |n: int|
        0 <= n <= a.len() && n < b.len() && a.take(n) == b.take(n) && (n == a.len() || a[n] < b[n]);
    if ordered::text_before(a, b) {
        if a.len() == 0 || a[0] != b[0] {
            assert(a.take(0) =~= b.take(0));
            assert(holds_at(0));
        } else {
            let (s, t) = (a.drop_first(), b.drop_first());
            law_dictionary_order(s, t);
            let n = choose|n: int|
                {
                    &&& 0 <= n <= s.len()
                    &&& n < t.len()
                    &&& #[trigger] s.take(n) == t.take(n)
                    &&& n == s.len() || s[n] < t[n]
                };
            assert(a.take(n + 1) =~= seq![a[0]] + s.take(n));
            assert(b.take(n + 1) =~= seq![b[0]] + t.take(n));
            assert(holds_at(n + 1));
        }
    }
    if exists|n: int|
        {
            &&& 0 <= n <= a.len()
            &&& n < b.len()
            &&& #[trigger] a.take(n) == b.take(n)
            &&& n == a.len() || a[n] < b[n]
        } {
        let n = choose|n: int|
            {
                &&& 0 <= n <= a.len()
                &&& n < b.len()
                &&& #[trigger] a.take(n) == b.take(n)
                &&& n == a.len() || a[n] < b[n]
            };
        if n > 0 {
            assert(a.take(n)[0] == b.take(n)[0]);
            let (s, t) = (a.drop_first(), b.drop_first());
            assert(s.take(n - 1) =~= a.take(n).drop_first());
            assert(t.take(n - 1) =~= b.take(n).drop_first());
            law_dictionary_order(s, t);
            assert(s.take(n - 1) == t.take(n - 1));
        }
    }
}

/// Keys are in order exactly if each comes before all those behind it.
pub proof fn law_keys_in_order(keys: Seq<Seq<char>>)
    ensures
        ordered::in_order(keys) == forall|i: int, j: int|
            0 <= i < j < keys.len() ==> ordered::text_before(#[trigger] keys[i], #[trigger] keys[j]),
{
}

} // verus!
