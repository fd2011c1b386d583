//! Text as a sequence of characters.
//!
//! Every reader in this crate works on one line at a time, and every decision it takes is about
//! characters. The specification functions say what trimming, searching and splitting a line
//! mean; the executable functions do it on borrowed text, without copying.

use vstd::prelude::*;
use vstd::string::StrSliceExecFns;

verus! {

/// The characters with Unicode's `White_Space` property.
pub open spec fn is_white(c: char) -> bool {
    ||| '\u{9}' <= c <= '\u{d}'
    ||| c == '\u{20}'
    ||| c == '\u{85}'
    ||| c == '\u{a0}'
    ||| c == '\u{1680}'
    ||| '\u{2000}' <= c <= '\u{200a}'
    ||| c == '\u{2028}'
    ||| c == '\u{2029}'
    ||| c == '\u{202f}'
    ||| c == '\u{205f}'
    ||| c == '\u{3000}'
}

/// How many white-space characters a text begins with.
pub open spec fn leading_white(s: Seq<char>) -> nat
    decreases s.len(),
{
    if s.len() > 0 && is_white(s[0]) {
        1 + leading_white(s.drop_first())
    } else {
        0
    }
}

/// How many characters a text begins with before its first white space.
pub open spec fn leading_word(s: Seq<char>) -> nat
    decreases s.len(),
{
    if s.len() > 0 && !is_white(s[0]) {
        1 + leading_word(s.drop_first())
    } else {
        0
    }
}

/// A text without the white space at its start.
pub open spec fn trimmed_start(s: Seq<char>) -> Seq<char> {
    s.skip(leading_white(s) as int)
}

/// A text without the white space at its end.
pub open spec fn trimmed_end(s: Seq<char>) -> Seq<char>
    decreases s.len(),
{
    if s.len() > 0 && is_white(s.last()) {
        trimmed_end(s.drop_last())
    } else {
        s
    }
}

/// A text without the white space at either end.
pub open spec fn trimmed(s: Seq<char>) -> Seq<char> {
    trimmed_end(trimmed_start(s))
}

/// The first run of characters other than white space; empty where there is none.
pub open spec fn first_word(s: Seq<char>) -> Seq<char> {
    trimmed_start(s).take(leading_word(trimmed_start(s)) as int)
}

/// What follows the first run of characters other than white space.
pub open spec fn after_first_word(s: Seq<char>) -> Seq<char> {
    trimmed_start(s).skip(leading_word(trimmed_start(s)) as int)
}

/// Whether `part` stands in `s` at position `at`.
pub open spec fn occurs_at(s: Seq<char>, part: Seq<char>, at: int) -> bool {
    &&& 0 <= at
    &&& at + part.len() <= s.len()
    &&& s.subrange(at, at + part.len()) == part
}

/// Whether `part` stands anywhere in `s`.
pub open spec fn has_part(s: Seq<char>, part: Seq<char>) -> bool {
    exists|at: int| occurs_at(s, part, at)
}

/// Whether `at` is the first position at which `part` stands in `s`.
pub open spec fn first_at(s: Seq<char>, part: Seq<char>, at: int) -> bool {
    &&& occurs_at(s, part, at)
    &&& forall|earlier: int| 0 <= earlier < at ==> !occurs_at(s, part, earlier)
}

/// The text before and after the first occurrence of `part`, if there is one.
pub open spec fn split_at_first(s: Seq<char>, part: Seq<char>) -> Option<(Seq<char>, Seq<char>)> {
    if has_part(s, part) {
        let at = choose|at: int| first_at(s, part, at);
        Some((s.take(at), s.skip(at + part.len())))
    } else {
        None
    }
}

/// Whether `s` begins with `prefix`.
pub open spec fn begins_with(s: Seq<char>, prefix: Seq<char>) -> bool {
    occurs_at(s, prefix, 0)
}

/// What follows `prefix` at the start of `s`, if `s` begins with it.
pub open spec fn without_prefix(s: Seq<char>, prefix: Seq<char>) -> Option<Seq<char>> {
    if begins_with(s, prefix) {
        Some(s.skip(prefix.len() as int))
    } else {
        None
    }
}

/// The elements of a sequence, each by its view.
pub open spec fn views<T: View>(s: Seq<T>) -> Seq<T::V> {
    s.map_values(|x: T| x@)
}

/// An optional text, by its view.
pub open spec fn opt_view(text: Option<String>) -> Option<Seq<char>> {
    match text {
        Some(t) => Some(t@),
        None => None,
    }
}

/// White space at the start of a text ends where something else begins.
pub proof fn lemma_leading_white(s: Seq<char>, n: int)
    requires
        0 <= n <= s.len(),
        forall|i: int| 0 <= i < n ==> is_white(#[trigger] s[i]),
        n < s.len() ==> !is_white(s[n]),
    ensures
        leading_white(s) == n,
    decreases n,
{
    if n > 0 {
        let t = s.drop_first();
        assert forall|i: int| 0 <= i < n - 1 implies is_white(#[trigger] t[i]) by {
            assert(t[i] == s[i + 1]);
        }
        lemma_leading_white(t, n - 1);
    }
}

/// A word at the start of a text ends where white space begins.
pub proof fn lemma_leading_word(s: Seq<char>, n: int)
    requires
        0 <= n <= s.len(),
        forall|i: int| 0 <= i < n ==> !is_white(#[trigger] s[i]),
        n < s.len() ==> is_white(s[n]),
    ensures
        leading_word(s) == n,
    decreases n,
{
    if n > 0 {
        let t = s.drop_first();
        assert forall|i: int| 0 <= i < n - 1 implies !is_white(#[trigger] t[i]) by {
            assert(t[i] == s[i + 1]);
        }
        lemma_leading_word(t, n - 1);
    }
}

/// White space at the end of a text begins behind the last other character.
pub proof fn lemma_trimmed_end(s: Seq<char>, n: int)
    requires
        0 <= n <= s.len(),
        forall|i: int| n <= i < s.len() ==> is_white(#[trigger] s[i]),
        n > 0 ==> !is_white(s[n - 1]),
    ensures
        trimmed_end(s) == s.take(n),
    decreases s.len(),
{
    if n < s.len() {
        lemma_trimmed_end(s.drop_last(), n);
        assert(s.drop_last().take(n) =~= s.take(n));
    } else {
        assert(s.take(n) =~= s);
    }
}

/// Splitting at the first occurrence goes by its position, which is unique.
pub proof fn lemma_split_at_first(s: Seq<char>, part: Seq<char>, at: int)
    requires
        first_at(s, part, at),
    ensures
        split_at_first(s, part) == Some((s.take(at), s.skip(at + part.len()))),
{
    let chosen = choose|at: int| first_at(s, part, at);
    assert(first_at(s, part, chosen));
    assert(chosen == at);
}

/// Tells whether a character is white space.
pub fn is_white_space(c: char) -> (white: bool)
    ensures
        white == is_white(c),
{
    ('\u{9}' <= c && c <= '\u{d}') || c == '\u{20}' || c == '\u{85}' || c == '\u{a0}' || c
        == '\u{1680}' || ('\u{2000}' <= c && c <= '\u{200a}') || c == '\u{2028}' || c == '\u{2029}'
        || c == '\u{202f}' || c == '\u{205f}' || c == '\u{3000}'
}

/// The characters of a text.
pub fn chars_of(s: &str) -> (chars: Vec<char>)
    ensures
        chars@ == s@,
{
    let mut chars: Vec<char> = Vec::new();
    for c in it: s.chars()
        invariant
            it.seq() == s@,
            chars@ == it.seq().take(it.index()),
    {
        chars.push(c);
    }
    chars
}

/// A copy of an optional text.
pub fn copy_of(text: &Option<String>) -> (copy: Option<String>)
    ensures
        opt_view(copy) == opt_view(*text),
{
    match text {
        Some(text) => Some(text.clone()),
        None => None,
    }
}

/// A copy of a list of texts.
pub fn copies_of(texts: &Vec<String>) -> (copies: Vec<String>)
    ensures
        views(copies@) == views(texts@),
{
    let mut copies: Vec<String> = Vec::new();
    let mut i: usize = 0;
    while i < texts.len()
        invariant
            i <= texts@.len(),
            views(copies@) == views(texts@).take(i as int),
        decreases texts@.len() - i,
    {
        let ghost before = copies@;
        copies.push(texts[i].clone());
        i = i + 1;
        assert(views(copies@) =~= views(before).push(texts@[i - 1]@));
        assert(views(copies@) =~= views(texts@).take(i as int));
    }
    assert(views(texts@).take(i as int) =~= views(texts@));
    copies
}

/// Tells whether two texts are the same.
pub fn same_text(a: &str, b: &str) -> (same: bool)
    ensures
        same == (a@ == b@),
{
    a.to_owned() == b.to_owned()
}

/// Tells whether `part` stands in `s` at position `at`.
fn stands_at(s: &Vec<char>, part: &Vec<char>, at: usize) -> (found: bool)
    ensures
        found == occurs_at(s@, part@, at as int),
{
    if part.len() > s.len() || at > s.len() - part.len() {
        return false;
    }
    let mut i: usize = 0;
    while i < part.len()
        invariant
            i <= part.len(),
            at + part.len() <= s.len(),
            forall|j: int| 0 <= j < i ==> s[at + j] == part[j],
        decreases part.len() - i,
    {
        if s[at + i] != part[i] {
            assert(s@.subrange(at as int, at + part@.len())[i as int] != part@[i as int]);
            return false;
        }
        i = i + 1;
    }
    assert(s@.subrange(at as int, at + part@.len()) =~= part@);
    true
}

/// The first position at which `part` stands in `s`.
fn find_part(s: &Vec<char>, part: &Vec<char>) -> (at: Option<usize>)
    ensures
        match at {
            Some(at) => first_at(s@, part@, at as int),
            None => !has_part(s@, part@),
        },
{
    if part.len() > s.len() {
        return None;
    }
    let last: usize = s.len() - part.len();
    let mut at: usize = 0;
    while at <= last
        invariant
            at <= last + 1,
            last + part.len() == s.len(),
            forall|earlier: int| 0 <= earlier < at ==> !occurs_at(s@, part@, earlier),
        decreases last + 1 - at,
    {
        if stands_at(s, part, at) {
            return Some(at);
        }
        if at == last {
            assert forall|other: int| !occurs_at(s@, part@, other) by {}
            return None;
        }
        at = at + 1;
    }
    None
}

/// Tells whether `s` begins with `prefix`.
pub fn starts_with(s: &str, prefix: &str) -> (found: bool)
    ensures
        found == begins_with(s@, prefix@),
{
    stands_at(&chars_of(s), &chars_of(prefix), 0)
}

/// Tells whether `part` stands anywhere in `s`.
pub fn contains(s: &str, part: &str) -> (found: bool)
    ensures
        found == has_part(s@, part@),
{
    find_part(&chars_of(s), &chars_of(part)).is_some()
}

/// Takes `prefix` off the start of `s`.
pub fn strip_prefix<'a>(s: &'a str, prefix: &str) -> (rest: Option<&'a str>)
    ensures
        match rest {
            Some(rest) => without_prefix(s@, prefix@) == Some(rest@),
            None => without_prefix(s@, prefix@) is None,
        },
{
    let chars = chars_of(s);
    let wanted = chars_of(prefix);
    if stands_at(&chars, &wanted, 0) {
        let rest = s.substring_char(wanted.len(), chars.len());
        assert(rest@ =~= s@.skip(prefix@.len() as int));
        Some(rest)
    } else {
        None
    }
}

/// Splits `s` at the first occurrence of `part`.
pub fn split_once<'a>(s: &'a str, part: &str) -> (parts: Option<(&'a str, &'a str)>)
    ensures
        match parts {
            Some((before, after)) => split_at_first(s@, part@) == Some((before@, after@)),
            None => split_at_first(s@, part@) is None,
        },
{
    let chars = chars_of(s);
    let wanted = chars_of(part);
    match find_part(&chars, &wanted) {
        Some(at) => {
            proof {
                lemma_split_at_first(s@, part@, at as int);
            }
            assert(at + wanted.len() <= chars.len());
            let before = s.substring_char(0, at);
            let after = s.substring_char(at + wanted.len(), chars.len());
            assert(before@ =~= s@.take(at as int));
            assert(after@ =~= s@.skip(at + part@.len()));
            Some((before, after))
        },
        None => None,
    }
}

/// Takes the white space off the start of a text.
pub fn trim_start(s: &str) -> (rest: &str)
    ensures
        rest@ == trimmed_start(s@),
{
    let chars = chars_of(s);
    let mut n: usize = 0;
    while n < chars.len() && is_white_space(chars[n])
        invariant
            n <= chars.len(),
            chars@ == s@,
            forall|i: int| 0 <= i < n ==> is_white(#[trigger] s@[i]),
        decreases chars.len() - n,
    {
        n = n + 1;
    }
    proof {
        lemma_leading_white(s@, n as int);
    }
    let rest = s.substring_char(n, chars.len());
    assert(rest@ =~= s@.skip(n as int));
    rest
}

/// Takes the white space off the end of a text.
pub fn trim_end(s: &str) -> (rest: &str)
    ensures
        rest@ == trimmed_end(s@),
{
    let chars = chars_of(s);
    let mut n: usize = chars.len();
    while n > 0 && is_white_space(chars[n - 1])
        invariant
            n <= chars.len(),
            chars@ == s@,
            forall|i: int| n <= i < s@.len() ==> is_white(#[trigger] s@[i]),
        decreases n,
    {
        n = n - 1;
    }
    proof {
        lemma_trimmed_end(s@, n as int);
    }
    let rest = s.substring_char(0, n);
    assert(rest@ =~= s@.take(n as int));
    rest
}

/// Takes the white space off both ends of a text.
pub fn trim(s: &str) -> (rest: &str)
    ensures
        rest@ == trimmed(s@),
{
    trim_end(trim_start(s))
}

/// What stands in a text before its first white space.
pub fn leading_word_of(s: &str) -> (word: &str)
    ensures
        word@ == s@.take(leading_word(s@) as int),
{
    let chars = chars_of(s);
    let n = word_length(&chars);
    let word = s.substring_char(0, n);
    assert(word@ =~= s@.take(n as int));
    word
}

/// How many characters stand before the first white space.
fn word_length(chars: &Vec<char>) -> (n: usize)
    ensures
        n <= chars.len(),
        n == leading_word(chars@),
{
    let mut n: usize = 0;
    while n < chars.len() && !is_white_space(chars[n])
        invariant
            n <= chars.len(),
            forall|i: int| 0 <= i < n ==> !is_white(#[trigger] chars@[i]),
        decreases chars.len() - n,
    {
        n = n + 1;
    }
    proof {
        lemma_leading_word(chars@, n as int);
    }
    n
}

/// Splits a text behind its first run of characters other than white space.
pub fn split_word(s: &str) -> (parts: (&str, &str))
    ensures
        parts.0@ == first_word(s@),
        parts.1@ == after_first_word(s@),
{
    let rest = trim_start(s);
    let chars = chars_of(rest);
    let n = word_length(&chars);
    let word = rest.substring_char(0, n);
    let after = rest.substring_char(n, chars.len());
    assert(word@ =~= rest@.take(n as int));
    assert(after@ =~= rest@.skip(n as int));
    (word, after)
}

} // verus!
