//! How deep a line is nested, told by how it is put together.

use vstd::prelude::*;

use crate::message;
use crate::message::BracketScan;

verus! {

/// A text with its brackets in pairs.
pub enum Nested {
    /// Bytes that are neither brackets nor quotes.
    Plain(Seq<u8>),
    /// A string: each byte as it is, or behind a backslash.
    Quoted(Seq<(bool, u8)>),
    /// Something between a pair of braces or square brackets.
    Wrapped(bool, Box<Nested>),
    /// One thing behind the other.
    Joined(Box<Nested>, Box<Nested>),
}

/// Whether a byte is a bracket or a quote.
pub open spec fn is_special(byte: u8) -> bool {
    byte == 34 || byte == 91 || byte == 93 || byte == 123 || byte == 125
}

impl Nested {
    /// Whether plain bytes are plain, and strings hold quotes and backslashes only behind a
    /// backslash.
    pub open spec fn is_sound(self) -> bool
        decreases self,
    {
        match self {
            Nested::Plain(bytes) => forall|i: int|
                0 <= i < bytes.len() ==> !is_special(#[trigger] bytes[i]),
            Nested::Quoted(content) => forall|i: int|
                0 <= i < content.len() && !(#[trigger] content[i]).0 ==> content[i].1 != 34
                    && content[i].1 != 92,
            Nested::Wrapped(_, inner) => inner.is_sound(),
            Nested::Joined(left, right) => left.is_sound() && right.is_sound(),
        }
    }

    /// The bytes of the text.
    pub open spec fn written(self) -> Seq<u8>
        decreases self,
    {
        match self {
            Nested::Plain(bytes) => bytes,
            Nested::Quoted(content) => seq![34u8] + quoted(content) + seq![34u8],
            Nested::Wrapped(brace, inner) => seq![
                if brace {
                    123u8
                } else {
                    91u8
                },
            ] + inner.written() + seq![
                if brace {
                    125u8
                } else {
                    93u8
                },
            ],
            Nested::Joined(left, right) => left.written() + right.written(),
        }
    }

    /// How many brackets stand around what is deepest inside.
    pub open spec fn depth(self) -> nat
        decreases self,
    {
        match self {
            Nested::Plain(_) => 0,
            Nested::Quoted(_) => 0,
            Nested::Wrapped(_, inner) => inner.depth() + 1,
            Nested::Joined(left, right) => if left.depth() > right.depth() {
                left.depth()
            } else {
                right.depth()
            },
        }
    }
}

/// The bytes of a string between its quotes.
pub open spec fn quoted(content: Seq<(bool, u8)>) -> Seq<u8>
    decreases content.len(),
{
    if content.len() == 0 {
        Seq::empty()
    } else {
        let (escaped, byte) = content.last();
        quoted(content.drop_last()) + if escaped {
            seq![92u8, byte]
        } else {
            seq![byte]
        }
    }
}

/// A scan that goes on over more bytes.
spec fn goes_on(scan: BracketScan, bytes: Seq<u8>) -> BracketScan
    decreases bytes.len(),
{
    if bytes.len() == 0 {
        scan
    } else {
        goes_on(scan, bytes.drop_last()).with_byte(bytes.last())
    }
}

/// Scanning two texts is scanning one and going on over the other.
proof fn lemma_goes_on(scan: BracketScan, a: Seq<u8>, b: Seq<u8>)
    ensures
        goes_on(scan, a + b) == goes_on(goes_on(scan, a), b),
    decreases b.len(),
{
    if b.len() == 0 {
        assert(a + b =~= a);
    } else {
        assert((a + b).drop_last() =~= a + b.drop_last());
        lemma_goes_on(scan, a, b.drop_last());
    }
}

/// A scan of one byte.
proof fn lemma_one(scan: BracketScan, byte: u8)
    ensures
        goes_on(scan, seq![byte]) == scan.with_byte(byte),
{
    assert(seq![byte].drop_last() =~= Seq::empty());
    assert(goes_on(scan, seq![byte].drop_last()) == scan);
}

/// The scan of a text from its start.
proof fn lemma_scanned(bytes: Seq<u8>)
    ensures
        message::scanned(bytes) == goes_on(
            BracketScan { open: 0, deepest: 0, in_string: false, escaped: false },
            bytes,
        ),
    decreases bytes.len(),
{
    if bytes.len() > 0 {
        lemma_scanned(bytes.drop_last());
    }
}

/// Plain bytes do not count.
proof fn lemma_plain(scan: BracketScan, bytes: Seq<u8>)
    requires
        !scan.in_string,
        forall|i: int| 0 <= i < bytes.len() ==> !is_special(#[trigger] bytes[i]),
    ensures
        goes_on(scan, bytes) == scan,
    decreases bytes.len(),
{
    if bytes.len() > 0 {
        let before = bytes.drop_last();
        assert forall|i: int| 0 <= i < before.len() implies !is_special(#[trigger] before[i]) by {
            assert(before[i] == bytes[i]);
        }
        lemma_plain(scan, before);
        assert(!is_special(bytes[bytes.len() - 1]));
    }
}

/// What stands in a string does not count.
proof fn lemma_quoted(scan: BracketScan, content: Seq<(bool, u8)>)
    requires
        scan.in_string,
        !scan.escaped,
        forall|i: int|
            0 <= i < content.len() && !(#[trigger] content[i]).0 ==> content[i].1 != 34
                && content[i].1 != 92,
    ensures
        goes_on(scan, quoted(content)) == scan,
    decreases content.len(),
{
    if content.len() > 0 {
        let before = content.drop_last();
        assert forall|i: int| 0 <= i < before.len() && !(#[trigger] before[i]).0 implies before[i].1
            != 34 && before[i].1 != 92 by {
            assert(before[i] == content[i]);
        }
        lemma_quoted(scan, before);
        let (escaped, byte) = content.last();
        assert(content.last() == content[content.len() - 1]);
        if escaped {
            lemma_goes_on(scan, quoted(before), seq![92u8, byte]);
            assert(seq![92u8, byte] =~= seq![92u8] + seq![byte]);
            lemma_goes_on(scan, seq![92u8], seq![byte]);
            lemma_one(scan, 92);
            lemma_one(scan.with_byte(92), byte);
        } else {
            lemma_goes_on(scan, quoted(before), seq![byte]);
            lemma_one(scan, byte);
        }
    }
}

/// A scan over a text with its brackets in pairs ends as open as it began, and has been as deep
/// as the text is.
proof fn lemma_nested(scan: BracketScan, text: Nested)
    requires
        text.is_sound(),
        !scan.in_string,
        !scan.escaped,
        scan.open <= scan.deepest,
    ensures
        goes_on(scan, text.written()) == (BracketScan {
            deepest: if scan.deepest > scan.open + text.depth() {
                scan.deepest
            } else {
                scan.open + text.depth()
            },
            ..scan
        }),
    decreases text,
{
    match text {
        Nested::Plain(bytes) => {
            lemma_plain(scan, bytes);
        },
        Nested::Quoted(content) => {
            let quote = seq![34u8];
            lemma_goes_on(scan, quote + quoted(content), quote);
            lemma_goes_on(scan, quote, quoted(content));
            lemma_one(scan, 34);
            let inside = scan.with_byte(34);
            lemma_quoted(inside, content);
            lemma_one(inside, 34);
        },
        Nested::Wrapped(brace, inner) => {
            let (open, close) = if brace {
                (123u8, 125u8)
            } else {
                (91u8, 93u8)
            };
            lemma_goes_on(scan, seq![open] + inner.written(), seq![close]);
            lemma_goes_on(scan, seq![open], inner.written());
            lemma_one(scan, open);
            lemma_nested(scan.with_byte(open), *inner);
            lemma_one(goes_on(scan.with_byte(open), inner.written()), close);
        },
        Nested::Joined(left, right) => {
            lemma_goes_on(scan, left.written(), right.written());
            lemma_nested(scan, *left);
            lemma_nested(goes_on(scan, left.written()), *right);
        },
    }
}

/// A text with its brackets in pairs is nested as deep as its brackets stand in each other,
/// however many of them stand side by side or in strings. It is read if that is no deeper than
/// seven hundred and sixty-eight.
pub proof fn law_nesting_is_the_depth_of_brackets(text: Nested)
    requires
        text.is_sound(),
    ensures
        message::nesting(text.written()) == text.depth(),
        text.depth() <= 768 ==> message::is_bearable(text.written()),
{
    lemma_scanned(text.written());
    lemma_nested(BracketScan { open: 0, deepest: 0, in_string: false, escaped: false }, text);
}

/// A line of JSON, which begins with a bracket or white space and is UTF-8, is read exactly if its
/// brackets are nested no deeper than seven hundred and sixty-eight.
pub proof fn law_deep_json_is_not_read(text: Nested)
    requires
        text.is_sound(),
        text.written().len() > 0,
        text.written()[0] == 123 || text.written()[0] == 91 || text.written()[0] == 32
            || text.written()[0] == 9 || text.written()[0] == 13,
        vstd::utf8::valid_utf8(text.written()),
    ensures
        message::is_bearable(text.written()) == (text.depth() <= 768),
{
    law_nesting_is_the_depth_of_brackets(text);
}

/// A line that is not UTF-8 is always read, as an error.
pub proof fn law_bytes_that_are_not_text_are_read(bytes: Seq<u8>)
    requires
        !vstd::utf8::valid_utf8(bytes),
    ensures
        message::is_bearable(bytes),
{
}

} // verus!
