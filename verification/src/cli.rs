//! Command-line surface.
//!
//! Own flags come first, then the cargo command and its arguments, which are captured as they
//! are and never reinterpreted. Words are held as text here; one that is not UTF-8 is held with
//! replacement characters, and [`crate::cargo::CargoArg`] names words by their place so that they
//! can be forwarded unchanged.

use vstd::prelude::*;
use vstd::slice::slice_subrange;

use crate::text;

verus! {

/// The user's cargo command and its arguments.
#[derive(Debug, PartialEq, Eq)]
pub enum CargoSubcommand {
    Cargo(Vec<String>),
}

impl Clone for CargoSubcommand {
    fn clone(&self) -> (copy: Self)
        ensures
            copy.words() == self.words(),
    {
        match self {
            CargoSubcommand::Cargo(words) => CargoSubcommand::Cargo(text::copies_of(words)),
        }
    }
}

impl CargoSubcommand {
    /// The command and its arguments, word by word.
    pub open spec fn words(self) -> Seq<Seq<char>> {
        match self {
            CargoSubcommand::Cargo(words) => text::views(words@),
        }
    }
}

/// What the user asked for.
#[derive(Debug, PartialEq, Eq)]
pub struct Args {
    /// Also list crates cargo considered fresh.
    pub show_fresh: bool,
    /// Collect cargo's fingerprint trace, which enriches `--explain` with per-crate details.
    pub deep: bool,
    /// Report the crate blamed for the rebuild and the cascade it caused.
    pub explain: bool,
    /// Limit cargo to one job so work is streamed in a deterministic order.
    pub linear: bool,
    /// The cargo command and its arguments.
    pub cargo: CargoSubcommand,
}

impl Args {
    /// The cargo command and its arguments, word by word.
    pub open spec fn words(self) -> Seq<Seq<char>> {
        self.cargo.words()
    }

    /// The cargo command, if there is one.
    pub fn cargo_cmd(&self) -> (command: Option<&String>)
        ensures
            match command {
                Some(command) => self.words().len() > 0 && command@ == self.words()[0],
                None => self.words().len() == 0,
            },
    {
        match &self.cargo {
            CargoSubcommand::Cargo(words) => if words.len() > 0 {
                Some(&words[0])
            } else {
                None
            },
        }
    }

    /// What follows the cargo command.
    pub fn cargo_args(&self) -> (args: &[String])
        ensures
            text::views(args@) == if self.words().len() > 0 {
                self.words().skip(1)
            } else {
                Seq::empty()
            },
    {
        match &self.cargo {
            CargoSubcommand::Cargo(words) => {
                let from: usize = if words.len() > 0 {
                    1
                } else {
                    0
                };
                let args = slice_subrange(words.as_slice(), from, words.len());
                assert(text::views(args@) =~= self.words().skip(from as int));
                args
            },
        }
    }
}

/// The words of an invocation without the subcommand's own name. Cargo runs `cargo dirty …` as
/// `cargo-dirty dirty …`; in a direct invocation the word is absent.
pub open spec fn own_words(argv: Seq<Seq<char>>) -> Seq<Seq<char>> {
    if argv.len() > 1 && argv[1] == "dirty"@ {
        argv.remove(1)
    } else {
        argv
    }
}

/// Tells whether the second word of an invocation is the subcommand's own name, which is not an
/// argument.
pub fn names_itself(argv: &[String]) -> (named: bool)
    ensures
        own_words(text::views(argv@)) == if named {
            text::views(argv@).remove(1)
        } else {
            text::views(argv@)
        },
        named == (argv@.len() > 1 && argv@[1]@ == "dirty"@),
{
    argv.len() > 1 && text::same_text(argv[1].as_str(), "dirty")
}

} // verus!
