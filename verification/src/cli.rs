//! Command-line options of the card generator, as plain values.

use vstd::prelude::*;
use vstd::string::StringExecFns;

verus! {

/// Generate Anki cards from Markdown notes.
///
/// The options of one run: the Markdown files to read, the name of the
/// deck to build, the path of the package file to write, and whether to
/// echo each extracted card.
#[derive(Debug)]
pub struct Args {
    /// Markdown files.
    pub file: Vec<String>,
    /// Deck name.
    pub deck: String,
    /// Output file.
    pub output: String,
    /// Echo each extracted card.
    pub verbose: bool,
}

impl Default for Args {
    /// No files, the default deck name and output path, not verbose.
    fn default() -> (r: Self)
        ensures
            r.file@.len() == 0,
            r.deck@ == "Marki"@,
            r.output@ == "marki.apkg"@,
            !r.verbose,
    {
        Args {
            file: Vec::new(),
            deck: String::from_str("Marki"),
            output: String::from_str("marki.apkg"),
            verbose: false,
        }
    }
}

} // verus!
