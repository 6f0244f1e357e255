//! Extraction of question/answer flashcards from annotated Markdown.
//!
//! A document is annotated with HTML-comment markers of the form
//! `<!-- marki[card] -->`; the paragraphs `Q. ...` and `A. ...` that follow
//! such a marker become the front and back of one flashcard. The extractor
//! consumes a sequence of Markdown structural events and produces the cards
//! in document order, together with diagnostic warnings for malformed
//! annotations. Malformed input never aborts extraction: it only adds
//! warnings.

pub mod cli;
pub mod extract;
pub mod laws;
pub mod model;
pub mod text;
