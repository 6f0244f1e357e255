//! Tests of the command-line option record.

use marki::cli::Args;

#[test]
fn default_options() {
    let a = Args::default();
    assert_eq!(a.file.len(), 0);
    assert_eq!(a.deck, "Marki");
    assert_eq!(a.output, "marki.apkg");
    assert!(!a.verbose);
}
