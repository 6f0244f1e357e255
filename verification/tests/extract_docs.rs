//! End-to-end extraction tests on whole Markdown documents.

use marki::extract::extract_string;

#[test]
fn test_extract_single_card() {
    let md = r#"<!-- marki[card] -->

Q. What is marki?

A. A tool to generate Anki cards from Markdown notes."#;
    let (cards, _warnings) = extract_string(md, "test.md");
    assert_eq!(cards.len(), 1);
    assert_eq!(cards[0].front, "What is marki?");
    assert_eq!(
        cards[0].back,
        "A tool to generate Anki cards from Markdown notes."
    );
}

#[test]
fn test_extract_multiple_cards() {
    let md = r#"<!-- marki[card] -->

Q. What is marki?

A. A tool to generate Anki cards from Markdown notes.

<!-- marki[card] -->

Q. What is the syntax for beginning a marki card?

A. The following specially-formatted HTML comment: `<!-- marki[card] -->`"#;
    let (cards, _warnings) = extract_string(md, "test.md");
    assert_eq!(cards.len(), 2);
    assert_eq!(cards[0].front, "What is marki?");
    assert_eq!(
        cards[0].back,
        "A tool to generate Anki cards from Markdown notes."
    );
    assert_eq!(
        cards[1].front,
        "What is the syntax for beginning a marki card?"
    );
    assert!(cards[1]
        .back
        .contains("The following specially-formatted HTML comment"));
}

#[test]
fn test_extract_no_cards() {
    let md = r#"This is just regular markdown content.

No cards here."#;
    let (cards, _warnings) = extract_string(md, "test.md");
    assert_eq!(cards.len(), 0);
}

#[test]
fn test_extract_card_with_empty_front() {
    let md = r#"<!-- marki[card] -->

A. This card has no front."#;
    let (cards, _warnings) = extract_string(md, "test.md");
    assert_eq!(cards.len(), 1);
    assert_eq!(cards[0].front, "");
    assert_eq!(cards[0].back, "This card has no front.");
}

#[test]
fn test_extract_card_with_empty_back() {
    let md = r#"<!-- marki[card] -->

Q. This card has no back."#;
    let (cards, _warnings) = extract_string(md, "test.md");
    assert_eq!(cards.len(), 0);
}

#[test]
fn no_markers_no_warnings() {
    let md = "Plain prose.\n\nA. not after a marker\n\nQ. neither\n";
    let (cards, warnings) = extract_string(md, "test.md");
    assert_eq!(cards.len(), 0);
    assert_eq!(warnings.len(), 0);
}

#[test]
fn empty_document() {
    let (cards, warnings) = extract_string("", "test.md");
    assert_eq!(cards.len(), 0);
    assert_eq!(warnings.len(), 0);
}

#[test]
fn well_formed_card_yields_no_warnings() {
    let md = "<!-- marki[card] -->\n\nQ. Front text\n\nA. Back text\n";
    let (cards, warnings) = extract_string(md, "test.md");
    assert_eq!(cards.len(), 1);
    assert_eq!(cards[0].front, "Front text");
    assert_eq!(cards[0].back, "Back text");
    assert_eq!(warnings.len(), 0);
}

#[test]
fn missing_front_warns() {
    let md = "<!-- marki[card] -->\n\nA. Answer only.\n";
    let (cards, warnings) = extract_string(md, "test.md");
    assert_eq!(cards.len(), 1);
    assert_eq!(cards[0].front, "");
    assert_eq!(cards[0].back, "Answer only.");
    assert_eq!(warnings.len(), 1);
    assert!(warnings[0].contains("Card without a front"));
    assert!(warnings[0].starts_with("test.md:"));
}

#[test]
fn front_only_dropped_silently() {
    let md = "<!-- marki[card] -->\n\nQ. Question only.\n";
    let (cards, warnings) = extract_string(md, "test.md");
    assert_eq!(cards.len(), 0);
    assert_eq!(warnings.len(), 0);
}

#[test]
fn two_markers_in_a_row_warn() {
    let md = "<!-- marki[card] -->\n\n<!-- marki[card] -->\n\nQ. F\n\nA. B\n";
    let (cards, warnings) = extract_string(md, "test.md");
    assert_eq!(cards.len(), 1);
    assert_eq!(warnings.len(), 1);
    assert!(warnings[0].contains("Two Marki comments in a row"));
}

#[test]
fn extraction_is_deterministic() {
    let md = "<!-- marki[card] -->\n\nA. Answer only.\n\n<!-- marki[card] -->\n\nQ. F\n\nA. B\n";
    let (cards1, warnings1) = extract_string(md, "test.md");
    let (cards2, warnings2) = extract_string(md, "test.md");
    assert_eq!(cards1.len(), cards2.len());
    for i in 0..cards1.len() {
        assert_eq!(cards1[i].front, cards2[i].front);
        assert_eq!(cards1[i].back, cards2[i].back);
    }
    assert_eq!(warnings1, warnings2);
}
