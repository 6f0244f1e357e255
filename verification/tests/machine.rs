//! Tests of the extraction machine on hand-built event sequences, where
//! every span is chosen, so expected warnings are exact strings.

use marki::extract::extract;
use marki::extract::MdEvent;
use marki::extract::SpannedEvent;

fn ev(event: MdEvent, start: usize, end: usize) -> SpannedEvent {
    SpannedEvent { event, start, end }
}

const MARKER: &str = "<!-- marki[card] -->\n";

#[test]
fn single_block_on_events() {
    let events = vec![
        ev(MdEvent::Html(MARKER.to_string()), 0, 21),
        ev(MdEvent::Text("Q. What is marki?".to_string()), 22, 39),
        ev(MdEvent::ParagraphEnd, 22, 40),
        ev(MdEvent::Text("A. A card generator.".to_string()), 41, 61),
        ev(MdEvent::ParagraphEnd, 41, 61),
    ];
    let (cards, warnings) = extract(&events, "notes.md");
    assert_eq!(cards.len(), 1);
    assert_eq!(cards[0].front, "What is marki?");
    assert_eq!(cards[0].back, "A card generator.");
    assert_eq!(warnings.len(), 0);
}

#[test]
fn two_blocks_on_events() {
    let events = vec![
        ev(MdEvent::Html(MARKER.to_string()), 0, 21),
        ev(MdEvent::Text("Q. One".to_string()), 22, 28),
        ev(MdEvent::ParagraphEnd, 22, 29),
        ev(MdEvent::Text("A. First".to_string()), 30, 38),
        ev(MdEvent::ParagraphEnd, 30, 39),
        ev(MdEvent::Html(MARKER.to_string()), 40, 61),
        ev(MdEvent::Text("Q. Two".to_string()), 62, 68),
        ev(MdEvent::ParagraphEnd, 62, 69),
        ev(MdEvent::Text("A. Second".to_string()), 70, 79),
        ev(MdEvent::ParagraphEnd, 70, 79),
    ];
    let (cards, warnings) = extract(&events, "notes.md");
    assert_eq!(cards.len(), 2);
    assert_eq!(cards[0].front, "One");
    assert_eq!(cards[0].back, "First");
    assert_eq!(cards[1].front, "Two");
    assert_eq!(cards[1].back, "Second");
    assert_eq!(warnings.len(), 0);
}

#[test]
fn non_marker_html_is_ignored() {
    let events = vec![
        ev(MdEvent::Html("<!-- a plain comment -->\n".to_string()), 0, 25),
        ev(MdEvent::Text("Q. Never captured".to_string()), 26, 43),
        ev(MdEvent::ParagraphEnd, 26, 44),
    ];
    let (cards, warnings) = extract(&events, "notes.md");
    assert_eq!(cards.len(), 0);
    assert_eq!(warnings.len(), 0);
}

#[test]
fn marker_without_trailing_newline_is_ignored() {
    let events = vec![
        ev(MdEvent::Html("<!-- marki[card] -->".to_string()), 0, 20),
        ev(MdEvent::Text("A. Lost".to_string()), 21, 28),
        ev(MdEvent::ParagraphEnd, 21, 29),
    ];
    let (cards, warnings) = extract(&events, "notes.md");
    assert_eq!(cards.len(), 0);
    assert_eq!(warnings.len(), 0);
}

#[test]
fn two_markers_exact_warning() {
    let events = vec![
        ev(MdEvent::Html(MARKER.to_string()), 0, 21),
        ev(MdEvent::Html(MARKER.to_string()), 22, 43),
    ];
    let (cards, warnings) = extract(&events, "notes.md");
    assert_eq!(cards.len(), 0);
    assert_eq!(warnings.len(), 1);
    assert_eq!(warnings[0], "notes.md:22:43: Two Marki comments in a row");
}

#[test]
fn marker_inside_prompt_exact_warnings() {
    let events = vec![
        ev(MdEvent::Html(MARKER.to_string()), 0, 21),
        ev(MdEvent::Text("Q. Open question".to_string()), 22, 38),
        ev(MdEvent::Html(MARKER.to_string()), 39, 60),
    ];
    let (cards, warnings) = extract(&events, "notes.md");
    assert_eq!(cards.len(), 0);
    assert_eq!(warnings.len(), 2);
    assert_eq!(warnings[0], "notes.md:39:60: Two Marki comments in a row");
    assert_eq!(
        warnings[1],
        "notes.md:39:60: Marki comment inside of prompt or response"
    );
}

#[test]
fn missing_front_exact_warning() {
    let events = vec![
        ev(MdEvent::Html(MARKER.to_string()), 0, 21),
        ev(MdEvent::Text("A. Answer".to_string()), 22, 31),
        ev(MdEvent::ParagraphEnd, 22, 32),
    ];
    let (cards, warnings) = extract(&events, "notes.md");
    assert_eq!(cards.len(), 1);
    assert_eq!(cards[0].front, "");
    assert_eq!(cards[0].back, "Answer");
    assert_eq!(warnings.len(), 1);
    assert_eq!(warnings[0], "notes.md:22:32: Card without a front");
}

#[test]
fn empty_back_drops_card_exact_warnings() {
    let events = vec![
        ev(MdEvent::Html(MARKER.to_string()), 0, 21),
        ev(MdEvent::Text("A. ".to_string()), 22, 25),
        ev(MdEvent::ParagraphEnd, 22, 26),
    ];
    let (cards, warnings) = extract(&events, "notes.md");
    assert_eq!(cards.len(), 0);
    assert_eq!(warnings.len(), 2);
    assert_eq!(warnings[0], "notes.md:22:26: Card without a front");
    assert_eq!(warnings[1], "notes.md:22:26: Card without a back");
}

#[test]
fn text_outside_marker_scope_is_ignored() {
    let events = vec![
        ev(MdEvent::Text("Q. Before any marker".to_string()), 0, 20),
        ev(MdEvent::ParagraphEnd, 0, 21),
        ev(MdEvent::Other, 21, 21),
    ];
    let (cards, warnings) = extract(&events, "notes.md");
    assert_eq!(cards.len(), 0);
    assert_eq!(warnings.len(), 0);
}

#[test]
fn front_accumulates_over_text_runs() {
    let events = vec![
        ev(MdEvent::Html(MARKER.to_string()), 0, 21),
        ev(MdEvent::Text("Q. first ".to_string()), 22, 31),
        ev(MdEvent::Text("Q. second".to_string()), 31, 40),
        ev(MdEvent::ParagraphEnd, 22, 41),
        ev(MdEvent::Text("A. back".to_string()), 42, 49),
        ev(MdEvent::ParagraphEnd, 42, 50),
    ];
    let (cards, warnings) = extract(&events, "notes.md");
    assert_eq!(cards.len(), 1);
    assert_eq!(cards[0].front, "first second");
    assert_eq!(cards[0].back, "back");
    assert_eq!(warnings.len(), 0);
}

#[test]
fn extract_twice_same_events_same_output() {
    let events = vec![
        ev(MdEvent::Html(MARKER.to_string()), 0, 21),
        ev(MdEvent::Text("A. Answer".to_string()), 22, 31),
        ev(MdEvent::ParagraphEnd, 22, 32),
    ];
    let (cards1, warnings1) = extract(&events, "notes.md");
    let (cards2, warnings2) = extract(&events, "notes.md");
    assert_eq!(cards1.len(), cards2.len());
    for i in 0..cards1.len() {
        assert_eq!(cards1[i].front, cards2[i].front);
        assert_eq!(cards1[i].back, cards2[i].back);
    }
    assert_eq!(warnings1, warnings2);
}
