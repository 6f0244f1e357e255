//! The card extractor: executable types and the verified extraction pass.
//!
//! `extract` folds the state machine of `crate::model` over an event
//! sequence and is proved to return exactly what the model's `run`
//! computes. `extract_string` feeds it the events of a Markdown document,
//! obtained from an external Markdown parser.

use vstd::prelude::*;
use vstd::string::StrSliceExecFns;
use vstd::string::StringExecFns;

use crate::model::back_prefix;
use crate::model::front_prefix;
use crate::model::run;
use crate::model::step;
use crate::model::CardModel;
use crate::model::EventModel;
use crate::model::SpannedEventModel;
use crate::text::is_marker_text;
use crate::text::make_warning;
use crate::text::str_starts_with;

verus! {

/// One extracted flashcard: question text and answer text, both plain.
#[derive(Debug)]
pub struct Card {
    pub front: String,
    pub back: String,
}

/// The Markdown structural events the extractor reacts to; anything else a
/// parser emits is `Other`.
#[derive(Debug)]
pub enum MdEvent {
    Html(String),
    Text(String),
    ParagraphEnd,
    Other,
}

/// An event with its byte-offset span in the source document.
#[derive(Debug)]
pub struct SpannedEvent {
    pub event: MdEvent,
    pub start: usize,
    pub end: usize,
}

impl View for Card {
    type V = CardModel;

    open spec fn view(&self) -> CardModel {
        CardModel { front: self.front@, back: self.back@ }
    }
}

impl View for MdEvent {
    type V = EventModel;

    open spec fn view(&self) -> EventModel {
        match self {
            MdEvent::Html(s) => EventModel::Html(s@),
            MdEvent::Text(s) => EventModel::Text(s@),
            MdEvent::ParagraphEnd => EventModel::ParagraphEnd,
            MdEvent::Other => EventModel::Other,
        }
    }
}

impl View for SpannedEvent {
    type V = SpannedEventModel;

    open spec fn view(&self) -> SpannedEventModel {
        SpannedEventModel { event: self.event@, start: self.start as nat, end: self.end as nat }
    }
}

/// The models of a sequence of events.
pub open spec fn views_of(evs: Seq<SpannedEvent>) -> Seq<SpannedEventModel> {
    evs.map_values(|e: SpannedEvent| e@)
}

/// The models of a sequence of cards.
pub open spec fn card_views(cs: Seq<Card>) -> Seq<CardModel> {
    cs.map_values(|c: Card| c@)
}

/// The views of a sequence of warning strings.
pub open spec fn warning_views(ws: Seq<String>) -> Seq<Seq<char>> {
    ws.map_values(|w: String| w@)
}

proof fn lemma_card_views_push(cs: Seq<Card>, c: Card)
    ensures
        card_views(cs.push(c)) == card_views(cs).push(c@),
{
    assert(card_views(cs.push(c)) =~= card_views(cs).push(c@));
}

proof fn lemma_warning_views_push(ws: Seq<String>, w: String)
    ensures
        warning_views(ws.push(w)) == warning_views(ws).push(w@),
{
    assert(warning_views(ws.push(w)) =~= warning_views(ws).push(w@));
}

/// Run the extraction state machine over a document's event sequence.
///
/// Returns the extracted cards and the diagnostic warnings, both in
/// document order, exactly as the model's `run` describes. The result is a
/// function of the event sequence and source name alone, so two passes
/// over the same input yield identical output.
pub fn extract(events: &Vec<SpannedEvent>, source_name: &str) -> (r: (Vec<Card>, Vec<String>))
    ensures
        ({
            let st = run(views_of(events@), source_name@);
            card_views(r.0@) == st.cards && warning_views(r.1@) == st.warnings
        }),
{
    let ghost vevs = views_of(events@);
    let mut cards: Vec<Card> = Vec::new();
    let mut warnings: Vec<String> = Vec::new();
    let mut seen_comment = false;
    let mut in_front = false;
    let mut in_back = false;
    let mut front = String::new();
    let mut back = String::new();
    let mut i: usize = 0;
    proof {
        assert(vevs.take(0) =~= Seq::<SpannedEventModel>::empty());
    }
    while i < events.len()
        invariant
            i <= events.len(),
            vevs == views_of(events@),
            ({
                let st = run(vevs.take(i as int), source_name@);
                &&& seen_comment == st.seen_comment
                &&& in_front == st.in_front
                &&& in_back == st.in_back
                &&& front@ == st.front
                &&& back@ == st.back
                &&& card_views(cards@) == st.cards
                &&& warning_views(warnings@) == st.warnings
            }),
        decreases events.len() - i,
    {
        let ghost prev = run(vevs.take(i as int), source_name@);
        let ev = &events[i];
        match &ev.event {
            MdEvent::Html(s) => {
                if is_marker_text(s.as_str()) {
                    if seen_comment {
                        let ghost ws0 = warnings@;
                        let w = make_warning(
                            source_name,
                            ev.start,
                            ev.end,
                            "Two Marki comments in a row",
                        );
                        proof {
                            lemma_warning_views_push(ws0, w);
                        }
                        warnings.push(w);
                    }
                    if in_front || in_back {
                        let ghost ws0 = warnings@;
                        let w = make_warning(
                            source_name,
                            ev.start,
                            ev.end,
                            "Marki comment inside of prompt or response",
                        );
                        proof {
                            lemma_warning_views_push(ws0, w);
                        }
                        warnings.push(w);
                    }
                    seen_comment = true;
                }
            },
            MdEvent::Text(s) => {
                if seen_comment {
                    proof {
                        reveal_strlit("Q. ");
                        reveal_strlit("A. ");
                    }
                    if str_starts_with(s.as_str(), "Q. ") {
                        in_front = true;
                        let rest = s.as_str().substring_char(3, s.as_str().unicode_len());
                        front.append(rest);
                        proof {
                            assert(front@ =~= prev.front + s@.skip(front_prefix().len() as int));
                        }
                    }
                    if str_starts_with(s.as_str(), "A. ") {
                        in_back = true;
                        let rest = s.as_str().substring_char(3, s.as_str().unicode_len());
                        back.append(rest);
                        proof {
                            assert(back@ =~= prev.back + s@.skip(back_prefix().len() as int));
                        }
                    }
                }
            },
            MdEvent::ParagraphEnd => {
                if in_back {
                    in_front = false;
                    in_back = false;
                    seen_comment = false;
                    let front_empty = front.as_str().is_empty();
                    let back_empty = back.as_str().is_empty();
                    if front_empty {
                        let ghost ws0 = warnings@;
                        let w = make_warning(source_name, ev.start, ev.end, "Card without a front");
                        proof {
                            lemma_warning_views_push(ws0, w);
                        }
                        warnings.push(w);
                    }
                    if back_empty {
                        let ghost ws0 = warnings@;
                        let w = make_warning(source_name, ev.start, ev.end, "Card without a back");
                        proof {
                            lemma_warning_views_push(ws0, w);
                        }
                        warnings.push(w);
                        front = String::new();
                        back = String::new();
                    } else {
                        let ghost cs0 = cards@;
                        let card = Card { front, back };
                        proof {
                            lemma_card_views_push(cs0, card);
                        }
                        cards.push(card);
                        front = String::new();
                        back = String::new();
                    }
                } else if in_front {
                    in_front = false;
                }
            },
            MdEvent::Other => {},
        }
        proof {
            assert(vevs.take(i + 1).drop_last() =~= vevs.take(i as int));
            assert(vevs.take(i + 1).last() == ev@);
            assert(run(vevs.take(i + 1), source_name@) == step(source_name@, prev, ev@));
        }
        i += 1;
    }
    proof {
        assert(vevs.take(events@.len() as int) =~= vevs);
    }
    (cards, warnings)
}

/// The sequence of Markdown structural events, with byte spans, that the
/// external Markdown parser produces for a document.
pub uninterp spec fn md_events(md: Seq<char>) -> Seq<SpannedEventModel>;

/// Relies on pulldown_cmark::Parser with default options and its offset
/// iterator: the event sequence, with byte spans, is a function of the
/// document text alone.
#[verifier::external_body]
fn parse_markdown(md: &str) -> (r: Vec<SpannedEvent>)
    ensures
        views_of(r@) == md_events(md@),
{
    pulldown_cmark::Parser::new(md).into_offset_iter().map(|(ev, sp)| SpannedEvent {
        event: match ev {
            pulldown_cmark::Event::Html(t) => MdEvent::Html(t.into_string()),
            pulldown_cmark::Event::Text(t) => MdEvent::Text(t.into_string()),
            pulldown_cmark::Event::End(pulldown_cmark::TagEnd::Paragraph) => MdEvent::ParagraphEnd,
            _ => MdEvent::Other,
        },
        start: sp.start,
        end: sp.end,
    }).collect()
}

/// Extract the flashcards of one Markdown document.
///
/// `path` is the source name used to tag warnings. Returns the cards and
/// the warnings, in document order, that the extraction machine yields on
/// the document's event sequence.
pub fn extract_string(md: &str, path: &str) -> (r: (Vec<Card>, Vec<String>))
    ensures
        ({
            let st = run(md_events(md@), path@);
            card_views(r.0@) == st.cards && warning_views(r.1@) == st.warnings
        }),
{
    let events = parse_markdown(md);
    extract(&events, path)
}

} // verus!
