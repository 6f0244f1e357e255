//! Mathematical model of card extraction.
//!
//! The extractor is a left-to-right state machine over Markdown structural
//! events. This module defines the machine purely at the specification
//! level: the event model, the machine state, the transition function
//! `step`, and the fold `run` that the executable extractor is proved to
//! implement exactly.

use vstd::prelude::*;

verus! {

/// Model of one extracted card: the question (front) and answer (back) text.
pub ghost struct CardModel {
    pub front: Seq<char>,
    pub back: Seq<char>,
}

/// Model of the Markdown structural events the extractor reacts to.
/// Everything else a Markdown parser may emit is `Other` and is ignored.
pub ghost enum EventModel {
    /// A raw HTML block, carrying its literal text.
    Html(Seq<char>),
    /// A text run inside a paragraph.
    Text(Seq<char>),
    /// The end of a paragraph.
    ParagraphEnd,
    /// Any other structural event.
    Other,
}

/// An event together with its byte-offset span in the source document.
pub ghost struct SpannedEventModel {
    pub event: EventModel,
    pub start: nat,
    pub end: nat,
}

/// The extraction state carried across the event stream, together with the
/// output accumulated so far.
pub ghost struct StateModel {
    /// An open annotation marker has been seen and not yet closed by a
    /// completed card.
    pub seen_comment: bool,
    /// The current paragraph is contributing to the front.
    pub in_front: bool,
    /// The current paragraph is contributing to the back.
    pub in_back: bool,
    /// Accumulated front text of the pending card.
    pub front: Seq<char>,
    /// Accumulated back text of the pending card.
    pub back: Seq<char>,
    /// Cards emitted so far, in document order.
    pub cards: Seq<CardModel>,
    /// Warnings emitted so far, in document order.
    pub warnings: Seq<Seq<char>>,
}

/// The literal prefix of an annotation marker.
pub open spec fn marker_prefix() -> Seq<char> {
    "<!-- marki[card] "@
}

/// The literal suffix of an annotation marker.
pub open spec fn marker_suffix() -> Seq<char> {
    "-->\n"@
}

/// The literal prefix that opens a card front.
pub open spec fn front_prefix() -> Seq<char> {
    "Q. "@
}

/// The literal prefix that opens a card back.
pub open spec fn back_prefix() -> Seq<char> {
    "A. "@
}

pub open spec fn two_comments_msg() -> Seq<char> {
    "Two Marki comments in a row"@
}

pub open spec fn inside_msg() -> Seq<char> {
    "Marki comment inside of prompt or response"@
}

pub open spec fn no_front_msg() -> Seq<char> {
    "Card without a front"@
}

pub open spec fn no_back_msg() -> Seq<char> {
    "Card without a back"@
}

pub open spec fn has_prefix(s: Seq<char>, p: Seq<char>) -> bool {
    s.len() >= p.len() && s.subrange(0, p.len() as int) == p
}

pub open spec fn has_suffix(s: Seq<char>, p: Seq<char>) -> bool {
    s.len() >= p.len() && s.subrange(s.len() - p.len(), s.len() as int) == p
}

/// Whether a raw HTML block's text is an annotation marker: the marker
/// prefix, arbitrary content, and the marker suffix, with enough room for
/// both (prefix stripping followed by suffix stripping of the remainder).
pub open spec fn is_marker(s: Seq<char>) -> bool {
    &&& s.len() >= marker_prefix().len() + marker_suffix().len()
    &&& has_prefix(s, marker_prefix())
    &&& has_suffix(s, marker_suffix())
}

/// The decimal digit characters, least significant last, of `n`.
pub open spec fn dec_digits(n: nat) -> Seq<char>
    decreases n,
{
    if n < 10 {
        seq![digit_char(n)]
    } else {
        dec_digits(n / 10).push(digit_char(n % 10))
    }
}

/// The character for one decimal digit value.
pub open spec fn digit_char(d: nat) -> char {
    if d == 0 { '0' }
    else if d == 1 { '1' }
    else if d == 2 { '2' }
    else if d == 3 { '3' }
    else if d == 4 { '4' }
    else if d == 5 { '5' }
    else if d == 6 { '6' }
    else if d == 7 { '7' }
    else if d == 8 { '8' }
    else { '9' }
}

/// A diagnostic line: `<source>:<start>:<end>: <message>`.
pub open spec fn warning_model(path: Seq<char>, start: nat, end: nat, msg: Seq<char>) -> Seq<char> {
    path + ":"@ + dec_digits(start) + ":"@ + dec_digits(end) + ": "@ + msg
}

/// A state with no open marker, no open paragraph, and empty accumulators:
/// the machine is between cards, as it is at the start of a document.
pub open spec fn resting(st: StateModel) -> bool {
    &&& !st.seen_comment
    &&& !st.in_front
    &&& !st.in_back
    &&& st.front == Seq::<char>::empty()
    &&& st.back == Seq::<char>::empty()
}

/// The same machine state with the accumulated output discarded.
pub open spec fn clear_logs(st: StateModel) -> StateModel {
    StateModel { cards: Seq::empty(), warnings: Seq::empty(), ..st }
}

/// The state at the start of a document: nothing seen, nothing accumulated.
pub open spec fn init_state() -> StateModel {
    StateModel {
        seen_comment: false,
        in_front: false,
        in_back: false,
        front: Seq::empty(),
        back: Seq::empty(),
        cards: Seq::empty(),
        warnings: Seq::empty(),
    }
}

/// Transition on a raw HTML block. A marker warns if one is already open,
/// or if it appears inside a prompt or response, and is then recorded;
/// any other HTML block is ignored.
pub open spec fn step_html(
    path: Seq<char>,
    st: StateModel,
    s: Seq<char>,
    start: nat,
    end: nat,
) -> StateModel {
    if is_marker(s) {
        let w1 = if st.seen_comment {
            st.warnings.push(warning_model(path, start, end, two_comments_msg()))
        } else {
            st.warnings
        };
        let w2 = if st.in_front || st.in_back {
            w1.push(warning_model(path, start, end, inside_msg()))
        } else {
            w1
        };
        StateModel { seen_comment: true, warnings: w2, ..st }
    } else {
        st
    }
}

/// Transition on a text run. After a marker, a run with the front prefix
/// contributes its remainder to the front, and one with the back prefix to
/// the back; both checks apply independently to the same run.
pub open spec fn step_text(st: StateModel, s: Seq<char>) -> StateModel {
    if st.seen_comment {
        let st1 = if has_prefix(s, front_prefix()) {
            StateModel {
                in_front: true,
                front: st.front + s.skip(front_prefix().len() as int),
                ..st
            }
        } else {
            st
        };
        if has_prefix(s, back_prefix()) {
            StateModel {
                in_back: true,
                back: st1.back + s.skip(back_prefix().len() as int),
                ..st1
            }
        } else {
            st1
        }
    } else {
        st
    }
}

/// Transition on a paragraph end. Closing an open back is the
/// card-completion boundary: flags reset, accumulators clear, an empty
/// front is warned about but accepted, and an empty back is warned about
/// and drops the card.
pub open spec fn step_par_end(path: Seq<char>, st: StateModel, start: nat, end: nat) -> StateModel {
    if st.in_back {
        let w1 = if st.front.len() == 0 {
            st.warnings.push(warning_model(path, start, end, no_front_msg()))
        } else {
            st.warnings
        };
        let w2 = if st.back.len() == 0 {
            w1.push(warning_model(path, start, end, no_back_msg()))
        } else {
            w1
        };
        let cards2 = if st.back.len() > 0 {
            st.cards.push(CardModel { front: st.front, back: st.back })
        } else {
            st.cards
        };
        StateModel {
            seen_comment: false,
            in_front: false,
            in_back: false,
            front: Seq::empty(),
            back: Seq::empty(),
            cards: cards2,
            warnings: w2,
        }
    } else if st.in_front {
        StateModel { in_front: false, ..st }
    } else {
        st
    }
}

/// One transition of the extraction machine.
pub open spec fn step(path: Seq<char>, st: StateModel, ev: SpannedEventModel) -> StateModel {
    match ev.event {
        EventModel::Html(s) => step_html(path, st, s, ev.start, ev.end),
        EventModel::Text(s) => step_text(st, s),
        EventModel::ParagraphEnd => step_par_end(path, st, ev.start, ev.end),
        EventModel::Other => st,
    }
}

/// Fold the machine over an event sequence from a given state.
pub open spec fn run_from(
    st: StateModel,
    events: Seq<SpannedEventModel>,
    path: Seq<char>,
) -> StateModel
    decreases events.len(),
{
    if events.len() == 0 {
        st
    } else {
        step(path, run_from(st, events.drop_last(), path), events.last())
    }
}

/// The state after extracting a whole document's event sequence.
pub open spec fn run(events: Seq<SpannedEventModel>, path: Seq<char>) -> StateModel {
    run_from(init_state(), events, path)
}

} // verus!
