//! Laws of the extraction machine, proved once and for all: documents
//! without markers produce nothing, well-formed annotation blocks produce
//! exactly their card, blocks are independent of one another, and the
//! machine's edge cases (missing front, missing back, doubled markers)
//! behave as documented.

use vstd::prelude::*;

use crate::model::back_prefix;
use crate::model::clear_logs;
use crate::model::front_prefix;
use crate::model::has_prefix;
use crate::model::init_state;
use crate::model::inside_msg;
use crate::model::is_marker;
use crate::model::no_back_msg;
use crate::model::no_front_msg;
use crate::model::resting;
use crate::model::run;
use crate::model::run_from;
use crate::model::step;
use crate::model::two_comments_msg;
use crate::model::warning_model;
use crate::model::CardModel;
use crate::model::EventModel;
use crate::model::SpannedEventModel;
use crate::model::StateModel;

verus! {

/// An event that opens an annotation: a raw HTML block whose text is a
/// marker.
pub open spec fn is_marker_event(ev: SpannedEventModel) -> bool {
    ev.event matches EventModel::Html(s) && is_marker(s)
}

/// A well-formed annotation block: a marker, a `Q. `-prefixed paragraph,
/// and an `A. `-prefixed paragraph.
pub open spec fn is_qa_block(evs: Seq<SpannedEventModel>, x: Seq<char>, y: Seq<char>) -> bool {
    &&& evs.len() == 5
    &&& is_marker_event(evs[0])
    &&& evs[1].event == EventModel::Text(front_prefix() + x)
    &&& evs[2].event == EventModel::ParagraphEnd
    &&& evs[3].event == EventModel::Text(back_prefix() + y)
    &&& evs[4].event == EventModel::ParagraphEnd
}

/// A marker followed only by an `A. `-prefixed paragraph.
pub open spec fn is_back_only_block(evs: Seq<SpannedEventModel>, y: Seq<char>) -> bool {
    &&& evs.len() == 3
    &&& is_marker_event(evs[0])
    &&& evs[1].event == EventModel::Text(back_prefix() + y)
    &&& evs[2].event == EventModel::ParagraphEnd
}

/// A marker followed only by a `Q. `-prefixed paragraph.
pub open spec fn is_front_only_block(evs: Seq<SpannedEventModel>, x: Seq<char>) -> bool {
    &&& evs.len() == 3
    &&& is_marker_event(evs[0])
    &&& evs[1].event == EventModel::Text(front_prefix() + x)
    &&& evs[2].event == EventModel::ParagraphEnd
}

proof fn lemma_push_concat<A>(p: Seq<A>, y: Seq<A>, x: A)
    ensures
        (p + y).push(x) == p + y.push(x),
{
    assert((p + y).push(x) =~= p + y.push(x));
}

proof fn lemma_concat_prefix(p: Seq<char>, x: Seq<char>)
    ensures
        has_prefix(p + x, p),
        (p + x).skip(p.len() as int) == x,
{
    assert((p + x).subrange(0, p.len() as int) =~= p);
    assert((p + x).skip(p.len() as int) =~= x);
}

/// A text run with the one question/answer prefix never carries the other:
/// the two prefixes differ in their first character.
proof fn lemma_prefixes_distinct(x: Seq<char>)
    ensures
        !has_prefix(front_prefix() + x, back_prefix()),
        !has_prefix(back_prefix() + x, front_prefix()),
{
    reveal_strlit("Q. ");
    reveal_strlit("A. ");
    if has_prefix(front_prefix() + x, back_prefix()) {
        assert((front_prefix() + x).subrange(0, back_prefix().len() as int)[0]
            == back_prefix()[0]);
        assert((front_prefix() + x)[0] == front_prefix()[0]);
        assert(false);
    }
    if has_prefix(back_prefix() + x, front_prefix()) {
        assert((back_prefix() + x).subrange(0, front_prefix().len() as int)[0]
            == front_prefix()[0]);
        assert((back_prefix() + x)[0] == back_prefix()[0]);
        assert(false);
    }
}

proof fn lemma_run_from_concat(
    st: StateModel,
    e1: Seq<SpannedEventModel>,
    e2: Seq<SpannedEventModel>,
    path: Seq<char>,
)
    ensures
        run_from(st, e1 + e2, path) == run_from(run_from(st, e1, path), e2, path),
    decreases e2.len(),
{
    if e2.len() == 0 {
        assert(e1 + e2 =~= e1);
    } else {
        lemma_run_from_concat(st, e1, e2.drop_last(), path);
        assert((e1 + e2).drop_last() =~= e1 + e2.drop_last());
        assert((e1 + e2).last() == e2.last());
    }
}

proof fn lemma_step_logs(
    path: Seq<char>,
    a: StateModel,
    b: StateModel,
    p: Seq<CardModel>,
    q: Seq<Seq<char>>,
    ev: SpannedEventModel,
)
    requires
        a.seen_comment == b.seen_comment,
        a.in_front == b.in_front,
        a.in_back == b.in_back,
        a.front == b.front,
        a.back == b.back,
        a.cards == p + b.cards,
        a.warnings == q + b.warnings,
    ensures
        ({
            let sa = step(path, a, ev);
            let sb = step(path, b, ev);
            &&& sa.seen_comment == sb.seen_comment
            &&& sa.in_front == sb.in_front
            &&& sa.in_back == sb.in_back
            &&& sa.front == sb.front
            &&& sa.back == sb.back
            &&& sa.cards == p + sb.cards
            &&& sa.warnings == q + sb.warnings
        }),
{
    match ev.event {
        EventModel::Html(_) => {
            let w1 = warning_model(path, ev.start, ev.end, two_comments_msg());
            let w2 = warning_model(path, ev.start, ev.end, inside_msg());
            lemma_push_concat(q, b.warnings, w1);
            lemma_push_concat(q, b.warnings.push(w1), w2);
            lemma_push_concat(q, b.warnings, w2);
        },
        EventModel::Text(_) => {},
        EventModel::ParagraphEnd => {
            let w1 = warning_model(path, ev.start, ev.end, no_front_msg());
            let w2 = warning_model(path, ev.start, ev.end, no_back_msg());
            lemma_push_concat(q, b.warnings, w1);
            lemma_push_concat(q, b.warnings.push(w1), w2);
            lemma_push_concat(q, b.warnings, w2);
            lemma_push_concat(p, b.cards, CardModel { front: b.front, back: b.back });
        },
        EventModel::Other => {},
    }
}

proof fn lemma_run_from_logs(st: StateModel, events: Seq<SpannedEventModel>, path: Seq<char>)
    ensures
        ({
            let a = run_from(st, events, path);
            let b = run_from(clear_logs(st), events, path);
            &&& a.seen_comment == b.seen_comment
            &&& a.in_front == b.in_front
            &&& a.in_back == b.in_back
            &&& a.front == b.front
            &&& a.back == b.back
            &&& a.cards == st.cards + b.cards
            &&& a.warnings == st.warnings + b.warnings
        }),
    decreases events.len(),
{
    if events.len() == 0 {
        assert(st.cards + Seq::<CardModel>::empty() =~= st.cards);
        assert(st.warnings + Seq::<Seq<char>>::empty() =~= st.warnings);
    } else {
        lemma_run_from_logs(st, events.drop_last(), path);
        lemma_step_logs(
            path,
            run_from(st, events.drop_last(), path),
            run_from(clear_logs(st), events.drop_last(), path),
            st.cards,
            st.warnings,
            events.last(),
        );
    }
}

/// Law: a document whose events contain no annotation marker yields no
/// cards and no warnings.
pub proof fn lemma_no_markers(events: Seq<SpannedEventModel>, path: Seq<char>)
    requires
        forall|j: int| 0 <= j < events.len() ==> !#[trigger] is_marker_event(events[j]),
    ensures
        run(events, path).cards.len() == 0,
        run(events, path).warnings.len() == 0,
{
    lemma_no_markers_aux(events, path);
}

proof fn lemma_no_markers_aux(events: Seq<SpannedEventModel>, path: Seq<char>)
    requires
        forall|j: int| 0 <= j < events.len() ==> !#[trigger] is_marker_event(events[j]),
    ensures
        ({
            let st = run(events, path);
            &&& !st.seen_comment
            &&& !st.in_front
            &&& !st.in_back
            &&& st.cards.len() == 0
            &&& st.warnings.len() == 0
        }),
    decreases events.len(),
{
    if events.len() > 0 {
        let dl = events.drop_last();
        assert(forall|j: int| 0 <= j < dl.len() ==> !#[trigger] is_marker_event(dl[j])) by {
            assert(forall|j: int| 0 <= j < dl.len() ==> dl[j] == events[j]);
        }
        lemma_no_markers_aux(dl, path);
        assert(!is_marker_event(events[events.len() - 1]));
    }
}

/// Law: extraction restarts cleanly. If a first event sequence leaves the
/// machine at rest (no open marker, no open paragraph, empty
/// accumulators), then extracting the concatenation of that sequence with
/// any second one yields the cards and warnings of the two sequences,
/// extracted separately, in order.
pub proof fn lemma_blocks_independent(
    e1: Seq<SpannedEventModel>,
    e2: Seq<SpannedEventModel>,
    path: Seq<char>,
)
    requires
        resting(run(e1, path)),
    ensures
        run(e1 + e2, path).cards == run(e1, path).cards + run(e2, path).cards,
        run(e1 + e2, path).warnings == run(e1, path).warnings + run(e2, path).warnings,
{
    lemma_run_from_concat(init_state(), e1, e2, path);
    let m = run(e1, path);
    assert(clear_logs(m) == init_state());
    lemma_run_from_logs(m, e2, path);
}

/// Law: one well-formed annotation block — a marker, a non-empty
/// `Q. `-prefixed paragraph, a non-empty `A. `-prefixed paragraph — yields
/// exactly the one card with that question and answer, no warnings, and
/// leaves the machine at rest.
pub proof fn lemma_qa_block(
    evs: Seq<SpannedEventModel>,
    x: Seq<char>,
    y: Seq<char>,
    path: Seq<char>,
)
    requires
        is_qa_block(evs, x, y),
        x.len() > 0,
        y.len() > 0,
    ensures
        ({
            let st = run(evs, path);
            &&& st.cards == seq![CardModel { front: x, back: y }]
            &&& st.warnings.len() == 0
            &&& resting(st)
        }),
{
    reveal_strlit("Q. ");
    reveal_strlit("A. ");
    lemma_concat_prefix(front_prefix(), x);
    lemma_concat_prefix(back_prefix(), y);
    lemma_prefixes_distinct(x);
    lemma_prefixes_distinct(y);
    let p4 = evs.drop_last();
    let p3 = p4.drop_last();
    let p2 = p3.drop_last();
    let p1 = p2.drop_last();
    let p0 = p1.drop_last();
    assert(p0.len() == 0);
    assert(run_from(init_state(), p0, path) == init_state());
    let st1 = step(path, init_state(), evs[0]);
    let st2 = step(path, st1, evs[1]);
    let st3 = step(path, st2, evs[2]);
    let st4 = step(path, st3, evs[3]);
    let st5 = step(path, st4, evs[4]);
    assert(run_from(init_state(), p1, path) == st1);
    assert(run_from(init_state(), p2, path) == st2);
    assert(run_from(init_state(), p3, path) == st3);
    assert(run_from(init_state(), p4, path) == st4);
    assert(run(evs, path) == st5);
    assert(st1.front + x =~= x);
    assert(st3.back + y =~= y);
    assert(st5.cards =~= seq![CardModel { front: x, back: y }]);
}

/// Law: two consecutive well-formed annotation blocks yield their two
/// cards in document order, each independently correct, and no warnings.
pub proof fn lemma_two_qa_blocks(
    evs1: Seq<SpannedEventModel>,
    evs2: Seq<SpannedEventModel>,
    x1: Seq<char>,
    y1: Seq<char>,
    x2: Seq<char>,
    y2: Seq<char>,
    path: Seq<char>,
)
    requires
        is_qa_block(evs1, x1, y1),
        is_qa_block(evs2, x2, y2),
        x1.len() > 0,
        y1.len() > 0,
        x2.len() > 0,
        y2.len() > 0,
    ensures
        ({
            let st = run(evs1 + evs2, path);
            &&& st.cards == seq![
                CardModel { front: x1, back: y1 },
                CardModel { front: x2, back: y2 },
            ]
            &&& st.warnings.len() == 0
        }),
{
    lemma_qa_block(evs1, x1, y1, path);
    lemma_qa_block(evs2, x2, y2, path);
    lemma_blocks_independent(evs1, evs2, path);
    assert(seq![CardModel { front: x1, back: y1 }] + seq![CardModel { front: x2, back: y2 }]
        =~= seq![CardModel { front: x1, back: y1 }, CardModel { front: x2, back: y2 }]);
    assert(run(evs1 + evs2, path).warnings =~= Seq::<Seq<char>>::empty());
}

/// Law: a marker followed only by a non-empty answer paragraph yields one
/// card with an empty front and one "Card without a front" warning, tagged
/// with the span of the paragraph end that completed the card.
pub proof fn lemma_back_only_block(evs: Seq<SpannedEventModel>, y: Seq<char>, path: Seq<char>)
    requires
        is_back_only_block(evs, y),
        y.len() > 0,
    ensures
        ({
            let st = run(evs, path);
            &&& st.cards == seq![CardModel { front: Seq::empty(), back: y }]
            &&& st.warnings == seq![
                warning_model(path, evs[2].start, evs[2].end, no_front_msg()),
            ]
        }),
{
    reveal_strlit("Q. ");
    reveal_strlit("A. ");
    lemma_concat_prefix(back_prefix(), y);
    lemma_prefixes_distinct(y);
    let p2 = evs.drop_last();
    let p1 = p2.drop_last();
    let p0 = p1.drop_last();
    assert(p0.len() == 0);
    assert(run_from(init_state(), p0, path) == init_state());
    let st1 = step(path, init_state(), evs[0]);
    let st2 = step(path, st1, evs[1]);
    let st3 = step(path, st2, evs[2]);
    assert(run_from(init_state(), p1, path) == st1);
    assert(run_from(init_state(), p2, path) == st2);
    assert(run(evs, path) == st3);
    assert(st1.back + y =~= y);
    assert(st3.cards =~= seq![CardModel { front: Seq::empty(), back: y }]);
    assert(st3.warnings =~= seq![
        warning_model(path, evs[2].start, evs[2].end, no_front_msg()),
    ]);
}

/// Law: a marker followed only by a question paragraph yields no card and
/// no warning: completion is driven solely by closing a back, so an open
/// front at the end of the document is dropped silently.
pub proof fn lemma_front_only_block(evs: Seq<SpannedEventModel>, x: Seq<char>, path: Seq<char>)
    requires
        is_front_only_block(evs, x),
    ensures
        run(evs, path).cards.len() == 0,
        run(evs, path).warnings.len() == 0,
{
    reveal_strlit("Q. ");
    reveal_strlit("A. ");
    lemma_concat_prefix(front_prefix(), x);
    lemma_prefixes_distinct(x);
    let p2 = evs.drop_last();
    let p1 = p2.drop_last();
    let p0 = p1.drop_last();
    assert(p0.len() == 0);
    assert(run_from(init_state(), p0, path) == init_state());
    let st1 = step(path, init_state(), evs[0]);
    let st2 = step(path, st1, evs[1]);
    let st3 = step(path, st2, evs[2]);
    assert(run_from(init_state(), p1, path) == st1);
    assert(run_from(init_state(), p2, path) == st2);
    assert(run(evs, path) == st3);
}

/// Law: two annotation markers with nothing between them yield no cards
/// and exactly one "Two Marki comments in a row" warning, tagged with the
/// second marker's span.
pub proof fn lemma_adjacent_markers(evs: Seq<SpannedEventModel>, path: Seq<char>)
    requires
        evs.len() == 2,
        is_marker_event(evs[0]),
        is_marker_event(evs[1]),
    ensures
        ({
            let st = run(evs, path);
            &&& st.cards.len() == 0
            &&& st.warnings == seq![
                warning_model(path, evs[1].start, evs[1].end, two_comments_msg()),
            ]
        }),
{
    let p1 = evs.drop_last();
    let p0 = p1.drop_last();
    assert(p0.len() == 0);
    assert(run_from(init_state(), p0, path) == init_state());
    let st1 = step(path, init_state(), evs[0]);
    let st2 = step(path, st1, evs[1]);
    assert(run_from(init_state(), p1, path) == st1);
    assert(run(evs, path) == st2);
    assert(st2.warnings =~= seq![
        warning_model(path, evs[1].start, evs[1].end, two_comments_msg()),
    ]);
}

} // verus!
