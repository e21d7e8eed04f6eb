//! Text that is handed on sentence by sentence.

use crate::text::{blank, is_white, trim};
use crate::text_stream::{
    arrival_does_not_matter, chunk_buffers, chunk_shown, ends_sentence, flush_shown, joined,
    left_over, pieces, sentences, shown, unfinished, visible, TextStreamView,
};
use vstd::prelude::*;

verus! {

broadcast use vstd::string::group_string_axioms;

/// A sentence ends with a line, or with a mark that ends one in Chinese or in English.
pub proof fn sentences_end_at_marks(c: char)
    ensures
        ends_sentence(c) <==> c == '\n' || c == '\r' || c == '。' || c == '！' || c == '？' || c
            == '!' || c == '?',
{
}

/// Whether more than one character is no white space.
pub open spec fn is_seen() -> spec_fn(Seq<char>) -> bool {
    |p: Seq<char>|
        exists|i: int, j: int|
            0 <= i < j < trim(p).len() && !is_white(#[trigger] trim(p)[i]) && !is_white(
                #[trigger] trim(p)[j],
            )
}

/// Of the pieces of a text those are handed on that hold more than one character but white space,
/// all of them and in order, without the white space at their ends.
pub proof fn seen_pieces_are_handed_on(parts: Seq<Seq<char>>)
    ensures
        ({
            let seen = parts.filter(is_seen());
            &&& shown(parts).len() == seen.len()
            &&& forall|i: int| 0 <= i < seen.len() ==> #[trigger] shown(parts)[i] == trim(seen[i])
        }),
    decreases parts.len(),
{
    reveal(Seq::filter);
    if parts.len() > 0 {
        let rest = parts.drop_last();
        seen_pieces_are_handed_on(rest);
        let seen = parts.filter(is_seen());
        assert forall|i: int| 0 <= i < seen.len() implies #[trigger] shown(parts)[i] == trim(
            seen[i],
        ) by {
            if i < rest.filter(is_seen()).len() {
                assert(shown(parts)[i] == shown(rest)[i]);
                assert(seen[i] == rest.filter(is_seen())[i]);
            }
        }
    }
}

/// Nothing of a text is lost or put in another order: what is handed on and what waits, put together,
/// are the text. What waits is shorter than the limit.
pub proof fn pieces_make_the_text(t: Seq<char>)
    ensures
        joined(pieces(t)) + left_over(t) == t,
        left_over(t).len() < 160,
        unfinished(t).len() < 160 ==> pieces(t) == sentences(t) && left_over(t) == unfinished(t),
{
    crate::text_stream::cutting_loses_nothing(t);
    if unfinished(t).len() >= 160 {
        lemma_joined_push(sentences(t), unfinished(t));
        assert(joined(pieces(t)) + left_over(t) =~= t);
    }
}

proof fn lemma_joined_push(parts: Seq<Seq<char>>, p: Seq<char>)
    ensures
        joined(parts.push(p)) == joined(parts) + p,
    decreases parts.len(),
{
    let all = parts.push(p);
    if parts.len() == 0 {
        assert(all.skip(1) =~= parts);
        assert(joined(all.skip(1)) =~= Seq::empty());
        assert(p + Seq::<char>::empty() =~= Seq::<char>::empty() + p);
    } else {
        lemma_joined_push(parts.skip(1), p);
        assert(all.skip(1) =~= parts.skip(1).push(p));
        assert(all[0] == parts[0]);
        assert(joined(all) =~= joined(parts) + p);
    }
}

/// A text for a request is put behind what waits for it; what is not handed on waits. Other requests
/// are not touched.
pub proof fn text_waits_for_its_request(
    s: TextStreamView,
    id: Seq<char>,
    content: Seq<char>,
    other: Seq<char>,
)
    requires
        !blank(id),
        content.len() > 0,
    ensures
        ({
            let t = TextStreamView { buffers: chunk_buffers(s, id, content), ..s };
            let all = s.waiting(id) + content;
            &&& chunk_shown(s, id, content) == shown(pieces(all))
            &&& joined(pieces(all)) + t.waiting(id) == all
            &&& other != id ==> t.waiting(other) == s.waiting(other)
        }),
{
    pieces_make_the_text(s.waiting(id) + content);
}

/// What waits is handed on when the rest is asked for, where it can be seen.
pub proof fn rest_is_handed_on(s: TextStreamView, id: Seq<char>)
    ensures
        visible(trim(s.waiting(id))) ==> flush_shown(s, id) == seq![trim(s.waiting(id))],
        !visible(trim(s.waiting(id))) ==> flush_shown(s, id).len() == 0,
{
}

/// It does not matter whether a text comes at once or in two parts, as long as the first part leaves
/// less waiting than the limit: the same is handed on, and the same waits.
pub proof fn parts_come_out_as_the_whole(
    s: TextStreamView,
    id: Seq<char>,
    a: Seq<char>,
    b: Seq<char>,
)
    requires
        !blank(id),
        a.len() > 0,
        b.len() > 0,
        unfinished(s.waiting(id) + a).len() < 160,
    ensures
        ({
            let t = TextStreamView { buffers: chunk_buffers(s, id, a), ..s };
            &&& chunk_shown(s, id, a + b) == chunk_shown(s, id, a) + chunk_shown(t, id, b)
            &&& chunk_buffers(t, id, b)[id] == chunk_buffers(s, id, a + b)[id]
        }),
{
    let t = TextStreamView { buffers: chunk_buffers(s, id, a), ..s };
    let w = s.waiting(id);
    arrival_does_not_matter(w + a, b);
    assert(w + (a + b) =~= (w + a) + b);
    pieces_make_the_text(w + a);
    assert(t.waiting(id) == unfinished(w + a));
    let first = sentences(w + a);
    let rest = unfinished(w + a) + b;
    if unfinished(rest).len() >= 160 {
        assert(pieces((w + a) + b) =~= first + pieces(rest));
    }
    lemma_shown_add(first, pieces(rest));
}

proof fn lemma_shown_add(a: Seq<Seq<char>>, b: Seq<Seq<char>>)
    ensures
        shown(a + b) == shown(a) + shown(b),
    decreases b.len(),
{
    if b.len() == 0 {
        assert(a + b =~= a);
        assert(shown(a) + shown(b) =~= shown(a));
    } else {
        assert((a + b).drop_last() =~= a + b.drop_last());
        lemma_shown_add(a, b.drop_last());
        assert(shown(a + b) =~= shown(a) + shown(b));
    }
}

} // verus!
