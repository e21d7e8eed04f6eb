//! Text that comes in small pieces, handed on sentence by sentence.

use crate::string_map::StringMap;
use crate::text::{
    blank, chars_of, is_blank, is_white, is_white_char, lemma_prefix_len, lemma_prefix_len_holds,
    prefix_len, string_range, trim, trim_bounds, trimmed, views,
};
use vstd::prelude::*;

verus! {

broadcast use vstd::string::group_string_axioms;

/// A buffer with so many characters is handed on though no sentence ends in it.
pub const MAX_BUFFER_CHARS: usize = 160;

/// So many requests are remembered at most.
pub const MAX_TRACKED_REQUESTS: usize = 256;

/// Whether a character ends a sentence.
pub open spec fn ends_sentence(c: char) -> bool {
    c == '\n' || c == '\r' || c == '。' || c == '！' || c == '？' || c == '!' || c == '?'
}

/// The characters that end no sentence.
pub open spec fn in_sentence() -> spec_fn(char) -> bool {
    |c: char| !ends_sentence(c)
}

/// The sentences of `t`, each with the character that ends it.
pub open spec fn sentences(t: Seq<char>) -> Seq<Seq<char>>
    decreases t.len(),
{
    let n = prefix_len(t, in_sentence());
    if n >= t.len() {
        Seq::empty()
    } else {
        seq![t.take(n as int + 1)] + sentences(t.skip(n as int + 1))
    }
}

/// What stands behind the last sentence of `t`.
pub open spec fn unfinished(t: Seq<char>) -> Seq<char>
    decreases t.len(),
{
    let n = prefix_len(t, in_sentence());
    if n >= t.len() {
        t
    } else {
        unfinished(t.skip(n as int + 1))
    }
}

/// The pieces that `t` is handed on in: its sentences, and what stands behind them where that is
/// long.
pub open spec fn pieces(t: Seq<char>) -> Seq<Seq<char>> {
    if unfinished(t).len() >= MAX_BUFFER_CHARS {
        sentences(t).push(unfinished(t))
    } else {
        sentences(t)
    }
}

/// What stays in the buffer.
pub open spec fn left_over(t: Seq<char>) -> Seq<char> {
    if unfinished(t).len() >= MAX_BUFFER_CHARS {
        Seq::empty()
    } else {
        unfinished(t)
    }
}

/// Whether a piece is worth handing on: more than one character of it is no white space.
pub open spec fn visible(s: Seq<char>) -> bool {
    exists|i: int, j: int|
        0 <= i < j < s.len() && !is_white(#[trigger] s[i]) && !is_white(#[trigger] s[j])
}

/// The pieces that are handed on, without the white space at their ends.
pub open spec fn shown(parts: Seq<Seq<char>>) -> Seq<Seq<char>>
    decreases parts.len(),
{
    if parts.len() == 0 {
        Seq::empty()
    } else {
        let before = shown(parts.drop_last());
        let p = trim(parts.last());
        if visible(p) {
            before.push(p)
        } else {
            before
        }
    }
}

fn ends_sentence_char(c: char) -> (r: bool)
    ensures
        r == ends_sentence(c),
{
    c == '\n' || c == '\r' || c == '。' || c == '！' || c == '？' || c == '!' || c == '?'
}

/// Tells whether a piece is worth handing on.
pub fn visible_segment(s: &str) -> (r: bool)
    ensures
        r == visible(s@),
{
    let chars = chars_of(s);
    let mut found = false;
    let ghost mut first: int = 0;
    let mut i: usize = 0;
    while i < chars.len()
        invariant
            i <= chars@.len(),
            chars@ == s@,
            found ==> 0 <= first < i && !is_white(s@[first]) && forall|k: int|
                0 <= k < i && k != first ==> is_white(#[trigger] s@[k]),
            !found ==> forall|k: int| 0 <= k < i ==> is_white(#[trigger] s@[k]),
        decreases chars@.len() - i,
    {
        if !is_white_char(chars[i]) {
            if found {
                assert(!is_white(s@[first]) && !is_white(s@[i as int]));
                return true;
            }
            found = true;
            proof {
                first = i as int;
            }
        }
        i = i + 1;
    }
    false
}

/// The buffers of the requests that text is coming for, and the requests that text was handed on
/// for.
pub struct TextStreamState {
    buffers: StringMap<String>,
    streamed_requests: StringMap<()>,
}

/// The model of a [`TextStreamState`].
#[verifier::ext_equal]
pub ghost struct TextStreamView {
    pub buffers: Map<Seq<char>, Seq<char>>,
    pub streamed: Set<Seq<char>>,
}

/// The model of the buffers.
pub open spec fn buffer_views(m: Map<Seq<char>, String>) -> Map<Seq<char>, Seq<char>> {
    m.map_values(|s: String| s@)
}

impl View for TextStreamState {
    type V = TextStreamView;

    closed spec fn view(&self) -> TextStreamView {
        TextStreamView {
            buffers: buffer_views(self.buffers@),
            streamed: self.streamed_requests@.dom(),
        }
    }
}

impl TextStreamView {
    /// The text that waits for a request.
    pub open spec fn waiting(self, id: Seq<char>) -> Seq<char> {
        if self.buffers.dom().contains(id) {
            self.buffers[id]
        } else {
            Seq::empty()
        }
    }
}

/// Whether `after` is what is remembered once a request has been added to `before`. Where that is
/// one request too many, one of the others is forgotten.
pub open spec fn remembered(before: Set<Seq<char>>, id: Seq<char>, after: Set<Seq<char>>) -> bool {
    let all = before.insert(id);
    if all.len() > MAX_TRACKED_REQUESTS {
        exists|x: Seq<char>| #[trigger] all.contains(x) && x != id && after == all.remove(x)
    } else {
        after == all
    }
}

/// What is handed on when a piece of text comes for a request.
pub open spec fn chunk_shown(s: TextStreamView, id: Seq<char>, content: Seq<char>) -> Seq<
    Seq<char>,
> {
    if blank(id) || content.len() == 0 {
        Seq::empty()
    } else {
        shown(pieces(s.waiting(id) + content))
    }
}

/// What is handed on when the rest of a request is asked for.
pub open spec fn flush_shown(s: TextStreamView, id: Seq<char>) -> Seq<Seq<char>> {
    let segment = trim(s.waiting(id));
    if visible(segment) {
        seq![segment]
    } else {
        Seq::empty()
    }
}

/// Whether the requests that text was handed on for are `after`, once `given` was handed on for one.
pub open spec fn marked(
    before: Set<Seq<char>>,
    id: Seq<char>,
    given: Seq<Seq<char>>,
    after: Set<Seq<char>>,
) -> bool {
    if given.len() > 0 {
        remembered(before, id, after)
    } else {
        after == before
    }
}

/// The buffers after a piece of text has come for a request.
pub open spec fn chunk_buffers(s: TextStreamView, id: Seq<char>, content: Seq<char>) -> Map<
    Seq<char>,
    Seq<char>,
> {
    if blank(id) || content.len() == 0 {
        s.buffers
    } else {
        s.buffers.insert(id, left_over(s.waiting(id) + content))
    }
}

/// Whether text was handed on for a request.
pub open spec fn was_streamed(s: TextStreamView, id: Seq<char>) -> bool {
    !blank(id) && s.streamed.contains(id)
}

/// The state once it has been asked whether text was handed on for a request.
pub open spec fn after_take(s: TextStreamView, id: Seq<char>) -> TextStreamView {
    if blank(id) {
        s
    } else {
        TextStreamView { streamed: s.streamed.remove(id), ..s }
    }
}

impl Default for TextStreamState {
    fn default() -> (r: Self)
        ensures
            r@.buffers == Map::<Seq<char>, Seq<char>>::empty(),
            r@.streamed == Set::<Seq<char>>::empty(),
    {
        let r = TextStreamState { buffers: StringMap::new(), streamed_requests: StringMap::new() };
        assert(r@.buffers =~= Map::empty());
        assert(r@.streamed =~= Set::empty());
        r
    }
}

fn add_visible(out: &mut Vec<String>, segment: String)
    ensures
        views(final(out)@) == if visible(segment@) {
            views(old(out)@).push(segment@)
        } else {
            views(old(out)@)
        },
{
    if visible_segment(segment.as_str()) {
        let ghost before = out@;
        out.push(segment);
        assert(views(before.push(segment)) =~= views(before).push(segment@));
    }
}

/// Cuts a text into the pieces that are handed on and what stays.
fn cut(text: &str) -> (r: (Vec<String>, String))
    ensures
        views(r.0@) == shown(pieces(text@)),
        r.1@ == left_over(text@),
{
    let chars = chars_of(text);
    let mut out: Vec<String> = Vec::new();
    let ghost mut done: Seq<Seq<char>> = Seq::empty();
    let mut start: usize = 0;
    let mut i: usize = 0;
    proof {
        assert(text@.skip(0) =~= text@);
        assert(done + sentences(text@) =~= sentences(text@));
        assert(views(out@) =~= Seq::empty());
    }
    while i < chars.len()
        invariant
            start <= i <= chars@.len(),
            chars@ == text@,
            forall|k: int| start <= k < i ==> !ends_sentence(#[trigger] chars@[k]),
            sentences(text@) == done + sentences(text@.skip(start as int)),
            unfinished(text@) == unfinished(text@.skip(start as int)),
            views(out@) == shown(done),
        decreases chars@.len() - i,
    {
        if ends_sentence_char(chars[i]) {
            let ghost rest = text@.skip(start as int);
            let ghost n = (i - start) as nat;
            let (a, b) = trim_bounds(&chars, start, i + 1);
            let segment = string_range(&chars, a, b);
            add_visible(&mut out, segment);
            proof {
                assert forall|k: int| 0 <= k < n implies in_sentence()(#[trigger] rest[k]) by {
                    assert(rest[k] == chars@[start + k]);
                }
                assert(rest[n as int] == chars@[i as int]);
                lemma_prefix_len(rest, in_sentence(), n);
                let piece = rest.take(n as int + 1);
                assert(piece =~= chars@.subrange(start as int, i + 1));
                assert(rest.skip(n as int + 1) =~= text@.skip(i + 1));
                assert(done.push(piece).drop_last() =~= done);
                assert(done + (seq![piece] + sentences(text@.skip(i + 1))) =~= done.push(piece)
                    + sentences(text@.skip(i + 1)));
                done = done.push(piece);
            }
            start = i + 1;
        }
        i = i + 1;
    }
    proof {
        let rest = text@.skip(start as int);
        assert forall|k: int| 0 <= k < rest.len() implies in_sentence()(#[trigger] rest[k]) by {
            assert(rest[k] == chars@[start + k]);
        }
        lemma_prefix_len(rest, in_sentence(), rest.len());
        assert(done + Seq::<Seq<char>>::empty() =~= done);
        assert(chars@.subrange(start as int, chars@.len() as int) =~= rest);
    }
    let rest = string_range(&chars, start, chars.len());
    if chars.len() - start >= MAX_BUFFER_CHARS {
        let segment = trimmed(rest.as_str());
        add_visible(&mut out, segment);
        proof {
            assert(done.push(rest@).drop_last() =~= done);
        }
        return (out, String::new());
    }
    (out, rest)
}

impl TextStreamState {
    fn mark_streamed(&mut self, request_id: &str)
        ensures
            final(self)@.buffers == old(self)@.buffers,
            remembered(old(self)@.streamed, request_id@, final(self)@.streamed),
    {
        let ghost before = self.streamed_requests@;
        self.streamed_requests.insert(request_id, ());
        let n = self.streamed_requests.len();
        proof {
            let keys = self.streamed_requests.keys();
            let dom = self.streamed_requests@.dom();
            keys.unique_seq_to_set();
            assert(keys.to_set() =~= dom) by {
                assert forall|k: Seq<char>| keys.to_set().contains(k) implies dom.contains(k) by {
                    let i = choose|i: int| 0 <= i < keys.len() && keys[i] == k;
                    assert(dom.contains(keys[i]));
                }
            }
            assert(dom =~= before.dom().insert(request_id@));
        }
        if n > MAX_TRACKED_REQUESTS {
            let ghost all = self.streamed_requests@.dom();
            proof {
                let keys = self.streamed_requests.keys();
                assert(keys[0] != keys[keys.len() - 1]);
            }
            let oldest = self.streamed_requests.key_at(0).clone();
            let _ = self.streamed_requests.remove(oldest.as_str());
            assert(all.contains(oldest@));
            assert(self@.streamed =~= all.remove(oldest@));
        }
    }

    /// Takes a piece of text for a request, and returns what is handed on.
    pub fn push_chunk(&mut self, request_id: &str, content: &str) -> (r: Vec<String>)
        ensures
            views(r@) == chunk_shown(old(self)@, request_id@, content@),
            final(self)@.buffers == chunk_buffers(old(self)@, request_id@, content@),
            marked(old(self)@.streamed, request_id@, views(r@), final(self)@.streamed),
    {
        if is_blank(request_id) || content.is_empty() {
            let none: Vec<String> = Vec::new();
            assert(views(none@) =~= Seq::empty());
            return none;
        }
        let mut text = match self.buffers.get(request_id) {
            Some(s) => s.clone(),
            None => String::new(),
        };
        let ghost before = self.buffers@;
        text.append(content);
        let (ready, rest) = cut(text.as_str());
        self.buffers.insert(request_id, rest);
        assert(self@.buffers =~= buffer_views(before).insert(request_id@, rest@));
        if ready.len() > 0 {
            self.mark_streamed(request_id);
        }
        ready
    }

    /// Takes what waits for a request, and returns what of it is handed on.
    pub fn flush(&mut self, request_id: &str) -> (r: Vec<String>)
        ensures
            final(self)@.buffers == old(self)@.buffers.remove(request_id@),
            views(r@) == flush_shown(old(self)@, request_id@),
            marked(old(self)@.streamed, request_id@, views(r@), final(self)@.streamed),
    {
        let ghost before = self.buffers@;
        let mut out: Vec<String> = Vec::new();
        assert(views(out@) =~= Seq::empty());
        match self.buffers.remove(request_id) {
            Some(buffer) => {
                assert(self@.buffers =~= buffer_views(before).remove(request_id@));
                let segment = trimmed(buffer.as_str());
                if visible_segment(segment.as_str()) {
                    self.mark_streamed(request_id);
                    out.push(segment);
                    assert(views(out@) =~= seq![segment@]);
                }
                out
            },
            None => {
                assert(self@.buffers =~= buffer_views(before).remove(request_id@));
                proof {
                    lemma_nothing_is_not_visible();
                }
                out
            },
        }
    }

    /// Tells whether text was handed on for a request, and forgets it.
    pub fn take_streamed_request(&mut self, request_id: &str) -> (r: bool)
        ensures
            r == was_streamed(old(self)@, request_id@),
            final(self)@ == after_take(old(self)@, request_id@),
    {
        if is_blank(request_id) {
            return false;
        }
        let ghost before = self@.streamed;
        let was = self.streamed_requests.remove(request_id);
        assert(self@.streamed =~= before.remove(request_id@));
        was.is_some()
    }
}

proof fn lemma_nothing_is_not_visible()
    ensures
        !visible(trim(Seq::<char>::empty())),
{
    let e = Seq::<char>::empty();
    lemma_prefix_len_holds(e, crate::text::white());
    assert(trim(e).len() == 0);
}

/// The pieces, put together.
pub open spec fn joined(parts: Seq<Seq<char>>) -> Seq<char>
    decreases parts.len(),
{
    if parts.len() == 0 {
        Seq::empty()
    } else {
        parts[0] + joined(parts.skip(1))
    }
}

/// Cutting loses nothing: the sentences and what stands behind them are the text, and only the last
/// character of each sentence ends one.
pub proof fn cutting_loses_nothing(t: Seq<char>)
    ensures
        joined(sentences(t)) + unfinished(t) == t,
        forall|k: int| 0 <= k < unfinished(t).len() ==> !ends_sentence(#[trigger] unfinished(t)[k]),
        forall|i: int|
            0 <= i < sentences(t).len() ==> (#[trigger] sentences(t)[i]).len() > 0
                && ends_sentence(sentences(t)[i].last()) && forall|k: int|
                0 <= k < sentences(t)[i].len() - 1 ==> !ends_sentence(
                    #[trigger] sentences(t)[i][k],
                ),
    decreases t.len(),
{
    let n = prefix_len(t, in_sentence());
    lemma_prefix_len_holds(t, in_sentence());
    if n >= t.len() {
        assert forall|k: int| 0 <= k < t.len() implies !ends_sentence(#[trigger] t[k]) by {
            assert(in_sentence()(t[k]));
        }
    } else {
        let rest = t.skip(n as int + 1);
        let piece = t.take(n as int + 1);
        cutting_loses_nothing(rest);
        let all = sentences(t);
        assert(all == seq![piece] + sentences(rest));
        assert(all.skip(1) =~= sentences(rest));
        assert(joined(all) + unfinished(t) =~= piece + (joined(sentences(rest)) + unfinished(rest)));
        assert(piece + rest =~= t);
        assert(!in_sentence()(t[n as int]));
        assert forall|i: int| 0 <= i < all.len() implies (#[trigger] all[i]).len() > 0
            && ends_sentence(all[i].last()) && forall|k: int|
            0 <= k < all[i].len() - 1 ==> !ends_sentence(#[trigger] all[i][k]) by {
            if i == 0 {
                assert(piece.last() == t[n as int]);
                assert forall|k: int| 0 <= k < piece.len() - 1 implies !ends_sentence(
                    #[trigger] piece[k],
                ) by {
                    assert(in_sentence()(t[k]));
                }
            } else {
                assert(all[i] == sentences(rest)[i - 1]);
            }
        }
    }
}

/// It does not matter how a text is cut up on its way: its sentences come out the same.
pub proof fn arrival_does_not_matter(a: Seq<char>, b: Seq<char>)
    ensures
        sentences(a + b) == sentences(a) + sentences(unfinished(a) + b),
        unfinished(a + b) == unfinished(unfinished(a) + b),
    decreases a.len(),
{
    let n = prefix_len(a, in_sentence());
    lemma_prefix_len_holds(a, in_sentence());
    if n >= a.len() {
        assert(Seq::<Seq<char>>::empty() + sentences(a + b) =~= sentences(a + b));
    } else {
        let t = a + b;
        assert forall|k: int| 0 <= k < n implies in_sentence()(#[trigger] t[k]) by {
            assert(in_sentence()(a[k]));
        }
        assert(t[n as int] == a[n as int]);
        lemma_prefix_len(t, in_sentence(), n);
        let rest = a.skip(n as int + 1);
        assert(t.take(n as int + 1) =~= a.take(n as int + 1));
        assert(t.skip(n as int + 1) =~= rest + b);
        arrival_does_not_matter(rest, b);
        let head = seq![a.take(n as int + 1)];
        assert(head + (sentences(rest) + sentences(unfinished(rest) + b)) =~= (head + sentences(
            rest,
        )) + sentences(unfinished(rest) + b));
    }
}

/// What stays in a buffer is short and ends no sentence.
pub proof fn buffers_are_short(t: Seq<char>)
    ensures
        left_over(t).len() < MAX_BUFFER_CHARS,
        forall|k: int| 0 <= k < left_over(t).len() ==> !ends_sentence(#[trigger] left_over(t)[k]),
{
    cutting_loses_nothing(t);
}

/// No more than the allowed number of requests is remembered, and the one added is among them.
pub proof fn few_requests_are_remembered(
    before: Set<Seq<char>>,
    id: Seq<char>,
    after: Set<Seq<char>>,
)
    requires
        before.finite(),
        before.len() <= MAX_TRACKED_REQUESTS,
        remembered(before, id, after),
    ensures
        after.finite(),
        after.len() <= MAX_TRACKED_REQUESTS,
        after.contains(id),
{
    let all = before.insert(id);
    assert(all.len() <= before.len() + 1);
    if all.len() > MAX_TRACKED_REQUESTS {
        let x = choose|x: Seq<char>|
            #[trigger] all.contains(x) && x != id && after == all.remove(x);
        assert(after.len() == all.len() - 1);
    }
}

/// A call of a [`TextStreamState`].
pub ghost enum StreamCall {
    /// A piece of text comes for a request.
    Push(Seq<char>, Seq<char>),
    /// The rest of a request is asked for.
    Flush(Seq<char>),
    /// It is asked whether text was handed on for a request.
    Take(Seq<char>),
}

/// The request that a call is about.
pub open spec fn call_id(call: StreamCall) -> Seq<char> {
    match call {
        StreamCall::Push(id, _) => id,
        StreamCall::Flush(id) => id,
        StreamCall::Take(id) => id,
    }
}

/// What a call hands on.
pub open spec fn call_shown(s: TextStreamView, call: StreamCall) -> Seq<Seq<char>> {
    match call {
        StreamCall::Push(id, content) => chunk_shown(s, id, content),
        StreamCall::Flush(id) => flush_shown(s, id),
        StreamCall::Take(_) => Seq::empty(),
    }
}

/// Whether a call takes the one state to the other.
pub open spec fn call_leads(s: TextStreamView, call: StreamCall, t: TextStreamView) -> bool {
    match call {
        StreamCall::Push(id, content) => t.buffers == chunk_buffers(s, id, content) && marked(
            s.streamed,
            id,
            call_shown(s, call),
            t.streamed,
        ),
        StreamCall::Flush(id) => t.buffers == s.buffers.remove(id) && marked(
            s.streamed,
            id,
            call_shown(s, call),
            t.streamed,
        ),
        StreamCall::Take(id) => t == after_take(s, id),
    }
}

/// Whether `states` are the states before, between and after `calls`, from the beginning on.
pub open spec fn is_run(states: Seq<TextStreamView>, calls: Seq<StreamCall>) -> bool {
    &&& states.len() == calls.len() + 1
    &&& states[0].buffers == Map::<Seq<char>, Seq<char>>::empty()
    &&& states[0].streamed == Set::<Seq<char>>::empty()
    &&& forall|i: int|
        0 <= i < calls.len() ==> call_leads(states[i], #[trigger] calls[i], states[i + 1])
}

/// Whether nothing had to be forgotten: no call that handed text on made the requests too many.
pub open spec fn never_too_many(states: Seq<TextStreamView>, calls: Seq<StreamCall>) -> bool {
    forall|i: int|
        0 <= i < calls.len() && call_shown(states[i], #[trigger] calls[i]).len() > 0
            ==> states[i].streamed.insert(call_id(calls[i])).len() <= MAX_TRACKED_REQUESTS
}

/// Whether one of the first `n` calls has handed text on for a request, and none after it has asked
/// for that request.
pub open spec fn handed_on_since_asked(
    states: Seq<TextStreamView>,
    calls: Seq<StreamCall>,
    n: nat,
    id: Seq<char>,
) -> bool
    decreases n,
{
    if n == 0 {
        false
    } else {
        let call = calls[n - 1];
        if call_id(call) == id && call_shown(states[n - 1], call).len() > 0 {
            true
        } else if call == StreamCall::Take(id) {
            false
        } else {
            handed_on_since_asked(states, calls, (n - 1) as nat, id)
        }
    }
}

proof fn lemma_streamed_after(
    states: Seq<TextStreamView>,
    calls: Seq<StreamCall>,
    n: nat,
    id: Seq<char>,
)
    requires
        is_run(states, calls),
        never_too_many(states, calls),
        n <= calls.len(),
    ensures
        states[n as int].streamed.contains(id) == handed_on_since_asked(states, calls, n, id),
        blank(id) ==> !states[n as int].streamed.contains(id) && !states[n as int].buffers.dom().contains(
            id,
        ),
    decreases n,
{
    if n > 0 {
        lemma_streamed_after(states, calls, (n - 1) as nat, id);
        let call = calls[n - 1];
        assert(call_leads(states[n - 1], call, states[n as int]));
        assert(call_shown(states[n - 1], call).len() > 0 ==> states[n - 1].streamed.insert(
            call_id(call),
        ).len() <= MAX_TRACKED_REQUESTS);
        lemma_nothing_is_not_visible();
    }
}

/// Whether text was handed on for a request is told truly: in whatever order the calls came, the
/// answer is yes where a call has handed text on for that very request since it was last asked for,
/// and only there.
pub proof fn answer_tells_what_was_handed_on(
    states: Seq<TextStreamView>,
    calls: Seq<StreamCall>,
    id: Seq<char>,
)
    requires
        is_run(states, calls),
        never_too_many(states, calls),
    ensures
        was_streamed(states.last(), id) == handed_on_since_asked(states, calls, calls.len(), id),
        blank(id) ==> !was_streamed(states.last(), id),
{
    lemma_streamed_after(states, calls, calls.len(), id);
}

/// Asking forgets: the same question is then answered no, and nothing else changes.
pub proof fn asking_forgets(s: TextStreamView, id: Seq<char>)
    ensures
        !was_streamed(after_take(s, id), id),
        after_take(s, id).buffers == s.buffers,
        forall|other: Seq<char>|
            other != id ==> #[trigger] after_take(s, id).streamed.contains(other)
                == s.streamed.contains(other),
{
}

/// However many requests there were, the one that text was just handed on for is remembered, and
/// never more than the allowed number are.
pub proof fn run_stays_bounded(states: Seq<TextStreamView>, calls: Seq<StreamCall>, n: nat)
    requires
        is_run(states, calls),
        n <= calls.len(),
    ensures
        states[n as int].streamed.finite(),
        states[n as int].streamed.len() <= MAX_TRACKED_REQUESTS,
        n > 0 && call_shown(states[n - 1], calls[n - 1]).len() > 0 ==> states[n as int].streamed.contains(
            call_id(calls[n - 1]),
        ),
    decreases n,
{
    if n > 0 {
        run_stays_bounded(states, calls, (n - 1) as nat);
        let s = states[n - 1];
        let t = states[n as int];
        let call = calls[n - 1];
        assert(call_leads(s, call, t));
        if call_shown(s, call).len() > 0 {
            few_requests_are_remembered(s.streamed, call_id(call), t.streamed);
        }
    }
}

} // verus!
