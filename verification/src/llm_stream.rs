//! The model's answer as it streams in: lines of server-sent events, gathered into one answer.

use crate::chat::{LlmResponse, LlmResponseView};
use crate::event::{Event, EventView};
use crate::json::{json_read, json_views, Json, JsonView};
use crate::llm_text::{preview, truncate_preview};
use crate::text::{
    before_char, chars_of, index_of_char, other_than, same, starts_with, string_range, trim,
    trimmed,
};
use crate::tool::{call_views, ToolCall, ToolCallView};
use vstd::prelude::*;
use vstd::utf8::encode_utf8;

verus! {

broadcast use vstd::string::group_string_axioms;

/// A tool call that is still coming in.
pub struct PartialToolCall {
    pub id: String,
    pub name: String,
    pub arguments: String,
}

/// The model of a [`PartialToolCall`].
pub ghost struct PartialView {
    pub id: Seq<char>,
    pub name: Seq<char>,
    pub arguments: Seq<char>,
}

impl View for PartialToolCall {
    type V = PartialView;

    open spec fn view(&self) -> PartialView {
        PartialView { id: self.id@, name: self.name@, arguments: self.arguments@ }
    }
}

/// The models of a list of partial calls.
pub open spec fn partial_views(v: Seq<PartialToolCall>) -> Seq<PartialView> {
    v.map_values(|p: PartialToolCall| p@)
}

/// An answer that is streaming in.
pub struct StreamState {
    buffer: String,
    content: String,
    model: String,
    calls: Vec<PartialToolCall>,
    prompt_tokens: u32,
    completion_tokens: u32,
    prompt_cache_hit_tokens: u32,
    prompt_cache_miss_tokens: u32,
    chunk_count: u64,
}

/// What has been gathered from the complete lines.
pub ghost struct Gathered {
    pub content: Seq<char>,
    pub model: Seq<char>,
    /// The tool calls that have begun to come in, in order.
    pub calls: Seq<PartialView>,
    pub prompt_tokens: u32,
    pub completion_tokens: u32,
    pub prompt_cache_hit_tokens: u32,
    pub prompt_cache_miss_tokens: u32,
    pub chunk_count: nat,
}

/// The model of a [`StreamState`]: what has been gathered, and the line that is not complete yet.
pub ghost struct StreamView {
    pub buffer: Seq<char>,
    pub gathered: Gathered,
}

impl View for StreamState {
    type V = StreamView;

    closed spec fn view(&self) -> StreamView {
        StreamView {
            buffer: self.buffer@,
            gathered: Gathered {
                content: self.content@,
                model: self.model@,
                calls: partial_views(self.calls@),
                prompt_tokens: self.prompt_tokens,
                completion_tokens: self.completion_tokens,
                prompt_cache_hit_tokens: self.prompt_cache_hit_tokens,
                prompt_cache_miss_tokens: self.prompt_cache_miss_tokens,
                chunk_count: self.chunk_count as nat,
            },
        }
    }
}

/// Before anything has come in.
pub open spec fn nothing_gathered() -> Gathered {
    Gathered {
        content: Seq::empty(),
        model: Seq::empty(),
        calls: Seq::empty(),
        prompt_tokens: 0,
        completion_tokens: 0,
        prompt_cache_hit_tokens: 0,
        prompt_cache_miss_tokens: 0,
        chunk_count: 0,
    }
}

/// A count in the usage report, 0 where it is missing; it is cut to 32 bits.
pub open spec fn token_count(usage: JsonView, key: Seq<char>) -> u32 {
    match usage.at(key).as_u64() {
        Some(n) => n as u32,
        None => 0,
    }
}

/// With the usage that a message reports, where it reports prompt tokens.
pub open spec fn with_usage(g: Gathered, data: JsonView) -> Gathered {
    let usage = data.at("usage"@);
    match usage.at("prompt_tokens"@).as_u64() {
        Some(n) if n > 0 => Gathered {
            prompt_tokens: n as u32,
            completion_tokens: token_count(usage, "completion_tokens"@),
            prompt_cache_hit_tokens: token_count(usage, "prompt_cache_hit_tokens"@),
            prompt_cache_miss_tokens: token_count(usage, "prompt_cache_miss_tokens"@),
            ..g
        },
        _ => g,
    }
}

/// With the name of the model, the first time one is given.
pub open spec fn with_model(g: Gathered, data: JsonView) -> Gathered {
    match data.str_at("model"@) {
        Some(m) if g.model.len() == 0 => Gathered { model: m, ..g },
        _ => g,
    }
}

/// The piece of text that a message adds.
pub open spec fn delta_text(data: JsonView) -> Option<Seq<char>> {
    data.at("choices"@).item(0).at("delta"@).str_at("content"@)
}

/// With the text that a message adds.
pub open spec fn with_text(g: Gathered, data: JsonView) -> Gathered {
    match delta_text(data) {
        Some(t) => Gathered { content: g.content + t, chunk_count: g.chunk_count + 1, ..g },
        None => g,
    }
}

/// The event that forwards a piece of text.
pub open spec fn chunk_event(piece: Seq<char>, content: Seq<char>) -> EventView {
    EventView::fresh(
        "llm.chunk"@,
        JsonView::object().with("content"@, JsonView::Str(piece)).with(
            "accumulated_length"@,
            JsonView::PosInt(encode_utf8(content).len() as usize as u64),
        ),
        "llm-actor"@,
    )
}

/// The events that a message makes.
pub open spec fn text_events(g: Gathered, data: JsonView) -> Seq<EventView> {
    match delta_text(data) {
        Some(t) => seq![chunk_event(t, g.content + t)],
        None => Seq::empty(),
    }
}

/// The text of a member, none where it is missing.
pub open spec fn said(text: Option<Seq<char>>) -> Seq<char> {
    match text {
        Some(t) => t,
        None => Seq::empty(),
    }
}

/// The id of the call that an item begins.
pub open spec fn begun_id(item: JsonView) -> Option<Seq<char>> {
    match item.str_at("id"@) {
        Some(id) if id.len() > 0 => Some(id),
        _ => None,
    }
}

/// The calls with the one that an item begins.
pub open spec fn with_begun(calls: Seq<PartialView>, item: JsonView) -> Seq<PartialView> {
    match begun_id(item) {
        Some(id) => calls.push(PartialView { id, name: Seq::empty(), arguments: Seq::empty() }),
        None => calls,
    }
}

/// The calls after one item of a message: an id begins a new call, and the item's name and arguments
/// are added to the call begun last.
pub open spec fn with_call_item(calls: Seq<PartialView>, item: JsonView) -> Seq<PartialView> {
    let begun = with_begun(calls, item);
    if begun.len() == 0 {
        begun
    } else {
        let p = begun.last();
        begun.drop_last().push(
            PartialView {
                id: p.id,
                name: p.name + said(item.at("function"@).str_at("name"@)),
                arguments: p.arguments + said(item.at("function"@).str_at("arguments"@)),
            },
        )
    }
}

/// The calls after the items of a message.
pub open spec fn with_call_items(calls: Seq<PartialView>, items: Seq<JsonView>) -> Seq<PartialView>
    decreases items.len(),
{
    if items.len() == 0 {
        calls
    } else {
        with_call_item(with_call_items(calls, items.drop_last()), items.last())
    }
}

/// With the parts of tool calls that a message adds.
pub open spec fn with_calls(g: Gathered, data: JsonView) -> Gathered {
    match data.at("choices"@).item(0).at("delta"@).at("tool_calls"@).as_array() {
        Some(items) => Gathered { calls: with_call_items(g.calls, items), ..g },
        None => g,
    }
}

/// Whether a message has choices.
pub open spec fn has_choices(data: JsonView) -> bool {
    data.at("choices"@).as_array() matches Some(items) && items.len() > 0
}

/// What has been gathered after a message.
pub open spec fn after_data(g: Gathered, data: JsonView) -> Gathered {
    let counted = with_usage(g, data);
    if has_choices(data) {
        with_model(with_calls(with_text(counted, data), data), data)
    } else {
        with_model(counted, data)
    }
}

/// The events that a message makes: one for its piece of text, where it has choices.
pub open spec fn data_events(g: Gathered, data: JsonView) -> Seq<EventView> {
    if has_choices(data) {
        text_events(g, data)
    } else {
        Seq::empty()
    }
}

/// The message that a line carries: JSON behind `data: `.
pub open spec fn line_data(line: Seq<char>) -> Option<JsonView> {
    if line == "data: [DONE]"@ || !"data: "@.is_prefix_of(line) {
        None
    } else {
        json_read(line.skip("data: "@.len() as int))
    }
}

/// What has been gathered after a line, and the events it makes.
pub open spec fn after_line(g: Gathered, line: Seq<char>) -> (Gathered, Seq<EventView>) {
    match line_data(trim(line)) {
        Some(data) => (after_data(g, data), data_events(g, data)),
        None => (g, Seq::empty()),
    }
}

/// What has been gathered after all complete lines of `text`, the rest of the text, and the events.
pub open spec fn after_text(g: Gathered, text: Seq<char>) -> (Gathered, Seq<char>, Seq<EventView>)
    decreases text.len(),
{
    let n = before_char(text, '\n');
    if n >= text.len() {
        (g, text, Seq::empty())
    } else {
        let (h, events) = after_line(g, text.take(n as int));
        let (k, rest, more) = after_text(h, text.skip(n as int + 1));
        (k, rest, events + more)
    }
}

/// The state after a piece of the stream, and the events it makes.
pub open spec fn after_piece(s: StreamView, piece: Seq<char>) -> (StreamView, Seq<EventView>) {
    let (g, rest, events) = after_text(s.gathered, s.buffer + piece);
    (StreamView { buffer: rest, gathered: g }, events)
}

/// The models of a list of events.
pub open spec fn event_views(v: Seq<Event>) -> Seq<EventView> {
    v.map_values(|e: Event| e@)
}

/// A call that has come in, its arguments read as JSON.
pub open spec fn final_call(p: PartialView) -> ToolCallView {
    ToolCallView {
        id: p.id,
        name: p.name,
        arguments: match json_read(p.arguments) {
            Some(j) => j,
            None => JsonView::Null,
        },
    }
}

/// The calls of the complete answer: all that came in, in order.
pub open spec fn final_calls(g: Gathered) -> Seq<ToolCallView> {
    g.calls.map_values(|p: PartialView| final_call(p))
}

/// The complete answer.
pub open spec fn final_response(g: Gathered) -> LlmResponseView {
    LlmResponseView {
        content: g.content,
        model: g.model,
        prompt_tokens: g.prompt_tokens,
        completion_tokens: g.completion_tokens,
        prompt_cache_hit_tokens: g.prompt_cache_hit_tokens,
        prompt_cache_miss_tokens: g.prompt_cache_miss_tokens,
        tool_calls: final_calls(g),
    }
}

/// The event that reports a complete answer.
pub open spec fn streamed_event(g: Gathered) -> EventView {
    EventView::fresh(
        "llm.response"@,
        JsonView::object().with("content_preview"@, JsonView::Str(preview(g.content, 200, 0))).with(
            "prompt_tokens"@,
            JsonView::PosInt(g.prompt_tokens as u64),
        ).with("completion_tokens"@, JsonView::PosInt(g.completion_tokens as u64)).with(
            "chunk_count"@,
            JsonView::PosInt(g.chunk_count as u64),
        ).with("streamed"@, JsonView::Bool(true)),
        "llm-actor"@,
    )
}

fn count_at(usage: Option<&Json>, key: &str) -> (r: u32)
    ensures
        r == token_count(opt_view(usage), key@),
{
    match usage {
        Some(u) => match u.get(key) {
            Some(v) => match v.as_u64() {
                Some(n) => #[verifier::truncate]
                (n as u32),
                None => 0,
            },
            None => 0,
        },
        None => 0,
    }
}

/// The view of an optional value, null where there is none.
pub open spec fn opt_view(o: Option<&Json>) -> JsonView {
    match o {
        Some(j) => j@,
        None => JsonView::Null,
    }
}

/// The member of an optional value.
pub fn member<'a>(o: Option<&'a Json>, key: &str) -> (r: Option<&'a Json>)
    ensures
        opt_view(r) == opt_view(o).at(key@),
{
    match o {
        Some(j) => j.get(key),
        None => None,
    }
}

/// The item of an optional value.
pub fn element<'a>(o: Option<&'a Json>, i: usize) -> (r: Option<&'a Json>)
    ensures
        opt_view(r) == opt_view(o).item(i as int),
{
    match o {
        Some(j) => j.item(i),
        None => None,
    }
}

/// The text of an optional value.
pub fn text_of<'a>(o: Option<&'a Json>) -> (r: Option<&'a str>)
    ensures
        match r {
            Some(s) => opt_view(o).as_str() == Some(s@),
            None => opt_view(o).as_str() is None,
        },
{
    match o {
        Some(j) => j.as_str(),
        None => None,
    }
}

impl StreamState {
    /// Before anything has come in.
    pub fn new() -> (r: Self)
        ensures
            r@ == (StreamView { buffer: Seq::empty(), gathered: nothing_gathered() }),
    {
        let calls: Vec<PartialToolCall> = Vec::new();
        assert(partial_views(calls@) =~= Seq::empty());
        StreamState {
            buffer: String::new(),
            content: String::new(),
            model: String::new(),
            calls,
            prompt_tokens: 0,
            completion_tokens: 0,
            prompt_cache_hit_tokens: 0,
            prompt_cache_miss_tokens: 0,
            chunk_count: 0,
        }
    }

    fn take_usage(&mut self, data: &Json)
        ensures
            final(self)@ == (StreamView {
                gathered: with_usage(old(self)@.gathered, data@),
                ..old(self)@
            }),
    {
        let usage = data.get("usage");
        let count = match member(usage, "prompt_tokens") {
            Some(v) => v.as_u64(),
            None => None,
        };
        match count {
            Some(n) => {
                if n > 0 {
                    self.prompt_tokens = #[verifier::truncate]
                    (n as u32);
                    self.completion_tokens = count_at(usage, "completion_tokens");
                    self.prompt_cache_hit_tokens = count_at(usage, "prompt_cache_hit_tokens");
                    self.prompt_cache_miss_tokens = count_at(usage, "prompt_cache_miss_tokens");
                }
            },
            None => {},
        }
    }

    fn take_model(&mut self, data: &Json)
        ensures
            final(self)@ == (StreamView {
                gathered: with_model(old(self)@.gathered, data@),
                ..old(self)@
            }),
    {
        if self.model.as_str().is_empty() {
            match data.str_at("model") {
                Some(m) => {
                    self.model = m.to_owned();
                },
                None => {},
            }
        }
    }

    fn take_call_item(&mut self, item: &Json)
        ensures
            final(self)@ == (StreamView {
                gathered: Gathered {
                    calls: with_call_item(old(self)@.gathered.calls, item@),
                    ..old(self)@.gathered
                },
                ..old(self)@
            }),
    {
        let ghost before = self@.gathered.calls;
        match item.str_at("id") {
            Some(id) => {
                if !id.is_empty() {
                    self.calls.push(
                        PartialToolCall {
                            id: id.to_owned(),
                            name: String::new(),
                            arguments: String::new(),
                        },
                    );
                }
            },
            None => {},
        }
        let ghost begun = partial_views(self.calls@);
        assert(begun =~= with_begun(before, item@));
        let function = item.get("function");
        match self.calls.pop() {
            Some(p) => {
                let ghost last = p@;
                assert(last == begun.last());
                assert(partial_views(self.calls@) =~= begun.drop_last());
                let mut p = p;
                match text_of(member(function, "name")) {
                    Some(name) => {
                        p.name.append(name);
                    },
                    None => {
                        assert(last.name + Seq::empty() =~= last.name);
                    },
                }
                match text_of(member(function, "arguments")) {
                    Some(args) => {
                        p.arguments.append(args);
                    },
                    None => {
                        assert(last.arguments + Seq::empty() =~= last.arguments);
                    },
                }
                let ghost rest = self.calls@;
                self.calls.push(p);
                assert(partial_views(rest.push(p)) =~= partial_views(rest).push(p@));
            },
            None => {},
        }
        assert(self@.gathered.calls == with_call_item(before, item@));
    }

    fn take_calls(&mut self, delta: Option<&Json>)
        ensures
            final(self)@ == (StreamView {
                gathered: match opt_view(delta).at("tool_calls"@).as_array() {
                    Some(items) => Gathered {
                        calls: with_call_items(old(self)@.gathered.calls, items),
                        ..old(self)@.gathered
                    },
                    None => old(self)@.gathered,
                },
                ..old(self)@
            }),
    {
        let calls = match member(delta, "tool_calls") {
            Some(c) => c.as_array(),
            None => None,
        };
        match calls {
            Some(items) => {
                let ghost all = json_views(items@);
                let ghost start = self@;
                let mut i: usize = 0;
                assert(all.take(0) =~= Seq::empty());
                while i < items.len()
                    invariant
                        i <= items@.len(),
                        all == json_views(items@),
                        self@ == (StreamView {
                            gathered: Gathered {
                                calls: with_call_items(start.gathered.calls, all.take(i as int)),
                                ..start.gathered
                            },
                            ..start
                        }),
                    decreases items@.len() - i,
                {
                    proof {
                        let t = all.take(i + 1);
                        assert(t.drop_last() =~= all.take(i as int));
                        assert(t.last() == items@[i as int]@);
                    }
                    self.take_call_item(&items[i]);
                    i = i + 1;
                }
                assert(all.take(all.len() as int) =~= all);
            },
            None => {},
        }
    }

    fn take_data(&mut self, data: &Json, events: &mut Vec<Event>)
        requires
            old(self)@.gathered.chunk_count < u64::MAX,
        ensures
            final(self)@ == (StreamView {
                gathered: after_data(old(self)@.gathered, data@),
                ..old(self)@
            }),
            event_views(final(events)@) == event_views(old(events)@) + data_events(
                old(self)@.gathered,
                data@,
            ),
    {
        let ghost before = event_views(events@);
        self.take_usage(data);
        let choices = data.get("choices");
        let present = match choices {
            Some(c) => match c.as_array() {
                Some(items) => items.len() > 0,
                None => false,
            },
            None => false,
        };
        if present {
            let delta = member(element(choices, 0), "delta");
            match text_of(member(delta, "content")) {
                Some(piece) => {
                    self.content.append(piece);
                    self.chunk_count = self.chunk_count + 1;
                    let length: usize = self.content.as_str().len();
                    let e = Event::new(
                        "llm.chunk",
                        Json::object().with("content", Json::str(piece)).with(
                            "accumulated_length",
                            Json::PosInt(length as u64),
                        ),
                        "llm-actor",
                    );
                    let ghost old_events = events@;
                    events.push(e);
                    assert(event_views(old_events.push(e)) =~= before + seq![e@]);
                },
                None => {
                    assert(before + Seq::empty() =~= before);
                },
            }
            self.take_calls(delta);
        } else {
            assert(before + Seq::empty() =~= before);
        }
        self.take_model(data);
    }

    fn take_line(&mut self, line: &str, events: &mut Vec<Event>)
        requires
            old(self)@.gathered.chunk_count < u64::MAX,
        ensures
            final(self)@ == (StreamView {
                gathered: after_line(old(self)@.gathered, line@).0,
                ..old(self)@
            }),
            event_views(final(events)@) == event_views(old(events)@) + after_line(
                old(self)@.gathered,
                line@,
            ).1,
    {
        let ghost before = event_views(events@);
        assert(before + Seq::empty() =~= before);
        let line = trimmed(line);
        if same(line.as_str(), "data: [DONE]") || !starts_with(line.as_str(), "data: ") {
            return;
        }
        let chars = chars_of(line.as_str());
        let mark = chars_of("data: ");
        let text = string_range(&chars, mark.len(), chars.len());
        assert(text@ =~= line@.skip("data: "@.len() as int));
        match Json::parse(text.as_str()) {
            Some(data) => self.take_data(&data, events),
            None => {},
        }
    }

    /// Tells whether the count of pieces has room for all that the next piece of the stream can
    /// hold.
    pub fn has_room(&self, piece: &str) -> (r: bool)
        ensures
            r == (self@.gathered.chunk_count + self@.buffer.len() + piece@.len() < u64::MAX),
    {
        let kept: usize = chars_of(self.buffer.as_str()).len();
        let new: usize = chars_of(piece).len();
        (self.chunk_count as u128) + (kept as u128) + (new as u128) < u64::MAX as u128
    }

    /// Takes the next piece of the stream and returns the events that its complete lines make.
    pub fn push(&mut self, piece: &str) -> (r: Vec<Event>)
        requires
            old(self)@.gathered.chunk_count + old(self)@.buffer.len() + piece@.len() < u64::MAX,
        ensures
            (final(self)@, event_views(r@)) == after_piece(old(self)@, piece@),
    {
        let mut all = self.buffer.clone();
        all.append(piece);
        let chars = chars_of(all.as_str());
        let ghost g0 = self@.gathered;
        let ghost text = chars@;
        let mut events: Vec<Event> = Vec::new();
        let mut start: usize = 0;
        let ghost room = text.len() as int;
        proof {
            assert(text =~= self@.buffer + piece@);
            assert(text.skip(0) =~= text);
            assert(event_views(events@) =~= Seq::empty());
            let (g, rest, ev) = after_text(g0, text);
            assert(Seq::<EventView>::empty() + ev =~= ev);
        }
        loop
            invariant
                start <= chars@.len(),
                text == chars@,
                g0.chunk_count + text.len() < u64::MAX,
                self@.gathered.chunk_count + (text.len() - start) <= g0.chunk_count + text.len(),
                self@.buffer == old(self)@.buffer,
                after_text(g0, text).0 == after_text(
                    self@.gathered,
                    text.skip(start as int),
                ).0,
                after_text(g0, text).1 == after_text(
                    self@.gathered,
                    text.skip(start as int),
                ).1,
                after_text(g0, text).2 == event_views(events@) + after_text(
                    self@.gathered,
                    text.skip(start as int),
                ).2,
                g0 == old(self)@.gathered,
                text == old(self)@.buffer + piece@,
            decreases chars@.len() - start,
        {
            let end = index_of_char(&chars, '\n', start);
            let ghost rest = text.skip(start as int);
            if end == chars.len() {
                let tail = string_range(&chars, start, end);
                assert(tail@ =~= rest);
                assert(event_views(events@) + Seq::empty() =~= event_views(events@));
                self.buffer = tail;
                return events;
            }
            let line = string_range(&chars, start, end);
            assert(line@ =~= rest.take(end - start));
            assert(rest.skip(end - start + 1) =~= text.skip(end + 1));
            let ghost g = self@.gathered;
            let ghost seen = event_views(events@);
            self.take_line(line.as_str(), &mut events);
            proof {
                let (h, ev) = after_line(g, line@);
                let (k, r2, more) = after_text(h, text.skip(end + 1));
                assert(seen + (ev + more) =~= seen + ev + more);
            }
            start = end + 1;
        }
    }

    /// Ends the stream: the complete answer, and the event that reports it.
    pub fn finish(self) -> (r: (LlmResponse, Event))
        ensures
            r.0@ == final_response(self@.gathered),
            r.1@ == streamed_event(self@.gathered),
    {
        let event = Event::new(
            "llm.response",
            Json::object().with(
                "content_preview",
                Json::Str(truncate_preview(self.content.as_str(), 200)),
            ).with("prompt_tokens", Json::PosInt(self.prompt_tokens as u64)).with(
                "completion_tokens",
                Json::PosInt(self.completion_tokens as u64),
            ).with("chunk_count", Json::PosInt(self.chunk_count)).with(
                "streamed",
                Json::Bool(true),
            ),
            "llm-actor",
        );
        let ghost g = self@.gathered;
        let mut tool_calls: Vec<ToolCall> = Vec::new();
        let mut i: usize = 0;
        while i < self.calls.len()
            invariant
                i <= self.calls@.len(),
                tool_calls@.len() == i,
                forall|k: int|
                    0 <= k < i ==> (#[trigger] tool_calls@[k])@ == final_call(self.calls@[k]@),
            decreases self.calls@.len() - i,
        {
            let p = &self.calls[i];
            let arguments = match Json::parse(p.arguments.as_str()) {
                Some(j) => j,
                None => Json::Null,
            };
            tool_calls.push(ToolCall { id: p.id.clone(), name: p.name.clone(), arguments });
            i = i + 1;
        }
        assert(call_views(tool_calls@) =~= final_calls(g));
        let response = LlmResponse {
            content: self.content,
            model: self.model,
            prompt_tokens: self.prompt_tokens,
            completion_tokens: self.completion_tokens,
            prompt_cache_hit_tokens: self.prompt_cache_hit_tokens,
            prompt_cache_miss_tokens: self.prompt_cache_miss_tokens,
            tool_calls,
        };
        (response, event)
    }
}

/// The ids of calls.
pub open spec fn ids_of(calls: Seq<PartialView>) -> Seq<Seq<char>> {
    calls.map_values(|p: PartialView| p.id)
}

/// The ids of the calls that the items begin, in order.
pub open spec fn begun_ids(items: Seq<JsonView>) -> Seq<Seq<char>>
    decreases items.len(),
{
    if items.len() == 0 {
        Seq::empty()
    } else {
        match begun_id(items.last()) {
            Some(id) => begun_ids(items.drop_last()).push(id),
            None => begun_ids(items.drop_last()),
        }
    }
}

/// No call is lost: whatever items come in, the calls begun before stay, and each item with an id
/// adds one, in the order of the items.
pub proof fn every_begun_call_is_kept(calls: Seq<PartialView>, items: Seq<JsonView>)
    ensures
        ids_of(with_call_items(calls, items)) == ids_of(calls) + begun_ids(items),
    decreases items.len(),
{
    if items.len() == 0 {
        assert(ids_of(calls) + begun_ids(items) =~= ids_of(calls));
    } else {
        let before = with_call_items(calls, items.drop_last());
        every_begun_call_is_kept(calls, items.drop_last());
        assert(ids_of(with_call_item(before, items.last())) =~= ids_of(
            with_begun(before, items.last()),
        ));
        match begun_id(items.last()) {
            Some(id) => {
                assert(ids_of(with_begun(before, items.last())) =~= ids_of(before).push(id));
                assert(ids_of(before).push(id) =~= ids_of(calls) + begun_ids(items));
            },
            None => {},
        }
    }
}

/// The complete answer has the calls that came in, in order, each under its id and its name.
pub proof fn answer_has_every_call(g: Gathered)
    ensures
        final_response(g).tool_calls.len() == g.calls.len(),
        forall|i: int|
            0 <= i < g.calls.len() ==> (#[trigger] final_response(g).tool_calls[i]).id
                == g.calls[i].id && final_response(g).tool_calls[i].name == g.calls[i].name,
{
}

/// Where the stream is cut does not matter: two pieces one after the other leave the same state and
/// make the same events as both in one.
pub proof fn cuts_do_not_matter(s: StreamView, a: Seq<char>, b: Seq<char>)
    ensures
        after_piece(s, a + b).0 == after_piece(after_piece(s, a).0, b).0,
        after_piece(s, a + b).1 == after_piece(s, a).1 + after_piece(after_piece(s, a).0, b).1,
{
    lemma_after_text_add(s.gathered, s.buffer + a, b);
    assert(s.buffer + a + b =~= s.buffer + (a + b));
}

proof fn lemma_after_text_add(g: Gathered, a: Seq<char>, b: Seq<char>)
    ensures
        ({
            let (h, rest, events) = after_text(g, a);
            let (k, rest2, more) = after_text(h, rest + b);
            after_text(g, a + b) == (k, rest2, events + more)
        }),
    decreases a.len(),
{
    let n = before_char(a, '\n');
    let f = other_than('\n');
    crate::text::lemma_prefix_len_holds(a, f);
    if n < a.len() {
        assert forall|i: int| 0 <= i < n implies f(#[trigger] (a + b)[i]) by {
            assert((a + b)[i] == a[i]);
        }
        assert((a + b)[n as int] == a[n as int]);
        crate::text::lemma_prefix_len(a + b, f, n);
        assert((a + b).take(n as int) =~= a.take(n as int));
        assert((a + b).skip(n as int + 1) =~= a.skip(n as int + 1) + b);
        let (h, events) = after_line(g, a.take(n as int));
        lemma_after_text_add(h, a.skip(n as int + 1), b);
        let (k, rest, more) = after_text(h, a.skip(n as int + 1));
        let (k2, rest2, more2) = after_text(k, rest + b);
        assert(events + (more + more2) =~= events + more + more2);
    } else {
        let (k, rest2, more) = after_text(g, a + b);
        assert(Seq::<EventView>::empty() + more =~= more);
    }
}

} // verus!
