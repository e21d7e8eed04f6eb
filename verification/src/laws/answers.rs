//! What becomes of a message: who is answered, what the model is asked, and what is kept.

use crate::chat::{ChatRequestView, LlmResponseView};
use crate::effect::{EffectView, NextView, StepView};
use crate::event::EventView;
use crate::json::{json_written, JsonView};
use crate::laws::parts::{holds, lemma_holds, lemma_names};
use crate::numbers::decimal;
use crate::peer::peer_id_round_trip;
use crate::pipeline::{
    after_answer, after_budget, after_call, after_cancel, after_description, after_preparation,
    after_rate_limit, after_tool, answer_records, at_most_one_event_at_the_end, budget_text,
    calls_message, described, failure_records, failure_text, final_message, final_publish,
    final_store, incoming, not_found, reply_effect, result_at, result_line, result_message,
    sends_message, silent_event, sound, stored_call, stored_chain_is_whole, too_often,
    visible_tools, AnswerView, ExchangeView, MessageJobView, Stage,
};
use crate::router::{is_routed, under_own_sources, ChannelMap};
use crate::text::{blank, lemma_trim_blank, trim};
use crate::tool::{ToolCallView, ToolDefView, ToolResultView};
use crate::usage::BudgetCheckView;
use vstd::prelude::*;

verus! {

broadcast use {vstd::string::group_string_axioms, crate::json::member_after_with};

/// Whether an event carries a text that is meant for a peer of a source.
pub open spec fn is_for(e: EventView, text: Seq<char>, source: Seq<char>, peer_id: Seq<char>) -> bool {
    &&& e.data.str_at("text"@) == Some(text)
    &&& e.data.str_at("source"@) == Some(source)
    &&& e.data.str_at("peer_id"@) == Some(peer_id)
}

/// The events that are published among effects, in order.
pub open spec fn published(effects: Seq<EffectView>) -> Seq<EventView>
    decreases effects.len(),
{
    if effects.len() == 0 {
        Seq::empty()
    } else {
        match effects.last() {
            EffectView::Publish(e) => published(effects.drop_last()).push(e),
            _ => published(effects.drop_last()),
        }
    }
}

proof fn lemma_published_push(effects: Seq<EffectView>, e: EffectView)
    ensures
        published(effects.push(e)) == match e {
            EffectView::Publish(v) => published(effects).push(v),
            _ => published(effects),
        },
{
    assert(effects.push(e).drop_last() =~= effects);
}

proof fn lemma_published_none(effects: Seq<EffectView>)
    requires
        forall|i: int| 0 <= i < effects.len() ==> !((#[trigger] effects[i]) is Publish),
    ensures
        published(effects) == Seq::<EventView>::empty(),
    decreases effects.len(),
{
    if effects.len() > 0 {
        lemma_published_none(effects.drop_last());
    }
}

proof fn lemma_published_add(a: Seq<EffectView>, b: Seq<EffectView>)
    ensures
        published(a + b) == published(a) + published(b),
    decreases b.len(),
{
    if b.len() == 0 {
        assert(a + b =~= a);
        assert(published(a) + published(b) =~= published(a));
    } else {
        assert((a + b).drop_last() =~= a + b.drop_last());
        lemma_published_add(a, b.drop_last());
        assert(published(a + b) =~= published(a) + published(b));
    }
}

/// The event that answers a message carries the answer and goes back where the message came from:
/// it names the message's source and peer.
pub proof fn answer_goes_back(s: ExchangeView, text: Seq<char>)
    ensures
        reply_effect(s, text) matches EffectView::Publish(e) && {
            &&& e.topic == "route.message"@
            &&& is_for(e, text, s.job.source, s.job.peer_id)
        },
{
    lemma_names();
}

/// A message to be routed that names a known source reaches that one channel and no other, with
/// the text and the peer it names.
pub proof fn routed_message_reaches_its_source(
    m: ChannelMap,
    e: EventView,
    text: Seq<char>,
    source: Seq<char>,
    peer_id: Seq<char>,
    now: u64,
    events: Seq<EventView>,
)
    requires
        is_for(e, text, source, peer_id),
        !blank(text),
        source.len() > 0,
        source != "unknown"@,
        m.dom().contains(source),
        under_own_sources(m),
        is_routed(m, e.data, now, events),
    ensures
        events.len() == 1,
        events[0].topic == "assistant.message"@,
        events[0].data.str_at("text"@) == Some(text),
        events[0].data.str_at("source"@) == Some(source),
        !blank(peer_id) ==> events[0].data.str_at("peer_id"@) == Some(trim(peer_id)),
{
    lemma_names();
    lemma_trim_blank(text);
    lemma_trim_blank(peer_id);
}

/// An answer that is sent is heard where the message came from, there alone, and as it was given.
pub proof fn answer_is_heard_by_the_one_who_asked(
    s: ExchangeView,
    text: Seq<char>,
    m: ChannelMap,
    now: u64,
    events: Seq<EventView>,
)
    requires
        !blank(text),
        s.job.source.len() > 0,
        s.job.source != "unknown"@,
        m.dom().contains(s.job.source),
        under_own_sources(m),
        is_routed(m, reply_effect(s, text)->Publish_0.data, now, events),
    ensures
        events.len() == 1,
        events[0].data.str_at("text"@) == Some(text),
        events[0].data.str_at("source"@) == Some(s.job.source),
        !blank(s.job.peer_id) ==> events[0].data.str_at("peer_id"@) == Some(trim(s.job.peer_id)),
{
    answer_goes_back(s, text);
    routed_message_reaches_its_source(
        m,
        reply_effect(s, text)->Publish_0,
        text,
        s.job.source,
        s.job.peer_id,
        now,
        events,
    );
}

/// Whether the only event among effects is the answer `text` to the message of an exchange.
pub open spec fn sends_only(effects: Seq<EffectView>, s: ExchangeView, text: Seq<char>) -> bool {
    &&& published(effects).len() == 1
    &&& published(effects)[0].topic == "route.message"@
    &&& is_for(published(effects)[0], text, s.job.source, s.job.peer_id)
}

proof fn lemma_ends(s: ExchangeView, r: LlmResponseView)
    requires
        r.tool_calls.len() == 0,
    ensures
        ({
            let t = ExchangeView {
                response: r,
                asked: true,
                round: if s.asked {
                    (s.round + 1) as usize
                } else {
                    0
                },
                ..s
            };
            published(after_answer(s, AnswerView::Response(r)).1.effects) == published(
                final_publish(t),
            )
        }),
{
    let t = ExchangeView {
        response: r,
        asked: true,
        round: if s.asked {
            (s.round + 1) as usize
        } else {
            0
        },
        ..s
    };
    let records = answer_records(r);
    at_most_one_event_at_the_end(t);
    lemma_published_none(records);
    lemma_published_none(final_store(t));
    lemma_published_add(records, final_store(t));
    lemma_published_add(records + final_store(t), final_publish(t));
    let all = records + final_store(t) + final_publish(t);
    lemma_published_push(all, EffectView::Deregister { request_id: t.request_id });
    assert(published(all) =~= published(final_publish(t)));
}

/// What the model answers without asking for tools is what the user is told, once, and the message
/// is done; unless it is the word for silence, says nothing, or a tool has written to the user.
pub proof fn answer_is_told_once(s: ExchangeView, r: LlmResponseView)
    requires
        r.tool_calls.len() == 0,
        !blank(r.content),
        s.job.drop_reply_marker != Some(trim(r.content)),
        !s.sent_via_im,
    ensures
        ({
            let (t, step) = after_answer(s, AnswerView::Response(r));
            &&& t.stage == Stage::Done
            &&& step.next == NextView::Finish
            &&& sends_only(step.effects, s, r.content)
        }),
{
    lemma_names();
    lemma_trim_blank(r.content);
    lemma_ends(s, r);
    let e = reply_effect(s, r.content);
    lemma_published_push(Seq::empty(), e);
    assert(Seq::<EffectView>::empty().push(e) =~= seq![e]);
    answer_goes_back(s, r.content);
}

/// The word for silence is told nobody, nor is an answer that says nothing.
pub proof fn silence_is_kept(s: ExchangeView, r: LlmResponseView)
    requires
        r.tool_calls.len() == 0,
        s.job.drop_reply_marker == Some(trim(r.content)) || (blank(r.content) && !s.sent_via_im),
    ensures
        published(after_answer(s, AnswerView::Response(r)).1.effects).len() == 0,
        after_answer(s, AnswerView::Response(r)).1.next == NextView::Finish,
{
    lemma_trim_blank(r.content);
    lemma_ends(s, r);
}

/// Where a tool has written to the user, the answer is not sent to them: it is made known to the
/// plugins, marked as silent.
pub proof fn answer_behind_a_sent_one_is_silent(s: ExchangeView, r: LlmResponseView)
    requires
        r.tool_calls.len() == 0,
        s.job.drop_reply_marker != Some(trim(r.content)),
        s.sent_via_im,
    ensures
        ({
            let events = published(after_answer(s, AnswerView::Response(r)).1.effects);
            &&& events.len() == 1
            &&& events[0].topic == "assistant.message"@
            &&& events[0].data.at("silent"@) == JsonView::Bool(true)
            &&& is_for(events[0], r.content, s.job.source, s.job.peer_id)
        }),
{
    lemma_names();
    lemma_ends(s, r);
    let e = EffectView::Publish(silent_event(r.content, s.job.source, s.job.peer_id));
    lemma_published_push(Seq::empty(), e);
    assert(Seq::<EffectView>::empty().push(e) =~= seq![e]);
}

/// Who is refused is told so, and of a budget how much is used and how much there is; who is let
/// through is told nothing yet.
pub proof fn refusal_is_told(
    s: ExchangeView,
    check: BudgetCheckView,
    request_id: Seq<char>,
)
    ensures
        exists|text: Seq<char>| #[trigger]
            sends_only(after_rate_limit(s, false).1.effects, s, text) && !blank(text),
        after_rate_limit(s, true).1.effects.len() == 0,
        after_rate_limit(s, true).1.next == NextView::CheckBudget,
        !check.allowed ==> exists|text: Seq<char>| #[trigger]
            sends_only(after_budget(s, Some(check), request_id).1.effects, s, text) && holds(
                text,
                decimal(check.used as nat) + "/"@ + decimal(check.limit as nat),
            ) && (check.period matches Some(p) ==> holds(text, p)),
        check.allowed ==> after_budget(s, Some(check), request_id).1.next == NextView::Prepare,
        after_budget(s, None, request_id).1.next == NextView::Prepare,
{
    let e = reply_effect(s, too_often());
    lemma_published_push(Seq::empty(), e);
    assert(Seq::<EffectView>::empty().push(e) =~= seq![e]);
    answer_goes_back(s, too_often());
    assert(sends_only(after_rate_limit(s, false).1.effects, s, too_often()));
    assert(!blank(too_often())) by {
        reveal_strlit("⏳ 请求过于频繁，请稍后再试。");
        assert(!crate::text::is_white(too_often()[0]));
    }
    if !check.allowed {
        let text = budget_text(check);
        let f = reply_effect(s, text);
        lemma_published_push(Seq::empty(), f);
        assert(Seq::<EffectView>::empty().push(f) =~= seq![f]);
        answer_goes_back(s, text);
        let period = match check.period {
            Some(p) => p,
            None => "?"@,
        };
        let numbers = decimal(check.used as nat) + "/"@ + decimal(check.limit as nat);
        let front = "🪙 Token 额度（"@ + period + "）已用尽（"@;
        lemma_holds(front, numbers, "），请稍后再试。"@);
        assert(front + numbers + "），请稍后再试。"@ =~= text);
        lemma_holds(
            "🪙 Token 额度（"@,
            period,
            "）已用尽（"@ + numbers + "），请稍后再试。"@,
        );
        assert("🪙 Token 额度（"@ + period + ("）已用尽（"@ + numbers
            + "），请稍后再试。"@) =~= text);
        assert(sends_only(after_budget(s, Some(check), request_id).1.effects, s, text));
    }
}

/// A failure of the first request is told with its reason, one of a later request is not; either
/// way the message is done, and the failure is counted.
pub proof fn failure_is_told(s: ExchangeView, reason: Seq<char>)
    ensures
        ({
            let step = after_answer(s, AnswerView::Failed(reason)).1;
            &&& step.next == NextView::Finish
            &&& !s.asked ==> exists|text: Seq<char>| #[trigger]
                sends_only(step.effects, s, text) && holds(text, reason)
            &&& s.asked ==> published(step.effects).len() == 0
            &&& step.effects.len() >= 2
            &&& step.effects[0] == EffectView::RecordLatency { model: None, success: false }
            &&& step.effects[1] == EffectView::RecordError { category: "llm_api"@ }
        }),
        published(after_answer(s, AnswerView::Lost).1.effects).len() == 0,
        published(after_cancel(s).1.effects).len() == 0,
        after_cancel(s).1.next == NextView::Finish,
{
    let records = failure_records();
    lemma_published_none(records);
    let text = failure_text(reason);
    let e = reply_effect(s, text);
    let end = EffectView::Deregister { request_id: s.request_id };
    lemma_published_push(records, e);
    lemma_published_push(records.push(e), end);
    lemma_published_push(records, end);
    lemma_published_push(Seq::empty(), end);
    answer_goes_back(s, text);
    lemma_holds("抱歉，出错了："@, reason, Seq::empty());
    assert("抱歉，出错了："@ + reason + Seq::<char>::empty() =~= text);
    if !s.asked {
        assert(published(after_answer(s, AnswerView::Failed(reason)).1.effects) =~= seq![
            e->Publish_0,
        ]);
        assert(sends_only(after_answer(s, AnswerView::Failed(reason)).1.effects, s, text));
    }
}

/// What an answer has cost is entered under its model, token for token.
pub proof fn cost_is_entered(s: ExchangeView, r: LlmResponseView)
    ensures
        ({
            let effects = after_answer(s, AnswerView::Response(r)).1.effects;
            &&& effects.len() >= 2
            &&& effects[0] == EffectView::RecordUsage {
                model: r.model,
                prompt_tokens: r.prompt_tokens,
                completion_tokens: r.completion_tokens,
                prompt_cache_hit_tokens: r.prompt_cache_hit_tokens,
                prompt_cache_miss_tokens: r.prompt_cache_miss_tokens,
            }
            &&& effects[1] == EffectView::RecordLatency { model: Some(r.model), success: true }
        }),
{
}

/// Whether a value tells the model of a tool.
pub open spec fn tells_of(v: JsonView, d: ToolDefView) -> bool {
    &&& v.str_at("type"@) == Some("function"@)
    &&& v.at("function"@).str_at("name"@) == Some(d.name)
    &&& v.at("function"@).str_at("description"@) == Some(d.description)
    &&& v.at("function"@).at("parameters"@) == d.parameters
}

/// The model is told of every tool that is not internal, in order, and of no other.
pub proof fn tools_are_shown(defs: Seq<ToolDefView>)
    ensures
        ({
            let shown = defs.filter(|d: ToolDefView| !d.internal);
            &&& visible_tools(defs).len() == shown.len()
            &&& forall|i: int|
                0 <= i < shown.len() ==> tells_of(#[trigger] visible_tools(defs)[i], shown[i])
        }),
    decreases defs.len(),
{
    reveal(Seq::filter);
    if defs.len() > 0 {
        let rest = defs.drop_last();
        tools_are_shown(rest);
        lemma_names();
        let f = |d: ToolDefView| !d.internal;
        let shown = defs.filter(f);
        assert forall|i: int| 0 <= i < shown.len() implies tells_of(
            #[trigger] visible_tools(defs)[i],
            shown[i],
        ) by {
            if !defs.last().internal && i == shown.len() - 1 {
                assert(visible_tools(defs)[i] == crate::pipeline::tool_json(defs.last()));
            } else {
                assert(visible_tools(defs)[i] == visible_tools(rest)[i]);
                assert(shown[i] == rest.filter(f)[i]);
            }
        }
    }
}

/// Whether a request is made for the message of an exchange, with the contexts and tools that were
/// collected for it.
pub open spec fn is_made_for(r: ChatRequestView, s: ExchangeView) -> bool {
    &&& r.peer_id == s.job.peer_id
    &&& r.source == s.job.source
    &&& r.user_name == s.job.user_name
    &&& r.contexts == s.contexts
    &&& r.tools == s.tools
    &&& r.stream
    &&& r.max_tokens is None
    &&& r.jailbreak_index is None
}

/// The model is asked what the user has said, with everything that came with it, and is given the
/// contexts that were collected; it is told of tools only where it may call them.
pub proof fn user_is_put_to_the_model(
    s: ExchangeView,
    contexts: Seq<Seq<char>>,
    defs: Seq<ToolDefView>,
)
    ensures
        ({
            let (t, step) = after_preparation(s, contexts, defs);
            &&& t.contexts == contexts
            &&& t.tools == if s.job.allow_tools {
                visible_tools(defs)
            } else {
                Seq::empty()
            }
            &&& t.job == s.job
            &&& step.next matches NextView::Ask { request, max_retries } && {
                &&& max_retries == 3
                &&& is_made_for(request, t)
                &&& request.message == s.job.text
                &&& request.image_base64 == s.job.image_base64
                &&& request.video_base64 == s.job.video_base64
                &&& request.video_mime == s.job.video_mime
                &&& request.file_base64 == s.job.file_base64
                &&& request.file_name == s.job.file_name
                &&& request.original_user_msg == s.job.original_user_msg
                &&& request.skip_store == s.job.defer_store
                &&& request.request_id == s.request_id
                &&& request.assistant_tool_calls.len() == 0
                &&& request.tool_results.len() == 0
            }
        }),
{
}

/// The tools that an answer asks for are called in its order, from the first on, each with the
/// arguments it gives; nobody is told anything before.
pub proof fn tools_are_called_in_order(s: ExchangeView, r: LlmResponseView)
    requires
        r.tool_calls.len() > 0,
        s.asked ==> s.round + 1 < s.max_tool_rounds,
        !s.asked ==> 0 < s.max_tool_rounds,
    ensures
        ({
            let (t, step) = after_answer(s, AnswerView::Response(r));
            &&& step.next == NextView::RunTool {
                name: r.tool_calls[0].name,
                arguments: r.tool_calls[0].arguments,
            }
            &&& t.response == r
            &&& t.next_call == 0
            &&& t.round_results.len() == 0
            &&& t.all_calls == s.all_calls
            &&& t.all_results == s.all_results
            &&& published(step.effects).len() == 0
        }),
{
    lemma_published_none(answer_records(r));
}

/// Whether a line tells the model what came of a call: the tool's name, and what it returned or
/// why it failed.
pub open spec fn reports(line: Seq<char>, name: Seq<char>, r: ToolResultView) -> bool {
    &&& holds(line, name)
    &&& r.success ==> holds(line, r.content)
    &&& !r.success ==> (r.error matches Some(e) ==> holds(line, e))
}

/// The line of a result reports it.
pub proof fn lemma_reports(name: Seq<char>, r: ToolResultView)
    ensures
        reports(result_line(name, r), name, r),
{
    let line = result_line(name, r);
    if r.success {
        lemma_holds("【"@, name, "】\n"@ + r.content);
        assert("【"@ + name + ("】\n"@ + r.content) =~= line);
        lemma_holds("【"@ + name + "】\n"@, r.content, Seq::empty());
        assert("【"@ + name + "】\n"@ + r.content + Seq::<char>::empty() =~= line);
    } else {
        let e = match r.error {
            Some(e) => e,
            None => "unknown"@,
        };
        lemma_holds("【"@, name, "】错误："@ + e);
        assert("【"@ + name + ("】错误："@ + e) =~= line);
        lemma_holds("【"@ + name + "】错误："@, e, Seq::empty());
        assert("【"@ + name + "】错误："@ + e + Seq::<char>::empty() =~= line);
    }
}

/// Where an exchange goes with the results `results` of this round: to the next call of the answer,
/// or behind the last one to the model, with all calls and all results so far.
pub open spec fn goes_on(
    s: ExchangeView,
    out: (ExchangeView, StepView),
    results: Seq<Seq<char>>,
) -> bool {
    let k = s.next_call + 1;
    if k < s.response.tool_calls.len() {
        &&& out.1.next == NextView::RunTool {
            name: s.response.tool_calls[k].name,
            arguments: s.response.tool_calls[k].arguments,
        }
        &&& out.0.next_call == k
        &&& out.0.round_results == results
        &&& out.0.response == s.response
    } else {
        &&& out.1.next matches NextView::Ask { request, max_retries } && {
            &&& max_retries == 2
            &&& is_made_for(request, s)
            &&& request.message.len() == 0
            &&& request.skip_store
            &&& request.assistant_tool_calls == s.all_calls + s.response.tool_calls
            &&& request.tool_results == s.all_results + results
            &&& s.request_id.is_prefix_of(request.request_id)
            &&& request.request_id == s.request_id + "-t"@ + decimal((s.round + 1) as nat)
        }
        &&& out.0.all_calls == s.all_calls + s.response.tool_calls
        &&& out.0.all_results == s.all_results + results
    }
}

proof fn lemma_goes_on(t: ExchangeView, effects: Seq<EffectView>)
    requires
        t.response.tool_calls.len() <= usize::MAX,
    ensures
        goes_on(t, after_call(t, effects), t.round_results),
        after_call(t, effects).1.effects == effects,
{
    if let NextView::Ask { request, .. } = after_call(t, effects).1.next {
        assert(t.request_id.is_prefix_of(request.request_id));
    }
}

/// What a tool returns is entered and handed on to the model under the tool's name, behind the
/// results before it; one that is not there is reported as such. The picture that a tool has made
/// is described first.
pub proof fn result_is_handed_on(s: ExchangeView, result: Option<ToolResultView>)
    requires
        sound(s),
        s.stage == Stage::Tool,
        s.response.tool_calls.len() <= usize::MAX,
    ensures
        ({
            let name = s.response.tool_calls[s.next_call as int].name;
            let out = after_tool(s, result);
            let success = result matches Some(r) && r.success;
            &&& out.1.effects == seq![EffectView::RecordTool { tool_name: name, success }]
            &&& exists|line: Seq<char>|
                {
                    &&& #[trigger] holds(line, name)
                    &&& result matches Some(r) ==> reports(line, name, r)
                    &&& if out.1.next is DescribeImage {
                        out.0.round_results == s.round_results.push(line)
                    } else {
                        goes_on(s, out, s.round_results.push(line))
                    }
                }
            &&& out.0.sent_via_im == (s.sent_via_im || (success && ("tg_send_"@.is_prefix_of(name)
                || name == "feishu_send_message"@ || name == "wechat_send_message"@)))
            &&& out.1.next is DescribeImage <==> (result matches Some(r) && r.success && name
                == "generate_image"@ && (r.metadata matches Some(m) && (m.str_at(
                "image_base64"@,
            ) matches Some(picture) && picture.len() > 0)))
            &&& out.1.next matches NextView::DescribeImage { arguments } ==> arguments.str_at(
                "image_base64"@,
            ) == (result->0.metadata->0).str_at("image_base64"@) && ((result->0.metadata->0).str_at(
                "mime_type"@,
            ) matches Some(kind) ==> arguments.str_at("mime_type"@) == Some(kind))
        }),
{
    lemma_names();
    let name = s.response.tool_calls[s.next_call as int].name;
    let r = match result {
        Some(r) => r,
        None => not_found(name),
    };
    let line = result_line(name, r);
    lemma_reports(name, r);
    let t = ExchangeView {
        round_results: s.round_results.push(line),
        sent_via_im: s.sent_via_im || (r.success && sends_message(name)),
        ..s
    };
    lemma_goes_on(t, seq![EffectView::RecordTool { tool_name: name, success: r.success }]);
    assert(holds(line, name));
}

/// What is seen in a picture is added to the result of the call that made it; without a
/// description the result stays as it is.
pub proof fn description_is_added(s: ExchangeView, result: Option<ToolResultView>)
    requires
        sound(s),
        s.stage == Stage::Description,
        s.response.tool_calls.len() <= usize::MAX,
    ensures
        ({
            let out = after_description(s, result);
            match result {
                Some(r) if r.success => exists|line: Seq<char>| #[trigger]
                    holds(line, r.content) && s.round_results.last().is_prefix_of(line) && goes_on(
                        s,
                        out,
                        s.round_results.drop_last().push(line),
                    ),
                _ => goes_on(s, out, s.round_results),
            }
        }),
{
    match result {
        Some(r) if r.success => {
            let was = s.round_results.last();
            let line = described(was, r.content);
            lemma_holds(was + "\n【自动图片理解】\n"@, r.content, Seq::empty());
            assert(was + "\n【自动图片理解】\n"@ + r.content + Seq::<char>::empty() =~= line);
            let t = ExchangeView { round_results: s.round_results.drop_last().push(line), ..s };
            lemma_goes_on(t, Seq::empty());
        },
        _ => {
            lemma_goes_on(s, Seq::empty());
        },
    }
}

/// Whether a call is written with its id, its name, and its arguments as text.
pub open spec fn writes_call(v: JsonView, c: ToolCallView) -> bool {
    &&& v.str_at("id"@) == Some(c.id)
    &&& v.str_at("type"@) == Some("function"@)
    &&& v.at("function"@).str_at("name"@) == Some(c.name)
    &&& v.at("function"@).str_at("arguments"@) == Some(json_written(c.arguments))
}

/// Whether a message is the assistant's and lists the calls, in order.
pub open spec fn lists_calls(m: JsonView, calls: Seq<ToolCallView>) -> bool {
    &&& m.str_at("role"@) == Some("assistant"@)
    &&& m.at("tool_calls"@) matches JsonView::Arr(items) && {
        &&& items.len() == calls.len()
        &&& forall|i: int| 0 <= i < calls.len() ==> writes_call(#[trigger] items[i], calls[i])
    }
}

/// Whether a message gives the result of a call.
pub open spec fn gives_result(m: JsonView, call: ToolCallView, result: Seq<char>) -> bool {
    &&& m.str_at("role"@) == Some("tool"@)
    &&& m.str_at("tool_call_id"@) == Some(call.id)
    &&& m.str_at("content"@) == Some(result)
}

/// Whether a message is something that somebody has said.
pub open spec fn says(m: JsonView, role: Seq<char>, content: Seq<char>) -> bool {
    &&& m.str_at("role"@) == Some(role)
    &&& m.str_at("content"@) == Some(content)
}

/// The message that lists calls lists all of them, and the message with a result names the call it
/// is the result of.
pub proof fn calls_are_written_out(calls: Seq<ToolCallView>, call: ToolCallView, result: Seq<char>)
    ensures
        lists_calls(calls_message(calls), calls),
        gives_result(result_message(call, result), call, result),
{
    lemma_names();
    let m = calls_message(calls);
    let items = m.at("tool_calls"@)->Arr_0;
    assert forall|i: int| 0 <= i < calls.len() implies writes_call(
        #[trigger] items[i],
        calls[i],
    ) by {
        assert(items[i] == stored_call(calls[i]));
    }
}

/// The messages that are put in the history among effects, in order: for whom, and as what text.
pub open spec fn stored(effects: Seq<EffectView>) -> Seq<(Seq<char>, Seq<char>)>
    decreases effects.len(),
{
    if effects.len() == 0 {
        Seq::empty()
    } else {
        match effects.last() {
            EffectView::Store { peer_id, message_json } => stored(effects.drop_last()).push(
                (peer_id, message_json),
            ),
            _ => stored(effects.drop_last()),
        }
    }
}

proof fn lemma_stored_none(effects: Seq<EffectView>)
    requires
        forall|i: int| 0 <= i < effects.len() ==> !((#[trigger] effects[i]) is Store),
    ensures
        stored(effects).len() == 0,
    decreases effects.len(),
{
    if effects.len() > 0 {
        lemma_stored_none(effects.drop_last());
    }
}

proof fn lemma_stored_all(effects: Seq<EffectView>)
    requires
        forall|i: int| 0 <= i < effects.len() ==> (#[trigger] effects[i]) is Store,
    ensures
        stored(effects).len() == effects.len(),
        forall|i: int|
            0 <= i < effects.len() ==> #[trigger] stored(effects)[i] == (
                effects[i]->Store_peer_id,
                effects[i]->Store_message_json,
            ),
    decreases effects.len(),
{
    if effects.len() > 0 {
        let rest = effects.drop_last();
        lemma_stored_all(rest);
        assert forall|i: int| 0 <= i < effects.len() implies #[trigger] stored(effects)[i] == (
            effects[i]->Store_peer_id,
            effects[i]->Store_message_json,
        ) by {
            if i < rest.len() {
                assert(stored(effects)[i] == stored(rest)[i]);
                assert(rest[i] == effects[i]);
            }
        }
    }
}

proof fn lemma_stored_add(a: Seq<EffectView>, b: Seq<EffectView>)
    ensures
        stored(a + b) == stored(a) + stored(b),
    decreases b.len(),
{
    if b.len() == 0 {
        assert(a + b =~= a);
        assert(stored(a) + stored(b) =~= stored(a));
    } else {
        assert((a + b).drop_last() =~= a + b.drop_last());
        lemma_stored_add(a, b.drop_last());
        assert(stored(a + b) =~= stored(a) + stored(b));
    }
}

proof fn lemma_stored_at_the_end(s: ExchangeView, r: LlmResponseView)
    requires
        r.tool_calls.len() == 0,
    ensures
        ({
            let t = ExchangeView {
                response: r,
                asked: true,
                round: if s.asked {
                    (s.round + 1) as usize
                } else {
                    0
                },
                ..s
            };
            stored(after_answer(s, AnswerView::Response(r)).1.effects) == stored(final_store(t))
        }),
{
    let t = ExchangeView {
        response: r,
        asked: true,
        round: if s.asked {
            (s.round + 1) as usize
        } else {
            0
        },
        ..s
    };
    let records = answer_records(r);
    at_most_one_event_at_the_end(t);
    lemma_stored_none(records);
    lemma_stored_none(final_publish(t));
    lemma_stored_add(records, final_store(t));
    lemma_stored_add(records + final_store(t), final_publish(t));
    let all = records + final_store(t) + final_publish(t);
    let end = EffectView::Deregister { request_id: t.request_id };
    assert(all.push(end).drop_last() =~= all);
    assert(stored(all) =~= stored(final_store(t)));
}

/// Whether a text is that of a message.
pub open spec fn is_text_of(text: Seq<char>, m: JsonView) -> bool {
    text == json_written(m)
}

/// An exchange with tool calls is put in the peer's history whole and in order: the message that
/// lists the calls, the result of each call, and the final answer.
pub proof fn calls_are_remembered(s: ExchangeView, r: LlmResponseView, i: int)
    requires
        sound(s),
        s.stage == Stage::Answer,
        s.asked,
        r.tool_calls.len() == 0,
    ensures
        ({
            let kept = stored(after_answer(s, AnswerView::Response(r)).1.effects);
            let n = s.all_calls.len();
            &&& kept.len() == n + 2
            &&& 0 <= i < kept.len() ==> kept[i].0 == s.job.peer_id
            &&& exists|m: JsonView| #[trigger]
                is_text_of(kept[0].1, m) && lists_calls(m, s.all_calls)
            &&& 0 <= i < n ==> exists|m: JsonView| #[trigger]
                is_text_of(kept[i + 1].1, m) && gives_result(m, s.all_calls[i], s.all_results[i])
            &&& exists|m: JsonView| #[trigger]
                is_text_of(kept.last().1, m) && m.str_at("role"@) == Some("assistant"@) && (
                r.content.len() > 0 ==> m.str_at("content"@) == Some(r.content))
        }),
{
    lemma_names();
    lemma_stored_at_the_end(s, r);
    let t = ExchangeView { response: r, asked: true, round: (s.round + 1) as usize, ..s };
    let effects = final_store(t);
    stored_chain_is_whole(t, i);
    at_most_one_event_at_the_end(t);
    lemma_stored_all(effects);
    let kept = stored(effects);
    let n = s.all_calls.len() as int;
    let calls = calls_message(s.all_calls);
    assert(kept.len() == n + 2);
    assert(is_text_of(kept[0].1, calls));
    calls_are_written_out(s.all_calls, arbitrary(), Seq::empty());
    if 0 <= i < n {
        calls_are_written_out(s.all_calls, s.all_calls[i], result_at(s.all_results, i));
        assert(is_text_of(
            kept[i + 1].1,
            result_message(s.all_calls[i], result_at(s.all_results, i)),
        ));
    }
    let m = final_message(r.content);
    assert(effects[n + 1] == effects.last());
    assert(kept[n + 1] == kept.last());
    assert(is_text_of(kept.last().1, m));
    assert(0 <= i < n ==> effects[i + 1] is Store);
    if 0 < i < kept.len() - 1 {
        stored_chain_is_whole(t, i - 1);
    }
}

/// Without tool calls nothing is put in the history here, unless that was put off: then it is the
/// answer, once, where there is one to be told.
pub proof fn deferred_answer_is_remembered(s: ExchangeView, r: LlmResponseView)
    requires
        !s.asked,
        r.tool_calls.len() == 0,
    ensures
        ({
            let kept = stored(after_answer(s, AnswerView::Response(r)).1.effects);
            if s.job.defer_store && !blank(r.content) && s.job.drop_reply_marker != Some(
                trim(r.content),
            ) {
                &&& kept.len() == 1
                &&& kept[0].0 == s.job.peer_id
                &&& exists|m: JsonView| #[trigger]
                    is_text_of(kept[0].1, m) && says(m, "assistant"@, r.content)
            } else {
                kept.len() == 0
            }
        }),
{
    lemma_names();
    lemma_trim_blank(r.content);
    lemma_stored_at_the_end(s, r);
    let t = ExchangeView { response: r, asked: true, round: 0, ..s };
    let effects = final_store(t);
    at_most_one_event_at_the_end(t);
    lemma_stored_all(effects);
    if effects.len() > 0 {
        let m = JsonView::object().with("role"@, JsonView::Str("assistant"@)).with(
            "content"@,
            JsonView::Str(r.content),
        );
        assert(is_text_of(stored(effects)[0].1, m));
    }
}

/// Whether an exchange waits for what its step asks for.
pub open spec fn waits_for(out: (ExchangeView, StepView)) -> bool {
    match out.1.next {
        NextView::CheckBudget => out.0.stage == Stage::Budget,
        NextView::Prepare => out.0.stage == Stage::Preparation,
        NextView::Ask { .. } => out.0.stage == Stage::Answer,
        NextView::RunTool { .. } => out.0.stage == Stage::Tool,
        NextView::DescribeImage { .. } => out.0.stage == Stage::Description,
        NextView::Finish => out.0.stage == Stage::Done,
    }
}

/// Whether two exchanges are about the same message, under the same limit.
pub open spec fn same_message(s: ExchangeView, t: ExchangeView) -> bool {
    &&& s.job == t.job
    &&& s.max_tool_rounds == t.max_tool_rounds
}

/// Every step waits for what it asks for, and is about the message that came in. A request that is
/// let through can be cancelled under the id that it was given.
pub proof fn exchange_waits_for_what_it_asks(
    s: ExchangeView,
    allowed: bool,
    check: Option<BudgetCheckView>,
    request_id: Seq<char>,
    contexts: Seq<Seq<char>>,
    defs: Seq<ToolDefView>,
    a: AnswerView,
    result: Option<ToolResultView>,
)
    ensures
        ({
            let out = after_rate_limit(s, allowed);
            waits_for(out) && same_message(s, out.0)
        }),
        ({
            let out = after_budget(s, check, request_id);
            &&& waits_for(out) && same_message(s, out.0)
            &&& out.1.next is Prepare ==> out.0.request_id == request_id && out.1.effects == seq![
                EffectView::Register { request_id },
            ]
        }),
        ({
            let out = after_preparation(s, contexts, defs);
            waits_for(out) && same_message(s, out.0)
        }),
        ({
            let out = after_answer(s, a);
            waits_for(out) && same_message(s, out.0) && out.0.request_id == s.request_id
        }),
        ({
            let out = after_tool(s, result);
            waits_for(out) && same_message(s, out.0) && out.0.request_id == s.request_id
        }),
        ({
            let out = after_description(s, result);
            waits_for(out) && same_message(s, out.0) && out.0.request_id == s.request_id
        }),
        ({
            let out = after_cancel(s);
            waits_for(out) && same_message(s, out.0)
        }),
{
}

/// A message that has just come in is kept as it came; nothing has been asked, called or sent for
/// it.
pub proof fn message_is_taken_in(job: MessageJobView, max_tool_rounds: usize)
    ensures
        ({
            let s = incoming(job, max_tool_rounds);
            &&& s.job == job
            &&& s.max_tool_rounds == max_tool_rounds
            &&& s.stage == Stage::Admission
            &&& sound(s)
            &&& !s.asked
            &&& !s.sent_via_im
            &&& s.all_calls.len() == 0
            &&& s.response.tool_calls.len() == 0
            &&& s.response.content.len() == 0
        }),
{
}

/// Every answer is kept, and counts as a round behind the first; a tool is called only while there
/// are rounds left.
pub proof fn rounds_are_counted(s: ExchangeView, r: LlmResponseView)
    requires
        s.round < usize::MAX,
    ensures
        ({
            let (t, step) = after_answer(s, AnswerView::Response(r));
            &&& t.asked
            &&& t.response == r
            &&& t.round == if s.asked {
                s.round + 1
            } else {
                0
            }
            &&& step.next is RunTool ==> t.round < t.max_tool_rounds
        }),
{
}

/// An answer names the chat that its peer is of, for those who know chats and not peers.
pub proof fn answer_names_its_chat(s: ExchangeView, text: Seq<char>, id: Seq<char>)
    requires
        s.job.peer_id == s.job.source + seq![':'] + id,
        id.len() > 0,
        !s.job.source.contains(':'),
    ensures
        reply_effect(s, text) matches EffectView::Publish(e) && e.data.str_at("chat_id"@) == Some(
            id,
        ),
        silent_event(text, s.job.source, s.job.peer_id).data.str_at("chat_id"@) == Some(id),
{
    lemma_names();
    assert forall|i: int| 0 <= i < s.job.source.len() implies s.job.source[i] != ':' by {
        assert(s.job.source.contains(s.job.source[i]));
    }
    peer_id_round_trip(s.job.source, id);
}

} // verus!
