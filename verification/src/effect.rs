//! What the pipeline asks its surroundings to do, and what it does next.

use crate::chat::{ChatRequest, ChatRequestView};
use crate::event::{Event, EventView};
use crate::json::{Json, JsonView};
use crate::tool::opt_text;
use vstd::prelude::*;

verus! {

/// Something to be done that no answer is awaited from.
#[derive(Debug, PartialEq)]
pub enum Effect {
    /// Publish an event on the bus.
    Publish(Event),
    /// Append a message, as JSON text, to the history of a peer.
    Store { peer_id: String, message_json: String },
    /// Enter a call in the token ledger.
    RecordUsage {
        model: String,
        prompt_tokens: u32,
        completion_tokens: u32,
        prompt_cache_hit_tokens: u32,
        prompt_cache_miss_tokens: u32,
    },
    /// Enter how long the call took; without a model, under the one that is configured.
    RecordLatency { model: Option<String>, success: bool },
    /// Count an error.
    RecordError { category: String },
    /// Count a tool call and how long it took.
    RecordTool { tool_name: String, success: bool },
    /// Make the request one that can be cancelled; it replaces the one before.
    Register { request_id: String },
    /// The request is over and can no longer be cancelled.
    Deregister { request_id: String },
}

/// The model of an [`Effect`].
pub ghost enum EffectView {
    Publish(EventView),
    Store { peer_id: Seq<char>, message_json: Seq<char> },
    RecordUsage {
        model: Seq<char>,
        prompt_tokens: u32,
        completion_tokens: u32,
        prompt_cache_hit_tokens: u32,
        prompt_cache_miss_tokens: u32,
    },
    RecordLatency { model: Option<Seq<char>>, success: bool },
    RecordError { category: Seq<char> },
    RecordTool { tool_name: Seq<char>, success: bool },
    Register { request_id: Seq<char> },
    Deregister { request_id: Seq<char> },
}

impl View for Effect {
    type V = EffectView;

    open spec fn view(&self) -> EffectView {
        match self {
            Effect::Publish(e) => EffectView::Publish(e@),
            Effect::Store { peer_id, message_json } => EffectView::Store {
                peer_id: peer_id@,
                message_json: message_json@,
            },
            Effect::RecordUsage {
                model,
                prompt_tokens,
                completion_tokens,
                prompt_cache_hit_tokens,
                prompt_cache_miss_tokens,
            } => EffectView::RecordUsage {
                model: model@,
                prompt_tokens: *prompt_tokens,
                completion_tokens: *completion_tokens,
                prompt_cache_hit_tokens: *prompt_cache_hit_tokens,
                prompt_cache_miss_tokens: *prompt_cache_miss_tokens,
            },
            Effect::RecordLatency { model, success } => EffectView::RecordLatency {
                model: opt_text(*model),
                success: *success,
            },
            Effect::RecordError { category } => EffectView::RecordError { category: category@ },
            Effect::RecordTool { tool_name, success } => EffectView::RecordTool {
                tool_name: tool_name@,
                success: *success,
            },
            Effect::Register { request_id } => EffectView::Register { request_id: request_id@ },
            Effect::Deregister { request_id } => EffectView::Deregister { request_id: request_id@ },
        }
    }
}

/// The models of a list of effects.
pub open spec fn effect_views(v: Seq<Effect>) -> Seq<EffectView> {
    v.map_values(|e: Effect| e@)
}

/// Adds an effect behind the others.
pub fn add_effect(effects: &mut Vec<Effect>, e: Effect)
    ensures
        effect_views(final(effects)@) == effect_views(old(effects)@).push(e@),
{
    let ghost before = effects@;
    effects.push(e);
    assert(effect_views(before.push(e)) =~= effect_views(before).push(e@));
}

/// What the pipeline waits for next.
#[derive(Debug, PartialEq)]
pub enum Next {
    /// Whether the token budget allows the request.
    CheckBudget,
    /// The plugins' contexts and the tool definitions.
    Prepare,
    /// The model's answer.
    Ask { request: ChatRequest, max_retries: u32 },
    /// The result of a tool.
    RunTool { name: String, arguments: Json },
    /// What the tool that describes images says of the picture.
    DescribeImage { arguments: Json },
    /// Nothing: the message has been dealt with.
    Finish,
}

/// The model of a [`Next`].
pub ghost enum NextView {
    CheckBudget,
    Prepare,
    Ask { request: ChatRequestView, max_retries: u32 },
    RunTool { name: Seq<char>, arguments: JsonView },
    DescribeImage { arguments: JsonView },
    Finish,
}

impl View for Next {
    type V = NextView;

    open spec fn view(&self) -> NextView {
        match self {
            Next::CheckBudget => NextView::CheckBudget,
            Next::Prepare => NextView::Prepare,
            Next::Ask { request, max_retries } => NextView::Ask {
                request: request@,
                max_retries: *max_retries,
            },
            Next::RunTool { name, arguments } => NextView::RunTool {
                name: name@,
                arguments: arguments@,
            },
            Next::DescribeImage { arguments } => NextView::DescribeImage { arguments: arguments@ },
            Next::Finish => NextView::Finish,
        }
    }
}

/// One step of the pipeline: what to do at once, and what to wait for.
#[derive(Debug, PartialEq)]
pub struct Step {
    pub effects: Vec<Effect>,
    pub next: Next,
}

/// The model of a [`Step`].
pub ghost struct StepView {
    pub effects: Seq<EffectView>,
    pub next: NextView,
}

impl View for Step {
    type V = StepView;

    open spec fn view(&self) -> StepView {
        StepView { effects: effect_views(self.effects@), next: self.next@ }
    }
}

} // verus!
