//! Requests to the language model and its answers.

use crate::json::{json_views, Json, JsonView};
use crate::text::views;
use crate::tool::{call_views, clone_calls, opt_text, ToolCall, ToolCallView};
use vstd::prelude::*;

verus! {

broadcast use vstd::string::group_string_axioms;

/// A message of a plain conversation.
#[derive(Debug, PartialEq)]
pub struct ChatMessage {
    pub role: String,
    pub content: String,
}

/// The model of a [`ChatMessage`].
pub ghost struct ChatMessageView {
    pub role: Seq<char>,
    pub content: Seq<char>,
}

impl View for ChatMessage {
    type V = ChatMessageView;

    open spec fn view(&self) -> ChatMessageView {
        ChatMessageView { role: self.role@, content: self.content@ }
    }
}

/// The models of a list of messages.
pub open spec fn message_views(v: Seq<ChatMessage>) -> Seq<ChatMessageView> {
    v.map_values(|m: ChatMessage| m@)
}

impl ChatMessage {
    /// A message with the given role.
    pub fn with_role(role: &str, content: &str) -> (r: Self)
        ensures
            r@ == (ChatMessageView { role: role@, content: content@ }),
    {
        ChatMessage { role: role.to_owned(), content: content.to_owned() }
    }

    /// A message that instructs the model.
    pub fn system(content: &str) -> (r: Self)
        ensures
            r@ == (ChatMessageView { role: "system"@, content: content@ }),
    {
        ChatMessage::with_role("system", content)
    }

    /// A message of the user.
    pub fn user(content: &str) -> (r: Self)
        ensures
            r@ == (ChatMessageView { role: "user"@, content: content@ }),
    {
        ChatMessage::with_role("user", content)
    }

    /// A message of the assistant.
    pub fn assistant(content: &str) -> (r: Self)
        ensures
            r@ == (ChatMessageView { role: "assistant"@, content: content@ }),
    {
        ChatMessage::with_role("assistant", content)
    }
}

/// A full request for an answer.
#[derive(Debug, PartialEq)]
pub struct ChatRequest {
    pub message: String,
    /// Peer identity, `source:id`.
    pub peer_id: String,
    pub tools: Vec<Json>,
    pub skip_store: bool,
    /// Passive contexts of the plugins.
    pub contexts: Vec<String>,
    /// Index into the list of extra prompts.
    pub jailbreak_index: Option<usize>,
    pub image_base64: Option<String>,
    pub video_base64: Option<String>,
    pub video_mime: Option<String>,
    pub file_base64: Option<String>,
    pub file_name: Option<String>,
    /// Whether the answer is streamed.
    pub stream: bool,
    pub request_id: String,
    pub source: String,
    pub user_name: String,
    pub max_tokens: Option<u32>,
    /// What is stored as the user's message in place of `message`.
    pub original_user_msg: Option<String>,
    /// The calls that the assistant has asked for so far in this exchange.
    pub assistant_tool_calls: Vec<ToolCall>,
    /// The results of those calls.
    pub tool_results: Vec<String>,
}

/// The model of a [`ChatRequest`].
pub ghost struct ChatRequestView {
    pub message: Seq<char>,
    pub peer_id: Seq<char>,
    pub tools: Seq<JsonView>,
    pub skip_store: bool,
    pub contexts: Seq<Seq<char>>,
    pub jailbreak_index: Option<usize>,
    pub image_base64: Option<Seq<char>>,
    pub video_base64: Option<Seq<char>>,
    pub video_mime: Option<Seq<char>>,
    pub file_base64: Option<Seq<char>>,
    pub file_name: Option<Seq<char>>,
    pub stream: bool,
    pub request_id: Seq<char>,
    pub source: Seq<char>,
    pub user_name: Seq<char>,
    pub max_tokens: Option<u32>,
    pub original_user_msg: Option<Seq<char>>,
    pub assistant_tool_calls: Seq<ToolCallView>,
    pub tool_results: Seq<Seq<char>>,
}

impl View for ChatRequest {
    type V = ChatRequestView;

    open spec fn view(&self) -> ChatRequestView {
        ChatRequestView {
            message: self.message@,
            peer_id: self.peer_id@,
            tools: json_views(self.tools@),
            skip_store: self.skip_store,
            contexts: views(self.contexts@),
            jailbreak_index: self.jailbreak_index,
            image_base64: opt_text(self.image_base64),
            video_base64: opt_text(self.video_base64),
            video_mime: opt_text(self.video_mime),
            file_base64: opt_text(self.file_base64),
            file_name: opt_text(self.file_name),
            stream: self.stream,
            request_id: self.request_id@,
            source: self.source@,
            user_name: self.user_name@,
            max_tokens: self.max_tokens,
            original_user_msg: opt_text(self.original_user_msg),
            assistant_tool_calls: call_views(self.assistant_tool_calls@),
            tool_results: views(self.tool_results@),
        }
    }
}

/// The model's answer.
#[derive(Debug, PartialEq)]
pub struct LlmResponse {
    pub content: String,
    pub model: String,
    pub prompt_tokens: u32,
    pub completion_tokens: u32,
    pub prompt_cache_hit_tokens: u32,
    pub prompt_cache_miss_tokens: u32,
    /// The tool calls that the answer asks for.
    pub tool_calls: Vec<ToolCall>,
}

/// The model of an [`LlmResponse`].
pub ghost struct LlmResponseView {
    pub content: Seq<char>,
    pub model: Seq<char>,
    pub prompt_tokens: u32,
    pub completion_tokens: u32,
    pub prompt_cache_hit_tokens: u32,
    pub prompt_cache_miss_tokens: u32,
    pub tool_calls: Seq<ToolCallView>,
}

impl View for LlmResponse {
    type V = LlmResponseView;

    open spec fn view(&self) -> LlmResponseView {
        LlmResponseView {
            content: self.content@,
            model: self.model@,
            prompt_tokens: self.prompt_tokens,
            completion_tokens: self.completion_tokens,
            prompt_cache_hit_tokens: self.prompt_cache_hit_tokens,
            prompt_cache_miss_tokens: self.prompt_cache_miss_tokens,
            tool_calls: call_views(self.tool_calls@),
        }
    }
}

impl Clone for LlmResponse {
    fn clone(&self) -> (r: Self)
        ensures
            r@ == self@,
    {
        LlmResponse {
            content: self.content.clone(),
            model: self.model.clone(),
            prompt_tokens: self.prompt_tokens,
            completion_tokens: self.completion_tokens,
            prompt_cache_hit_tokens: self.prompt_cache_hit_tokens,
            prompt_cache_miss_tokens: self.prompt_cache_miss_tokens,
            tool_calls: clone_calls(&self.tool_calls),
        }
    }
}

/// Copies a list of strings.
pub fn clone_strings(v: &Vec<String>) -> (r: Vec<String>)
    ensures
        views(r@) == views(v@),
{
    let r = v.clone();
    assert(views(r@) =~= views(v@));
    r
}

/// Copies a list of JSON values.
pub fn clone_json(v: &Vec<Json>) -> (r: Vec<Json>)
    ensures
        json_views(r@) == json_views(v@),
{
    let r = v.clone();
    assert(json_views(r@) =~= json_views(v@));
    r
}

/// Copies an optional string.
pub fn clone_opt(o: &Option<String>) -> (r: Option<String>)
    ensures
        opt_text(r) == opt_text(*o),
{
    match o {
        Some(s) => Some(s.clone()),
        None => None,
    }
}

impl Clone for ChatRequest {
    fn clone(&self) -> (r: Self)
        ensures
            r@ == self@,
    {
        ChatRequest {
            message: self.message.clone(),
            peer_id: self.peer_id.clone(),
            tools: clone_json(&self.tools),
            skip_store: self.skip_store,
            contexts: clone_strings(&self.contexts),
            jailbreak_index: self.jailbreak_index,
            image_base64: clone_opt(&self.image_base64),
            video_base64: clone_opt(&self.video_base64),
            video_mime: clone_opt(&self.video_mime),
            file_base64: clone_opt(&self.file_base64),
            file_name: clone_opt(&self.file_name),
            stream: self.stream,
            request_id: self.request_id.clone(),
            source: self.source.clone(),
            user_name: self.user_name.clone(),
            max_tokens: self.max_tokens,
            original_user_msg: clone_opt(&self.original_user_msg),
            assistant_tool_calls: clone_calls(&self.assistant_tool_calls),
            tool_results: clone_strings(&self.tool_results),
        }
    }
}

} // verus!
