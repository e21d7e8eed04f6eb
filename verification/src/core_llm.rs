//! The small host's side of the model: its configuration, its history, what it sends and what it
//! reads.

use crate::chat::{message_views, ChatMessage, ChatMessageView};
use crate::json::{json_read, json_views, Json, JsonView};
use crate::llm_chat::{chat_url, completions_url};
use crate::llm_stream::{element, member};
use crate::numbers::{opt_str, setting, setting_usize};
use crate::server::text_view;
use crate::text::{blank, is_blank, same, trim, trimmed};
use crate::tool::{call_views, ToolCall, ToolCallView};
use vstd::prelude::*;

verus! {

broadcast use vstd::string::group_string_axioms;

/// A row of the history.
#[derive(Debug, PartialEq)]
pub struct ChatRecord {
    pub id: i64,
    pub chat_id: i64,
    pub role: String,
    pub content: String,
    pub created_at: String,
}

/// The model of a [`ChatRecord`].
pub ghost struct ChatRecordView {
    pub id: i64,
    pub chat_id: i64,
    pub role: Seq<char>,
    pub content: Seq<char>,
    pub created_at: Seq<char>,
}

impl View for ChatRecord {
    type V = ChatRecordView;

    open spec fn view(&self) -> ChatRecordView {
        ChatRecordView {
            id: self.id,
            chat_id: self.chat_id,
            role: self.role@,
            content: self.content@,
            created_at: self.created_at@,
        }
    }
}

impl Clone for ChatRecord {
    fn clone(&self) -> (r: Self)
        ensures
            r@ == self@,
    {
        ChatRecord {
            id: self.id,
            chat_id: self.chat_id,
            role: self.role.clone(),
            content: self.content.clone(),
            created_at: self.created_at.clone(),
        }
    }
}

/// The models of a list of rows.
pub open spec fn record_views(v: Seq<ChatRecord>) -> Seq<ChatRecordView> {
    v.map_values(|r: ChatRecord| r@)
}

/// The rows of one chat.
pub open spec fn of_chat(rows: Seq<ChatRecordView>, chat_id: i64) -> Seq<ChatRecordView>
    decreases rows.len(),
{
    if rows.len() == 0 {
        Seq::empty()
    } else {
        let before = of_chat(rows.drop_last(), chat_id);
        if rows.last().chat_id == chat_id {
            before.push(rows.last())
        } else {
            before
        }
    }
}

/// The rows of the other chats.
pub open spec fn of_other_chats(rows: Seq<ChatRecordView>, chat_id: i64) -> Seq<ChatRecordView>
    decreases rows.len(),
{
    if rows.len() == 0 {
        Seq::empty()
    } else {
        let before = of_other_chats(rows.drop_last(), chat_id);
        if rows.last().chat_id == chat_id {
            before
        } else {
            before.push(rows.last())
        }
    }
}

/// The last `n` items of a list.
pub open spec fn last_n<T>(v: Seq<T>, n: nat) -> Seq<T> {
    if n >= v.len() {
        v
    } else {
        v.skip(v.len() - n)
    }
}

/// The history of all chats, in the order in which it was written.
pub struct ChatStore {
    rows: Vec<ChatRecord>,
    next_id: i64,
}

impl View for ChatStore {
    type V = Seq<ChatRecordView>;

    closed spec fn view(&self) -> Seq<ChatRecordView> {
        record_views(self.rows@)
    }
}

impl ChatStore {
    /// The number of the next row.
    pub closed spec fn next(&self) -> i64 {
        self.next_id
    }

    /// A store that holds the rows, with the number of the next one.
    pub fn load(rows: Vec<ChatRecord>, next_id: i64) -> (r: Self)
        ensures
            r@ == record_views(rows@),
            r.next() == next_id,
    {
        ChatStore { rows, next_id }
    }

    /// Adds a row behind the others, and returns its number.
    pub fn append(&mut self, chat_id: i64, role: &str, content: &str, created_at: &str) -> (r: i64)
        requires
            old(self).next() < i64::MAX,
        ensures
            r == old(self).next(),
            final(self).next() == r + 1,
            final(self)@ == old(self)@.push(
                ChatRecordView {
                    id: r,
                    chat_id,
                    role: role@,
                    content: content@,
                    created_at: created_at@,
                },
            ),
    {
        let ghost before = self.rows@;
        let id = self.next_id;
        let row = ChatRecord {
            id,
            chat_id,
            role: role.to_owned(),
            content: content.to_owned(),
            created_at: created_at.to_owned(),
        };
        self.rows.push(row);
        self.next_id = id + 1;
        assert(self@ =~= record_views(before).push(row@));
        id
    }

    /// The last rows of a chat, the oldest first.
    pub fn recent(&self, chat_id: i64, limit: usize) -> (r: Vec<ChatRecord>)
        ensures
            record_views(r@) == last_n(of_chat(self@, chat_id), limit as nat),
    {
        let ghost all = self@;
        let mut mine: Vec<ChatRecord> = Vec::new();
        let mut i: usize = 0;
        assert(all.take(0) =~= Seq::empty());
        assert(record_views(mine@) =~= Seq::empty());
        while i < self.rows.len()
            invariant
                i <= self.rows@.len(),
                all == record_views(self.rows@),
                record_views(mine@) == of_chat(all.take(i as int), chat_id),
            decreases self.rows@.len() - i,
        {
            let ghost before = mine@;
            assert(all.take(i + 1).drop_last() =~= all.take(i as int));
            if self.rows[i].chat_id == chat_id {
                let copy = self.rows[i].clone();
                mine.push(copy);
                assert(record_views(before.push(copy)) =~= record_views(before).push(copy@));
            }
            i = i + 1;
        }
        assert(all.take(all.len() as int) =~= all);
        if limit >= mine.len() {
            return mine;
        }
        let start: usize = mine.len() - limit;
        let mut out: Vec<ChatRecord> = Vec::new();
        let mut k: usize = start;
        while k < mine.len()
            invariant
                start <= k <= mine@.len(),
                out@.len() == k - start,
                forall|j: int| 0 <= j < out@.len() ==> (#[trigger] out@[j])@ == mine@[start + j]@,
            decreases mine@.len() - k,
        {
            out.push(mine[k].clone());
            k = k + 1;
        }
        assert(record_views(out@) =~= record_views(mine@).skip(start as int));
        out
    }

    /// Takes the rows of a chat out, and returns how many there were.
    pub fn clear(&mut self, chat_id: i64) -> (r: usize)
        ensures
            final(self)@ == of_other_chats(old(self)@, chat_id),
            r + final(self)@.len() == old(self)@.len(),
            final(self).next() == old(self).next(),
    {
        let ghost all = self@;
        let mut kept: Vec<ChatRecord> = Vec::new();
        let mut i: usize = 0;
        assert(all.take(0) =~= Seq::empty());
        assert(record_views(kept@) =~= Seq::empty());
        while i < self.rows.len()
            invariant
                i <= self.rows@.len(),
                kept@.len() <= i,
                all == record_views(self.rows@),
                record_views(kept@) == of_other_chats(all.take(i as int), chat_id),
            decreases self.rows@.len() - i,
        {
            let ghost before = kept@;
            assert(all.take(i + 1).drop_last() =~= all.take(i as int));
            if self.rows[i].chat_id != chat_id {
                let copy = self.rows[i].clone();
                kept.push(copy);
                assert(record_views(before.push(copy)) =~= record_views(before).push(copy@));
            }
            i = i + 1;
        }
        assert(all.take(all.len() as int) =~= all);
        let n: usize = self.rows.len() - kept.len();
        self.rows = kept;
        n
    }

    /// Takes all rows out.
    pub fn clear_all(&mut self)
        ensures
            final(self)@ == Seq::<ChatRecordView>::empty(),
            final(self).next() == old(self).next(),
    {
        self.rows = Vec::new();
        assert(self@ =~= Seq::empty());
    }
}

/// How the model is reached and how much of the history it is told.
#[derive(Debug)]
pub struct LlmConfig {
    pub api_key: String,
    pub model: String,
    pub base_url: String,
    pub system_prompt: String,
    /// How many turns of the history are told, at most.
    pub max_history_turns: usize,
}

/// A setting or its default.
pub open spec fn or_else(value: Option<Seq<char>>, default: Seq<char>) -> Seq<char> {
    match value {
        Some(v) => v,
        None => default,
    }
}

fn or_else_text(value: Option<&str>, default: &str) -> (r: String)
    ensures
        r@ == or_else(text_view(value), default@),
{
    match value {
        Some(v) => v.to_owned(),
        None => default.to_owned(),
    }
}

/// What a file says of the persona: its text without white space at its ends, none where it is
/// blank or not there.
pub open spec fn persona(content: Option<Seq<char>>) -> Option<Seq<char>> {
    match content {
        Some(c) => if blank(c) {
            None
        } else {
            Some(trim(c))
        },
        None => None,
    }
}

/// What a file says of the persona.
pub fn persona_of(content: Option<&str>) -> (r: Option<String>)
    ensures
        crate::tool::opt_text(r) == persona(text_view(content)),
{
    match content {
        Some(c) => {
            if is_blank(c) {
                None
            } else {
                Some(trimmed(c))
            }
        },
        None => None,
    }
}

impl LlmConfig {
    /// Makes the configuration from settings. Without a key there is none.
    pub fn from_settings(
        llm_api_key: Option<&str>,
        openai_api_key: Option<&str>,
        model: Option<&str>,
        base_url: Option<&str>,
        system_prompt: Option<&str>,
        max_history: Option<&str>,
    ) -> (r: Result<LlmConfig, String>)
        ensures
            ({
                let key = match llm_api_key {
                    Some(k) => Some(k),
                    None => openai_api_key,
                };
                match r {
                    Ok(c) => {
                        &&& key matches Some(k) && c.api_key@ == k@
                        &&& c.model@ == or_else(text_view(model), "deepseek-chat"@)
                        &&& c.base_url@ == or_else(
                            text_view(base_url),
                            "https://api.deepseek.com/v1"@,
                        )
                        &&& c.system_prompt@ == or_else(
                            text_view(system_prompt),
                            "你是一个有用的 AI 助手。请用简洁的中文回答。"@,
                        )
                        &&& c.max_history_turns == setting(
                            opt_str(max_history),
                            usize::MAX as nat,
                            20,
                        )
                    },
                    Err(e) => key is None && e@ == "LLM_API_KEY 或 OPENAI_API_KEY 未设置"@,
                }
            }),
    {
        let key = match llm_api_key {
            Some(k) => k,
            None => match openai_api_key {
                Some(k) => k,
                None => return Err("LLM_API_KEY 或 OPENAI_API_KEY 未设置".to_owned()),
            },
        };
        Ok(
            LlmConfig {
                api_key: key.to_owned(),
                model: or_else_text(model, "deepseek-chat"),
                base_url: or_else_text(base_url, "https://api.deepseek.com/v1"),
                system_prompt: or_else_text(
                    system_prompt,
                    "你是一个有用的 AI 助手。请用简洁的中文回答。",
                ),
                max_history_turns: setting_usize(max_history, 20),
            },
        )
    }
}

/// How many rows of the history are told, at most: two for each turn.
pub fn history_limit(c: &LlmConfig) -> (r: usize)
    requires
        c.max_history_turns * 2 <= usize::MAX,
    ensures
        r == c.max_history_turns * 2,
{
    c.max_history_turns * 2
}

/// The rows of a history as messages; without `all_roles`, those of the user and the assistant
/// alone.
pub open spec fn told_history(rows: Seq<ChatRecordView>, all_roles: bool) -> Seq<ChatMessageView>
    decreases rows.len(),
{
    if rows.len() == 0 {
        Seq::empty()
    } else {
        let before = told_history(rows.drop_last(), all_roles);
        let r = rows.last();
        if all_roles || r.role == "user"@ || r.role == "assistant"@ {
            before.push(ChatMessageView { role: r.role, content: r.content })
        } else {
            before
        }
    }
}

/// What the model is told: the system prompt, the history, the contexts in the assistant's name,
/// and the message.
pub open spec fn told_messages(
    prompt: Seq<char>,
    history: Seq<ChatMessageView>,
    contexts: Seq<Seq<char>>,
    message: Seq<char>,
) -> Seq<ChatMessageView> {
    seq![ChatMessageView { role: "system"@, content: prompt }] + history + contexts.map_values(
        |c: Seq<char>| ChatMessageView { role: "assistant"@, content: c },
    ) + seq![ChatMessageView { role: "user"@, content: message }]
}

/// What the model is told.
pub fn build_messages(
    c: &LlmConfig,
    history: &Vec<ChatRecord>,
    all_roles: bool,
    contexts: &Vec<String>,
    message: &str,
) -> (r: Vec<ChatMessage>)
    ensures
        message_views(r@) == told_messages(
            c.system_prompt@,
            told_history(record_views(history@), all_roles),
            crate::text::views(contexts@),
            message@,
        ),
{
    let ghost rows = record_views(history@);
    let ghost first = ChatMessageView { role: "system"@, content: c.system_prompt@ };
    let mut out: Vec<ChatMessage> = Vec::new();
    let system = ChatMessage::system(c.system_prompt.as_str());
    out.push(system);
    let mut i: usize = 0;
    proof {
        assert(rows.take(0) =~= Seq::empty());
        assert(message_views(out@) =~= seq![first] + told_history(rows.take(0), all_roles));
    }
    while i < history.len()
        invariant
            i <= history@.len(),
            rows == record_views(history@),
            message_views(out@) == seq![first] + told_history(rows.take(i as int), all_roles),
        decreases history@.len() - i,
    {
        let ghost before = out@;
        let ghost told = told_history(rows.take(i as int), all_roles);
        assert(rows.take(i + 1).drop_last() =~= rows.take(i as int));
        let role = history[i].role.as_str();
        if all_roles || same(role, "user") || same(role, "assistant") {
            let m = ChatMessage::with_role(role, history[i].content.as_str());
            out.push(m);
            assert(message_views(before.push(m)) =~= message_views(before).push(m@));
            assert((seq![first] + told).push(m@) =~= seq![first] + told.push(m@));
        }
        i = i + 1;
    }
    assert(rows.take(rows.len() as int) =~= rows);
    let ghost lead = message_views(out@);
    let ghost all = crate::text::views(contexts@);
    let ghost named = all.map_values(
        |s: Seq<char>| ChatMessageView { role: "assistant"@, content: s },
    );
    let mut k: usize = 0;
    assert(lead + named.take(0) =~= lead);
    while k < contexts.len()
        invariant
            k <= contexts@.len(),
            all == crate::text::views(contexts@),
            named == all.map_values(
                |s: Seq<char>| ChatMessageView { role: "assistant"@, content: s },
            ),
            message_views(out@) == lead + named.take(k as int),
        decreases contexts@.len() - k,
    {
        let ghost before = out@;
        let m = ChatMessage::assistant(contexts[k].as_str());
        out.push(m);
        proof {
            assert(message_views(before.push(m)) =~= message_views(before).push(m@));
            assert(named[k as int] == m@);
            assert((lead + named.take(k as int)).push(m@) =~= lead + named.take(k + 1));
        }
        k = k + 1;
    }
    assert(named.take(named.len() as int) =~= named);
    let ghost before = out@;
    let last = ChatMessage::user(message);
    out.push(last);
    assert(message_views(before.push(last)) =~= message_views(before).push(last@));
    assert(message_views(out@) =~= lead + named + seq![last@]);
    out
}

/// A message as it is sent.
pub open spec fn sent_message(m: ChatMessageView) -> JsonView {
    JsonView::object().with("role"@, JsonView::Str(m.role)).with(
        "content"@,
        JsonView::Str(m.content),
    )
}

/// What is sent to the model. The temperature is 0.7.
pub open spec fn sent_body(
    model: Seq<char>,
    messages: Seq<ChatMessageView>,
    json_mode: bool,
) -> JsonView {
    let body = JsonView::object().with("model"@, JsonView::Str(model)).with(
        "messages"@,
        JsonView::Arr(messages.map_values(|m: ChatMessageView| sent_message(m))),
    ).with("temperature"@, JsonView::Float("0.7"@)).with("max_tokens"@, JsonView::PosInt(2048));
    if json_mode {
        body.with(
            "response_format"@,
            JsonView::object().with("type"@, JsonView::Str("json_object"@)),
        )
    } else {
        body
    }
}

/// The address, and what is sent to it.
pub fn build_request(c: &LlmConfig, messages: &Vec<ChatMessage>, json_mode: bool) -> (r: (
    String,
    Json,
))
    ensures
        r.0@ == chat_url(c.base_url@),
        r.1@ == sent_body(c.model@, message_views(messages@), json_mode),
{
    let mut list: Vec<Json> = Vec::new();
    let mut i: usize = 0;
    while i < messages.len()
        invariant
            i <= messages@.len(),
            list@.len() == i,
            forall|k: int| 0 <= k < i ==> (#[trigger] list@[k])@ == sent_message(messages@[k]@),
        decreases messages@.len() - i,
    {
        let m = Json::object().with("role", Json::str(messages[i].role.as_str())).with(
            "content",
            Json::str(messages[i].content.as_str()),
        );
        list.push(m);
        i = i + 1;
    }
    assert(json_views(list@) =~= message_views(messages@).map_values(
        |m: ChatMessageView| sent_message(m),
    ));
    let mut body = Json::object().with("model", Json::str(c.model.as_str())).with(
        "messages",
        Json::array(list),
    ).with("temperature", Json::Float("0.7".to_owned())).with("max_tokens", Json::PosInt(2048));
    if json_mode {
        body = body.with(
            "response_format",
            Json::object().with("type", Json::str("json_object")),
        );
    }
    (completions_url(c.base_url.as_str()), body)
}

/// What the model answered.
#[derive(Debug, PartialEq)]
pub struct LlmResponse {
    pub content: String,
    pub cache_hit_tokens: u64,
    pub cache_miss_tokens: u64,
    pub tool_calls: Vec<ToolCall>,
}

/// The model of an [`LlmResponse`].
pub ghost struct LlmResponseView {
    pub content: Seq<char>,
    pub cache_hit_tokens: u64,
    pub cache_miss_tokens: u64,
    pub tool_calls: Seq<ToolCallView>,
}

impl View for LlmResponse {
    type V = LlmResponseView;

    open spec fn view(&self) -> LlmResponseView {
        LlmResponseView {
            content: self.content@,
            cache_hit_tokens: self.cache_hit_tokens,
            cache_miss_tokens: self.cache_miss_tokens,
            tool_calls: call_views(self.tool_calls@),
        }
    }
}

/// The number under a key of a body's usage, nought where there is none.
pub open spec fn used(body: JsonView, key: Seq<char>) -> u64 {
    match body.at("usage"@).at(key).as_u64() {
        Some(n) => n,
        None => 0,
    }
}

/// What a reply says, given its text read as JSON.
pub open spec fn completion_given(
    success: bool,
    status: Seq<char>,
    text: Seq<char>,
    body: Result<JsonView, Seq<char>>,
) -> Result<LlmResponseView, Seq<char>> {
    if !success {
        Err("API 错误 ("@ + text + "): "@ + status)
    } else {
        match body {
            Err(e) => Err("解析响应失败: "@ + e),
            Ok(b) => match b.at("choices"@).item(0).at("message"@).at("content"@).as_str() {
                None => Err("响应格式异常: "@ + text),
                Some(content) => Ok(
                    LlmResponseView {
                        content,
                        cache_hit_tokens: used(b, "prompt_cache_hit_tokens"@),
                        cache_miss_tokens: used(b, "prompt_cache_miss_tokens"@),
                        tool_calls: Seq::empty(),
                    },
                ),
            },
        }
    }
}

/// The model of a result.
pub open spec fn answer_view(r: Result<LlmResponse, String>) -> Result<LlmResponseView, Seq<char>> {
    match r {
        Ok(a) => Ok(a@),
        Err(e) => Err(e@),
    }
}

fn used_tokens(body: &Json, key: &str) -> (r: u64)
    ensures
        r == used(body@, key@),
{
    match member(body.get("usage"), key) {
        Some(v) => match v.as_u64() {
            Some(n) => n,
            None => 0,
        },
        None => 0,
    }
}

fn told(lead: &str, rest: &str) -> (r: String)
    ensures
        r@ == lead@ + rest@,
{
    let mut out = lead.to_owned();
    out.append(rest);
    out
}

/// Reads a reply, given its text read as JSON.
pub fn read_completion_given(
    success: bool,
    status: &str,
    text: &str,
    body: &Result<Json, String>,
) -> (r: Result<LlmResponse, String>)
    ensures
        answer_view(r) == completion_given(
            success,
            status@,
            text@,
            match body {
                Ok(b) => Ok(b@),
                Err(e) => Err(e@),
            },
        ),
{
    if !success {
        let mut e = told("API 错误 (", text);
        e.append("): ");
        e.append(status);
        return Err(e);
    }
    let b = match body {
        Ok(b) => b,
        Err(e) => return Err(told("解析响应失败: ", e.as_str())),
    };
    let found = member(member(element(b.get("choices"), 0), "message"), "content");
    let content = match found {
        Some(v) => v.as_str(),
        None => None,
    };
    match content {
        Some(c) => {
            let r = LlmResponse {
                content: c.to_owned(),
                cache_hit_tokens: used_tokens(b, "prompt_cache_hit_tokens"),
                cache_miss_tokens: used_tokens(b, "prompt_cache_miss_tokens"),
                tool_calls: Vec::new(),
            };
            assert(r@.tool_calls =~= Seq::empty());
            Ok(r)
        },
        None => Err(told("响应格式异常: ", text)),
    }
}

/// Reads a reply.
pub fn read_completion(success: bool, status: &str, text: &str) -> (r: Result<LlmResponse, String>)
    ensures
        answer_view(r) == completion_given(
            success,
            status@,
            text@,
            crate::json::json_parsed(text@),
        ),
{
    let body = Json::parse_or_reason(text);
    read_completion_given(success, status, text, &body)
}

/// Where reaching the model stopped.
#[derive(Debug, Clone, Copy, PartialEq, Eq, Structural)]
pub enum CoreFault {
    /// The request could not be sent.
    Send,
    /// The reply could not be read.
    Read,
    /// The request could not be made.
    Build,
    /// The model could not be called.
    Call,
}

/// What is told of a model that was not reached.
pub open spec fn core_fault(fault: CoreFault, reason: Seq<char>) -> Seq<char> {
    match fault {
        CoreFault::Send => "请求失败: "@ + reason,
        CoreFault::Read => "读取响应失败: "@ + reason,
        CoreFault::Build => "构建请求失败: "@ + reason,
        CoreFault::Call => "LLM 调用失败: "@ + reason,
    }
}

/// What is told of a model that was not reached.
pub fn describe_core_fault(fault: CoreFault, reason: &str) -> (r: String)
    ensures
        r@ == core_fault(fault, reason@),
{
    match fault {
        CoreFault::Send => told("请求失败: ", reason),
        CoreFault::Read => told("读取响应失败: ", reason),
        CoreFault::Build => told("构建请求失败: ", reason),
        CoreFault::Call => told("LLM 调用失败: ", reason),
    }
}

/// A tool as the model is told of it.
pub struct OfferedTool {
    pub name: String,
    pub description: String,
    pub parameters: Option<Json>,
}

/// The model of an [`OfferedTool`].
pub ghost struct OfferedToolView {
    pub name: Seq<char>,
    pub description: Seq<char>,
    pub parameters: Option<JsonView>,
}

impl View for OfferedTool {
    type V = OfferedToolView;

    open spec fn view(&self) -> OfferedToolView {
        OfferedToolView {
            name: self.name@,
            description: self.description@,
            parameters: crate::tool::opt_json(self.parameters),
        }
    }
}

/// The models of a list of tools.
pub open spec fn offered_views(v: Seq<OfferedTool>) -> Seq<OfferedToolView> {
    v.map_values(|t: OfferedTool| t@)
}

/// The tool that a value describes: none where it has no function with a name.
pub open spec fn offered(tool: JsonView) -> Option<OfferedToolView> {
    match tool.get("function"@) {
        Some(f) => match f.str_at("name"@) {
            Some(name) => Some(
                OfferedToolView {
                    name,
                    description: crate::event::str_or(f, "description"@, ""@),
                    parameters: f.get("parameters"@),
                },
            ),
            None => None,
        },
        None => None,
    }
}

/// The tools that values describe.
pub open spec fn offered_tools(tools: Seq<JsonView>) -> Seq<OfferedToolView>
    decreases tools.len(),
{
    if tools.len() == 0 {
        Seq::empty()
    } else {
        match offered(tools.last()) {
            Some(t) => offered_tools(tools.drop_last()).push(t),
            None => offered_tools(tools.drop_last()),
        }
    }
}

fn offer(tool: &Json) -> (r: Option<OfferedTool>)
    ensures
        (match r {
            Some(t) => Some(t@),
            None => None,
        }) == offered(tool@),
{
    let f = match tool.get("function") {
        Some(f) => f,
        None => return None,
    };
    let name = match f.str_at("name") {
        Some(n) => n.to_owned(),
        None => return None,
    };
    let parameters = match f.get("parameters") {
        Some(p) => Some(p.clone()),
        None => None,
    };
    Some(
        OfferedTool {
            name,
            description: crate::event::text_or(f, "description", ""),
            parameters,
        },
    )
}

/// The tools that values describe.
pub fn offer_tools(tools: &Vec<Json>) -> (r: Vec<OfferedTool>)
    ensures
        offered_views(r@) == offered_tools(json_views(tools@)),
{
    let ghost all = json_views(tools@);
    let mut out: Vec<OfferedTool> = Vec::new();
    let mut i: usize = 0;
    assert(all.take(0) =~= Seq::empty());
    assert(offered_views(out@) =~= Seq::empty());
    while i < tools.len()
        invariant
            i <= tools@.len(),
            all == json_views(tools@),
            offered_views(out@) == offered_tools(all.take(i as int)),
        decreases tools@.len() - i,
    {
        let ghost before = out@;
        assert(all.take(i + 1).drop_last() =~= all.take(i as int));
        match offer(&tools[i]) {
            Some(t) => {
                out.push(t);
                assert(offered_views(before.push(t)) =~= offered_views(before).push(t@));
            },
            None => {},
        }
        i = i + 1;
    }
    assert(all.take(all.len() as int) =~= all);
    out
}

/// A call as the service tells of it: its arguments are text.
pub struct RawCall {
    pub id: String,
    pub name: String,
    pub arguments: String,
}

/// The call with its arguments read; null where they are not JSON.
pub open spec fn read_raw(c: RawCall) -> ToolCallView {
    ToolCallView {
        id: c.id@,
        name: c.name@,
        arguments: match json_read(c.arguments@) {
            Some(v) => v,
            None => JsonView::Null,
        },
    }
}

/// The answer that a choice of the service gives.
pub fn read_choice(content: Option<&str>, cached_tokens: Option<u32>, calls: &Vec<RawCall>) -> (r:
    LlmResponse)
    ensures
        r@.content == or_else(text_view(content), Seq::empty()),
        r@.cache_hit_tokens == match cached_tokens {
            Some(n) => n as u64,
            None => 0,
        },
        r@.cache_miss_tokens == 0,
        r@.tool_calls == calls@.map_values(|c: RawCall| read_raw(c)),
{
    let mut tool_calls: Vec<ToolCall> = Vec::new();
    let mut i: usize = 0;
    while i < calls.len()
        invariant
            i <= calls@.len(),
            tool_calls@.len() == i,
            forall|k: int| 0 <= k < i ==> (#[trigger] tool_calls@[k])@ == read_raw(calls@[k]),
        decreases calls@.len() - i,
    {
        let arguments = match Json::parse(calls[i].arguments.as_str()) {
            Some(v) => v,
            None => Json::Null,
        };
        tool_calls.push(
            ToolCall { id: calls[i].id.clone(), name: calls[i].name.clone(), arguments },
        );
        i = i + 1;
    }
    let text = match content {
        Some(c) => c.to_owned(),
        None => String::new(),
    };
    let cache_hit_tokens: u64 = match cached_tokens {
        Some(n) => n as u64,
        None => 0,
    };
    let r = LlmResponse { content: text, cache_hit_tokens, cache_miss_tokens: 0, tool_calls };
    assert(r@.tool_calls =~= calls@.map_values(|c: RawCall| read_raw(c)));
    assert(r@.content =~= or_else(text_view(content), Seq::empty()));
    r
}

/// Tells whether a turn goes into the history: it is to be stored, and the answer is not blank.
pub fn is_stored(skip_store: bool, content: &str) -> (r: bool)
    ensures
        r == (!skip_store && !blank(content@)),
{
    !skip_store && !is_blank(content)
}

proof fn lemma_of_chat(rows: Seq<ChatRecordView>, chat_id: i64)
    ensures
        forall|i: int|
            0 <= i < of_chat(rows, chat_id).len() ==> (#[trigger] of_chat(rows, chat_id)[i]).chat_id
                == chat_id,
    decreases rows.len(),
{
    if rows.len() > 0 {
        lemma_of_chat(rows.drop_last(), chat_id);
        let before = of_chat(rows.drop_last(), chat_id);
        let now = of_chat(rows, chat_id);
        assert forall|i: int| 0 <= i < now.len() implies (#[trigger] now[i]).chat_id == chat_id by {
            if i < before.len() {
                assert(now[i] == before[i]);
            }
        }
    }
}

/// A row that was added is the last that a read of its chat gives back, and no read gives back rows
/// of another chat, or more than were asked for.
pub proof fn added_row_is_read_back(rows: Seq<ChatRecordView>, row: ChatRecordView, limit: nat)
    requires
        limit > 0,
    ensures
        ({
            let read = last_n(of_chat(rows.push(row), row.chat_id), limit);
            &&& 0 < read.len() <= limit
            &&& read.last() == row
            &&& forall|i: int| 0 <= i < read.len() ==> (#[trigger] read[i]).chat_id == row.chat_id
        }),
{
    let all = rows.push(row);
    assert(all.drop_last() =~= rows);
    let mine = of_chat(all, row.chat_id);
    lemma_of_chat(all, row.chat_id);
    let read = last_n(mine, limit);
    assert forall|i: int| 0 <= i < read.len() implies (#[trigger] read[i]).chat_id
        == row.chat_id by {
        let at = if limit >= mine.len() {
            i
        } else {
            mine.len() - limit + i
        };
        assert(read[i] == mine[at]);
    }
}

/// Clearing a chat leaves nothing of it and all of the others.
pub proof fn cleared_chat_is_empty(rows: Seq<ChatRecordView>, chat_id: i64, other: i64)
    requires
        other != chat_id,
    ensures
        of_chat(of_other_chats(rows, chat_id), chat_id).len() == 0,
        of_chat(of_other_chats(rows, chat_id), other) == of_chat(rows, other),
    decreases rows.len(),
{
    if rows.len() > 0 {
        cleared_chat_is_empty(rows.drop_last(), chat_id, other);
        let kept = of_other_chats(rows.drop_last(), chat_id);
        if rows.last().chat_id != chat_id {
            assert(kept.push(rows.last()).drop_last() =~= kept);
        }
    }
}

} // verus!
