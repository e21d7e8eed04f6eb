//! From events to messages to be answered.

use crate::event::{str_or, text_at, text_or, Event, EventView};
use crate::json::{Json, JsonView};
use crate::numbers::{decimal, push_decimal};
use crate::peer::{derive_peer_id, derived_peer, first_some, or_text, payload_source, source_of};
use crate::pipeline::{MessageJob, MessageJobView};
use crate::text::{same, trim, trimmed};
use vstd::prelude::*;

verus! {

broadcast use vstd::string::group_string_axioms;

/// What the model answers where it has nothing to say of its own accord.
pub open spec fn no_proactive_marker() -> Seq<char> {
    "[NO_PROACTIVE]"@
}

/// The part of the prompt that says how long the user has been silent.
pub open spec fn idle_part(idle_secs: Option<u64>) -> Seq<char> {
    match idle_secs {
        Some(n) => "用户已经沉默约 "@ + decimal(n as nat) + " 秒。"@,
        None => Seq::empty(),
    }
}

/// The prompt that lets the model speak of its own accord: freely after a time of silence, with
/// the note where there is one, else in general.
pub open spec fn proactive_prompt(
    note: Seq<char>,
    reason: Seq<char>,
    idle_secs: Option<u64>,
) -> Seq<char> {
    if reason == "autonomous_idle"@ {
        "[系统·自主主动] "@ + idle_part(idle_secs)
            + "现在你可以自主决定是否自然地找用户说一句话。如果上下文里用户刚结束话题、明确不想被打扰、或没有合适切入点，严格只输出 "@
            + no_proactive_marker()
            + "。如果适合开口，就延续最近的话题、关心用户状态，或轻轻开启一个新话题。直接输出要发送给用户的文本；不要解释你的决策，不要提及系统提示、沉默时间或主动插件。"@
    } else if trim(note).len() == 0 {
        "[系统·主动消息] 距离上次和用户互动已经过去一段时间。现在请你主动、自然地给用户发一条消息——延续之前的话题或自然地开启新话题，符合你的人设。直接输出要发送给用户的文本；不要在消息里提及这条系统提示，就当是你自己想起来要找他。"@
    } else {
        "[系统·定时提醒] 你之前安排了一条到期主动消息，备注/任务："@ + trim(note)
            + "。现在只完成这条定时提醒：用一句自然、简短、符合你人设的话告诉用户提醒到了，或完成备注里的要求。如果备注只是“叫/喊/提醒用户”这类任务，只说时间到了即可。直接输出要发送给用户的文本；不要延伸新话题，不要问“叫我干嘛”“有什么事”“要做什么”，不要提及系统提示、工具或备注。"@
    }
}

/// The prompt that lets the model speak of its own accord.
pub fn build_proactive_prompt(note: &str, reason: &str, idle_secs: Option<u64>) -> (r: String)
    ensures
        r@ == proactive_prompt(note@, reason@, idle_secs),
{
    let note = trimmed(note);
    if same(reason, "autonomous_idle") {
        let mut idle = String::new();
        match idle_secs {
            Some(n) => {
                idle = "用户已经沉默约 ".to_owned();
                push_decimal(&mut idle, n);
                idle.append(" 秒。");
            },
            None => {},
        }
        let mut out = "[系统·自主主动] ".to_owned();
        out.append(idle.as_str());
        out.append(
            "现在你可以自主决定是否自然地找用户说一句话。如果上下文里用户刚结束话题、明确不想被打扰、或没有合适切入点，严格只输出 ",
        );
        out.append("[NO_PROACTIVE]");
        out.append(
            "。如果适合开口，就延续最近的话题、关心用户状态，或轻轻开启一个新话题。直接输出要发送给用户的文本；不要解释你的决策，不要提及系统提示、沉默时间或主动插件。",
        );
        return out;
    }
    if note.as_str().is_empty() {
        return "[系统·主动消息] 距离上次和用户互动已经过去一段时间。现在请你主动、自然地给用户发一条消息——延续之前的话题或自然地开启新话题，符合你的人设。直接输出要发送给用户的文本；不要在消息里提及这条系统提示，就当是你自己想起来要找他。".to_owned();
    }
    let mut out = "[系统·定时提醒] 你之前安排了一条到期主动消息，备注/任务：".to_owned();
    out.append(note.as_str());
    out.append(
        "。现在只完成这条定时提醒：用一句自然、简短、符合你人设的话告诉用户提醒到了，或完成备注里的要求。如果备注只是“叫/喊/提醒用户”这类任务，只说时间到了即可。直接输出要发送给用户的文本；不要延伸新话题，不要问“叫我干嘛”“有什么事”“要做什么”，不要提及系统提示、工具或备注。",
    );
    out
}

/// The peer of an event: the one it names, else the one its ids give, else one made of the source
/// and `suffix`, or `alone` where there is no source.
pub open spec fn event_peer(
    data: JsonView,
    source: Seq<char>,
    suffix: Seq<char>,
    alone: Seq<char>,
) -> Seq<char> {
    match first_some(data.str_at("peer_id"@), derived_peer(data, source)) {
        Some(p) => p,
        None => if source.len() == 0 {
            alone
        } else {
            source + ":"@ + suffix
        },
    }
}

/// The peer of an event.
pub fn peer_of_event(data: &Json, source: &str, suffix: &str, alone: &str) -> (r: String)
    ensures
        r@ == event_peer(data@, source@, suffix@, alone@),
{
    match or_text(text_at(data, "peer_id"), derive_peer_id(data, source)) {
        Some(p) => p,
        None => {
            if source.is_empty() {
                alone.to_owned()
            } else {
                let mut out = source.to_owned();
                out.append(":");
                out.append(suffix);
                out
            }
        },
    }
}

/// The message that a trigger makes the model answer: a prompt that is not stored, without tools,
/// whose answer is stored at the end.
pub open spec fn proactive_job(data: JsonView) -> MessageJobView {
    let source = str_or(data, "source"@, ""@);
    let reason = str_or(data, "reason"@, "scheduled"@);
    MessageJobView {
        text: proactive_prompt(str_or(data, "note"@, ""@), reason, data.at("idle_secs"@).as_u64()),
        source,
        peer_id: event_peer(data, source, "proactive"@, "system:proactive"@),
        user_name: Seq::empty(),
        image_base64: None,
        video_base64: None,
        video_mime: None,
        file_base64: None,
        file_name: None,
        original_user_msg: Some(Seq::empty()),
        allow_tools: false,
        defer_store: true,
        drop_reply_marker: if reason == "autonomous_idle"@ {
            Some(no_proactive_marker())
        } else {
            None
        },
    }
}

/// The message that a user has sent.
pub open spec fn user_job(data: JsonView) -> MessageJobView {
    let source = payload_source(data, ""@);
    MessageJobView {
        text: str_or(data, "text"@, ""@),
        source,
        peer_id: event_peer(data, source, "anonymous"@, "unknown:anonymous"@),
        user_name: str_or(data, "user_name"@, "unknown"@),
        image_base64: data.str_at("image_base64"@),
        video_base64: data.str_at("video_base64"@),
        video_mime: data.str_at("video_mime"@),
        file_base64: data.str_at("file_base64"@),
        file_name: data.str_at("file_name"@),
        original_user_msg: None,
        allow_tools: true,
        defer_store: false,
        drop_reply_marker: None,
    }
}

/// Whether a message holds nothing to answer.
pub open spec fn is_void(job: MessageJobView) -> bool {
    job.text.len() == 0 && job.image_base64 is None && job.video_base64 is None
        && job.file_base64 is None
}

/// The message that an event asks to have answered, where it asks for one: a trigger always does,
/// a user's message where it holds something, and no other event does.
pub open spec fn event_job(e: EventView) -> Option<MessageJobView> {
    if e.topic == "proactive.trigger"@ {
        Some(proactive_job(e.data))
    } else if e.topic == "user.message"@ && !is_void(user_job(e.data)) {
        Some(user_job(e.data))
    } else {
        None
    }
}

fn job_of_trigger(data: &Json) -> (r: MessageJob)
    ensures
        r@ == proactive_job(data@),
{
    let source = text_or(data, "source", "");
    let peer_id = peer_of_event(data, source.as_str(), "proactive", "system:proactive");
    let note = text_or(data, "note", "");
    let reason = text_or(data, "reason", "scheduled");
    let idle_secs = match data.get("idle_secs") {
        Some(v) => v.as_u64(),
        None => None,
    };
    let text = build_proactive_prompt(note.as_str(), reason.as_str(), idle_secs);
    let drop_reply_marker = if same(reason.as_str(), "autonomous_idle") {
        Some("[NO_PROACTIVE]".to_owned())
    } else {
        None
    };
    MessageJob {
        text,
        source,
        peer_id,
        user_name: String::new(),
        image_base64: None,
        video_base64: None,
        video_mime: None,
        file_base64: None,
        file_name: None,
        original_user_msg: Some(String::new()),
        allow_tools: false,
        defer_store: true,
        drop_reply_marker,
    }
}

/// The message that an event asks to have answered.
pub fn job_from_event(event: &Event) -> (r: Option<MessageJob>)
    ensures
        match r {
            Some(j) => event_job(event@) == Some(j@),
            None => event_job(event@) is None,
        },
{
    if same(event.topic.as_str(), "proactive.trigger") {
        return Some(job_of_trigger(&event.data));
    }
    if !same(event.topic.as_str(), "user.message") {
        return None;
    }
    let data = &event.data;
    proof {
        reveal_strlit("");
        assert(""@ =~= Seq::empty());
    }
    let source = source_of(data, "");
    let peer_id = peer_of_event(data, source.as_str(), "anonymous", "unknown:anonymous");
    let job = MessageJob {
        text: text_or(data, "text", ""),
        source,
        peer_id,
        user_name: text_or(data, "user_name", "unknown"),
        image_base64: text_at(data, "image_base64"),
        video_base64: text_at(data, "video_base64"),
        video_mime: text_at(data, "video_mime"),
        file_base64: text_at(data, "file_base64"),
        file_name: text_at(data, "file_name"),
        original_user_msg: None,
        allow_tools: true,
        defer_store: false,
        drop_reply_marker: None,
    };
    if job.text.as_str().is_empty() && job.image_base64.is_none() && job.video_base64.is_none()
        && job.file_base64.is_none() {
        None
    } else {
        Some(job)
    }
}

/// The message that a text from a named user makes.
pub open spec fn plain_job(
    text: Seq<char>,
    source: Seq<char>,
    user_name: Seq<char>,
    peer_id: Seq<char>,
) -> MessageJobView {
    MessageJobView {
        text,
        source,
        peer_id,
        user_name,
        image_base64: None,
        video_base64: None,
        video_mime: None,
        file_base64: None,
        file_name: None,
        original_user_msg: None,
        allow_tools: true,
        defer_store: false,
        drop_reply_marker: None,
    }
}

/// The message that a text from a named user makes.
pub fn job_from_text(text: &str, source: &str, user_name: &str, peer_id: &str) -> (r: MessageJob)
    ensures
        r@ == plain_job(text@, source@, user_name@, peer_id@),
{
    MessageJob {
        text: text.to_owned(),
        source: source.to_owned(),
        peer_id: peer_id.to_owned(),
        user_name: user_name.to_owned(),
        image_base64: None,
        video_base64: None,
        video_mime: None,
        file_base64: None,
        file_name: None,
        original_user_msg: None,
        allow_tools: true,
        defer_store: false,
        drop_reply_marker: None,
    }
}

/// What the model is told of its own accord never becomes part of the history, and it may not
/// call tools then.
pub proof fn trigger_is_not_stored(data: JsonView)
    ensures
        proactive_job(data).original_user_msg == Some(Seq::<char>::empty()),
        !proactive_job(data).allow_tools,
        proactive_job(data).defer_store,
{
}

} // verus!
