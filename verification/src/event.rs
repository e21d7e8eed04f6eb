//! Events, and who receives them.

use crate::json::{Json, JsonView};
use crate::text::same;
use vstd::prelude::*;

verus! {

broadcast use vstd::string::group_string_axioms;

/// What an agent event is about.
#[derive(Debug, Clone, PartialEq, Eq)]
pub enum EventType {
    UserMessage,
    AssistantMessage,
    PluginNotification,
    PluginRequest,
    SystemEvent,
    Custom(String),
}

/// Where an agent event comes from.
#[derive(Debug, Clone, PartialEq, Eq)]
pub enum EventSource {
    User,
    System,
    Plugin(String),
}

/// An event of the in-process host.
#[derive(Debug, PartialEq)]
pub struct AgentEvent {
    pub event_type: EventType,
    pub source: EventSource,
    pub data: Json,
}

impl AgentEvent {
    /// An event with the given parts.
    pub fn new(event_type: EventType, source: EventSource, data: Json) -> (r: Self)
        ensures
            r == (AgentEvent { event_type, source, data }),
    {
        AgentEvent { event_type, source, data }
    }
}

/// The message that flows through the system.
#[derive(Debug, PartialEq)]
pub struct Event {
    /// Subscribers match on the topic.
    pub topic: String,
    /// The payload.
    pub data: Json,
    /// Who published the event.
    pub source: String,
    /// Milliseconds since the epoch, filled in on dispatch.
    pub timestamp: u64,
}

/// The model of an [`Event`].
pub ghost struct EventView {
    pub topic: Seq<char>,
    pub data: JsonView,
    pub source: Seq<char>,
    pub timestamp: u64,
}

impl View for Event {
    type V = EventView;

    open spec fn view(&self) -> EventView {
        EventView {
            topic: self.topic@,
            data: self.data@,
            source: self.source@,
            timestamp: self.timestamp,
        }
    }
}

impl Clone for Event {
    fn clone(&self) -> (r: Self)
        ensures
            r@ == self@,
    {
        Event {
            topic: self.topic.clone(),
            data: self.data.clone(),
            source: self.source.clone(),
            timestamp: self.timestamp,
        }
    }
}

impl EventView {
    /// An event that has not been dispatched yet.
    pub open spec fn fresh(topic: Seq<char>, data: JsonView, source: Seq<char>) -> EventView {
        EventView { topic, data, source, timestamp: 0 }
    }
}

impl Event {
    /// An event that has not been dispatched yet.
    pub fn new(topic: &str, data: Json, source: &str) -> (r: Self)
        ensures
            r@ == EventView::fresh(topic@, data@, source@),
    {
        Event { topic: topic.to_owned(), data, source: source.to_owned(), timestamp: 0 }
    }
}

/// Where a plugin's log line goes: an event under the topic `plugin.log`.
pub open spec fn plugin_log_event(
    plugin: Seq<char>,
    level: Seq<char>,
    message: Seq<char>,
) -> EventView {
    EventView::fresh(
        "plugin.log"@,
        JsonView::object().with("level"@, JsonView::Str(level)).with(
            "plugin"@,
            JsonView::Str(plugin),
        ).with("message"@, JsonView::Str(message)),
        plugin,
    )
}

/// Turns a log line of a plugin into the event that carries it to the host.
pub fn plugin_log(plugin: &str, level: &str, message: &str) -> (r: Event)
    ensures
        r@ == plugin_log_event(plugin@, level@, message@),
{
    let data = Json::object().with("level", Json::str(level)).with(
        "plugin",
        Json::str(plugin),
    ).with("message", Json::str(message));
    Event::new("plugin.log", data, plugin)
}

/// The levels at which the host writes a plugin's log line.
#[derive(Debug, Clone, Copy, PartialEq, Eq, Structural)]
pub enum HostLogLevel {
    Info,
    Warn,
    Error,
}

/// A log line that a plugin has sent to the host.
#[derive(Debug, PartialEq)]
pub struct PluginLogLine {
    pub level: HostLogLevel,
    pub plugin: String,
    pub message: String,
}

/// The level that a name stands for; every name but `warn` and `error` stands for info.
pub open spec fn host_level(name: Seq<char>) -> HostLogLevel {
    if name == "warn"@ {
        HostLogLevel::Warn
    } else if name == "error"@ {
        HostLogLevel::Error
    } else {
        HostLogLevel::Info
    }
}

/// The text of a member of the payload, or the default where it is missing or no string.
pub open spec fn str_or(data: JsonView, key: Seq<char>, default: Seq<char>) -> Seq<char> {
    match data.str_at(key) {
        Some(s) => s,
        None => default,
    }
}

/// The text of a member of the payload, or the default.
pub fn text_or(data: &Json, key: &str, default: &str) -> (r: String)
    ensures
        r@ == str_or(data@, key@, default@),
{
    match data.str_at(key) {
        Some(s) => s.to_owned(),
        None => default.to_owned(),
    }
}

/// The text of a member of the payload, where it is a string.
pub fn text_at(data: &Json, key: &str) -> (r: Option<String>)
    ensures
        crate::tool::opt_text(r) == data@.str_at(key@),
{
    match data.str_at(key) {
        Some(s) => Some(s.to_owned()),
        None => None,
    }
}

/// Reads the log line that an event carries. None for an event of another topic.
pub fn read_plugin_log(event: &Event) -> (r: Option<PluginLogLine>)
    ensures
        r is Some == (event.topic@ == "plugin.log"@),
        r matches Some(line) ==> {
            &&& line.level == host_level(str_or(event.data@, "level"@, "info"@))
            &&& line.plugin@ == str_or(event.data@, "plugin"@, "plugin"@)
            &&& line.message@ == str_or(event.data@, "message"@, ""@)
        },
{
    if !same(event.topic.as_str(), "plugin.log") {
        return None;
    }
    let name = text_or(&event.data, "level", "info");
    let level = if same(name.as_str(), "warn") {
        HostLogLevel::Warn
    } else if same(name.as_str(), "error") {
        HostLogLevel::Error
    } else {
        HostLogLevel::Info
    };
    Some(
        PluginLogLine {
            level,
            plugin: text_or(&event.data, "plugin", "plugin"),
            message: text_or(&event.data, "message", ""),
        },
    )
}

} // verus!
