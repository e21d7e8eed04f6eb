//! What a host hands to its plugins, and what it knows of them.

use crate::event::AgentEvent;
use crate::tool::ToolRegistry;
use std::sync::Arc;
use vstd::prelude::*;

verus! {

broadcast use vstd::string::group_string_axioms;

/// How much a line of the log matters.
#[derive(Debug, Clone, Copy, PartialEq, Eq, Structural)]
pub enum LogLevel {
    Error,
    Warn,
    Info,
    Debug,
    Trace,
}

/// Takes lines of the log. The host implements it, plugins call it.
pub trait LogCallback: Send + Sync {
    /// Takes a line.
    fn log(&self, level: LogLevel, target: &str, message: &str);
}

/// Takes events. The host implements it, plugins call it.
pub trait EventEmitter: Send + Sync {
    /// Takes an event.
    fn emit(&self, event: AgentEvent);
}

/// `std::sync::Mutex`: carried, never looked into.
#[verifier::external_type_specification]
#[verifier::external_body]
#[verifier::reject_recursive_types(T)]
pub struct ExMutex<T: ?Sized>(std::sync::Mutex<T>);

/// What a host hands to a plugin.
#[derive(Clone)]
pub struct HostContext {
    pub host_name: String,
    pub host_version: String,
    pub plugin_dir: String,
    pub emitter: Option<Arc<dyn EventEmitter>>,
    pub logger: Option<Arc<dyn LogCallback>>,
    pub tool_registry: Option<Arc<std::sync::Mutex<ToolRegistry>>>,
}

impl HostContext {
    /// A context without an emitter, a logger or tools.
    pub fn new(host_name: &str, host_version: &str, plugin_dir: &str) -> (r: Self)
        ensures
            r.host_name@ == host_name@,
            r.host_version@ == host_version@,
            r.plugin_dir@ == plugin_dir@,
            r.emitter is None,
            r.logger is None,
            r.tool_registry is None,
    {
        HostContext {
            host_name: host_name.to_owned(),
            host_version: host_version.to_owned(),
            plugin_dir: plugin_dir.to_owned(),
            emitter: None,
            logger: None,
            tool_registry: None,
        }
    }

    /// The context with the emitter.
    pub fn with_emitter(self, e: Arc<dyn EventEmitter>) -> (r: Self)
        ensures
            r.emitter is Some,
            r.emitter->0 == e,
            r.host_name == self.host_name,
            r.host_version == self.host_version,
            r.plugin_dir == self.plugin_dir,
            r.logger == self.logger,
            r.tool_registry == self.tool_registry,
    {
        let mut s = self;
        let o = Some(e);
        s.emitter = o;
        s
    }

    /// The context with the logger.
    pub fn with_logger(self, l: Arc<dyn LogCallback>) -> (r: Self)
        ensures
            r.logger is Some,
            r.logger->0 == l,
            r.host_name == self.host_name,
            r.host_version == self.host_version,
            r.plugin_dir == self.plugin_dir,
            r.emitter == self.emitter,
            r.tool_registry == self.tool_registry,
    {
        let mut s = self;
        let o = Some(l);
        s.logger = o;
        s
    }

    /// The context with the tools.
    pub fn with_tool_registry(self, r: Arc<std::sync::Mutex<ToolRegistry>>) -> (c: Self)
        ensures
            c == (HostContext { tool_registry: Some(r), ..self }),
    {
        let mut s = self;
        s.tool_registry = Some(r);
        s
    }

    /// Hands a line of level `Info` to the logger, if there is one.
    pub fn log_info(&self, target: &str, msg: &str) {
        if let Some(ref l) = self.logger {
            l.log(LogLevel::Info, target, msg);
        }
    }

    /// Hands a line of level `Warn` to the logger, if there is one.
    pub fn log_warn(&self, target: &str, msg: &str) {
        if let Some(ref l) = self.logger {
            l.log(LogLevel::Warn, target, msg);
        }
    }

    /// Hands a line of level `Debug` to the logger, if there is one.
    pub fn log_debug(&self, target: &str, msg: &str) {
        if let Some(ref l) = self.logger {
            l.log(LogLevel::Debug, target, msg);
        }
    }
}

/// What a plugin says of itself.
#[derive(Debug)]
pub struct PluginMeta {
    pub name: String,
    pub version: String,
    pub description: String,
    pub author: String,
    /// The lowest version of the host that the plugin works with.
    pub min_host_version: String,
}

/// What a plugin says of itself.
pub type PluginInfo = PluginMeta;

/// The model of a [`PluginMeta`].
pub ghost struct PluginMetaView {
    pub name: Seq<char>,
    pub version: Seq<char>,
    pub description: Seq<char>,
    pub author: Seq<char>,
    pub min_host_version: Seq<char>,
}

impl View for PluginMeta {
    type V = PluginMetaView;

    open spec fn view(&self) -> PluginMetaView {
        PluginMetaView {
            name: self.name@,
            version: self.version@,
            description: self.description@,
            author: self.author@,
            min_host_version: self.min_host_version@,
        }
    }
}

impl Clone for PluginMeta {
    fn clone(&self) -> (r: Self)
        ensures
            r@ == self@,
    {
        PluginMeta {
            name: self.name.clone(),
            version: self.version.clone(),
            description: self.description.clone(),
            author: self.author.clone(),
            min_host_version: self.min_host_version.clone(),
        }
    }
}

/// What can go wrong with a plugin.
#[derive(Debug)]
pub enum PluginError {
    LoadError(String),
    InitError(String),
    NotFound(String),
    AlreadyLoaded(String),
    VersionMismatch(String),
    /// What the system says of a file.
    Io(String),
}

/// What the error says, in English.
pub open spec fn error_text(e: PluginError) -> Seq<char> {
    match e {
        PluginError::LoadError(s) => "load failed: "@ + s@,
        PluginError::InitError(s) => "init failed: "@ + s@,
        PluginError::NotFound(s) => "not found: "@ + s@,
        PluginError::AlreadyLoaded(s) => "already loaded: "@ + s@,
        PluginError::VersionMismatch(s) => "version mismatch: "@ + s@,
        PluginError::Io(s) => "IO error: "@ + s@,
    }
}

/// What the error says, in Chinese.
pub open spec fn error_text_zh(e: PluginError) -> Seq<char> {
    match e {
        PluginError::LoadError(s) => "加载失败: "@ + s@,
        PluginError::InitError(s) => "初始化失败: "@ + s@,
        PluginError::NotFound(s) => "未找到: "@ + s@,
        PluginError::AlreadyLoaded(s) => "已加载: "@ + s@,
        PluginError::VersionMismatch(s) => "版本不匹配: "@ + s@,
        PluginError::Io(s) => "IO 错误: "@ + s@,
    }
}

fn with_lead(lead: &str, s: &String) -> (r: String)
    ensures
        r@ == lead@ + s@,
{
    let mut out = lead.to_owned();
    out.append(s.as_str());
    out
}

impl PluginError {
    /// What the error says, in English.
    pub fn message(&self) -> (r: String)
        ensures
            r@ == error_text(*self),
    {
        match self {
            PluginError::LoadError(s) => with_lead("load failed: ", s),
            PluginError::InitError(s) => with_lead("init failed: ", s),
            PluginError::NotFound(s) => with_lead("not found: ", s),
            PluginError::AlreadyLoaded(s) => with_lead("already loaded: ", s),
            PluginError::VersionMismatch(s) => with_lead("version mismatch: ", s),
            PluginError::Io(s) => with_lead("IO error: ", s),
        }
    }

    /// What the error says, in Chinese.
    pub fn message_zh(&self) -> (r: String)
        ensures
            r@ == error_text_zh(*self),
    {
        match self {
            PluginError::LoadError(s) => with_lead("加载失败: ", s),
            PluginError::InitError(s) => with_lead("初始化失败: ", s),
            PluginError::NotFound(s) => with_lead("未找到: ", s),
            PluginError::AlreadyLoaded(s) => with_lead("已加载: ", s),
            PluginError::VersionMismatch(s) => with_lead("版本不匹配: ", s),
            PluginError::Io(s) => with_lead("IO 错误: ", s),
        }
    }
}

} // verus!
