//! The logic of BN Agent: a chat agent with plugins, tools, a stored history, token budgets and
//! goal-driven loops.
//!
//! What talks to the world (HTTP, SQLite, shared libraries, clocks, actors) stands outside. It hands
//! plain values in and takes plain values back: each conversation, loop, retry or stream is a state
//! machine that is told what happened and says what to do next.

pub mod active;
pub mod agent_loop;
pub mod agent_runner;
pub mod bus;
pub mod chat;
pub mod chat_store;
pub mod claude;
pub mod core_agent;
pub mod core_llm;
pub mod effect;
pub mod event;
pub mod host;
pub mod ids;
pub mod inbound;
pub mod json;
pub mod json_record;
pub mod laws;
pub mod llm_chat;
pub mod llm_config;
pub mod llm_reply;
pub mod llm_stream;
pub mod llm_text;
pub mod loop_table;
pub mod metrics;
pub mod numbers;
pub mod order;
pub mod peer;
pub mod pipeline;
pub mod plugins;
pub mod rate;
pub mod retry;
pub mod router;
pub mod server;
pub mod session_text;
pub mod string_map;
pub mod text;
pub mod text_stream;
pub mod tool;
pub mod tool_exec;
pub mod usage;
