//! How the run of a tool ends.

use crate::numbers::{decimal, opt_str, push_decimal, setting, setting_u64};
use crate::tool::{ToolResult, ToolResultView};
use vstd::prelude::*;

verus! {

broadcast use vstd::string::group_string_axioms;

/// How long a tool may run, in seconds; zero is no limit.
pub fn tool_timeout_secs(value: Option<&str>) -> (r: u64)
    ensures
        r == setting(opt_str(value), u64::MAX as nat, 180),
{
    setting_u64(value, 180)
}

/// The limit on how long a tool may run, none where it may take as long as it likes.
pub fn time_limit(secs: u64) -> (r: Option<u64>)
    ensures
        r == if secs == 0 {
            None
        } else {
            Some(secs)
        },
{
    if secs == 0 {
        None
    } else {
        Some(secs)
    }
}

/// How the run of a tool ended.
pub enum ToolRun {
    /// With an answer.
    Answered(ToolResult),
    /// In a panic.
    Panicked,
    /// It did not end in time.
    TimedOut,
}

/// What is answered for a tool whose run ended so.
pub open spec fn run_answer(run: ToolRun, tool_name: Seq<char>, timeout_secs: u64) -> ToolResultView {
    match run {
        ToolRun::Answered(r) => r@,
        ToolRun::Panicked => ToolResultView::err("tool '"@ + tool_name + "' panicked"@),
        ToolRun::TimedOut => ToolResultView::err(
            "tool '"@ + tool_name + "' timed out after "@ + decimal(timeout_secs as nat) + "s"@,
        ),
    }
}

/// What is answered for a tool whose run ended so.
pub fn finish_tool_run(run: ToolRun, tool_name: &str, timeout_secs: u64) -> (r: ToolResult)
    ensures
        r@ == run_answer(run, tool_name@, timeout_secs),
{
    match run {
        ToolRun::Answered(r) => r,
        ToolRun::Panicked => {
            let mut e = "tool '".to_owned();
            e.append(tool_name);
            e.append("' panicked");
            ToolResult::err(e.as_str())
        },
        ToolRun::TimedOut => {
            let mut e = "tool '".to_owned();
            e.append(tool_name);
            e.append("' timed out after ");
            push_decimal(&mut e, timeout_secs);
            e.append("s");
            ToolResult::err(e.as_str())
        },
    }
}

} // verus!
