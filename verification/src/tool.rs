//! Tools: what the model may call, what a call gives back, and the registry of them.

use crate::json::{Json, JsonView};
use crate::text::same;
use std::sync::Arc;
use vstd::prelude::*;

verus! {

broadcast use vstd::string::group_string_axioms;

/// A tool as it is described to the model.
#[derive(Debug, PartialEq)]
pub struct ToolDef {
    pub name: String,
    pub description: String,
    /// JSON Schema of the tool's parameters.
    pub parameters: Json,
    /// Internal tools are hidden from the model and callable by other plugins only.
    pub internal: bool,
}

/// The model of a [`ToolDef`].
pub ghost struct ToolDefView {
    pub name: Seq<char>,
    pub description: Seq<char>,
    pub parameters: JsonView,
    pub internal: bool,
}

impl View for ToolDef {
    type V = ToolDefView;

    open spec fn view(&self) -> ToolDefView {
        ToolDefView {
            name: self.name@,
            description: self.description@,
            parameters: self.parameters@,
            internal: self.internal,
        }
    }
}

impl Clone for ToolDef {
    fn clone(&self) -> (r: Self)
        ensures
            r@ == self@,
    {
        ToolDef {
            name: self.name.clone(),
            description: self.description.clone(),
            parameters: self.parameters.clone(),
            internal: self.internal,
        }
    }
}

/// The models of a list of definitions.
pub open spec fn def_views(v: Seq<ToolDef>) -> Seq<ToolDefView> {
    v.map_values(|d: ToolDef| d@)
}

/// A call of a tool that the model asks for.
#[derive(Debug, PartialEq)]
pub struct ToolCall {
    pub id: String,
    pub name: String,
    pub arguments: Json,
}

/// The model of a [`ToolCall`].
pub ghost struct ToolCallView {
    pub id: Seq<char>,
    pub name: Seq<char>,
    pub arguments: JsonView,
}

impl View for ToolCall {
    type V = ToolCallView;

    open spec fn view(&self) -> ToolCallView {
        ToolCallView { id: self.id@, name: self.name@, arguments: self.arguments@ }
    }
}

impl Clone for ToolCall {
    fn clone(&self) -> (r: Self)
        ensures
            r@ == self@,
    {
        ToolCall {
            id: self.id.clone(),
            name: self.name.clone(),
            arguments: self.arguments.clone(),
        }
    }
}

/// The models of a list of calls.
pub open spec fn call_views(v: Seq<ToolCall>) -> Seq<ToolCallView> {
    v.map_values(|c: ToolCall| c@)
}

/// Copies a list of calls.
pub fn clone_calls(v: &Vec<ToolCall>) -> (r: Vec<ToolCall>)
    ensures
        call_views(r@) == call_views(v@),
{
    let r = v.clone();
    assert(call_views(r@) =~= call_views(v@));
    r
}

/// What a tool gave back.
#[derive(Debug, PartialEq)]
pub struct ToolResult {
    pub success: bool,
    pub content: String,
    pub error: Option<String>,
    /// Structured data for the host; it is not sent to the model.
    pub metadata: Option<Json>,
}

/// The model of a [`ToolResult`].
pub ghost struct ToolResultView {
    pub success: bool,
    pub content: Seq<char>,
    pub error: Option<Seq<char>>,
    pub metadata: Option<JsonView>,
}

/// The view of an optional string.
pub open spec fn opt_text(o: Option<String>) -> Option<Seq<char>> {
    match o {
        Some(s) => Some(s@),
        None => None,
    }
}

/// The view of an optional JSON value.
pub open spec fn opt_json(o: Option<Json>) -> Option<JsonView> {
    match o {
        Some(j) => Some(j@),
        None => None,
    }
}

impl View for ToolResult {
    type V = ToolResultView;

    open spec fn view(&self) -> ToolResultView {
        ToolResultView {
            success: self.success,
            content: self.content@,
            error: opt_text(self.error),
            metadata: opt_json(self.metadata),
        }
    }
}

impl ToolResultView {
    /// A success with the given text.
    pub open spec fn ok(content: Seq<char>) -> ToolResultView {
        ToolResultView { success: true, content, error: None, metadata: None }
    }

    /// A failure with the given reason.
    pub open spec fn err(reason: Seq<char>) -> ToolResultView {
        ToolResultView {
            success: false,
            content: Seq::empty(),
            error: Some(reason),
            metadata: None,
        }
    }
}

impl ToolResult {
    /// A success with the given text.
    pub fn ok(content: &str) -> (r: Self)
        ensures
            r@ == ToolResultView::ok(content@),
    {
        ToolResult { success: true, content: content.to_owned(), error: None, metadata: None }
    }

    /// A success with the given text and data for the host.
    pub fn ok_with_metadata(content: &str, metadata: Json) -> (r: Self)
        ensures
            r@ == (ToolResultView { metadata: Some(metadata@), ..ToolResultView::ok(content@) }),
    {
        ToolResult {
            success: true,
            content: content.to_owned(),
            error: None,
            metadata: Some(metadata),
        }
    }

    /// A failure with the given reason.
    pub fn err(msg: &str) -> (r: Self)
        ensures
            r@ == ToolResultView::err(msg@),
    {
        ToolResult {
            success: false,
            content: String::new(),
            error: Some(msg.to_owned()),
            metadata: None,
        }
    }
}

/// What every tool implements.
pub trait ToolExecutor: Send + Sync {
    /// The model of the definition that the tool keeps for its whole life.
    closed spec fn definition(&self) -> ToolDefView {
        arbitrary()
    }

    /// The tool's definition.
    fn def(&self) -> (r: &ToolDef)
        ensures
            r@ == self.definition(),
    ;

    /// What the tool may answer to the given arguments.
    closed spec fn may_answer(&self, args: JsonView, answer: ToolResultView) -> bool {
        true
    }

    /// Runs the tool.
    fn execute(&self, args: &Json) -> (r: ToolResult)
        ensures
            self.may_answer(args@, r@),
    ;
}

/// The tools that are registered, by name. A name stands for one tool at a time.
pub struct ToolRegistry {
    executors: Vec<Arc<dyn ToolExecutor>>,
}

/// Whether no two tools of the list have the same name.
pub open spec fn distinct_names(tools: Seq<Arc<dyn ToolExecutor>>) -> bool {
    forall|i: int, j: int|
        #![trigger tools[i], tools[j]]
        0 <= i < j < tools.len() ==> tools[i].definition().name != tools[j].definition().name
}

/// Whether a tool of the list has the name.
pub open spec fn has_name(tools: Seq<Arc<dyn ToolExecutor>>, name: Seq<char>) -> bool {
    exists|i: int| 0 <= i < tools.len() && (#[trigger] tools[i]).definition().name == name
}

impl View for ToolRegistry {
    type V = Map<Seq<char>, Arc<dyn ToolExecutor>>;

    closed spec fn view(&self) -> Map<Seq<char>, Arc<dyn ToolExecutor>> {
        tool_map(self.executors@)
    }
}

/// The tools of a list by their names.
pub open spec fn tool_map(tools: Seq<Arc<dyn ToolExecutor>>) -> Map<
    Seq<char>,
    Arc<dyn ToolExecutor>,
> {
    Map::new(
        |name: Seq<char>| has_name(tools, name),
        |name: Seq<char>|
            tools[choose|i: int|
                0 <= i < tools.len() && (#[trigger] tools[i]).definition().name == name],
    )
}

proof fn lemma_tool_at(tools: Seq<Arc<dyn ToolExecutor>>, i: int)
    requires
        distinct_names(tools),
        0 <= i < tools.len(),
    ensures
        tool_map(tools).dom().contains(tools[i].definition().name),
        tool_map(tools)[tools[i].definition().name] == tools[i],
{
    let name = tools[i].definition().name;
    assert(has_name(tools, name));
    let k = choose|k: int|
        0 <= k < tools.len() && (#[trigger] tools[k]).definition().name == name;
    assert(k == i);
}

/// The names of the tools that the model may call: those that are not internal.
pub open spec fn callable(registry: Map<Seq<char>, Arc<dyn ToolExecutor>>) -> Set<Seq<char>> {
    registry.dom().filter(|name: Seq<char>| !registry[name].definition().internal)
}

impl ToolRegistry {
    #[verifier::type_invariant]
    spec fn inv(self) -> bool {
        distinct_names(self.executors@)
    }

    /// A registry without tools.
    pub fn new() -> (r: Self)
        ensures
            r@ == Map::<Seq<char>, Arc<dyn ToolExecutor>>::empty(),
    {
        let r = ToolRegistry { executors: Vec::new() };
        assert(r@ =~= Map::empty());
        r
    }

    /// A tool stands under the name of its definition.
    pub proof fn lemma_names(&self, name: Seq<char>)
        requires
            self@.dom().contains(name),
        ensures
            self@[name].definition().name == name,
    {
        let tools = self.executors@;
        let k = choose|k: int|
            0 <= k < tools.len() && (#[trigger] tools[k]).definition().name == name;
        assert(tools[k].definition().name == name);
    }

    fn position(&self, name: &str) -> (r: Option<usize>)
        ensures
            match r {
                Some(i) => i < self.executors@.len() && self.executors@[i as int].definition().name
                    == name@,
                None => !has_name(self.executors@, name@),
            },
    {
        let mut i: usize = 0;
        while i < self.executors.len()
            invariant
                i <= self.executors@.len(),
                forall|k: int|
                    0 <= k < i ==> (#[trigger] self.executors@[k]).definition().name != name@,
            decreases self.executors@.len() - i,
        {
            let def = self.executors[i].def();
            if same(def.name.as_str(), name) {
                return Some(i);
            }
            i = i + 1;
        }
        None
    }

    /// Registers a tool under the name of its definition, in place of the one that had that name.
    pub fn register(&mut self, executor: Arc<dyn ToolExecutor>)
        ensures
            final(self)@ == keep(executor, executor.definition().name, old(self)@),
    {
        proof {
            use_type_invariant(&*self);
        }
        let ghost before = self.executors@;
        let name = executor.def().name.clone();
        let found = self.position(name.as_str());
        let mut executors: Vec<Arc<dyn ToolExecutor>> = Vec::new();
        std::mem::swap(&mut executors, &mut self.executors);
        match found {
            Some(i) => {
                put_at(executor, i, &mut executors);
            },
            None => {
                put_last(executor, &mut executors);
            },
        }
        proof {
            let after = executors@;
            assert(distinct_names(after));
            let new_map = keep(executor, executor.definition().name, tool_map(before));
            let at: int = match found {
                Some(i) => i as int,
                None => before.len() as int,
            };
            assert(after[at] == executor);
            assert forall|n: Seq<char>| tool_map(after).dom().contains(n) == new_map.dom().contains(
                n,
            ) by {
                if has_name(after, n) {
                    let k = choose|k: int|
                        0 <= k < after.len() && (#[trigger] after[k]).definition().name == n;
                    if k != at {
                        assert(before[k] == after[k]);
                        assert(has_name(before, n));
                    }
                }
                if has_name(before, n) {
                    let k = choose|k: int|
                        0 <= k < before.len() && (#[trigger] before[k]).definition().name == n;
                    if k != at {
                        assert(after[k] == before[k]);
                    }
                }
            }
            assert forall|n: Seq<char>| tool_map(after).dom().contains(n) implies #[trigger] tool_map(
                after,
            )[n] == new_map[n] by {
                let k = choose|k: int|
                    0 <= k < after.len() && (#[trigger] after[k]).definition().name == n;
                lemma_tool_at(after, k);
                if k != at {
                    assert(before[k] == after[k]);
                    lemma_tool_at(before, k);
                }
            }
            assert(tool_map(after) =~= new_map);
        }
        self.executors = executors;
    }

    /// The definitions of all tools, each once, internal ones included. No clause fixes their
    /// order.
    pub fn all_defs(&self) -> (r: Vec<ToolDef>)
        ensures
            forall|i: int|
                0 <= i < r@.len() ==> self@.dom().contains((#[trigger] r@[i]).name@)
                    && self@[r@[i].name@].definition() == r@[i]@,
            forall|name: Seq<char>| #[trigger]
                self@.dom().contains(name) ==> exists|i: int|
                    0 <= i < r@.len() && (#[trigger] r@[i])@ == self@[name].definition(),
            forall|i: int, j: int|
                #![trigger r@[i], r@[j]]
                0 <= i < j < r@.len() ==> r@[i].name@ != r@[j].name@,
    {
        proof {
            use_type_invariant(self);
        }
        let mut out: Vec<ToolDef> = Vec::new();
        let mut i: usize = 0;
        while i < self.executors.len()
            invariant
                i <= self.executors@.len(),
                out@.len() == i,
                forall|k: int|
                    0 <= k < i ==> (#[trigger] out@[k])@ == self.executors@[k].definition(),
            decreases self.executors@.len() - i,
        {
            out.push(self.executors[i].def().clone());
            i = i + 1;
        }
        proof {
            let tools = self.executors@;
            assert forall|i: int| 0 <= i < out@.len() implies self@.dom().contains(
                (#[trigger] out@[i]).name@,
            ) && self@[out@[i].name@].definition() == out@[i]@ by {
                lemma_tool_at(tools, i);
                assert(out@[i]@.name == tools[i].definition().name);
            }
            assert forall|name: Seq<char>| #[trigger]
                self@.dom().contains(name) implies exists|i: int|
                0 <= i < out@.len() && (#[trigger] out@[i])@ == self@[name].definition() by {
                let k = choose|k: int|
                    0 <= k < tools.len() && (#[trigger] tools[k]).definition().name == name;
                lemma_tool_at(tools, k);
                assert(out@[k]@ == tools[k].definition());
            }
            assert forall|i: int, j: int|
                #![trigger out@[i], out@[j]]
                0 <= i < j < out@.len() implies out@[i].name@ != out@[j].name@ by {
                assert(out@[i]@.name == tools[i].definition().name);
                assert(out@[j]@.name == tools[j].definition().name);
            }
        }
        out
    }

    /// The tool with the name.
    pub fn get_executor(&self, name: &str) -> (r: Option<Arc<dyn ToolExecutor>>)
        ensures
            match r {
                Some(e) => self@.dom().contains(name@) && e == self@[name@],
                None => !self@.dom().contains(name@),
            },
    {
        proof {
            use_type_invariant(self);
        }
        match self.position(name) {
            Some(i) => {
                proof {
                    lemma_tool_at(self.executors@, i as int);
                }
                let e = self.executors[i].clone();
                let found = Some(e);
                found
            },
            None => None,
        }
    }

    /// The tool with the name, where the model may call it: internal tools are for plugins alone.
    pub fn get_callable(&self, name: &str) -> (r: Option<Arc<dyn ToolExecutor>>)
        ensures
            match r {
                Some(e) => callable(self@).contains(name@) && e == self@[name@],
                None => !callable(self@).contains(name@),
            },
    {
        match self.get_executor(name) {
            Some(e) => {
                let internal = e.def().internal;
                if internal {
                    None
                } else {
                    let found = Some(e);
                    found
                }
            },
            None => None,
        }
    }

    /// Runs the tool with the name. None where no tool has it.
    pub fn execute(&self, name: &str, args: &Json) -> (r: Option<ToolResult>)
        ensures
            r is Some == self@.dom().contains(name@),
            r matches Some(out) ==> self@[name@].may_answer(args@, out@),
    {
        match self.get_executor(name) {
            Some(e) => Some(e.execute(args)),
            None => None,
        }
    }

    /// Takes out the tool with the name, where there is one.
    pub fn unregister(&mut self, name: &str)
        ensures
            final(self)@ == old(self)@.remove(name@),
    {
        proof {
            use_type_invariant(&*self);
        }
        let ghost before = self.executors@;
        let found = self.position(name);
        let mut executors: Vec<Arc<dyn ToolExecutor>> = Vec::new();
        std::mem::swap(&mut executors, &mut self.executors);
        match found {
            Some(i) => {
                executors.remove(i);
            },
            None => {},
        }
        proof {
            let after = executors@;
            let gone: int = match found {
                Some(i) => i as int,
                None => before.len() as int,
            };
            assert forall|k: int| 0 <= k < after.len() implies #[trigger] after[k] == before[if k
                < gone {
                k
            } else {
                k + 1
            }] by {}
            assert(distinct_names(after));
            let new_map = tool_map(before).remove(name@);
            assert forall|n: Seq<char>| tool_map(after).dom().contains(n) == new_map.dom().contains(
                n,
            ) by {
                if has_name(after, n) {
                    let k = choose|k: int|
                        0 <= k < after.len() && (#[trigger] after[k]).definition().name == n;
                    let b = if k < gone {
                        k
                    } else {
                        k + 1
                    };
                    assert(before[b].definition().name == n);
                    if gone < before.len() {
                        assert(before[gone].definition().name == name@);
                    }
                }
                if has_name(before, n) && n != name@ {
                    let k = choose|k: int|
                        0 <= k < before.len() && (#[trigger] before[k]).definition().name == n;
                    let a = if k < gone {
                        k
                    } else {
                        k - 1
                    };
                    assert(after[a].definition().name == n);
                }
            }
            assert forall|n: Seq<char>| tool_map(after).dom().contains(n) implies #[trigger] tool_map(
                after,
            )[n] == new_map[n] by {
                let k = choose|k: int|
                    0 <= k < after.len() && (#[trigger] after[k]).definition().name == n;
                lemma_tool_at(after, k);
                let b = if k < gone {
                    k
                } else {
                    k + 1
                };
                assert(before[b] == after[k]);
                lemma_tool_at(before, b);
            }
            assert(tool_map(after) =~= new_map);
        }
        self.executors = executors;
    }

    /// Takes out all tools.
    pub fn clear(&mut self)
        ensures
            final(self)@ == Map::<Seq<char>, Arc<dyn ToolExecutor>>::empty(),
    {
        self.executors = Vec::new();
        assert(self@ =~= Map::empty());
    }

    /// Tells whether no tool is registered.
    pub fn is_empty(&self) -> (r: bool)
        ensures
            r == (self@ == Map::<Seq<char>, Arc<dyn ToolExecutor>>::empty()),
    {
        let r = self.executors.len() == 0;
        proof {
            if r {
                assert(self@ =~= Map::empty());
            } else {
                assert(has_name(self.executors@, self.executors@[0].definition().name));
                assert(self@.dom().contains(self.executors@[0].definition().name));
            }
        }
        r
    }
}

fn put_at<T>(value: T, i: usize, list: &mut Vec<T>)
    requires
        i < old(list)@.len(),
    ensures
        final(list)@ == old(list)@.update(i as int, value),
{
    list.set(i, value);
}

fn put_last<T>(value: T, list: &mut Vec<T>)
    ensures
        final(list)@ == old(list)@.push(value),
{
    list.push(value);
}

/// The map with `value` under `key`.
pub open spec fn keep<T>(value: T, key: Seq<char>, map: Map<Seq<char>, T>) -> Map<Seq<char>, T> {
    map.insert(key, value)
}

/// A registered tool is found under its name until it is unregistered; other names are untouched.
pub proof fn register_get_unregister(
    registry: Map<Seq<char>, Arc<dyn ToolExecutor>>,
    tool: Arc<dyn ToolExecutor>,
    other: Seq<char>,
)
    requires
        other != tool.definition().name,
    ensures
        keep(tool, tool.definition().name, registry)[tool.definition().name] == tool,
        keep(tool, tool.definition().name, registry).dom().contains(other)
            == registry.dom().contains(other),
        !keep(tool, tool.definition().name, registry).remove(
            tool.definition().name,
        ).dom().contains(tool.definition().name),
        keep(tool, tool.definition().name, registry).remove(
            tool.definition().name,
        ).dom().contains(other) == registry.dom().contains(other),
{
}

} // verus!
