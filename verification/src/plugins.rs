//! The plugins: which files are loaded, what is known of a loaded plugin, and the tools that load,
//! unload and reload one.

use crate::agent_loop::is_listed;
use crate::host::{PluginInfo, PluginMetaView};
use crate::json::{json_views, Json, JsonView};
use crate::string_map::StringMap;
use crate::text::{chars_of, ends_with, same, views};
use crate::tool::{ToolDef, ToolDefView, ToolExecutor, ToolRegistry, ToolResult, ToolResultView};
use std::sync::Arc;
use vstd::prelude::*;

verus! {

broadcast use vstd::string::group_string_axioms;

/// Whether a file with the extension is a library.
pub open spec fn is_library(ext: Seq<char>) -> bool {
    ext == "dll"@ || ext == "so"@ || ext == "dylib"@
}

/// Tells whether a file with the extension is a library.
pub fn is_library_ext(ext: &str) -> (r: bool)
    ensures
        r == is_library(ext@),
{
    same(ext, "dll") || same(ext, "so") || same(ext, "dylib")
}

/// `s` with `-` in place of each `_`.
pub open spec fn dashed(s: Seq<char>) -> Seq<char> {
    s.map_values(
        |c: char|
            if c == '_' {
                '-'
            } else {
                c
            },
    )
}

/// `s` without `suffix` at its end.
pub open spec fn without_suffix(s: Seq<char>, suffix: Seq<char>) -> Seq<char> {
    if suffix.is_suffix_of(s) {
        s.take(s.len() - suffix.len())
    } else {
        s
    }
}

/// The name of the plugin in a file: the file's name without `_plugin`, with `-` for each `_`, and
/// `-plugin` at its end.
pub open spec fn named_after(stem: Seq<char>) -> Seq<char> {
    let base = dashed(without_suffix(stem, "_plugin"@));
    if "-plugin"@.is_suffix_of(base) {
        base
    } else {
        base + "-plugin"@
    }
}

/// The name of the plugin in a file whose name, without the extension, is `stem`.
pub fn plugin_name(stem: &str) -> (r: String)
    ensures
        r@ == named_after(stem@),
{
    let chars = chars_of(stem);
    let mut n: usize = chars.len();
    if ends_with(stem, "_plugin") {
        let suffix = chars_of("_plugin");
        n = chars.len() - suffix.len();
    }
    let ghost part = without_suffix(stem@, "_plugin"@);
    assert(chars@.take(n as int) =~= part);
    let mut base = String::new();
    let mut i: usize = 0;
    while i < n
        invariant
            i <= n <= chars@.len(),
            part == chars@.take(n as int),
            base@ == dashed(part).take(i as int),
        decreases n - i,
    {
        let c = if chars[i] == '_' {
            '-'
        } else {
            chars[i]
        };
        base.push(c);
        i = i + 1;
        assert(base@ =~= dashed(part).take(i as int));
    }
    assert(dashed(part).take(n as int) =~= dashed(part));
    if !ends_with(base.as_str(), "-plugin") {
        base.append("-plugin");
    }
    base
}

/// Whether a plugin is loaded: it is not among those to skip, and, where some are asked for, it is
/// among them.
pub open spec fn wanted(name: Seq<char>, skip: Seq<Seq<char>>, only: Seq<Seq<char>>) -> bool {
    !skip.contains(name) && (only.len() == 0 || only.contains(name))
}

/// Tells whether the plugin in a file is loaded. `stem` is none where the file has no name that is
/// text; its plugin has an empty name.
pub fn should_load(ext: &str, stem: Option<&str>, skip: &Vec<String>, only: &Vec<String>) -> (r:
    bool)
    ensures
        r == (is_library(ext@) && wanted(
            match stem {
                Some(s) => named_after(s@),
                None => Seq::empty(),
            },
            views(skip@),
            views(only@),
        )),
{
    if !is_library_ext(ext) {
        return false;
    }
    let name = match stem {
        Some(s) => plugin_name(s),
        None => String::new(),
    };
    assert(name@ =~= match stem {
        Some(s) => named_after(s@),
        None => Seq::empty(),
    });
    if is_listed(name.as_str(), skip.as_slice()) {
        return false;
    }
    only.len() == 0 || is_listed(name.as_str(), only.as_slice())
}

/// Whether `names` are all names of `set`, each once.
pub open spec fn lists(names: Seq<Seq<char>>, set: Set<Seq<char>>) -> bool {
    names.no_duplicates() && forall|n: Seq<char>| set.contains(n) == #[trigger] names.contains(n)
}

/// The names of all tools in a registry.
pub fn registered_names(registry: &ToolRegistry) -> (r: Vec<String>)
    ensures
        lists(views(r@), registry@.dom()),
{
    let none: Vec<String> = Vec::new();
    let r = new_tool_names(registry, &none);
    proof {
        assert forall|n: Seq<char>| registry@.dom().contains(n) == #[trigger] views(r@).contains(
            n,
        ) by {
            assert(!views(none@).contains(n));
            assert(registry@.dom().difference(views(none@).to_set()).contains(n)
                == registry@.dom().contains(n));
        }
    }
    r
}

/// The names of the tools in a registry that are not in `before`.
pub fn new_tool_names(registry: &ToolRegistry, before: &Vec<String>) -> (r: Vec<String>)
    ensures
        lists(views(r@), registry@.dom().difference(views(before@).to_set())),
{
    let defs = registry.all_defs();
    let ghost old_names = views(before@);
    let mut out: Vec<String> = Vec::new();
    let mut i: usize = 0;
    assert(views(out@) =~= Seq::empty());
    while i < defs.len()
        invariant
            i <= defs@.len(),
            old_names == views(before@),
            forall|a: int, b: int|
                #![trigger defs@[a], defs@[b]]
                0 <= a < b < defs@.len() ==> defs@[a].name@ != defs@[b].name@,
            views(out@).no_duplicates(),
            forall|n: Seq<char>| #[trigger]
                views(out@).contains(n) == (!old_names.contains(n) && exists|k: int|
                    0 <= k < i && (#[trigger] defs@[k]).name@ == n),
        decreases defs@.len() - i,
    {
        let ghost was = out@;
        let ghost name = defs@[i as int].name@;
        if !is_listed(defs[i].name.as_str(), before.as_slice()) {
            let copy = defs[i].name.clone();
            out.push(copy);
            proof {
                let now = views(was).push(name);
                assert(views(out@) =~= now);
                assert(!views(was).contains(name)) by {
                    if views(was).contains(name) {
                        let k = choose|k: int| 0 <= k < i && (#[trigger] defs@[k]).name@ == name;
                        assert(defs@[k].name@ != defs@[i as int].name@);
                    }
                }
                assert(now[was.len() as int] == name);
                assert forall|n: Seq<char>| #[trigger]
                    views(out@).contains(n) == (!old_names.contains(n) && exists|k: int|
                        0 <= k < i + 1 && (#[trigger] defs@[k]).name@ == n) by {
                    if now.contains(n) {
                        let k = choose|k: int| 0 <= k < now.len() && now[k] == n;
                        if k < was.len() {
                            assert(views(was)[k] == n);
                            assert(views(was).contains(n));
                        } else {
                            assert(defs@[i as int].name@ == n);
                        }
                    }
                    if views(was).contains(n) {
                        let k = choose|k: int| 0 <= k < was.len() && views(was)[k] == n;
                        assert(now[k] == n);
                    }
                }
            }
        } else {
            assert forall|n: Seq<char>| #[trigger]
                views(out@).contains(n) == (!old_names.contains(n) && exists|k: int|
                    0 <= k < i + 1 && (#[trigger] defs@[k]).name@ == n) by {
                if !old_names.contains(n) && exists|k: int|
                    0 <= k < i + 1 && (#[trigger] defs@[k]).name@ == n {
                    let k = choose|k: int| 0 <= k < i + 1 && (#[trigger] defs@[k]).name@ == n;
                    assert(k != i);
                }
            }
        }
        i = i + 1;
    }
    proof {
        let set = registry@.dom().difference(old_names.to_set());
        assert forall|n: Seq<char>| set.contains(n) == #[trigger] views(out@).contains(n) by {
            if registry@.dom().contains(n) {
                let k = choose|k: int|
                    0 <= k < defs@.len() && (#[trigger] defs@[k])@ == registry@[n].definition();
                lemma_tool_has_its_name(registry, n);
                assert(defs@[k]@.name == n);
                assert(defs@[k].name@ == n);
            }
        }
    }
    out
}

proof fn lemma_tool_has_its_name(registry: &ToolRegistry, name: Seq<char>)
    requires
        registry@.dom().contains(name),
    ensures
        registry@[name].definition().name == name,
{
    registry.lemma_names(name);
}

/// Takes the tools with the names out of a registry.
pub fn unregister_tools(registry: &mut ToolRegistry, names: &Vec<String>)
    ensures
        final(registry)@ == old(registry)@.remove_keys(views(names@).to_set()),
{
    let ghost all = views(names@);
    let ghost before = registry@;
    let mut i: usize = 0;
    assert(before =~= before.remove_keys(all.take(0).to_set()));
    while i < names.len()
        invariant
            i <= names@.len(),
            all == views(names@),
            registry@ == before.remove_keys(all.take(i as int).to_set()),
        decreases names@.len() - i,
    {
        registry.unregister(names[i].as_str());
        proof {
            let a = all.take(i as int);
            let b = all.take(i + 1);
            assert(b =~= a.push(all[i as int]));
            assert forall|n: Seq<char>| #[trigger] b.to_set().contains(n) == (a.to_set().contains(n)
                || n == all[i as int]) by {
                if b.contains(n) {
                    let k = choose|k: int| 0 <= k < b.len() && b[k] == n;
                    if k < a.len() {
                        assert(a[k] == n);
                    }
                }
                if a.contains(n) {
                    let k = choose|k: int| 0 <= k < a.len() && a[k] == n;
                    assert(b[k] == n);
                }
                assert(b[i as int] == all[i as int]);
            }
            assert(registry@ =~= before.remove_keys(b.to_set()));
        }
        i = i + 1;
    }
    assert(all.take(all.len() as int) =~= all);
}

/// A plugin that is loaded. `handle` is what the host keeps of it.
pub struct LoadedPlugin<P> {
    pub info: PluginInfo,
    pub path: String,
    /// The tools that came with it.
    pub tool_names: Vec<String>,
    pub handle: P,
}

/// The plugins that are loaded, by name.
pub struct PluginTable<P> {
    plugins: StringMap<LoadedPlugin<P>>,
}

impl<P> View for PluginTable<P> {
    type V = Map<Seq<char>, LoadedPlugin<P>>;

    closed spec fn view(&self) -> Map<Seq<char>, LoadedPlugin<P>> {
        self.plugins@
    }
}

/// What is answered where a plugin is not loaded.
pub open spec fn not_loaded(name: Seq<char>) -> Seq<char> {
    "plugin '"@ + name + "' is not loaded"@
}

fn not_loaded_text(name: &str) -> (r: String)
    ensures
        r@ == not_loaded(name@),
{
    let mut out = "plugin '".to_owned();
    out.append(name);
    out.append("' is not loaded");
    out
}

impl<P> PluginTable<P> {
    /// The names, in the order in which the plugins are walked. No clause fixes it.
    pub closed spec fn order(&self) -> Seq<Seq<char>> {
        self.plugins.keys()
    }

    /// A table without plugins.
    pub fn new() -> (r: Self)
        ensures
            r@ == Map::<Seq<char>, LoadedPlugin<P>>::empty(),
    {
        PluginTable { plugins: StringMap::new() }
    }

    /// How many plugins are loaded.
    pub fn len(&self) -> (r: usize)
        ensures
            r == self.order().len(),
            lists(self.order(), self@.dom()),
    {
        let n = self.plugins.len();
        proof {
            let keys = self.order();
            assert forall|k: Seq<char>| self@.dom().contains(k) == #[trigger] keys.contains(k) by {
                if keys.contains(k) {
                    let i = choose|i: int| 0 <= i < keys.len() && keys[i] == k;
                    assert(self@.dom().contains(keys[i]));
                }
            }
        }
        n
    }

    /// The plugin at place `i` of the walk.
    pub fn at(&self, i: usize) -> (r: &LoadedPlugin<P>)
        requires
            i < self.order().len(),
        ensures
            self@.dom().contains(self.order()[i as int]),
            *r == self@[self.order()[i as int]],
    {
        self.plugins.value_at(i)
    }

    /// The plugin with the name.
    pub fn get(&self, name: &str) -> (r: Option<&LoadedPlugin<P>>)
        ensures
            match r {
                Some(p) => self@.dom().contains(name@) && *p == self@[name@],
                None => !self@.dom().contains(name@),
            },
    {
        self.plugins.get(name)
    }

    /// Adds a plugin under its own name, and returns what it says of itself.
    pub fn insert(&mut self, plugin: LoadedPlugin<P>) -> (r: PluginInfo)
        ensures
            final(self)@ == old(self)@.insert(plugin.info@.name, plugin),
            r@ == plugin.info@,
    {
        let info = plugin.info.clone();
        self.plugins.insert(info.name.as_str(), plugin);
        info
    }

    /// The file that a plugin was loaded from.
    pub fn path_of(&self, name: &str) -> (r: Result<String, String>)
        ensures
            match r {
                Ok(path) => self@.dom().contains(name@) && path@ == self@[name@].path@,
                Err(e) => !self@.dom().contains(name@) && e@ == not_loaded(name@),
            },
    {
        match self.plugins.get(name) {
            Some(p) => Ok(p.path.clone()),
            None => Err(not_loaded_text(name)),
        }
    }

    /// Takes a plugin and the tools that came with it out.
    pub fn unload(&mut self, name: &str, registry: &mut ToolRegistry) -> (r: Result<
        LoadedPlugin<P>,
        String,
    >)
        ensures
            match r {
                Ok(p) => {
                    &&& old(self)@.dom().contains(name@)
                    &&& p == old(self)@[name@]
                    &&& final(self)@ == old(self)@.remove(name@)
                    &&& final(registry)@ == old(registry)@.remove_keys(
                        views(p.tool_names@).to_set(),
                    )
                },
                Err(e) => {
                    &&& !old(self)@.dom().contains(name@)
                    &&& e@ == not_loaded(name@)
                    &&& final(self)@ == old(self)@
                    &&& final(registry)@ == old(registry)@
                },
            },
    {
        let ghost before = self@;
        match self.plugins.remove(name) {
            Some(p) => {
                unregister_tools(registry, &p.tool_names);
                Ok(p)
            },
            None => {
                assert(self@ =~= before);
                Err(not_loaded_text(name))
            },
        }
    }

    /// What the loaded plugins say of themselves, in the order of the walk.
    pub fn list(&self) -> (r: Vec<PluginInfo>)
        ensures
            lists(self.order(), self@.dom()),
            r@.len() == self.order().len(),
            forall|i: int|
                0 <= i < r@.len() ==> (#[trigger] r@[i])@ == self@[self.order()[i]].info@,
    {
        let n = self.len();
        let mut out: Vec<PluginInfo> = Vec::new();
        let mut i: usize = 0;
        while i < n
            invariant
                i <= n,
                n == self.order().len(),
                out@.len() == i,
                forall|k: int|
                    0 <= k < i ==> (#[trigger] out@[k])@ == self@[self.order()[k]].info@,
            decreases n - i,
        {
            out.push(self.at(i).info.clone());
            i = i + 1;
        }
        out
    }
}

/// The texts that are there.
pub open spec fn given(texts: Seq<Option<String>>) -> Seq<Seq<char>>
    decreases texts.len(),
{
    if texts.len() == 0 {
        Seq::empty()
    } else {
        match texts.last() {
            Some(s) => given(texts.drop_last()).push(s@),
            None => given(texts.drop_last()),
        }
    }
}

/// The snapshots of the plugins that have one.
pub fn collect_snapshots(snapshots: Vec<Option<String>>) -> (r: Vec<String>)
    ensures
        views(r@) == given(snapshots@),
{
    let mut out: Vec<String> = Vec::new();
    let mut i: usize = 0;
    assert(views(out@) =~= Seq::empty());
    while i < snapshots.len()
        invariant
            i <= snapshots@.len(),
            views(out@) == given(snapshots@.take(i as int)),
        decreases snapshots@.len() - i,
    {
        let ghost t = snapshots@.take(i + 1);
        assert(t.drop_last() =~= snapshots@.take(i as int));
        match &snapshots[i] {
            Some(s) => {
                let ghost before = out@;
                let copy = s.clone();
                out.push(copy);
                assert(views(before.push(copy)) =~= views(before).push(copy@));
            },
            None => {},
        }
        i = i + 1;
    }
    assert(snapshots@.take(snapshots@.len() as int) =~= snapshots@);
    out
}

/// What a plugin is asked to do.
#[derive(Debug, Clone, Copy, PartialEq, Eq, Structural)]
pub enum PluginAction {
    Load,
    Unload,
    Reload,
}

/// The argument of an action's tool: the file or the name.
pub open spec fn argument_of(action: PluginAction) -> Seq<char> {
    match action {
        PluginAction::Load => "path"@,
        _ => "name"@,
    }
}

fn argument_text(action: PluginAction) -> (r: &'static str)
    ensures
        r@ == argument_of(action),
{
    match action {
        PluginAction::Load => "path",
        _ => "name",
    }
}

/// The file or the name that the arguments of an action's tool give.
pub fn plugin_argument(action: PluginAction, args: &Json) -> (r: Result<String, ToolResult>)
    ensures
        match r {
            Ok(s) => args@.str_at(argument_of(action)) == Some(s@),
            Err(e) => args@.str_at(argument_of(action)) is None && e@ == ToolResultView::err(
                "missing: "@ + argument_of(action),
            ),
        },
{
    match args.str_at(argument_text(action)) {
        Some(s) => Ok(s.to_owned()),
        None => {
            let mut e = "missing: ".to_owned();
            e.append(argument_text(action));
            Err(ToolResult::err(e.as_str()))
        },
    }
}

/// How an action ended.
pub enum PluginOutcome {
    /// It was done; loading and reloading tell what the plugin says of itself.
    Done(Option<PluginInfo>),
    /// It was refused for the reason.
    Refused(String),
    /// It did not reach the manager for the reason.
    Unreached(String),
}

/// What a tool answers of a plugin that is there: with its name, its version and what it does.
pub open spec fn done_text(action: PluginAction, info: Option<PluginMetaView>) -> Seq<char> {
    match info {
        Some(i) => "✅ 插件 '"@ + i.name + "' v"@ + i.version + (if action == PluginAction::Reload {
            " 已重载 — "@
        } else {
            " 已加载 — "@
        }) + i.description,
        None => "✅ 插件已卸载"@,
    }
}

/// The name of an action, as its failure is told.
pub open spec fn failed_lead(action: PluginAction) -> Seq<char> {
    match action {
        PluginAction::Load => "加载失败："@,
        PluginAction::Unload => "卸载失败："@,
        PluginAction::Reload => "重载失败："@,
    }
}

/// What the tool of an action answers.
pub open spec fn outcome_answer(action: PluginAction, outcome: PluginOutcome) -> ToolResultView {
    match outcome {
        PluginOutcome::Done(info) => ToolResultView::ok(
            done_text(
                action,
                match info {
                    Some(i) => Some(i@),
                    None => None,
                },
            ),
        ),
        PluginOutcome::Refused(e) => ToolResultView::err(failed_lead(action) + e@),
        PluginOutcome::Unreached(e) => ToolResultView::err("通信失败："@ + e@),
    }
}

/// What the tool of an action answers.
pub fn plugin_answer(action: PluginAction, outcome: &PluginOutcome) -> (r: ToolResult)
    ensures
        r@ == outcome_answer(action, *outcome),
{
    match outcome {
        PluginOutcome::Done(Some(i)) => {
            let mut out = "✅ 插件 '".to_owned();
            out.append(i.name.as_str());
            out.append("' v");
            out.append(i.version.as_str());
            match action {
                PluginAction::Reload => out.append(" 已重载 — "),
                _ => out.append(" 已加载 — "),
            }
            out.append(i.description.as_str());
            ToolResult::ok(out.as_str())
        },
        PluginOutcome::Done(None) => ToolResult::ok("✅ 插件已卸载"),
        PluginOutcome::Refused(e) => {
            let mut out = match action {
                PluginAction::Load => "加载失败：".to_owned(),
                PluginAction::Unload => "卸载失败：".to_owned(),
                PluginAction::Reload => "重载失败：".to_owned(),
            };
            out.append(e.as_str());
            ToolResult::err(out.as_str())
        },
        PluginOutcome::Unreached(e) => {
            let mut out = "通信失败：".to_owned();
            out.append(e.as_str());
            ToolResult::err(out.as_str())
        },
    }
}

/// Where loading a file stopped.
#[derive(Debug, Clone, Copy, PartialEq, Eq, Structural)]
pub enum LoadFault {
    /// The file, found in a directory, is no library.
    Found,
    /// The file that was asked for is no library.
    Asked,
    /// The file of a plugin that is reloaded is no library.
    Reloaded,
    /// The library does not say how a plugin is made.
    NoCreate,
    /// The library does not say how a plugin is given back.
    NoDestroy,
    /// The plugin did not start.
    Start,
}

/// What is told of a file that was not loaded.
pub open spec fn load_fault(fault: LoadFault, path: Seq<char>, reason: Seq<char>) -> Seq<char> {
    match fault {
        LoadFault::Found => path + ": "@ + reason,
        LoadFault::Asked => "failed to load library '"@ + path + "': "@ + reason,
        LoadFault::Reloaded => "failed to reload library '"@ + path + "': "@ + reason,
        LoadFault::NoCreate => "symbol 'plugin_create' not found: "@ + reason,
        LoadFault::NoDestroy => "symbol 'plugin_destroy' not found: "@ + reason,
        LoadFault::Start => "plugin.start() failed: "@ + reason,
    }
}

/// What is told of a file that was not loaded.
pub fn describe_load_fault(fault: LoadFault, path: &str, reason: &str) -> (r: String)
    ensures
        r@ == load_fault(fault, path@, reason@),
{
    let mut out = match fault {
        LoadFault::Found => {
            let mut s = path.to_owned();
            s.append(": ");
            s
        },
        LoadFault::Asked => {
            let mut s = "failed to load library '".to_owned();
            s.append(path);
            s.append("': ");
            s
        },
        LoadFault::Reloaded => {
            let mut s = "failed to reload library '".to_owned();
            s.append(path);
            s.append("': ");
            s
        },
        LoadFault::NoCreate => "symbol 'plugin_create' not found: ".to_owned(),
        LoadFault::NoDestroy => "symbol 'plugin_destroy' not found: ".to_owned(),
        LoadFault::Start => "plugin.start() failed: ".to_owned(),
    };
    out.append(reason);
    out
}

/// The schema of a tool with one text for an argument.
pub open spec fn one_argument(name: Seq<char>, description: Seq<char>) -> JsonView {
    JsonView::object().with("type"@, JsonView::Str("object"@)).with(
        "properties"@,
        JsonView::object().with(
            name,
            JsonView::object().with("type"@, JsonView::Str("string"@)).with(
                "description"@,
                JsonView::Str(description),
            ),
        ),
    ).with("required"@, JsonView::Arr(seq![JsonView::Str(name)]))
}

/// The tool of an action, as it is described to the model.
pub open spec fn action_tool(action: PluginAction) -> ToolDefView {
    match action {
        PluginAction::Load => ToolDefView {
            name: "load_plugin"@,
            description: "Load a plugin from a .dll / .so path. Returns plugin info on success."@,
            parameters: one_argument(
                "path"@,
                "Absolute or relative path to the plugin .dll / .so file"@,
            ),
            internal: false,
        },
        PluginAction::Unload => ToolDefView {
            name: "unload_plugin"@,
            description: "Unload a loaded plugin by name. The plugin stops receiving events."@,
            parameters: one_argument("name"@, "Plugin name to unload (e.g. \"image-plugin\")"@),
            internal: false,
        },
        PluginAction::Reload => ToolDefView {
            name: "reload_plugin"@,
            description:
                "Reload a plugin by name (unload + load again from same path). Returns new plugin info."@,
            parameters: one_argument("name"@, "Plugin name to reload (e.g. \"image-plugin\")"@),
            internal: false,
        },
    }
}

fn one_argument_schema(name: &str, description: &str) -> (r: Json)
    ensures
        r@ == one_argument(name@, description@),
{
    let mut required: Vec<Json> = Vec::new();
    let item = Json::str(name);
    required.push(item);
    assert(json_views(required@) =~= seq![JsonView::Str(name@)]);
    Json::object().with("type", Json::str("object")).with(
        "properties",
        Json::object().with(
            name,
            Json::object().with("type", Json::str("string")).with(
                "description",
                Json::str(description),
            ),
        ),
    ).with("required", Json::array(required))
}

/// The tool of an action, as it is described to the model.
pub fn plugin_tool(action: PluginAction) -> (r: ToolDef)
    ensures
        r@ == action_tool(action),
{
    match action {
        PluginAction::Load => ToolDef {
            name: "load_plugin".to_owned(),
            description:
                "Load a plugin from a .dll / .so path. Returns plugin info on success.".to_owned(),
            parameters: one_argument_schema(
                "path",
                "Absolute or relative path to the plugin .dll / .so file",
            ),
            internal: false,
        },
        PluginAction::Unload => ToolDef {
            name: "unload_plugin".to_owned(),
            description:
                "Unload a loaded plugin by name. The plugin stops receiving events.".to_owned(),
            parameters: one_argument_schema(
                "name",
                "Plugin name to unload (e.g. \"image-plugin\")",
            ),
            internal: false,
        },
        PluginAction::Reload => ToolDef {
            name: "reload_plugin".to_owned(),
            description:
                "Reload a plugin by name (unload + load again from same path). Returns new plugin info.".to_owned(),
            parameters: one_argument_schema(
                "name",
                "Plugin name to reload (e.g. \"image-plugin\")",
            ),
            internal: false,
        },
    }
}

/// Unloading undoes loading: where starting a plugin left the tools that were there alone, taking
/// out the tools that came with it gives back the registry as it was.
pub proof fn unloading_undoes_loading(
    before: Map<Seq<char>, Arc<dyn ToolExecutor>>,
    after: Map<Seq<char>, Arc<dyn ToolExecutor>>,
    old_names: Seq<Seq<char>>,
    tool_names: Seq<Seq<char>>,
)
    requires
        lists(old_names, before.dom()),
        lists(tool_names, after.dom().difference(old_names.to_set())),
        forall|n: Seq<char>| #[trigger]
            before.dom().contains(n) ==> after.dom().contains(n) && after[n] == before[n],
    ensures
        after.remove_keys(tool_names.to_set()) == before,
{
    let back = after.remove_keys(tool_names.to_set());
    assert forall|n: Seq<char>| back.dom().contains(n) == before.dom().contains(n) by {
        assert(before.dom().contains(n) == old_names.contains(n));
        assert(after.dom().difference(old_names.to_set()).contains(n) == tool_names.contains(n));
    }
    assert(back =~= before);
}

/// Unloading a plugin leaves the tools that did not come with it alone.
pub proof fn unloading_spares_other_tools(
    registry: Map<Seq<char>, Arc<dyn ToolExecutor>>,
    tool_names: Seq<Seq<char>>,
    other: Seq<char>,
)
    requires
        !tool_names.contains(other),
    ensures
        registry.remove_keys(tool_names.to_set()).dom().contains(other) == registry.dom().contains(
            other,
        ),
        registry.dom().contains(other) ==> registry.remove_keys(tool_names.to_set())[other]
            == registry[other],
{
}

/// A plugin that is to be skipped is not loaded, though it is asked for.
pub proof fn skipping_goes_before_asking(
    name: Seq<char>,
    skip: Seq<Seq<char>>,
    only: Seq<Seq<char>>,
)
    requires
        skip.contains(name),
    ensures
        !wanted(name, skip, only),
{
}

} // verus!
