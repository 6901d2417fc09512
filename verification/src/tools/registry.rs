use vstd::hash_map::StringHashMap;
use vstd::prelude::*;

use super::types::{ToolDefinition, ToolResult};

verus! {

/// The tools known to the agents, by name.
pub struct ToolRegistry {
    tools: StringHashMap<ToolDefinition>,
}

impl View for ToolRegistry {
    type V = Map<Seq<char>, ToolDefinition>;

    /// Each registered name and the tool it stands for.
    closed spec fn view(&self) -> Map<Seq<char>, ToolDefinition> {
        self.tools@
    }
}

impl ToolRegistry {
    /// A registry with no tools.
    pub fn new() -> (r: Self)
        ensures
            r@ == Map::<Seq<char>, ToolDefinition>::empty(),
    {
        ToolRegistry { tools: StringHashMap::new() }
    }

    /// Registers `tool` under its name, replacing any tool of that name.
    pub fn register(&mut self, tool: ToolDefinition)
        ensures
            final(self)@ == old(self)@.insert(tool.name@, tool),
    {
        let name = tool.name.clone();
        self.tools.insert(name, tool);
    }

    /// The tool registered under `name`, if any.
    pub fn get(&self, name: &str) -> (t: Option<&ToolDefinition>)
        ensures
            self@.contains_key(name@) ==> t == Some(&self@[name@]),
            !self@.contains_key(name@) ==> t is None,
    {
        self.tools.get(name)
    }

    /// Calls the tool `name` with `args`. A name with no registered tool
    /// fails with the code `TOOL_NOT_FOUND`; a registered tool currently
    /// succeeds with the output `Tool executed`.
    pub fn execute(&self, name: &str, args: serde_json::Value) -> (r: ToolResult)
        ensures
            self@.contains_key(name@) ==> (r.success && (r.data matches Some(d) && d@
                == "Tool executed"@) && r.error is None),
            !self@.contains_key(name@) ==> (!r.success && r.data is None && (r.error matches Some(
                e,
            ) && e@ == "TOOL_NOT_FOUND"@)),
    {
        match self.tools.get(name) {
            Some(_) => ToolResult::success("Tool executed"),
            None => ToolResult::failure("TOOL_NOT_FOUND"),
        }
    }
}

/// After a tool is registered, looking up its name finds it, and every other
/// name finds what it found before.
pub proof fn lemma_register_then_get(
    tools: Map<Seq<char>, ToolDefinition>,
    tool: ToolDefinition,
    name: Seq<char>,
)
    ensures
        tools.insert(tool.name@, tool).contains_key(name) == (name == tool.name@
            || tools.contains_key(name)),
        name == tool.name@ ==> tools.insert(tool.name@, tool)[name] == tool,
        name != tool.name@ ==> tools.insert(tool.name@, tool)[name] == tools[name],
{
}

impl Default for ToolRegistry {
    fn default() -> (r: Self)
        ensures
            r@ == Map::<Seq<char>, ToolDefinition>::empty(),
    {
        Self::new()
    }
}

} // verus!
