use vstd::prelude::*;

verus! {

/// A tool: the name it is called by, a name for display, what it does, and
/// the permissions an agent needs to call it.
#[derive(Debug, Clone)]
pub struct ToolDefinition {
    pub name: String,
    pub display_name: String,
    pub description: String,
    pub required_permissions: Vec<String>,
}

/// The outcome of a tool call: its output, or the reason it failed.
#[derive(Debug, Clone)]
pub struct ToolResult {
    pub success: bool,
    pub data: Option<String>,
    pub error: Option<String>,
}

impl ToolResult {
    /// A successful call whose output is `data`.
    pub fn success(data: &str) -> (r: Self)
        ensures
            r.success,
            r.data matches Some(d) && d@ == data@,
            r.error is None,
    {
        ToolResult { success: true, data: Some(String::from_str(data)), error: None }
    }

    /// A failed call, with the error code `code`.
    pub fn failure(code: &str) -> (r: Self)
        ensures
            !r.success,
            r.data is None,
            r.error matches Some(e) && e@ == code@,
    {
        ToolResult { success: false, data: None, error: Some(String::from_str(code)) }
    }
}

} // verus!
