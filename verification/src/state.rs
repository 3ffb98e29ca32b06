//! What the bridge keeps between requests, and what it knows of one.
use vstd::prelude::*;

use crate::anthropic::types::UserSegment;
use crate::json::JsonValue;
use crate::planner::NodeId;
use crate::strmap::StrMap;

verus! {

/// What the client said of its environment, and the files found there.
pub struct EnvironmentContext {
    pub cwd: String,
    pub platform: String,
    pub shell: String,
    pub last_resolved_dir: Option<String>,
    pub file_index: StrMap<Vec<String>>,
}

impl Default for EnvironmentContext {
    fn default() -> (r: Self)
        ensures
            r.cwd@.len() == 0,
            r.platform@.len() == 0,
            r.shell@.len() == 0,
            r.last_resolved_dir is None,
            r.file_index.wf(),
            r.file_index@ == Map::<Seq<char>, Vec<String>>::empty(),
    {
        EnvironmentContext {
            cwd: String::new(),
            platform: String::new(),
            shell: String::new(),
            last_resolved_dir: None,
            file_index: StrMap::new(),
        }
    }
}

/// A tool call that was sent to the client and waits for its result.
pub struct PendingTool {
    pub tool_name: String,
    pub tool_input: JsonValue,
    pub node_id: NodeId,
    pub user_query: Vec<UserSegment>,
}

/// How one request is answered: streamed or not, under which model name,
/// and with which search settings.
pub struct RequestContext {
    pub stream_mode: bool,
    pub model_echo: String,
    pub mode: String,
    pub model: String,
    pub incognito: bool,
}

/// A task that was carried out, for later requests to find.
pub struct TaskEntry {
    pub hash: String,
    pub user_query: String,
    pub tool_name: String,
    pub tool_result: String,
}

} // verus!
