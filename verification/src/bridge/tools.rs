//! The tools that a client may offer, and what the bridge knows of each.
use vstd::prelude::*;

use crate::json::{deep_fields, lemma_deep_fields_shape, lemma_deep_fields_update, lemma_fields_index, lemma_view_index, view_index, JsonValue, JsonView};
use crate::validation::args::types::{ArgErrorView, ArgValidationError};
use crate::validation::args::validate::{fields_fault, fields_view, semantic_fault, validate_args};
use crate::planner::capability::classifier::{first_kind_named, lemma_first_kind_named_skip};
use crate::planner::capability::kind::CapabilityKind;
use crate::planner::traits::HasCapability;
use crate::text::{
    chars_of, eq_ignore_ascii_case, eq_ignore_case_seq, index_of_char, string_of_range,
    trim_char_bounds, trim_char_seq, trim_range, trim_seq, char_index, take_while, drop_while,
    lemma_char_index, lemma_drop_while, lemma_drop_last_while, lemma_take_while, is_char, is_ws, owned, replace_all, replaced, str_eq,
};

verus! {

/// The type that an argument must have.
#[derive(Clone, Copy, Debug, PartialEq, Eq, Structural)]
pub enum ArgType {
    String,
    NonEmptyString,
    Number,
    Bool,
    NonEmptyArray,
}

/// An argument of a tool, required or optional, with its name and type.
#[derive(Clone, Copy)]
pub enum ArgField {
    Required(&'static str, ArgType),
    Optional(&'static str, ArgType),
}

/// An argument, as values: its name, its type, and whether it is required.
pub struct ArgFieldView {
    pub name: Seq<char>,
    pub ty: ArgType,
    pub required: bool,
}

impl View for ArgField {
    type V = ArgFieldView;

    open spec fn view(&self) -> ArgFieldView {
        match self {
            ArgField::Required(n, t) => ArgFieldView { name: n@, ty: *t, required: true },
            ArgField::Optional(n, t) => ArgFieldView { name: n@, ty: *t, required: false },
        }
    }
}

pub open spec fn arg_required(n: Seq<char>, t: ArgType) -> ArgFieldView {
    ArgFieldView { name: n, ty: t, required: true }
}

pub open spec fn arg_optional(n: Seq<char>, t: ArgType) -> ArgFieldView {
    ArgFieldView { name: n, ty: t, required: false }
}

/// Whether the bridge serves a tool, leaves it out, or serves it itself.
#[derive(Clone, Copy, Debug, PartialEq, Eq, Structural)]
pub enum ToolStatus {
    Active,
    Excluded,
    Override,
}

/// The tools a client may offer.
#[derive(Clone, Copy, Debug, PartialEq, Eq, Structural)]
pub enum ToolKind {
    Read,
    Write,
    Edit,
    Bash,
    WebSearch,
    Monitor,
    WebFetch,
    Agent,
    AskUserQuestion,
    CronCreate,
    CronDelete,
    CronList,
    EnterPlanMode,
    ExitPlanMode,
    EnterWorktree,
    ExitWorktree,
    NotebookEdit,
    PushNotification,
    RemoteTrigger,
    ScheduleWakeup,
    Skill,
    TaskCreate,
    TaskGet,
    TaskList,
    TaskUpdate,
    TaskOutput,
    TaskStop,
}

/// Every tool kind, in table order.
pub open spec fn all_tool_kinds() -> Seq<ToolKind> {
    seq![
        ToolKind::Read,
        ToolKind::Write,
        ToolKind::Edit,
        ToolKind::Bash,
        ToolKind::WebSearch,
        ToolKind::Monitor,
        ToolKind::WebFetch,
        ToolKind::Agent,
        ToolKind::AskUserQuestion,
        ToolKind::CronCreate,
        ToolKind::CronDelete,
        ToolKind::CronList,
        ToolKind::EnterPlanMode,
        ToolKind::ExitPlanMode,
        ToolKind::EnterWorktree,
        ToolKind::ExitWorktree,
        ToolKind::NotebookEdit,
        ToolKind::PushNotification,
        ToolKind::RemoteTrigger,
        ToolKind::ScheduleWakeup,
        ToolKind::Skill,
        ToolKind::TaskCreate,
        ToolKind::TaskGet,
        ToolKind::TaskList,
        ToolKind::TaskUpdate,
        ToolKind::TaskOutput,
        ToolKind::TaskStop,
    ]
}

impl ToolKind {
    /// The tool's name.
    pub open spec fn name_spec(self) -> Seq<char> {
        match self {
            ToolKind::Read => "Read"@,
            ToolKind::Write => "Write"@,
            ToolKind::Edit => "Edit"@,
            ToolKind::Bash => "Bash"@,
            ToolKind::WebSearch => "WebSearch"@,
            ToolKind::Monitor => "Monitor"@,
            ToolKind::WebFetch => "WebFetch"@,
            ToolKind::Agent => "Agent"@,
            ToolKind::AskUserQuestion => "AskUserQuestion"@,
            ToolKind::CronCreate => "CronCreate"@,
            ToolKind::CronDelete => "CronDelete"@,
            ToolKind::CronList => "CronList"@,
            ToolKind::EnterPlanMode => "EnterPlanMode"@,
            ToolKind::ExitPlanMode => "ExitPlanMode"@,
            ToolKind::EnterWorktree => "EnterWorktree"@,
            ToolKind::ExitWorktree => "ExitWorktree"@,
            ToolKind::NotebookEdit => "NotebookEdit"@,
            ToolKind::PushNotification => "PushNotification"@,
            ToolKind::RemoteTrigger => "RemoteTrigger"@,
            ToolKind::ScheduleWakeup => "ScheduleWakeup"@,
            ToolKind::Skill => "Skill"@,
            ToolKind::TaskCreate => "TaskCreate"@,
            ToolKind::TaskGet => "TaskGet"@,
            ToolKind::TaskList => "TaskList"@,
            ToolKind::TaskUpdate => "TaskUpdate"@,
            ToolKind::TaskOutput => "TaskOutput"@,
            ToolKind::TaskStop => "TaskStop"@,
        }
    }

    /// The tool's name (`AsRef<str>`).
    pub fn as_str(&self) -> (r: &'static str)
        ensures
            r@ == self.name_spec(),
    {
        match self {
            ToolKind::Read => "Read",
            ToolKind::Write => "Write",
            ToolKind::Edit => "Edit",
            ToolKind::Bash => "Bash",
            ToolKind::WebSearch => "WebSearch",
            ToolKind::Monitor => "Monitor",
            ToolKind::WebFetch => "WebFetch",
            ToolKind::Agent => "Agent",
            ToolKind::AskUserQuestion => "AskUserQuestion",
            ToolKind::CronCreate => "CronCreate",
            ToolKind::CronDelete => "CronDelete",
            ToolKind::CronList => "CronList",
            ToolKind::EnterPlanMode => "EnterPlanMode",
            ToolKind::ExitPlanMode => "ExitPlanMode",
            ToolKind::EnterWorktree => "EnterWorktree",
            ToolKind::ExitWorktree => "ExitWorktree",
            ToolKind::NotebookEdit => "NotebookEdit",
            ToolKind::PushNotification => "PushNotification",
            ToolKind::RemoteTrigger => "RemoteTrigger",
            ToolKind::ScheduleWakeup => "ScheduleWakeup",
            ToolKind::Skill => "Skill",
            ToolKind::TaskCreate => "TaskCreate",
            ToolKind::TaskGet => "TaskGet",
            ToolKind::TaskList => "TaskList",
            ToolKind::TaskUpdate => "TaskUpdate",
            ToolKind::TaskOutput => "TaskOutput",
            ToolKind::TaskStop => "TaskStop",
        }
    }
}

/// Every tool kind, in table order.
pub fn tool_kinds() -> (v: Vec<ToolKind>)
    ensures
        v@ == all_tool_kinds(),
{
    let v = vec![
        ToolKind::Read,
        ToolKind::Write,
        ToolKind::Edit,
        ToolKind::Bash,
        ToolKind::WebSearch,
        ToolKind::Monitor,
        ToolKind::WebFetch,
        ToolKind::Agent,
        ToolKind::AskUserQuestion,
        ToolKind::CronCreate,
        ToolKind::CronDelete,
        ToolKind::CronList,
        ToolKind::EnterPlanMode,
        ToolKind::ExitPlanMode,
        ToolKind::EnterWorktree,
        ToolKind::ExitWorktree,
        ToolKind::NotebookEdit,
        ToolKind::PushNotification,
        ToolKind::RemoteTrigger,
        ToolKind::ScheduleWakeup,
        ToolKind::Skill,
        ToolKind::TaskCreate,
        ToolKind::TaskGet,
        ToolKind::TaskList,
        ToolKind::TaskUpdate,
        ToolKind::TaskOutput,
        ToolKind::TaskStop,
    ];
    proof {
        assert(v@ =~= all_tool_kinds());
    }
    v
}

/// Every tool kind occurs in the table.
pub proof fn lemma_all_tool_kinds(k: ToolKind)
    ensures
        all_tool_kinds().contains(k),
{
    match k {
        ToolKind::Read => assert(all_tool_kinds()[0] == k),
        ToolKind::Write => assert(all_tool_kinds()[1] == k),
        ToolKind::Edit => assert(all_tool_kinds()[2] == k),
        ToolKind::Bash => assert(all_tool_kinds()[3] == k),
        ToolKind::WebSearch => assert(all_tool_kinds()[4] == k),
        ToolKind::Monitor => assert(all_tool_kinds()[5] == k),
        ToolKind::WebFetch => assert(all_tool_kinds()[6] == k),
        ToolKind::Agent => assert(all_tool_kinds()[7] == k),
        ToolKind::AskUserQuestion => assert(all_tool_kinds()[8] == k),
        ToolKind::CronCreate => assert(all_tool_kinds()[9] == k),
        ToolKind::CronDelete => assert(all_tool_kinds()[10] == k),
        ToolKind::CronList => assert(all_tool_kinds()[11] == k),
        ToolKind::EnterPlanMode => assert(all_tool_kinds()[12] == k),
        ToolKind::ExitPlanMode => assert(all_tool_kinds()[13] == k),
        ToolKind::EnterWorktree => assert(all_tool_kinds()[14] == k),
        ToolKind::ExitWorktree => assert(all_tool_kinds()[15] == k),
        ToolKind::NotebookEdit => assert(all_tool_kinds()[16] == k),
        ToolKind::PushNotification => assert(all_tool_kinds()[17] == k),
        ToolKind::RemoteTrigger => assert(all_tool_kinds()[18] == k),
        ToolKind::ScheduleWakeup => assert(all_tool_kinds()[19] == k),
        ToolKind::Skill => assert(all_tool_kinds()[20] == k),
        ToolKind::TaskCreate => assert(all_tool_kinds()[21] == k),
        ToolKind::TaskGet => assert(all_tool_kinds()[22] == k),
        ToolKind::TaskList => assert(all_tool_kinds()[23] == k),
        ToolKind::TaskUpdate => assert(all_tool_kinds()[24] == k),
        ToolKind::TaskOutput => assert(all_tool_kinds()[25] == k),
        ToolKind::TaskStop => assert(all_tool_kinds()[26] == k),
    }
}

/// What the bridge knows of a tool, as values.
pub struct ToolEntryView {
    pub kind: ToolKind,
    pub status: ToolStatus,
    pub capability: Option<CapabilityKind>,
    pub produces: Option<(Seq<char>, Seq<char>)>,
    pub requires: Option<Seq<char>>,
    pub file_key: Option<Seq<char>>,
    pub args: Seq<ArgFieldView>,
}

/// What the bridge knows of each tool.
pub open spec fn tool_table(k: ToolKind) -> ToolEntryView {
    match k {
        ToolKind::Read => ToolEntryView {
            kind: ToolKind::Read,
            status: ToolStatus::Active,
            capability: Some(CapabilityKind::Read),
            produces: Some(("file_content"@, "file_content"@)),
            requires: None,
            file_key: Some("file_path"@),
            args: seq![arg_required("file_path"@, ArgType::NonEmptyString), arg_optional("offset"@, ArgType::Number), arg_optional("limit"@, ArgType::Number), arg_optional("pages"@, ArgType::String)],
        },
        ToolKind::Write => ToolEntryView {
            kind: ToolKind::Write,
            status: ToolStatus::Active,
            capability: Some(CapabilityKind::Write),
            produces: None,
            requires: None,
            file_key: Some("file_path"@),
            args: seq![arg_required("file_path"@, ArgType::NonEmptyString), arg_required("content"@, ArgType::String)],
        },
        ToolKind::Edit => ToolEntryView {
            kind: ToolKind::Edit,
            status: ToolStatus::Active,
            capability: Some(CapabilityKind::Edit),
            produces: Some(("file_content"@, "file_content"@)),
            requires: Some("file_content"@),
            file_key: Some("file_path"@),
            args: seq![arg_required("file_path"@, ArgType::NonEmptyString), arg_required("old_string"@, ArgType::String), arg_required("new_string"@, ArgType::String), arg_optional("replace_all"@, ArgType::Bool)],
        },
        ToolKind::Bash => ToolEntryView {
            kind: ToolKind::Bash,
            status: ToolStatus::Active,
            capability: Some(CapabilityKind::Execute),
            produces: Some(("command_output"@, "command_output"@)),
            requires: None,
            file_key: None,
            args: seq![arg_required("command"@, ArgType::NonEmptyString), arg_optional("timeout"@, ArgType::Number), arg_optional("description"@, ArgType::String), arg_optional("run_in_background"@, ArgType::Bool), arg_optional("dangerouslyDisableSandbox"@, ArgType::Bool)],
        },
        ToolKind::WebSearch => ToolEntryView {
            kind: ToolKind::WebSearch,
            status: ToolStatus::Override,
            capability: Some(CapabilityKind::Search),
            produces: Some(("search_results"@, "search_results"@)),
            requires: None,
            file_key: None,
            args: seq![arg_required("query"@, ArgType::NonEmptyString), arg_optional("allowed_domains"@, ArgType::NonEmptyArray), arg_optional("blocked_domains"@, ArgType::NonEmptyArray)],
        },
        ToolKind::Monitor => ToolEntryView {
            kind: ToolKind::Monitor,
            status: ToolStatus::Excluded,
            capability: None,
            produces: None,
            requires: None,
            file_key: None,
            args: seq![arg_required("description"@, ArgType::NonEmptyString), arg_required("command"@, ArgType::NonEmptyString), arg_required("timeout_ms"@, ArgType::Number), arg_required("persistent"@, ArgType::Bool)],
        },
        ToolKind::WebFetch => ToolEntryView {
            kind: ToolKind::WebFetch,
            status: ToolStatus::Excluded,
            capability: None,
            produces: None,
            requires: None,
            file_key: None,
            args: seq![arg_required("url"@, ArgType::NonEmptyString), arg_required("prompt"@, ArgType::String)],
        },
        ToolKind::Agent => ToolEntryView {
            kind: ToolKind::Agent,
            status: ToolStatus::Excluded,
            capability: None,
            produces: None,
            requires: None,
            file_key: None,
            args: seq![arg_required("description"@, ArgType::NonEmptyString), arg_required("prompt"@, ArgType::NonEmptyString), arg_optional("subagent_type"@, ArgType::String), arg_optional("run_in_background"@, ArgType::Bool)],
        },
        ToolKind::AskUserQuestion => ToolEntryView {
            kind: ToolKind::AskUserQuestion,
            status: ToolStatus::Active,
            capability: Some(CapabilityKind::Interact),
            produces: None,
            requires: None,
            file_key: None,
            args: seq![arg_required("questions"@, ArgType::NonEmptyArray)],
        },
        ToolKind::CronCreate => ToolEntryView {
            kind: ToolKind::CronCreate,
            status: ToolStatus::Excluded,
            capability: None,
            produces: None,
            requires: None,
            file_key: None,
            args: seq![arg_required("cron"@, ArgType::NonEmptyString), arg_required("prompt"@, ArgType::NonEmptyString), arg_optional("recurring"@, ArgType::Bool), arg_optional("durable"@, ArgType::Bool)],
        },
        ToolKind::CronDelete => ToolEntryView {
            kind: ToolKind::CronDelete,
            status: ToolStatus::Excluded,
            capability: None,
            produces: None,
            requires: None,
            file_key: None,
            args: seq![arg_required("id"@, ArgType::NonEmptyString)],
        },
        ToolKind::CronList => ToolEntryView {
            kind: ToolKind::CronList,
            status: ToolStatus::Excluded,
            capability: None,
            produces: None,
            requires: None,
            file_key: None,
            args: seq![],
        },
        ToolKind::EnterPlanMode => ToolEntryView {
            kind: ToolKind::EnterPlanMode,
            status: ToolStatus::Excluded,
            capability: None,
            produces: None,
            requires: None,
            file_key: None,
            args: seq![],
        },
        ToolKind::ExitPlanMode => ToolEntryView {
            kind: ToolKind::ExitPlanMode,
            status: ToolStatus::Excluded,
            capability: None,
            produces: None,
            requires: None,
            file_key: None,
            args: seq![],
        },
        ToolKind::EnterWorktree => ToolEntryView {
            kind: ToolKind::EnterWorktree,
            status: ToolStatus::Excluded,
            capability: None,
            produces: None,
            requires: None,
            file_key: None,
            args: seq![],
        },
        ToolKind::ExitWorktree => ToolEntryView {
            kind: ToolKind::ExitWorktree,
            status: ToolStatus::Excluded,
            capability: None,
            produces: None,
            requires: None,
            file_key: None,
            args: seq![arg_required("action"@, ArgType::NonEmptyString), arg_optional("discard_changes"@, ArgType::Bool)],
        },
        ToolKind::NotebookEdit => ToolEntryView {
            kind: ToolKind::NotebookEdit,
            status: ToolStatus::Active,
            capability: Some(CapabilityKind::Edit),
            produces: Some(("file_content"@, "file_content"@)),
            requires: Some("file_content"@),
            file_key: Some("notebook_path"@),
            args: seq![arg_required("notebook_path"@, ArgType::NonEmptyString), arg_required("new_source"@, ArgType::String), arg_required("cell_id"@, ArgType::NonEmptyString), arg_optional("cell_type"@, ArgType::String), arg_optional("edit_mode"@, ArgType::String)],
        },
        ToolKind::PushNotification => ToolEntryView {
            kind: ToolKind::PushNotification,
            status: ToolStatus::Excluded,
            capability: None,
            produces: None,
            requires: None,
            file_key: None,
            args: seq![arg_required("message"@, ArgType::NonEmptyString), arg_required("status"@, ArgType::NonEmptyString)],
        },
        ToolKind::RemoteTrigger => ToolEntryView {
            kind: ToolKind::RemoteTrigger,
            status: ToolStatus::Excluded,
            capability: None,
            produces: None,
            requires: None,
            file_key: None,
            args: seq![arg_required("action"@, ArgType::NonEmptyString), arg_optional("trigger_id"@, ArgType::String)],
        },
        ToolKind::ScheduleWakeup => ToolEntryView {
            kind: ToolKind::ScheduleWakeup,
            status: ToolStatus::Excluded,
            capability: None,
            produces: None,
            requires: None,
            file_key: None,
            args: seq![arg_required("delaySeconds"@, ArgType::Number), arg_required("reason"@, ArgType::NonEmptyString), arg_required("prompt"@, ArgType::NonEmptyString)],
        },
        ToolKind::Skill => ToolEntryView {
            kind: ToolKind::Skill,
            status: ToolStatus::Excluded,
            capability: None,
            produces: None,
            requires: None,
            file_key: None,
            args: seq![arg_required("skill"@, ArgType::NonEmptyString), arg_optional("args"@, ArgType::String)],
        },
        ToolKind::TaskCreate => ToolEntryView {
            kind: ToolKind::TaskCreate,
            status: ToolStatus::Excluded,
            capability: None,
            produces: None,
            requires: None,
            file_key: None,
            args: seq![arg_required("subject"@, ArgType::NonEmptyString), arg_required("description"@, ArgType::String), arg_optional("activeForm"@, ArgType::String)],
        },
        ToolKind::TaskGet => ToolEntryView {
            kind: ToolKind::TaskGet,
            status: ToolStatus::Excluded,
            capability: None,
            produces: None,
            requires: None,
            file_key: None,
            args: seq![arg_optional("taskId"@, ArgType::String), arg_optional("task_id"@, ArgType::String), arg_optional("shell_id"@, ArgType::String)],
        },
        ToolKind::TaskList => ToolEntryView {
            kind: ToolKind::TaskList,
            status: ToolStatus::Excluded,
            capability: None,
            produces: None,
            requires: None,
            file_key: None,
            args: seq![],
        },
        ToolKind::TaskUpdate => ToolEntryView {
            kind: ToolKind::TaskUpdate,
            status: ToolStatus::Excluded,
            capability: None,
            produces: None,
            requires: None,
            file_key: None,
            args: seq![arg_required("taskId"@, ArgType::NonEmptyString), arg_optional("subject"@, ArgType::String), arg_optional("description"@, ArgType::String), arg_optional("activeForm"@, ArgType::String), arg_optional("owner"@, ArgType::String)],
        },
        ToolKind::TaskOutput => ToolEntryView {
            kind: ToolKind::TaskOutput,
            status: ToolStatus::Excluded,
            capability: None,
            produces: None,
            requires: None,
            file_key: None,
            args: seq![arg_required("task_id"@, ArgType::NonEmptyString), arg_required("block"@, ArgType::Bool), arg_required("timeout"@, ArgType::Number)],
        },
        ToolKind::TaskStop => ToolEntryView {
            kind: ToolKind::TaskStop,
            status: ToolStatus::Excluded,
            capability: None,
            produces: None,
            requires: None,
            file_key: None,
            args: seq![arg_optional("taskId"@, ArgType::String), arg_optional("task_id"@, ArgType::String), arg_optional("shell_id"@, ArgType::String)],
        },
    }
}

/// What the bridge knows of a tool.
pub struct ToolEntry {
    pub kind: ToolKind,
    pub status: ToolStatus,
    pub capability: Option<CapabilityKind>,
    pub produces: Option<(&'static str, &'static str)>,
    pub requires: Option<&'static str>,
    pub file_key: Option<&'static str>,
    pub args: &'static [ArgField],
}

pub open spec fn opt_str_view(o: Option<&'static str>) -> Option<Seq<char>> {
    match o {
        Some(s) => Some(s@),
        None => None,
    }
}

impl View for ToolEntry {
    type V = ToolEntryView;

    open spec fn view(&self) -> ToolEntryView {
        ToolEntryView {
            kind: self.kind,
            status: self.status,
            capability: self.capability,
            produces: match self.produces {
                Some((a, b)) => Some((a@, b@)),
                None => None,
            },
            requires: opt_str_view(self.requires),
            file_key: opt_str_view(self.file_key),
            args: self.args@.map_values(|a: ArgField| a@),
        }
    }
}

impl ToolEntry {
    /// The table's entry for `kind`.
    pub fn of_kind(kind: ToolKind) -> (e: ToolEntry)
        ensures
            e@ == tool_table(kind),
    {
        let e = match kind {
            ToolKind::Read => ToolEntry {
                kind: ToolKind::Read,
                status: ToolStatus::Active,
                capability: Some(CapabilityKind::Read),
                produces: Some(("file_content", "file_content")),
                requires: None,
                file_key: Some("file_path"),
                args: &[ArgField::Required("file_path", ArgType::NonEmptyString), ArgField::Optional("offset", ArgType::Number), ArgField::Optional("limit", ArgType::Number), ArgField::Optional("pages", ArgType::String)],
            },
            ToolKind::Write => ToolEntry {
                kind: ToolKind::Write,
                status: ToolStatus::Active,
                capability: Some(CapabilityKind::Write),
                produces: None,
                requires: None,
                file_key: Some("file_path"),
                args: &[ArgField::Required("file_path", ArgType::NonEmptyString), ArgField::Required("content", ArgType::String)],
            },
            ToolKind::Edit => ToolEntry {
                kind: ToolKind::Edit,
                status: ToolStatus::Active,
                capability: Some(CapabilityKind::Edit),
                produces: Some(("file_content", "file_content")),
                requires: Some("file_content"),
                file_key: Some("file_path"),
                args: &[ArgField::Required("file_path", ArgType::NonEmptyString), ArgField::Required("old_string", ArgType::String), ArgField::Required("new_string", ArgType::String), ArgField::Optional("replace_all", ArgType::Bool)],
            },
            ToolKind::Bash => ToolEntry {
                kind: ToolKind::Bash,
                status: ToolStatus::Active,
                capability: Some(CapabilityKind::Execute),
                produces: Some(("command_output", "command_output")),
                requires: None,
                file_key: None,
                args: &[ArgField::Required("command", ArgType::NonEmptyString), ArgField::Optional("timeout", ArgType::Number), ArgField::Optional("description", ArgType::String), ArgField::Optional("run_in_background", ArgType::Bool), ArgField::Optional("dangerouslyDisableSandbox", ArgType::Bool)],
            },
            ToolKind::WebSearch => ToolEntry {
                kind: ToolKind::WebSearch,
                status: ToolStatus::Override,
                capability: Some(CapabilityKind::Search),
                produces: Some(("search_results", "search_results")),
                requires: None,
                file_key: None,
                args: &[ArgField::Required("query", ArgType::NonEmptyString), ArgField::Optional("allowed_domains", ArgType::NonEmptyArray), ArgField::Optional("blocked_domains", ArgType::NonEmptyArray)],
            },
            ToolKind::Monitor => ToolEntry {
                kind: ToolKind::Monitor,
                status: ToolStatus::Excluded,
                capability: None,
                produces: None,
                requires: None,
                file_key: None,
                args: &[ArgField::Required("description", ArgType::NonEmptyString), ArgField::Required("command", ArgType::NonEmptyString), ArgField::Required("timeout_ms", ArgType::Number), ArgField::Required("persistent", ArgType::Bool)],
            },
            ToolKind::WebFetch => ToolEntry {
                kind: ToolKind::WebFetch,
                status: ToolStatus::Excluded,
                capability: None,
                produces: None,
                requires: None,
                file_key: None,
                args: &[ArgField::Required("url", ArgType::NonEmptyString), ArgField::Required("prompt", ArgType::String)],
            },
            ToolKind::Agent => ToolEntry {
                kind: ToolKind::Agent,
                status: ToolStatus::Excluded,
                capability: None,
                produces: None,
                requires: None,
                file_key: None,
                args: &[ArgField::Required("description", ArgType::NonEmptyString), ArgField::Required("prompt", ArgType::NonEmptyString), ArgField::Optional("subagent_type", ArgType::String), ArgField::Optional("run_in_background", ArgType::Bool)],
            },
            ToolKind::AskUserQuestion => ToolEntry {
                kind: ToolKind::AskUserQuestion,
                status: ToolStatus::Active,
                capability: Some(CapabilityKind::Interact),
                produces: None,
                requires: None,
                file_key: None,
                args: &[ArgField::Required("questions", ArgType::NonEmptyArray)],
            },
            ToolKind::CronCreate => ToolEntry {
                kind: ToolKind::CronCreate,
                status: ToolStatus::Excluded,
                capability: None,
                produces: None,
                requires: None,
                file_key: None,
                args: &[ArgField::Required("cron", ArgType::NonEmptyString), ArgField::Required("prompt", ArgType::NonEmptyString), ArgField::Optional("recurring", ArgType::Bool), ArgField::Optional("durable", ArgType::Bool)],
            },
            ToolKind::CronDelete => ToolEntry {
                kind: ToolKind::CronDelete,
                status: ToolStatus::Excluded,
                capability: None,
                produces: None,
                requires: None,
                file_key: None,
                args: &[ArgField::Required("id", ArgType::NonEmptyString)],
            },
            ToolKind::CronList => ToolEntry {
                kind: ToolKind::CronList,
                status: ToolStatus::Excluded,
                capability: None,
                produces: None,
                requires: None,
                file_key: None,
                args: &[],
            },
            ToolKind::EnterPlanMode => ToolEntry {
                kind: ToolKind::EnterPlanMode,
                status: ToolStatus::Excluded,
                capability: None,
                produces: None,
                requires: None,
                file_key: None,
                args: &[],
            },
            ToolKind::ExitPlanMode => ToolEntry {
                kind: ToolKind::ExitPlanMode,
                status: ToolStatus::Excluded,
                capability: None,
                produces: None,
                requires: None,
                file_key: None,
                args: &[],
            },
            ToolKind::EnterWorktree => ToolEntry {
                kind: ToolKind::EnterWorktree,
                status: ToolStatus::Excluded,
                capability: None,
                produces: None,
                requires: None,
                file_key: None,
                args: &[],
            },
            ToolKind::ExitWorktree => ToolEntry {
                kind: ToolKind::ExitWorktree,
                status: ToolStatus::Excluded,
                capability: None,
                produces: None,
                requires: None,
                file_key: None,
                args: &[ArgField::Required("action", ArgType::NonEmptyString), ArgField::Optional("discard_changes", ArgType::Bool)],
            },
            ToolKind::NotebookEdit => ToolEntry {
                kind: ToolKind::NotebookEdit,
                status: ToolStatus::Active,
                capability: Some(CapabilityKind::Edit),
                produces: Some(("file_content", "file_content")),
                requires: Some("file_content"),
                file_key: Some("notebook_path"),
                args: &[ArgField::Required("notebook_path", ArgType::NonEmptyString), ArgField::Required("new_source", ArgType::String), ArgField::Required("cell_id", ArgType::NonEmptyString), ArgField::Optional("cell_type", ArgType::String), ArgField::Optional("edit_mode", ArgType::String)],
            },
            ToolKind::PushNotification => ToolEntry {
                kind: ToolKind::PushNotification,
                status: ToolStatus::Excluded,
                capability: None,
                produces: None,
                requires: None,
                file_key: None,
                args: &[ArgField::Required("message", ArgType::NonEmptyString), ArgField::Required("status", ArgType::NonEmptyString)],
            },
            ToolKind::RemoteTrigger => ToolEntry {
                kind: ToolKind::RemoteTrigger,
                status: ToolStatus::Excluded,
                capability: None,
                produces: None,
                requires: None,
                file_key: None,
                args: &[ArgField::Required("action", ArgType::NonEmptyString), ArgField::Optional("trigger_id", ArgType::String)],
            },
            ToolKind::ScheduleWakeup => ToolEntry {
                kind: ToolKind::ScheduleWakeup,
                status: ToolStatus::Excluded,
                capability: None,
                produces: None,
                requires: None,
                file_key: None,
                args: &[ArgField::Required("delaySeconds", ArgType::Number), ArgField::Required("reason", ArgType::NonEmptyString), ArgField::Required("prompt", ArgType::NonEmptyString)],
            },
            ToolKind::Skill => ToolEntry {
                kind: ToolKind::Skill,
                status: ToolStatus::Excluded,
                capability: None,
                produces: None,
                requires: None,
                file_key: None,
                args: &[ArgField::Required("skill", ArgType::NonEmptyString), ArgField::Optional("args", ArgType::String)],
            },
            ToolKind::TaskCreate => ToolEntry {
                kind: ToolKind::TaskCreate,
                status: ToolStatus::Excluded,
                capability: None,
                produces: None,
                requires: None,
                file_key: None,
                args: &[ArgField::Required("subject", ArgType::NonEmptyString), ArgField::Required("description", ArgType::String), ArgField::Optional("activeForm", ArgType::String)],
            },
            ToolKind::TaskGet => ToolEntry {
                kind: ToolKind::TaskGet,
                status: ToolStatus::Excluded,
                capability: None,
                produces: None,
                requires: None,
                file_key: None,
                args: &[ArgField::Optional("taskId", ArgType::String), ArgField::Optional("task_id", ArgType::String), ArgField::Optional("shell_id", ArgType::String)],
            },
            ToolKind::TaskList => ToolEntry {
                kind: ToolKind::TaskList,
                status: ToolStatus::Excluded,
                capability: None,
                produces: None,
                requires: None,
                file_key: None,
                args: &[],
            },
            ToolKind::TaskUpdate => ToolEntry {
                kind: ToolKind::TaskUpdate,
                status: ToolStatus::Excluded,
                capability: None,
                produces: None,
                requires: None,
                file_key: None,
                args: &[ArgField::Required("taskId", ArgType::NonEmptyString), ArgField::Optional("subject", ArgType::String), ArgField::Optional("description", ArgType::String), ArgField::Optional("activeForm", ArgType::String), ArgField::Optional("owner", ArgType::String)],
            },
            ToolKind::TaskOutput => ToolEntry {
                kind: ToolKind::TaskOutput,
                status: ToolStatus::Excluded,
                capability: None,
                produces: None,
                requires: None,
                file_key: None,
                args: &[ArgField::Required("task_id", ArgType::NonEmptyString), ArgField::Required("block", ArgType::Bool), ArgField::Required("timeout", ArgType::Number)],
            },
            ToolKind::TaskStop => ToolEntry {
                kind: ToolKind::TaskStop,
                status: ToolStatus::Excluded,
                capability: None,
                produces: None,
                requires: None,
                file_key: None,
                args: &[ArgField::Optional("taskId", ArgType::String), ArgField::Optional("task_id", ArgType::String), ArgField::Optional("shell_id", ArgType::String)],
            },
        };
        proof {
            assert(e@.args =~= tool_table(kind).args);
        }
        e
    }
}


/// A character that may stand in a tool name: an ASCII letter or digit,
/// `_` or `-`.
pub open spec fn is_name_char(c: char) -> bool {
    ('a' <= c && c <= 'z') || ('A' <= c && c <= 'Z') || ('0' <= c && c <= '9') || c == '_' || c
        == '-'
}

pub open spec fn name_char() -> spec_fn(char) -> bool {
    |c: char| is_name_char(c)
}

pub open spec fn not_name_char() -> spec_fn(char) -> bool {
    |c: char| !is_name_char(c)
}

fn is_name_character(c: char) -> (b: bool)
    ensures
        b == is_name_char(c),
{
    ('a' <= c && c <= 'z') || ('A' <= c && c <= 'Z') || ('0' <= c && c <= '9') || c == '_' || c
        == '-'
}

/// The tool name that a model's answer `raw` designates: the first line of
/// the trimmed answer, trimmed, stripped of surrounding `*`, `` ` ``, `"`
/// and `'`, then its first run of name characters. (A trimmed answer that
/// is not empty begins with a character that is not white space, so its
/// first line is its first line that is not blank.)
pub open spec fn normalize_spec(raw: Seq<char>) -> Seq<char> {
    let t1 = trim_seq(raw);
    let t2 = if t1.len() > 0 {
        trim_seq(t1.take(char_index(t1, '\n')))
    } else {
        t1
    };
    let t3 = trim_char_seq(
        trim_char_seq(trim_char_seq(trim_char_seq(t2, '*'), '`'), '"'),
        '\'',
    );
    take_while(drop_while(t3, not_name_char()), name_char())
}

/// The tool whose name equals `n` up to ASCII case, if any.
pub open spec fn names_tool(k: ToolKind, n: Seq<char>) -> bool {
    eq_ignore_case_seq(k.name_spec(), n)
}

/// `t` is a tool description whose `name` is `n` up to ASCII case.
pub open spec fn describes_tool(t: JsonValue, n: Seq<char>) -> bool {
    match t.str_field("name"@) {
        Some(s) => eq_ignore_case_seq(s, n),
        None => false,
    }
}

impl HasCapability for ToolEntry {
    open spec fn capability_spec(&self) -> CapabilityKind {
        match self.capability {
            Some(c) => c,
            None => CapabilityKind::Execute,
        }
    }

    fn capability(&self) -> (k: CapabilityKind) {
        match self.capability {
            Some(c) => c,
            None => CapabilityKind::Execute,
        }
    }
}

impl ToolEntry {
    /// The table entry of the tool that `name` designates.
    pub fn from_name(name: &str) -> (r: Option<ToolEntry>)
        ensures
            match r {
                Some(e) => e@ == tool_table(e.kind) && names_tool(e.kind, normalize_spec(name@)),
                None => forall|k: ToolKind| !names_tool(k, normalize_spec(name@)),
            },
            match r {
                Some(e) => first_kind_named(all_tool_kinds(), normalize_spec(name@)) == Some(e.kind),
                None => first_kind_named(all_tool_kinds(), normalize_spec(name@)) is None,
            },
    {
        let n = Self::normalize(name);
        let kinds = tool_kinds();
        let mut i: usize = 0;
        while i < kinds.len()
            invariant
                kinds@ == all_tool_kinds(),
                i <= kinds@.len(),
                forall|j: int| 0 <= j < i ==> !names_tool(kinds@[j], n@),
            decreases kinds@.len() - i,
        {
            if eq_ignore_ascii_case(kinds[i].as_str(), n.as_str()) {
                proof {
                    lemma_first_kind_named_skip(kinds@, n@, i as int);
                }
                return Some(ToolEntry::of_kind(kinds[i]));
            }
            i = i + 1;
        }
        proof {
            lemma_first_kind_named_skip(kinds@, n@, i as int);
            assert forall|k: ToolKind| !names_tool(k, normalize_spec(name@)) by {
                lemma_all_tool_kinds(k);
                let j = choose|j: int| 0 <= j < all_tool_kinds().len() && all_tool_kinds()[j] == k;
            }
        }
        None
    }

    /// The first tool among `tools` whose name is the one that `name`
    /// designates, up to ASCII case.
    pub fn find_in_tools<'a>(name: &str, tools: &'a [JsonValue]) -> (r: Option<&'a JsonValue>)
        ensures
            match r {
                Some(t) => exists|i: int|
                    0 <= i < tools@.len() && tools@[i] == *t && describes_tool(
                        tools@[i],
                        normalize_spec(name@),
                    ) && forall|j: int|
                        0 <= j < i ==> !describes_tool(tools@[j], normalize_spec(name@)),
                None => forall|i: int|
                    0 <= i < tools@.len() ==> !describes_tool(tools@[i], normalize_spec(name@)),
            },
    {
        let n = Self::normalize(name);
        let mut i: usize = 0;
        while i < tools.len()
            invariant
                n@ == normalize_spec(name@),
                i <= tools@.len(),
                forall|j: int| 0 <= j < i ==> !describes_tool(tools@[j], n@),
            decreases tools@.len() - i,
        {
            let hit = match tools[i].get_str("name") {
                Some(tn) => eq_ignore_ascii_case(tn, n.as_str()),
                None => false,
            };
            if hit {
                return Some(&tools[i]);
            }
            i = i + 1;
        }
        None
    }

    /// The tool name that a model's answer designates.
    pub fn normalize(raw: &str) -> (r: String)
        ensures
            r@ == normalize_spec(raw@),
    {
        let v = chars_of(raw);
        let (a, b) = first_line_trimmed(&v);
        let (a, b) = trim_char_bounds(&v, a, b, '*');
        let (a, b) = trim_char_bounds(&v, a, b, '`');
        let (a, b) = trim_char_bounds(&v, a, b, '"');
        let (a, b) = trim_char_bounds(&v, a, b, '\'');
        let (i, j) = first_word(&v, a, b);
        string_of_range(&v, i, j)
    }
}

/// The bounds of the trimmed first line of the trimmed text `v`.
fn first_line_trimmed(v: &Vec<char>) -> (r: (usize, usize))
    ensures
        r.0 <= r.1 <= v@.len(),
        v@.subrange(r.0 as int, r.1 as int) == ({
            let t1 = trim_seq(v@);
            if t1.len() > 0 {
                trim_seq(t1.take(char_index(t1, '\n')))
            } else {
                t1
            }
        }),
{
    let (a, b) = trim_range(v, 0, v.len());
    proof {
        assert(v@.subrange(0, v@.len() as int) =~= v@);
    }
    if a < b {
        let nl = index_of_char(v, a, b, '\n');
        proof {
            let t = v@.subrange(a as int, b as int);
            lemma_char_index(t, '\n', nl - a);
            assert(t.take(nl - a) =~= v@.subrange(a as int, nl as int));
        }
        trim_range(v, a, nl)
    } else {
        (a, b)
    }
}

/// The bounds of the first run of name characters in `v[a..b]`.
fn first_word(v: &Vec<char>, a: usize, b: usize) -> (r: (usize, usize))
    requires
        a <= b <= v@.len(),
    ensures
        r.0 <= r.1 <= v@.len(),
        v@.subrange(r.0 as int, r.1 as int) == take_while(
            drop_while(v@.subrange(a as int, b as int), not_name_char()),
            name_char(),
        ),
{
    let ghost t3 = v@.subrange(a as int, b as int);
    let mut i = a;
    while i < b && !is_name_character(v[i])
        invariant
            a <= i <= b <= v@.len(),
            forall|k: int| a <= k < i ==> !is_name_char(#[trigger] v@[k]),
        decreases b - i,
    {
        i = i + 1;
    }
    proof {
        assert forall|k: int| 0 <= k < i - a implies not_name_char()(#[trigger] t3[k]) by {
            assert(t3[k] == v@[a + k]);
        }
        lemma_drop_while(t3, not_name_char(), i - a);
    }
    let mut j = i;
    while j < b && is_name_character(v[j])
        invariant
            i <= j <= b <= v@.len(),
            forall|k: int| i <= k < j ==> is_name_char(#[trigger] v@[k]),
        decreases b - j,
    {
        j = j + 1;
    }
    proof {
        let t4 = t3.skip(i - a);
        assert(t4 =~= v@.subrange(i as int, b as int));
        assert forall|k: int| 0 <= k < j - i implies name_char()(#[trigger] t4[k]) by {
            assert(t4[k] == v@[i + k]);
        }
        lemma_take_while(t4, name_char(), j - i);
        assert(t4.take(j - i) =~= v@.subrange(i as int, j as int));
    }
    (i, j)
}

/// A string argument with its escaped line feeds, tabs and carriage
/// returns made real.
pub open spec fn unescaped(s: Seq<char>) -> Seq<char> {
    replaced(replaced(replaced(s, seq!['\\', 'n'], seq!['\n']), seq!['\\', 't'], seq!['\t']), seq!['\\', 'r'], seq!['\r'])
}

/// The members `fs` with the string member `name`, if there is one, unescaped.
pub open spec fn unescape_member(fs: Seq<(Seq<char>, JsonView)>, name: Seq<char>) -> Seq<(Seq<char>, JsonView)> {
    match view_index(fs, name) {
        Some(i) => match fs[i].1 {
            JsonView::Str(s) => fs.update(i, (name, JsonView::Str(unescaped(s)))),
            _ => fs,
        },
        None => fs,
    }
}

/// The members `fs` with each string argument among `args` unescaped, in
/// order.
pub open spec fn unescape_args(fs: Seq<(Seq<char>, JsonView)>, args: Seq<ArgFieldView>) -> Seq<(Seq<char>, JsonView)>
    decreases args.len(),
{
    if args.len() == 0 {
        fs
    } else {
        let prev = unescape_args(fs, args.drop_last());
        if args.last().ty == ArgType::String {
            unescape_member(prev, args.last().name)
        } else {
            prev
        }
    }
}

/// The arguments after `normalize_args`: for an object, its string
/// arguments unescaped; anything else as it was.
pub open spec fn normalized_args(args: JsonView, fields: Seq<ArgFieldView>) -> JsonView {
    match args {
        JsonView::Object(fs) => JsonView::Object(unescape_args(fs, fields)),
        _ => args,
    }
}

fn unescape(s: &str) -> (r: String)
    ensures
        r@ == unescaped(s@),
{
    proof {
        reveal_strlit("\\n");
        reveal_strlit("\\t");
        reveal_strlit("\\r");
        reveal_strlit("\n");
        reveal_strlit("\t");
        reveal_strlit("\r");
        assert("\\n"@ =~= seq!['\\', 'n']);
        assert("\\t"@ =~= seq!['\\', 't']);
        assert("\\r"@ =~= seq!['\\', 'r']);
        assert("\n"@ =~= seq!['\n']);
        assert("\t"@ =~= seq!['\t']);
        assert("\r"@ =~= seq!['\r']);
    }
    let a = replace_all(s, "\\n", "\n");
    let b = replace_all(a.as_str(), "\\t", "\t");
    replace_all(b.as_str(), "\\r", "\r")
}

impl ToolEntry {
    /// Checks arguments against the tool's declared arguments and its own
    /// rule.
    pub fn validate_args(&self, args: &JsonValue) -> (r: Result<(), ArgValidationError>)
        ensures
            match fields_fault(*args, fields_view(self.args)) {
                Some(v) => r matches Err(e) && e@ == v,
                None => match semantic_fault(self.kind, *args) {
                    Some(m) => r matches Err(e) && e@ == ArgErrorView::SemanticViolation(m),
                    None => r is Ok,
                },
            },
    {
        validate_args(&self.kind, self.args, args)
    }

    /// Turns the escaped line feeds, tabs and carriage returns in the
    /// tool's string arguments into real ones.
    pub fn normalize_args(&self, args: &mut JsonValue)
        ensures
            final(args).deep() == normalized_args(old(args).deep(), fields_view(self.args)),
    {
        let ghost fv = fields_view(self.args);
        match args {
            JsonValue::Object(fs) => {
                let mut i: usize = 0;
                while i < self.args.len()
                    invariant
                        i <= self.args@.len(),
                        fv == fields_view(self.args),
                        deep_fields(fs@) == unescape_args(deep_fields(old(args)->Object_0@), fv.take(i as int)),
                    decreases self.args@.len() - i,
                {
                    proof {
                        assert(fv.take(i + 1).drop_last() =~= fv.take(i as int));
                        assert(fv.take(i + 1).last() == self.args@[i as int]@);
                    }
                    let (name, is_string) = match self.args[i] {
                        ArgField::Required(n, t) => (n, t == ArgType::String),
                        ArgField::Optional(n, t) => (n, t == ArgType::String),
                    };
                    if is_string {
                        let mut idx: usize = 0;
                        while idx < fs.len() && !str_eq(fs[idx].0.as_str(), name)
                            invariant
                                idx <= fs@.len(),
                                forall|j: int| 0 <= j < idx ==> fs@[j].0@ != name@,
                            decreases fs@.len() - idx,
                        {
                            idx = idx + 1;
                        }
                        proof {
                            lemma_fields_index(fs@, name@);
                            lemma_view_index(fs@, name@);
                            lemma_deep_fields_shape(fs@);
                        }
                        if idx < fs.len() {
                            let replacement = match &fs[idx].1 {
                                JsonValue::Str(s) => Some(unescape(s.as_str())),
                                _ => None,
                            };
                            match replacement {
                                Some(t) => {
                                    let ghost before = fs@;
                                    let key = owned(fs[idx].0.as_str());
                                    fs.remove(idx);
                                    fs.insert(idx, (key, JsonValue::Str(t)));
                                    proof {
                                        assert(fs@ =~= before.update(idx as int, (key, JsonValue::Str(t))));
                                        lemma_deep_fields_update(before, idx as int, (key, JsonValue::Str(t)));
                                    }
                                },
                                None => {},
                            }
                        }
                    }
                    i = i + 1;
                }
                proof {
                    assert(fv.take(self.args@.len() as int) =~= fv);
                }
            },
            _ => {},
        }
    }

    /// The first tool among `tools` that `name` designates, copied.
    pub fn resolve(name: &str, tools: &[JsonValue]) -> (r: Option<JsonValue>)
        ensures
            match r {
                Some(t) => exists|i: int|
                    0 <= i < tools@.len() && tools@[i].deep() == t.deep() && describes_tool(
                        tools@[i],
                        normalize_spec(name@),
                    ) && forall|j: int| 0 <= j < i ==> !describes_tool(tools@[j], normalize_spec(name@)),
                None => forall|i: int|
                    0 <= i < tools@.len() ==> !describes_tool(tools@[i], normalize_spec(name@)),
            },
    {
        match Self::find_in_tools(name, tools) {
            Some(t) => Some(t.duplicate()),
            None => None,
        }
    }
}


proof fn lemma_trim_keeps(s: Seq<char>)
    requires
        s.len() > 0,
        !is_ws(s[0]),
        !is_ws(s.last()),
    ensures
        trim_seq(s) == s,
{
}

proof fn lemma_trim_char_keeps(s: Seq<char>, c: char)
    requires
        s.len() > 0,
        s[0] != c,
        s.last() != c,
    ensures
        trim_char_seq(s, c) == s,
{
    lemma_drop_while(s, is_char(c), 0);
    assert(s.skip(0) =~= s);
    lemma_drop_last_while(s, is_char(c), s.len() as int);
    assert(s.take(s.len() as int) =~= s);
}

/// The name a model gives is kept as it is when it is made only of ASCII
/// letters, digits, underscores and hyphens: such a name is a tool name in
/// full.
pub proof fn lemma_normalize_keeps_plain_names(name: Seq<char>)
    requires
        name.len() > 0,
        forall|i: int|
            0 <= i < name.len() ==> ('a' <= #[trigger] name[i] && name[i] <= 'z') || ('A' <= name[i]
                && name[i] <= 'Z') || ('0' <= name[i] && name[i] <= '9') || name[i] == '_' || name[i]
                == '-',
    ensures
        normalize_spec(name) == name,
{
    let l = name.len() - 1;
    assert(name[0] == name[0]);
    assert(name[l] == name[l]);
    lemma_trim_keeps(name);
    lemma_char_index(name, '\n', name.len() as int);
    assert(name.take(name.len() as int) =~= name);
    lemma_trim_char_keeps(name, '*');
    lemma_trim_char_keeps(name, '`');
    lemma_trim_char_keeps(name, '"');
    lemma_trim_char_keeps(name, '\'');
    assert(is_name_char(name[0]));
    lemma_drop_while(name, not_name_char(), 0);
    assert(name.skip(0) =~= name);
    assert forall|k: int| 0 <= k < name.len() implies (name_char())(#[trigger] name[k]) by {
        assert(is_name_char(name[k]));
    }
    lemma_take_while(name, name_char(), name.len() as int);
}

} // verus!
