//! What a request asks to be done.
use vstd::prelude::*;

use crate::planner::capability::kind::CapabilityKind;
use crate::planner::traits::HasCapability;
use crate::text::str_eq;

verus! {

/// The action that a request was classified as.
#[derive(Clone, Copy, Debug, PartialEq, Eq, Structural, Hash)]
pub enum ActionClass {
    ReadFile,
    WriteFile,
    EditFile,
    ListDirectory,
    ExecuteCommand,
    MonitorTask,
    WebSearch,
    DebugCode,
}

impl ActionClass {
    /// The variant's name, as written by classifiers and by `{:?}`.
    pub open spec fn name_spec(self) -> Seq<char> {
        match self {
            ActionClass::ReadFile => "ReadFile"@,
            ActionClass::WriteFile => "WriteFile"@,
            ActionClass::EditFile => "EditFile"@,
            ActionClass::ListDirectory => "ListDirectory"@,
            ActionClass::ExecuteCommand => "ExecuteCommand"@,
            ActionClass::MonitorTask => "MonitorTask"@,
            ActionClass::WebSearch => "WebSearch"@,
            ActionClass::DebugCode => "DebugCode"@,
        }
    }

    /// The variant's name.
    pub fn name(&self) -> (r: &'static str)
        ensures
            r@ == self.name_spec(),
    {
        match self {
            ActionClass::ReadFile => "ReadFile",
            ActionClass::WriteFile => "WriteFile",
            ActionClass::EditFile => "EditFile",
            ActionClass::ListDirectory => "ListDirectory",
            ActionClass::ExecuteCommand => "ExecuteCommand",
            ActionClass::MonitorTask => "MonitorTask",
            ActionClass::WebSearch => "WebSearch",
            ActionClass::DebugCode => "DebugCode",
        }
    }

    /// The action whose name is exactly `s`.
    pub fn from_str(s: &str) -> (r: Option<Self>)
        ensures
            r == action_named(s@),
            match r {
                Some(a) => a.name_spec() == s@,
                None => forall|a: ActionClass| a.name_spec() != s@,
            },
    {
        if str_eq(s, "ReadFile") {
            Some(ActionClass::ReadFile)
        } else if str_eq(s, "WriteFile") {
            Some(ActionClass::WriteFile)
        } else if str_eq(s, "EditFile") {
            Some(ActionClass::EditFile)
        } else if str_eq(s, "ListDirectory") {
            Some(ActionClass::ListDirectory)
        } else if str_eq(s, "ExecuteCommand") {
            Some(ActionClass::ExecuteCommand)
        } else if str_eq(s, "MonitorTask") {
            Some(ActionClass::MonitorTask)
        } else if str_eq(s, "WebSearch") {
            Some(ActionClass::WebSearch)
        } else if str_eq(s, "DebugCode") {
            Some(ActionClass::DebugCode)
        } else {
            None
        }
    }
}

/// The action whose name is `s`, if any.
pub open spec fn action_named(s: Seq<char>) -> Option<ActionClass> {
    if s == "ReadFile"@ {
        Some(ActionClass::ReadFile)
    } else if s == "WriteFile"@ {
        Some(ActionClass::WriteFile)
    } else if s == "EditFile"@ {
        Some(ActionClass::EditFile)
    } else if s == "ListDirectory"@ {
        Some(ActionClass::ListDirectory)
    } else if s == "ExecuteCommand"@ {
        Some(ActionClass::ExecuteCommand)
    } else if s == "MonitorTask"@ {
        Some(ActionClass::MonitorTask)
    } else if s == "WebSearch"@ {
        Some(ActionClass::WebSearch)
    } else if s == "DebugCode"@ {
        Some(ActionClass::DebugCode)
    } else {
        None
    }
}

/// The disposition whose name is `s`, if any.
pub open spec fn disposition_named(s: Seq<char>) -> Option<WriteDisposition> {
    if s == "CreateNew"@ {
        Some(WriteDisposition::CreateNew)
    } else if s == "ModifyExisting"@ {
        Some(WriteDisposition::ModifyExisting)
    } else if s == "OverwriteExisting"@ {
        Some(WriteDisposition::OverwriteExisting)
    } else if s == "EnsureExists"@ {
        Some(WriteDisposition::EnsureExists)
    } else {
        None
    }
}

impl HasCapability for ActionClass {
    /// The capability that a tool needs to carry the action out.
    open spec fn capability_spec(&self) -> CapabilityKind {
        match self {
            ActionClass::ReadFile => CapabilityKind::Read,
            ActionClass::WriteFile => CapabilityKind::Write,
            ActionClass::EditFile => CapabilityKind::Edit,
            ActionClass::ExecuteCommand => CapabilityKind::Execute,
            ActionClass::MonitorTask => CapabilityKind::Execute,
            ActionClass::ListDirectory => CapabilityKind::Execute,
            ActionClass::WebSearch => CapabilityKind::Search,
            ActionClass::DebugCode => CapabilityKind::Read,
        }
    }

    fn capability(&self) -> (k: CapabilityKind) {
        match self {
            ActionClass::ReadFile => CapabilityKind::Read,
            ActionClass::WriteFile => CapabilityKind::Write,
            ActionClass::EditFile => CapabilityKind::Edit,
            ActionClass::ExecuteCommand => CapabilityKind::Execute,
            ActionClass::MonitorTask => CapabilityKind::Execute,
            ActionClass::ListDirectory => CapabilityKind::Execute,
            ActionClass::WebSearch => CapabilityKind::Search,
            ActionClass::DebugCode => CapabilityKind::Read,
        }
    }
}

/// How a write treats a file that may already exist.
#[derive(Clone, Copy, Debug, PartialEq, Eq, Structural)]
pub enum WriteDisposition {
    CreateNew,
    ModifyExisting,
    OverwriteExisting,
    EnsureExists,
}

impl WriteDisposition {
    /// The variant's name.
    pub open spec fn name_spec(self) -> Seq<char> {
        match self {
            WriteDisposition::CreateNew => "CreateNew"@,
            WriteDisposition::ModifyExisting => "ModifyExisting"@,
            WriteDisposition::OverwriteExisting => "OverwriteExisting"@,
            WriteDisposition::EnsureExists => "EnsureExists"@,
        }
    }

    /// The disposition whose name is exactly `s`.
    pub fn from_str(s: &str) -> (r: Option<Self>)
        ensures
            r == disposition_named(s@),
            match r {
                Some(d) => d.name_spec() == s@,
                None => forall|d: WriteDisposition| d.name_spec() != s@,
            },
    {
        if str_eq(s, "CreateNew") {
            Some(WriteDisposition::CreateNew)
        } else if str_eq(s, "ModifyExisting") {
            Some(WriteDisposition::ModifyExisting)
        } else if str_eq(s, "OverwriteExisting") {
            Some(WriteDisposition::OverwriteExisting)
        } else if str_eq(s, "EnsureExists") {
            Some(WriteDisposition::EnsureExists)
        } else {
            None
        }
    }
}

} // verus!
