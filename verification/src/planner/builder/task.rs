//! Tasks: what each part of a request asks, and the tool calls that carry
//! it out.
use vstd::prelude::*;

use crate::bridge::tools::ToolEntry;
use crate::json::{object1, JsonValue};
use crate::planner::action::class::{ActionClass, WriteDisposition};
use crate::planner::action::intent::{opt_path_view, path_text, IntentPlan, PathSource, PathView};
use crate::planner::capability::kind::CapabilityKind;
use crate::planner::capability::registry::{opt_step_planned, tool_offered, CapabilityRegistry};
use crate::planner::execution::steps::{
    hint_is, planned, step_planned, steps_are, steps_planned, ExecutionStep, HintView,
    PlannedStep, SemanticOp, StepView,
};
use crate::planner::traits::{HasCapability, Resolvable};
use crate::text::owned;
use crate::validation::utils::{check, check_spec, FsSnapshot};
use crate::validation::ResolveError;

verus! {

/// A request, split into tasks.
pub struct TaskDecomposition {
    pub tasks: Vec<TaskIntent>,
}

/// One task: an action on a path, after the tasks it depends on.
pub struct TaskIntent {
    pub action: ActionClass,
    pub relative_path: Option<PathSource>,
    pub depends_on: Vec<usize>,
    pub write_disposition: Option<WriteDisposition>,
}

impl TaskDecomposition {
    /// The decomposition of a plan into its one task.
    pub fn from_plan(plan: IntentPlan) -> (r: Self)
        ensures
            r.tasks@.len() == 1,
            r.tasks@[0].action == plan.action,
            opt_path_view(r.tasks@[0].relative_path) == opt_path_view(plan.path),
            r.tasks@[0].depends_on@.len() == 0,
            r.tasks@[0].write_disposition == plan.write_disposition,
    {
        let task = TaskIntent {
            action: plan.action,
            relative_path: plan.path,
            depends_on: Vec::new(),
            write_disposition: plan.write_disposition,
        };
        let mut tasks: Vec<TaskIntent> = Vec::new();
        tasks.push(task);
        TaskDecomposition { tasks }
    }
}

/// The steps `views` whose tools `tools` offers, in order.
pub open spec fn offered_plan(views: Seq<StepView>, tools: Seq<JsonValue>) -> Seq<PlannedStep>
    decreases views.len(),
{
    if views.len() == 0 {
        Seq::empty()
    } else {
        let rest = offered_plan(views.drop_last(), tools);
        if tool_offered(views.last().tool.name_spec(), tools) {
            rest.push(planned(views.last()))
        } else {
            rest
        }
    }
}

/// Filtering keeps no more steps than there were.
pub proof fn lemma_offered_plan_len(views: Seq<StepView>, tools: Seq<JsonValue>)
    ensures
        offered_plan(views, tools).len() <= views.len(),
    decreases views.len(),
{
    if views.len() > 0 {
        lemma_offered_plan_len(views.drop_last(), tools);
    }
}

/// The steps that an op gives on the path `abs` and that `tools` offers;
/// an op on a directory that needs a file lists the directory instead.
pub open spec fn op_plan(
    op: SemanticOp,
    exists: bool,
    is_dir: bool,
    abs: Seq<char>,
    tools: Seq<JsonValue>,
) -> Seq<PlannedStep> {
    match op.resolve_spec(exists, is_dir, abs) {
        Ok(views) => offered_plan(views, tools),
        Err(ResolveError::TargetIsDirectory) => match SemanticOp::ListDirectory.resolve_spec(
            exists,
            is_dir,
            abs,
        ) {
            Ok(views) => offered_plan(views, tools),
            Err(_) => Seq::empty(),
        },
        Err(_) => Seq::empty(),
    }
}

pub open spec fn opt_str(o: Option<&str>) -> Option<Seq<char>> {
    match o {
        Some(s) => Some(s@),
        None => None,
    }
}

impl TaskIntent {
    /// The steps that the task's path gives, before any fallback.
    pub open spec fn path_plan(&self, tools: Seq<JsonValue>, cwd: Seq<char>, fs: Map<Seq<char>, bool>) -> Seq<
        PlannedStep,
    > {
        match self.relative_path {
            None => Seq::empty(),
            Some(p) => {
                let (exists, is_dir, abs) = check_spec(path_text(p@), cwd, fs);
                match SemanticOp::from_action_spec(
                    self.action,
                    self.write_disposition,
                    exists,
                    is_dir,
                    abs,
                ) {
                    Some(op) => op_plan(op, exists, is_dir, abs, tools),
                    None => Seq::empty(),
                }
            },
        }
    }

    /// The steps of the task: those its path gives that `tools` offers;
    /// failing that, for a command with a known test command, the first
    /// offered tool that can execute, running that command.
    pub open spec fn plan_spec(
        &self,
        registry: CapabilityRegistry,
        tools: Seq<JsonValue>,
        cwd: Seq<char>,
        fs: Map<Seq<char>, bool>,
        test_command: Option<Seq<char>>,
    ) -> Seq<PlannedStep> {
        let from_path = self.path_plan(tools, cwd, fs);
        if from_path.len() > 0 {
            from_path
        } else if self.action == ActionClass::ExecuteCommand && test_command is Some
            && registry.fallback_choice(CapabilityKind::Execute, tools) is Some {
            let f = registry.fallback_choice(CapabilityKind::Execute, tools)->0;
            seq![PlannedStep { hint: HintView::Member("command"@, test_command->0), ..f }]
        } else {
            Seq::empty()
        }
    }

    /// The tool calls that carry the task out, given the tools `tools` on
    /// offer, the working directory, what exists on disk and the project's
    /// test command.
    pub fn resolve_steps(
        &self,
        registry: &CapabilityRegistry,
        tools: &[JsonValue],
        cwd: &str,
        fs: &FsSnapshot,
        test_command: Option<&str>,
    ) -> (r: Vec<ExecutionStep>)
        requires
            registry.wf(),
            fs.wf(),
        ensures
            steps_planned(r@, self.plan_spec(*registry, tools@, cwd@, fs@, opt_str(test_command))),
            r@.len() <= 3,
    {
        let from_path = self.steps_from_path(tools, cwd, fs);
        if from_path.len() > 0 {
            return from_path;
        }
        if self.action == ActionClass::ExecuteCommand {
            match test_command {
                Some(cmd) => {
                    match registry.fallback(&self.action, tools) {
                        Some(f) => {
                            let hint = object1("command", owned(cmd));
                            let step = ExecutionStep { args_hint: Some(hint), ..f };
                            let mut v: Vec<ExecutionStep> = Vec::new();
                            v.push(step);
                            return v;
                        },
                        None => {},
                    }
                },
                None => {},
            }
        }
        Vec::new()
    }

    fn steps_from_path(&self, tools: &[JsonValue], cwd: &str, fs: &FsSnapshot) -> (r: Vec<ExecutionStep>)
        requires
            fs.wf(),
        ensures
            steps_planned(r@, self.path_plan(tools@, cwd@, fs@)),
            r@.len() <= 3,
    {
        let path = match &self.relative_path {
            Some(p) => p,
            None => return Vec::new(),
        };
        let state = check(path.as_str(), cwd, fs);
        let wd = match &self.write_disposition {
            Some(w) => Some(w),
            None => None,
        };
        let op = match SemanticOp::from_action(&self.action, wd, &state) {
            Some(op) => op,
            None => return Vec::new(),
        };
        match op.resolve(Some(&state)) {
            Ok(steps) => {
                let ghost views = op.resolve_spec(state.exists, state.is_dir, state.abs_path@)->Ok_0;
                keep_offered(steps, tools, Ghost(views))
            },
            Err(ResolveError::TargetIsDirectory) => {
                match SemanticOp::ListDirectory.resolve(Some(&state)) {
                    Ok(steps) => {
                        let ghost views = SemanticOp::ListDirectory.resolve_spec(
                            state.exists,
                            state.is_dir,
                            state.abs_path@,
                        )->Ok_0;
                        keep_offered(steps, tools, Ghost(views))
                    },
                    Err(_) => Vec::new(),
                }
            },
            Err(_) => Vec::new(),
        }
    }
}

/// The steps whose tools `tools` offers, in order.
fn keep_offered(steps: Vec<ExecutionStep>, tools: &[JsonValue], Ghost(views): Ghost<Seq<StepView>>) -> (r: Vec<
    ExecutionStep,
>)
    requires
        steps_are(steps@, views),
    ensures
        steps_planned(r@, offered_plan(views, tools@)),
        r@.len() <= views.len(),
{
    let mut steps = steps;
    let mut out: Vec<ExecutionStep> = Vec::new();
    let n = steps.len();
    let mut i: usize = 0;
    proof {
        assert(views.take(0) =~= Seq::<StepView>::empty());
    }
    while i < n
        invariant
            n == views.len(),
            i <= n,
            steps@.len() == n - i,
            forall|k: int| 0 <= k < n - i ==> step_is_view(steps@[k], views[k + i]),
            steps_planned(out@, offered_plan(views.take(i as int), tools@)),
            out@.len() <= i,
        decreases n - i,
    {
        let ghost before = steps@;
        let s = steps.remove(0);
        proof {
            assert(step_is_view(s, views[i as int]));
            assert forall|k: int| 0 <= k < n - i - 1 implies step_is_view(steps@[k], views[k + i + 1]) by {
                assert(steps@[k] == before[k + 1]);
            }
            assert(views.take(i + 1).drop_last() =~= views.take(i as int));
            assert(views.take(i + 1).last() == views[i as int]);
        }
        match ToolEntry::find_in_tools(s.tool_name.as_str(), tools) {
            Some(_) => {
                out.push(s);
            },
            None => {},
        }
        i = i + 1;
    }
    proof {
        assert(views.take(n as int) =~= views);
    }
    out
}

/// `s` is the step `v` (a name for `step_is` that loops can trigger on).
pub open spec fn step_is_view(s: ExecutionStep, v: StepView) -> bool {
    crate::planner::execution::steps::step_is(s, v)
}

} // verus!
