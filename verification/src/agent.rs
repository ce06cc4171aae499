//! The agent's own state: the frontend tool table and instructions, the
//! repetition monitor, and the persisted permission decisions, with the
//! decision taken before any tool call is executed.

use vstd::prelude::*;
use crate::message::{ToolCall, ToolError};
use crate::monitor::{ToolMonitor, ToolStat, allowed_count, bump_stats, counter_step, is_repeat};
use crate::permission::PermissionStore;
use crate::router::{DispatchKind, classify, spec_classify};
use crate::tools::{FrontendTool, Tool, is_frontend_name};

verus! {

/// The text rejecting a call the monitor has seen too often in a row.
pub open spec fn repetition_rejected_text() -> Seq<char> {
    "Tool call rejected: exceeded maximum allowed repetitions"@
}

/// What the agent decides to do with one tool call.
#[derive(Debug)]
pub enum DispatchDecision {
    Rejected(ToolError),
    Execute(DispatchKind),
}

/// The agent: owner of the frontend tool table, the frontend instructions,
/// the repetition monitor, and the per-tool permission decisions.
pub struct Agent {
    pub frontend_tools: Vec<FrontendTool>,
    pub frontend_instructions: Option<String>,
    pub tool_monitor: Option<ToolMonitor>,
    pub permission_store: PermissionStore,
}

/// The agent invariant: the permission store keeps one decision per tool.
pub open spec fn agent_wf(a: Agent) -> bool {
    crate::permission::store_wf(a.permission_store.entries@)
}

impl Agent {
    /// A fresh agent: no frontend tools, no instructions, no monitor, no
    /// stored decisions.
    pub fn new() -> (r: Agent)
        ensures
            agent_wf(r),
            r.frontend_tools@.len() == 0,
            r.frontend_instructions is None,
            r.tool_monitor is None,
            r.permission_store.entries@.len() == 0,
    {
        Agent {
            frontend_tools: Vec::new(),
            frontend_instructions: None,
            tool_monitor: None,
            permission_store: PermissionStore::new(),
        }
    }

    /// Installs a fresh repetition monitor with the given cap; `None`
    /// disables the guard.
    pub fn configure_tool_monitor(&mut self, max_repetitions: Option<u32>)
        ensures
            final(self).frontend_tools@ == old(self).frontend_tools@,
            final(self).frontend_instructions == old(self).frontend_instructions,
            final(self).permission_store.entries@ == old(self).permission_store.entries@,
            final(self).tool_monitor matches Some(m) && m.max_repetitions == max_repetitions
                && m.last is None && m.counter == 0 && m.stats@.len() == 0,
    {
        self.tool_monitor = Some(ToolMonitor::new(max_repetitions));
    }

    /// The monitor's per-tool statistics, when a monitor is installed.
    pub fn get_tool_stats(&self) -> (r: Option<Vec<ToolStat>>)
        ensures
            match r {
                Some(stats) => self.tool_monitor matches Some(m) && stats@ == m.stats@,
                None => self.tool_monitor is None,
            },
    {
        match &self.tool_monitor {
            Some(m) => Some(m.get_stats()),
            None => None,
        }
    }

    /// Resets the monitor, if one is installed; its cap stays.
    pub fn reset_tool_monitor(&mut self)
        ensures
            final(self).frontend_tools@ == old(self).frontend_tools@,
            final(self).frontend_instructions == old(self).frontend_instructions,
            final(self).permission_store.entries@ == old(self).permission_store.entries@,
            old(self).tool_monitor is None ==> final(self).tool_monitor is None,
            old(self).tool_monitor matches Some(m) ==> (final(self).tool_monitor matches Some(n)
                && n.max_repetitions == m.max_repetitions && n.last is None && n.counter == 0
                && n.stats@.len() == 0),
    {
        match &mut self.tool_monitor {
            Some(m) => m.reset(),
            None => {},
        }
    }

    /// Whether a tool of this name is executed by the frontend.
    pub fn is_frontend_tool(&self, name: &str) -> (r: bool)
        ensures
            r == is_frontend_name(self.frontend_tools@, name@),
    {
        crate::tools::find_frontend_tool(&self.frontend_tools, name).is_some()
    }

    /// The frontend tool registered under this name, if any.
    pub fn get_frontend_tool(&self, name: &str) -> (r: Option<FrontendTool>)
        ensures
            match r {
                Some(t) => is_frontend_name(self.frontend_tools@, name@) && t.name@ == name@,
                None => !is_frontend_name(self.frontend_tools@, name@),
            },
    {
        match crate::tools::find_frontend_tool(&self.frontend_tools, name) {
            Some(t) => Some(t.clone()),
            None => None,
        }
    }

    /// Registers the tools of a frontend extension: each goes into the
    /// frontend table under its own name, and the extension's instructions
    /// replace the stored ones; without instructions the fixed default
    /// text is stored.
    pub fn add_frontend_tools(&mut self, tools: Vec<Tool>, instructions: Option<String>)
        ensures
            final(self).tool_monitor == old(self).tool_monitor,
            final(self).permission_store.entries@ == old(self).permission_store.entries@,
            final(self).frontend_tools@.len() == old(self).frontend_tools@.len() + tools@.len(),
            final(self).frontend_tools@.subrange(0, old(self).frontend_tools@.len() as int) == old(
                self,
            ).frontend_tools@,
            forall|i: int|
                0 <= i < tools@.len() ==> (#[trigger] final(self).frontend_tools@[old(
                    self,
                ).frontend_tools@.len() + i]).name@ == tools@[i].name@,
            match instructions {
                Some(s) => final(self).frontend_instructions matches Some(t) && t@ == s@,
                None => final(self).frontend_instructions matches Some(t) && t@
                    == default_frontend_instructions_text(),
            },
    {
        let ghost base = self.frontend_tools@;
        let ghost tools0 = tools@;
        let mut rest = tools;
        let ghost mut k: int = 0;
        while rest.len() > 0
            invariant
                0 <= k <= tools0.len(),
                rest@ =~= tools0.subrange(k, tools0.len() as int),
                self.frontend_tools@.len() == base.len() + k,
                self.frontend_tools@.subrange(0, base.len() as int) == base,
                self.tool_monitor == old(self).tool_monitor,
                self.frontend_instructions == old(self).frontend_instructions,
                self.permission_store.entries@ == old(self).permission_store.entries@,
                forall|i: int|
                    0 <= i < k ==> (#[trigger] self.frontend_tools@[base.len() + i]).name@
                        == tools0[i].name@,
            decreases rest@.len(),
        {
            let t = rest.remove(0);
            let name = t.name.clone();
            self.frontend_tools.push(FrontendTool { name, tool: t });
            proof {
                assert(self.frontend_tools@.subrange(0, base.len() as int) =~= base);
                assert(rest@ =~= tools0.subrange(k + 1, tools0.len() as int));
                k = k + 1;
            }
        }
        match instructions {
            Some(s) => {
                self.frontend_instructions = Some(s);
            },
            None => {
                self.frontend_instructions = Some(
                    String::from_str(DEFAULT_FRONTEND_INSTRUCTIONS),
                );
            },
        }
    }

    /// Decides one tool call: the monitor may reject it for repetition;
    /// otherwise the router says which executor must handle it.
    pub fn dispatch_decision(&mut self, call: ToolCall) -> (r: DispatchDecision)
        ensures
            final(self).frontend_tools@ == old(self).frontend_tools@,
            final(self).frontend_instructions == old(self).frontend_instructions,
            final(self).permission_store.entries@ == old(self).permission_store.entries@,
            old(self).tool_monitor is None ==> final(self).tool_monitor is None && (r matches
                DispatchDecision::Execute(k) && k == spec_classify(
                call.name@,
                old(self).frontend_tools@,
            )),
            old(self).tool_monitor matches Some(m) ==> ({
                let repeat = is_repeat(m, call);
                let counter = counter_step(repeat, m.counter);
                &&& final(self).tool_monitor matches Some(n) && n.max_repetitions
                    == m.max_repetitions && n.counter == counter && n.last == Some(call)
                    && n.stats@ == bump_stats(m.stats@, call.name)
                &&& allowed_count(m.max_repetitions, counter) ==> (r matches
                    DispatchDecision::Execute(k) && k == spec_classify(
                    call.name@,
                    old(self).frontend_tools@,
                ))
                &&& !allowed_count(m.max_repetitions, counter) ==> (r matches
                    DispatchDecision::Rejected(e) && (e matches ToolError::ExecutionError(t) && t@
                    == repetition_rejected_text()))
            }),
    {
        let kind = classify(call.name.as_str(), &self.frontend_tools);
        match &mut self.tool_monitor {
            Some(m) => {
                if m.check_tool_call(call) {
                    DispatchDecision::Execute(kind)
                } else {
                    DispatchDecision::Rejected(
                        ToolError::ExecutionError(
                            String::from_str(
                                "Tool call rejected: exceeded maximum allowed repetitions",
                            ),
                        ),
                    )
                }
            },
            None => DispatchDecision::Execute(kind),
        }
    }
}

impl Default for Agent {
    fn default() -> (r: Agent)
        ensures
            agent_wf(r),
            r.frontend_tools@.len() == 0,
            r.frontend_instructions is None,
            r.tool_monitor is None,
            r.permission_store.entries@.len() == 0,
    {
        Agent::new()
    }
}

pub const DEFAULT_FRONTEND_INSTRUCTIONS: &'static str =
    "The following tools are provided directly by the frontend and will be executed by the frontend when called.";

/// The instructions stored when a frontend extension brings none.
pub open spec fn default_frontend_instructions_text() -> Seq<char> {
    DEFAULT_FRONTEND_INSTRUCTIONS@
}

} // verus!
