//! Agent categories, tasks, results, and the capability interface that
//! change-producing agents implement.

use vstd::prelude::*;
use vstd::string::StringExecFns;
use crate::ids::now_millis;
use crate::ids::stamped_label;
use crate::text::spec_decimal_i64;

verus! {

/// The categories of work an agent can take on.
#[derive(Debug, Clone, Copy, PartialEq, Eq, Structural)]
pub enum AgentType {
    UIAgent,
    PerformanceAgent,
    ContentAgent,
    FeatureAgent,
    SecurityAgent,
    AccessibilityAgent,
    SEOAgent,
    DesignAgent,
}

/// A unit of requested work.  Priority runs from 1 to 10, higher being more
/// urgent; `created_at` is a timestamp in milliseconds.
#[derive(Debug, Clone)]
pub struct AgentTask {
    pub id: String,
    pub agent_type: AgentType,
    pub priority: u8,
    pub description: String,
    pub target_file: Option<String>,
    pub parameters: Vec<(String, String)>,
    pub created_at: i64,
}

/// What an agent reports after working on a task.  `changes` holds the
/// identifiers of the ledger entries the agent produced; `metrics` holds
/// named readings in hundredths of a unit.
#[derive(Debug, Clone)]
pub struct AgentResult {
    pub task_id: String,
    pub agent_id: String,
    pub success: bool,
    pub changes: Vec<String>,
    pub message: String,
    pub metrics: Vec<(String, i64)>,
}

/// The result a stub agent reports: success, no changes, a fixed message.
pub open spec fn stub_result(r: AgentResult, task: AgentTask, agent_id: Seq<char>, msg: Seq<char>) -> bool {
    &&& r.task_id@ == task.id@
    &&& r.agent_id@ == agent_id
    &&& r.success
    &&& r.changes@.len() == 0
    &&& r.message@ == msg
    &&& r.metrics@.len() == 0
}

/// The capability interface for change-producing agents.
pub trait Agent: Sized {
    /// The category this agent serves.
    spec fn spec_type(&self) -> AgentType;

    /// This agent's identifier.
    spec fn spec_id(&self) -> Seq<char>;

    /// What this agent promises of the outcome of a task.
    spec fn execute_ensures(&self, task: AgentTask, r: Result<AgentResult, String>) -> bool;

    fn get_type(&self) -> (t: AgentType)
        ensures
            t == self.spec_type(),
    ;

    fn get_id(&self) -> (id: &str)
        ensures
            id@ == self.spec_id(),
    ;

    fn can_handle(&self, task: &AgentTask) -> (b: bool)
        ensures
            b == (task.agent_type == self.spec_type()),
    ;

    fn execute_task(&self, task: &AgentTask, base_path: &str) -> (r: Result<AgentResult, String>)
        ensures
            self.execute_ensures(*task, r),
    ;
}

/// An agent for user-interface work; a placeholder that reports success
/// without producing changes.
pub struct UIAgent {
    pub id: String,
}

impl UIAgent {
    pub fn new() -> (a: UIAgent)
        ensures
            exists|t: int| a.spec_id() == "ui-agent-"@ + spec_decimal_i64(t),
    {
        let stamp = now_millis();
        UIAgent { id: stamped_label("ui-agent-", stamp) }
    }
}

impl Agent for UIAgent {
    open spec fn spec_type(&self) -> AgentType {
        AgentType::UIAgent
    }

    open spec fn spec_id(&self) -> Seq<char> {
        self.id@
    }

    open spec fn execute_ensures(&self, task: AgentTask, r: Result<AgentResult, String>) -> bool {
        r is Ok && stub_result(r->Ok_0, task, self.id@, "UI improvements applied"@)
    }

    fn get_type(&self) -> (t: AgentType) {
        AgentType::UIAgent
    }

    fn get_id(&self) -> (id: &str) {
        self.id.as_str()
    }

    fn can_handle(&self, task: &AgentTask) -> (b: bool) {
        task.agent_type == AgentType::UIAgent
    }

    fn execute_task(&self, task: &AgentTask, base_path: &str) -> (r: Result<AgentResult, String>) {
        Ok(AgentResult {
            task_id: task.id.clone(),
            agent_id: self.id.clone(),
            success: true,
            changes: Vec::new(),
            message: String::from_str("UI improvements applied"),
            metrics: Vec::new(),
        })
    }
}

/// An agent for performance work; a placeholder that reports success
/// without producing changes.
pub struct PerformanceAgent {
    pub id: String,
}

impl PerformanceAgent {
    pub fn new() -> (a: PerformanceAgent)
        ensures
            exists|t: int| a.spec_id() == "perf-agent-"@ + spec_decimal_i64(t),
    {
        let stamp = now_millis();
        PerformanceAgent { id: stamped_label("perf-agent-", stamp) }
    }
}

impl Agent for PerformanceAgent {
    open spec fn spec_type(&self) -> AgentType {
        AgentType::PerformanceAgent
    }

    open spec fn spec_id(&self) -> Seq<char> {
        self.id@
    }

    open spec fn execute_ensures(&self, task: AgentTask, r: Result<AgentResult, String>) -> bool {
        r is Ok && stub_result(r->Ok_0, task, self.id@, "Performance optimizations applied"@)
    }

    fn get_type(&self) -> (t: AgentType) {
        AgentType::PerformanceAgent
    }

    fn get_id(&self) -> (id: &str) {
        self.id.as_str()
    }

    fn can_handle(&self, task: &AgentTask) -> (b: bool) {
        task.agent_type == AgentType::PerformanceAgent
    }

    fn execute_task(&self, task: &AgentTask, base_path: &str) -> (r: Result<AgentResult, String>) {
        Ok(AgentResult {
            task_id: task.id.clone(),
            agent_id: self.id.clone(),
            success: true,
            changes: Vec::new(),
            message: String::from_str("Performance optimizations applied"),
            metrics: Vec::new(),
        })
    }
}

/// An agent for content work; a placeholder that reports success without
/// producing changes.
pub struct ContentAgent {
    pub id: String,
}

impl ContentAgent {
    pub fn new() -> (a: ContentAgent)
        ensures
            exists|t: int| a.spec_id() == "content-agent-"@ + spec_decimal_i64(t),
    {
        let stamp = now_millis();
        ContentAgent { id: stamped_label("content-agent-", stamp) }
    }
}

impl Agent for ContentAgent {
    open spec fn spec_type(&self) -> AgentType {
        AgentType::ContentAgent
    }

    open spec fn spec_id(&self) -> Seq<char> {
        self.id@
    }

    open spec fn execute_ensures(&self, task: AgentTask, r: Result<AgentResult, String>) -> bool {
        r is Ok && stub_result(r->Ok_0, task, self.id@, "Content updated"@)
    }

    fn get_type(&self) -> (t: AgentType) {
        AgentType::ContentAgent
    }

    fn get_id(&self) -> (id: &str) {
        self.id.as_str()
    }

    fn can_handle(&self, task: &AgentTask) -> (b: bool) {
        task.agent_type == AgentType::ContentAgent
    }

    fn execute_task(&self, task: &AgentTask, base_path: &str) -> (r: Result<AgentResult, String>) {
        Ok(AgentResult {
            task_id: task.id.clone(),
            agent_id: self.id.clone(),
            success: true,
            changes: Vec::new(),
            message: String::from_str("Content updated"),
            metrics: Vec::new(),
        })
    }
}

/// An agent for feature work; a placeholder that reports success without
/// producing changes.
pub struct FeatureAgent {
    pub id: String,
}

impl FeatureAgent {
    pub fn new() -> (a: FeatureAgent)
        ensures
            exists|t: int| a.spec_id() == "feature-agent-"@ + spec_decimal_i64(t),
    {
        let stamp = now_millis();
        FeatureAgent { id: stamped_label("feature-agent-", stamp) }
    }
}

impl Agent for FeatureAgent {
    open spec fn spec_type(&self) -> AgentType {
        AgentType::FeatureAgent
    }

    open spec fn spec_id(&self) -> Seq<char> {
        self.id@
    }

    open spec fn execute_ensures(&self, task: AgentTask, r: Result<AgentResult, String>) -> bool {
        r is Ok && stub_result(r->Ok_0, task, self.id@, "New feature implemented"@)
    }

    fn get_type(&self) -> (t: AgentType) {
        AgentType::FeatureAgent
    }

    fn get_id(&self) -> (id: &str) {
        self.id.as_str()
    }

    fn can_handle(&self, task: &AgentTask) -> (b: bool) {
        task.agent_type == AgentType::FeatureAgent
    }

    fn execute_task(&self, task: &AgentTask, base_path: &str) -> (r: Result<AgentResult, String>) {
        Ok(AgentResult {
            task_id: task.id.clone(),
            agent_id: self.id.clone(),
            success: true,
            changes: Vec::new(),
            message: String::from_str("New feature implemented"),
            metrics: Vec::new(),
        })
    }
}

/// An agent that always reports a fixed outcome: the given success flag,
/// change identifiers and message, or a scripted execution failure.
/// Useful as a stand-in when exercising the orchestrator, including its
/// per-category failure boundary.
pub struct ScriptedAgent {
    pub id: String,
    pub agent_type: AgentType,
    pub success: bool,
    pub changes: Vec<String>,
    pub message: String,
    pub error: Option<String>,
}

impl ScriptedAgent {
    pub fn new(
        id: String,
        agent_type: AgentType,
        success: bool,
        changes: Vec<String>,
        message: String,
        error: Option<String>,
    ) -> (a: ScriptedAgent)
        ensures
            a.id == id,
            a.agent_type == agent_type,
            a.success == success,
            a.changes == changes,
            a.message == message,
            a.error == error,
    {
        ScriptedAgent { id, agent_type, success, changes, message, error }
    }
}

impl Agent for ScriptedAgent {
    open spec fn spec_type(&self) -> AgentType {
        self.agent_type
    }

    open spec fn spec_id(&self) -> Seq<char> {
        self.id@
    }

    open spec fn execute_ensures(&self, task: AgentTask, r: Result<AgentResult, String>) -> bool {
        match self.error {
            Some(msg) => r is Err && r->Err_0@ == msg@,
            None => {
                &&& r is Ok
                &&& r->Ok_0.task_id@ == task.id@
                &&& r->Ok_0.agent_id@ == self.id@
                &&& r->Ok_0.success == self.success
                &&& r->Ok_0.changes@ == self.changes@
                &&& r->Ok_0.message@ == self.message@
                &&& r->Ok_0.metrics@.len() == 0
            },
        }
    }

    fn get_type(&self) -> (t: AgentType) {
        self.agent_type
    }

    fn get_id(&self) -> (id: &str) {
        self.id.as_str()
    }

    fn can_handle(&self, task: &AgentTask) -> (b: bool) {
        task.agent_type == self.agent_type
    }

    fn execute_task(&self, task: &AgentTask, base_path: &str) -> (r: Result<AgentResult, String>) {
        match &self.error {
            Option::Some(msg) => Err(msg.clone()),
            Option::None => Ok(AgentResult {
                task_id: task.id.clone(),
                agent_id: self.id.clone(),
                success: self.success,
                changes: clone_strings(&self.changes),
                message: self.message.clone(),
                metrics: Vec::new(),
            }),
        }
    }
}

/// Copies a vector of strings; the copy holds equal strings in the same
/// order.
pub fn clone_strings(v: &Vec<String>) -> (r: Vec<String>)
    ensures
        r@ == v@,
{
    let mut r: Vec<String> = Vec::new();
    let mut i: usize = 0;
    while i < v.len()
        invariant
            i <= v.len(),
            r@ == v@.take(i as int),
        decreases v.len() - i,
    {
        r.push(v[i].clone());
        proof {
            assert(r@ =~= v@.take(i + 1));
        }
        i += 1;
    }
    proof {
        assert(v@.take(v@.len() as int) =~= v@);
    }
    r
}

} // verus!
