//! A coordination engine for autonomous change-producing agents.
//!
//! The library covers four subsystems: a prioritized task queue, a change
//! ledger with version snapshots and rollback lookup, an evaluation policy that
//! scores changes and decides whether to keep them, and an orchestrator that
//! ties them together one tick at a time.  Scores are held in hundredths of
//! a unit (0..=100) and timestamps in milliseconds, so every rule is exact.

pub mod agents;
pub mod evaluator;
pub mod file_ops;
pub mod ids;
pub mod orchestrator;
pub mod task_queue;
pub mod text;
pub mod version_control;

pub use agents::Agent;
pub use agents::AgentResult;
pub use agents::AgentTask;
pub use agents::AgentType;
pub use evaluator::ChangeEvaluator;
pub use evaluator::EvaluationResult;
pub use file_ops::FileOperations;
pub use file_ops::FileStore;
pub use orchestrator::AgentOrchestrator;
pub use orchestrator::OrchestratorStats;
pub use orchestrator::RegisteredAgent;
pub use task_queue::TaskQueue;
pub use text::contains_sub;
pub use text::count_char;
pub use text::decimal_string;
pub use text::decimal_string_i64;
pub use version_control::Change;
pub use version_control::ChangeType;
pub use version_control::VersionControl;
pub use version_control::VersionSnapshot;
