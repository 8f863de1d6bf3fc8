use agent_engine::agents::AgentTask;
use agent_engine::agents::AgentType;
use agent_engine::agents::ScriptedAgent;
use agent_engine::file_ops::FileOperations;
use agent_engine::file_ops::FileStore;
use agent_engine::orchestrator::AgentOrchestrator;
use agent_engine::orchestrator::RegisteredAgent;
use agent_engine::version_control::Change;
use agent_engine::version_control::ChangeType;

fn bad_change(id: &str, path: &str) -> Change {
    // Scores 53 overall: aesthetic 50, functionality 55 (no raw-HTML
    // injection, unbalanced brace, leftover console.log), below the
    // threshold of 60.
    Change {
        id: String::from(id),
        timestamp: 1,
        agent_id: String::from("stub"),
        agent_type: String::from("stub"),
        file_path: String::from(path),
        change_type: ChangeType::Modify,
        before: String::from("ORIGINAL"),
        after: String::from("console.log{"),
        metadata: Vec::new(),
        evaluation_score: None,
    }
}

fn task_for(id: &str, agent_type: AgentType) -> AgentTask {
    AgentTask {
        id: String::from(id),
        agent_type,
        priority: 5,
        description: String::from("improve"),
        target_file: None,
        parameters: Vec::new(),
        created_at: 100,
    }
}

fn stub(id: &str, agent_type: AgentType, change_id: &str) -> RegisteredAgent {
    RegisteredAgent::Scripted(ScriptedAgent::new(
        String::from(id),
        agent_type,
        true,
        vec![String::from(change_id)],
        String::from("stub change applied"),
        None,
    ))
}

fn failing_stub(id: &str, agent_type: AgentType) -> RegisteredAgent {
    RegisteredAgent::Scripted(ScriptedAgent::new(
        String::from(id),
        agent_type,
        false,
        Vec::new(),
        String::new(),
        Some(String::from("agent broke down")),
    ))
}

#[test]
fn rejected_changes_are_recorded_scored_and_rolled_back() {
    let categories = [
        (AgentType::UIAgent, "c-ui", "ui.html"),
        (AgentType::PerformanceAgent, "c-perf", "perf.js"),
        (AgentType::ContentAgent, "c-content", "content.html"),
        (AgentType::FeatureAgent, "c-feature", "feature.js"),
    ];
    let mut orchestrator = AgentOrchestrator::new(String::from("site"));
    let mut store = FileStore::new();
    for (agent_type, change_id, path) in categories.iter() {
        let change = bad_change(change_id, path);
        FileOperations::apply_change(&change, &mut store);
        orchestrator.get_version_control_mut().record_change(change);
        orchestrator.register_agent(stub("stub-agent", *agent_type, change_id));
        orchestrator
            .get_task_queue_mut()
            .add_task(task_for(change_id, *agent_type));
    }
    assert_eq!(orchestrator.get_stats().agents_active, 4);
    // Before the tick the files hold the agents' rewritten content.
    for (_, _, path) in categories.iter() {
        assert_eq!(store.read_file(path).unwrap(), "console.log{");
    }

    let rollbacks = orchestrator.process_task_queue();

    assert_eq!(rollbacks.len(), 4);
    let stats = orchestrator.get_stats();
    assert_eq!(stats.total_tasks_executed, 4);
    assert_eq!(stats.rolled_back_changes, 4);
    // None of the changes was kept, so none counts as successful.
    assert_eq!(stats.successful_changes, 0);
    assert_eq!(stats.rollback_failures, 0);
    assert!(stats.last_activity.is_some());
    for (_, change_id, _) in categories.iter() {
        let recorded = orchestrator
            .get_version_control()
            .get_change(change_id)
            .unwrap();
        assert_eq!(recorded.evaluation_score, Some(53));
    }
    for target in rollbacks.iter() {
        assert_eq!(target.evaluation_score, Some(53));
        FileOperations::rollback_change(target, &mut store);
    }
    // Every file is back at its original before snapshot.
    for (_, _, path) in categories.iter() {
        assert_eq!(store.read_file(path).unwrap(), "ORIGINAL");
    }
}

#[test]
fn kept_changes_are_not_rolled_back() {
    let good_content = "var(-- @media transition quantum <section try async aria-";
    let mut orchestrator = AgentOrchestrator::new(String::from("site"));
    let change = Change {
        id: String::from("c-good"),
        timestamp: 1,
        agent_id: String::from("stub"),
        agent_type: String::from("stub"),
        file_path: String::from("good.css"),
        change_type: ChangeType::Modify,
        before: String::from(good_content),
        after: String::from(good_content),
        metadata: Vec::new(),
        evaluation_score: None,
    };
    orchestrator.get_version_control_mut().record_change(change);
    orchestrator.register_agent(stub("stub-agent", AgentType::UIAgent, "c-good"));
    orchestrator
        .get_task_queue_mut()
        .add_task(task_for("t-good", AgentType::UIAgent));
    let rollbacks = orchestrator.process_task_queue();
    assert!(rollbacks.is_empty());
    let stats = orchestrator.get_stats();
    assert_eq!(stats.rolled_back_changes, 0);
    assert_eq!(stats.total_tasks_executed, 1);
    assert_eq!(stats.successful_changes, 1);
    let recorded = orchestrator
        .get_version_control()
        .get_change("c-good")
        .unwrap();
    assert!(recorded.evaluation_score.unwrap() >= 60);
}

#[test]
fn one_failing_agent_does_not_stop_the_others() {
    let mut orchestrator = AgentOrchestrator::new(String::from("site"));
    orchestrator
        .get_version_control_mut()
        .record_change(bad_change("c-ui", "ui.html"));
    orchestrator.register_agent(failing_stub("broken", AgentType::PerformanceAgent));
    orchestrator.register_agent(stub("healthy", AgentType::UIAgent, "c-ui"));
    orchestrator
        .get_task_queue_mut()
        .add_task(task_for("t-perf", AgentType::PerformanceAgent));
    orchestrator
        .get_task_queue_mut()
        .add_task(task_for("t-ui", AgentType::UIAgent));
    let rollbacks = orchestrator.process_task_queue();
    // The failing category consumed its task without completing it; the
    // healthy category was still serviced and its change rolled back.
    assert_eq!(rollbacks.len(), 1);
    assert_eq!(rollbacks[0].id, "c-ui");
    let stats = orchestrator.get_stats();
    assert_eq!(stats.total_tasks_executed, 1);
    assert_eq!(stats.rolled_back_changes, 1);
    assert_eq!(orchestrator.get_task_queue().get_queue_size(), 0);
    assert_eq!(orchestrator.get_task_queue().get_completed_count(), 1);
}

#[test]
fn failed_disk_rollbacks_are_counted_separately() {
    let mut orchestrator = AgentOrchestrator::new(String::from("site"));
    assert_eq!(orchestrator.get_stats().rollback_failures, 0);
    orchestrator.record_rollback_failure();
    orchestrator.record_rollback_failure();
    let stats = orchestrator.get_stats();
    assert_eq!(stats.rollback_failures, 2);
    assert_eq!(stats.rolled_back_changes, 0);
}

#[test]
fn generated_tasks_come_out_by_priority() {
    let mut orchestrator = AgentOrchestrator::new(String::from("site"));
    orchestrator.generate_improvement_tasks();
    let queue = orchestrator.get_task_queue_mut();
    assert_eq!(queue.get_queue_size(), 6);
    let order: Vec<(AgentType, u8)> = (0..6)
        .map(|_| {
            let t = queue.get_next_task(None).unwrap();
            (t.agent_type, t.priority)
        })
        .collect();
    assert_eq!(order, vec![
        (AgentType::FeatureAgent, 8),
        (AgentType::PerformanceAgent, 7),
        (AgentType::UIAgent, 6),
        (AgentType::AccessibilityAgent, 6),
        (AgentType::ContentAgent, 5),
        (AgentType::SEOAgent, 5),
    ]);
}

#[test]
fn start_and_stop_flip_the_running_flag() {
    let mut orchestrator = AgentOrchestrator::new(String::from("site"));
    assert!(!orchestrator.is_running());
    orchestrator.start_continuous_improvement();
    assert!(orchestrator.is_running());
    orchestrator.stop();
    assert!(!orchestrator.is_running());
}

#[test]
fn categories_without_agents_are_skipped() {
    let mut orchestrator = AgentOrchestrator::new(String::from("site"));
    orchestrator
        .get_task_queue_mut()
        .add_task(task_for("t-ui", AgentType::UIAgent));
    let rollbacks = orchestrator.process_task_queue();
    assert!(rollbacks.is_empty());
    assert_eq!(orchestrator.get_stats().total_tasks_executed, 0);
    assert_eq!(orchestrator.get_task_queue().get_queue_size(), 1);
}
