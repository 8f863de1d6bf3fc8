use agent_engine::agents::Agent;
use agent_engine::agents::AgentTask;
use agent_engine::agents::AgentType;
use agent_engine::agents::ContentAgent;
use agent_engine::agents::FeatureAgent;
use agent_engine::agents::PerformanceAgent;
use agent_engine::agents::ScriptedAgent;
use agent_engine::agents::UIAgent;

fn sample_task(agent_type: AgentType) -> AgentTask {
    AgentTask {
        id: String::from("t-1"),
        agent_type,
        priority: 5,
        description: String::from("work"),
        target_file: None,
        parameters: Vec::new(),
        created_at: 10,
    }
}

#[test]
fn placeholder_agents_answer_for_their_category() {
    let ui = UIAgent::new();
    assert_eq!(ui.get_type(), AgentType::UIAgent);
    assert!(ui.get_id().starts_with("ui-agent-"));
    assert!(ui.can_handle(&sample_task(AgentType::UIAgent)));
    assert!(!ui.can_handle(&sample_task(AgentType::ContentAgent)));
    let perf = PerformanceAgent::new();
    assert_eq!(perf.get_type(), AgentType::PerformanceAgent);
    assert!(perf.get_id().starts_with("perf-agent-"));
    let content = ContentAgent::new();
    assert_eq!(content.get_type(), AgentType::ContentAgent);
    assert!(content.get_id().starts_with("content-agent-"));
    let feature = FeatureAgent::new();
    assert_eq!(feature.get_type(), AgentType::FeatureAgent);
    assert!(feature.get_id().starts_with("feature-agent-"));
}

#[test]
fn placeholder_agents_report_success_without_changes() {
    let ui = UIAgent::new();
    let task = sample_task(AgentType::UIAgent);
    let result = ui.execute_task(&task, "site").unwrap();
    assert_eq!(result.task_id, "t-1");
    assert_eq!(result.agent_id, ui.get_id());
    assert!(result.success);
    assert!(result.changes.is_empty());
    assert_eq!(result.message, "UI improvements applied");
    assert!(result.metrics.is_empty());
}

#[test]
fn scripted_agents_report_their_script() {
    let agent = ScriptedAgent::new(
        String::from("stub-7"),
        AgentType::FeatureAgent,
        false,
        vec![String::from("c-1"), String::from("c-2")],
        String::from("did two things"),
        None,
    );
    assert_eq!(agent.get_type(), AgentType::FeatureAgent);
    assert!(agent.can_handle(&sample_task(AgentType::FeatureAgent)));
    let result = agent.execute_task(&sample_task(AgentType::FeatureAgent), "site").unwrap();
    assert_eq!(result.task_id, "t-1");
    assert_eq!(result.agent_id, "stub-7");
    assert!(!result.success);
    assert_eq!(result.changes, vec![String::from("c-1"), String::from("c-2")]);
    assert_eq!(result.message, "did two things");
}

#[test]
fn scripted_agents_can_fail_on_demand() {
    let agent = ScriptedAgent::new(
        String::from("stub-8"),
        AgentType::UIAgent,
        true,
        Vec::new(),
        String::new(),
        Some(String::from("out of order")),
    );
    let err = agent
        .execute_task(&sample_task(AgentType::UIAgent), "site")
        .unwrap_err();
    assert_eq!(err, "out of order");
}
