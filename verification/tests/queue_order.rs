use agent_engine::agents::AgentTask;
use agent_engine::agents::AgentType;
use agent_engine::task_queue::TaskQueue;

fn task(id: &str, agent_type: AgentType, priority: u8, created_at: i64) -> AgentTask {
    AgentTask {
        id: String::from(id),
        agent_type,
        priority,
        description: String::from("work"),
        target_file: None,
        parameters: Vec::new(),
        created_at,
    }
}

#[test]
fn unfiltered_dequeue_returns_highest_priority() {
    let mut q = TaskQueue::new();
    q.add_task(task("low", AgentType::UIAgent, 2, 10));
    q.add_task(task("high", AgentType::ContentAgent, 9, 30));
    q.add_task(task("mid", AgentType::UIAgent, 5, 20));
    let first = q.get_next_task(None).unwrap();
    assert_eq!(first.id, "high");
    let second = q.get_next_task(None).unwrap();
    assert_eq!(second.id, "mid");
    let third = q.get_next_task(None).unwrap();
    assert_eq!(third.id, "low");
    assert!(q.get_next_task(None).is_none());
}

#[test]
fn equal_priorities_resolve_by_earliest_creation() {
    let mut q = TaskQueue::new();
    q.add_task(task("later", AgentType::UIAgent, 5, 200));
    q.add_task(task("earlier", AgentType::UIAgent, 5, 100));
    let first = q.get_next_task(None).unwrap();
    assert_eq!(first.id, "earlier");
    let second = q.get_next_task(None).unwrap();
    assert_eq!(second.id, "later");
}

#[test]
fn filtered_dequeue_only_returns_matching_category() {
    let mut q = TaskQueue::new();
    q.add_task(task("ui", AgentType::UIAgent, 9, 10));
    q.add_task(task("content", AgentType::ContentAgent, 1, 20));
    let got = q.get_next_task(Some(AgentType::ContentAgent)).unwrap();
    assert_eq!(got.id, "content");
    assert_eq!(got.agent_type, AgentType::ContentAgent);
    assert!(q.get_next_task(Some(AgentType::ContentAgent)).is_none());
    assert_eq!(q.get_queue_size(), 1);
}

#[test]
fn filtered_dequeue_preserves_order_of_skipped_tasks() {
    let mut q = TaskQueue::new();
    q.add_task(task("a", AgentType::UIAgent, 5, 100));
    q.add_task(task("b", AgentType::UIAgent, 5, 200));
    q.add_task(task("other", AgentType::FeatureAgent, 7, 50));
    let skipped = q.get_next_task(Some(AgentType::FeatureAgent)).unwrap();
    assert_eq!(skipped.id, "other");
    let first = q.get_next_task(None).unwrap();
    assert_eq!(first.id, "a");
    let second = q.get_next_task(None).unwrap();
    assert_eq!(second.id, "b");
}

#[test]
fn completed_log_grows_and_clears() {
    let mut q = TaskQueue::new();
    assert_eq!(q.get_completed_count(), 0);
    q.mark_completed(task("done-1", AgentType::UIAgent, 3, 1));
    q.mark_completed(task("done-1", AgentType::UIAgent, 3, 1));
    assert_eq!(q.get_completed_count(), 2);
    q.clear_completed();
    assert_eq!(q.get_completed_count(), 0);
}
