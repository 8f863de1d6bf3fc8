use agent_engine::version_control::Change;
use agent_engine::version_control::ChangeType;
use agent_engine::version_control::VersionControl;

fn change(id: &str, timestamp: i64, score: Option<u32>) -> Change {
    Change {
        id: String::from(id),
        timestamp,
        agent_id: String::from("agent-1"),
        agent_type: String::from("UIAgent"),
        file_path: String::from("index.html"),
        change_type: ChangeType::Modify,
        before: String::from("old content"),
        after: String::from("new content"),
        metadata: Vec::new(),
        evaluation_score: score,
    }
}

#[test]
fn record_then_get_round_trips() {
    let mut vc = VersionControl::new(String::from("site"));
    let c = change("c-1", 42, Some(77));
    let id = vc.record_change(c.clone());
    assert_eq!(id, "c-1");
    let got = vc.get_change("c-1").unwrap();
    assert_eq!(got.id, c.id);
    assert_eq!(got.timestamp, c.timestamp);
    assert_eq!(got.agent_id, c.agent_id);
    assert_eq!(got.agent_type, c.agent_type);
    assert_eq!(got.file_path, c.file_path);
    assert_eq!(got.before, c.before);
    assert_eq!(got.after, c.after);
    assert_eq!(got.evaluation_score, c.evaluation_score);
}

#[test]
fn record_with_same_id_overwrites() {
    let mut vc = VersionControl::new(String::from("site"));
    vc.record_change(change("c-1", 1, None));
    vc.record_change(change("c-2", 2, None));
    vc.record_change(change("c-1", 1, Some(30)));
    assert_eq!(vc.get_all_changes().len(), 2);
    assert_eq!(vc.get_change("c-1").unwrap().evaluation_score, Some(30));
}

#[test]
fn missing_change_is_not_found() {
    let vc = VersionControl::new(String::from("site"));
    assert!(vc.get_change("ghost").is_none());
    let err = vc.rollback_change("ghost").unwrap_err();
    assert_eq!(err, "Change ghost not found");
}

#[test]
fn snapshot_includes_unscored_and_high_scores_only() {
    let mut vc = VersionControl::new(String::from("site"));
    vc.record_change(change("none", 1, None));
    vc.record_change(change("low", 2, Some(30)));
    vc.record_change(change("half", 3, Some(50)));
    vc.record_change(change("just-over", 4, Some(51)));
    vc.record_change(change("high", 5, Some(90)));
    let version_id = vc.create_snapshot(String::from("checkpoint"));
    let history = vc.get_version_history();
    let snap = history.last().unwrap();
    assert_eq!(snap.version_id, version_id);
    assert_eq!(snap.changes, vec![
        String::from("none"),
        String::from("just-over"),
        String::from("high"),
    ]);
    assert_eq!(snap.total_files_changed, 3);
    assert_eq!(snap.description, "checkpoint");
    assert_eq!(vc.get_current_version(), version_id);
}

#[test]
fn rollback_to_version_returns_named_changes() {
    let mut vc = VersionControl::new(String::from("site"));
    vc.record_change(change("keep-me", 1, None));
    vc.record_change(change("drop-me", 2, Some(10)));
    let version_id = vc.create_snapshot(String::from("point"));
    let restored = vc.rollback_to_version(&version_id).unwrap();
    assert_eq!(restored.len(), 1);
    assert_eq!(restored[0].id, "keep-me");
    let err = vc.rollback_to_version("v-unknown").unwrap_err();
    assert_eq!(err, "Version v-unknown not found");
}

#[test]
fn rollback_lookup_is_idempotent() {
    let mut vc = VersionControl::new(String::from("site"));
    vc.record_change(change("c-1", 9, Some(20)));
    let first = vc.rollback_change("c-1").unwrap();
    let second = vc.rollback_change("c-1").unwrap();
    assert_eq!(first.id, second.id);
    assert_eq!(first.before, second.before);
    assert_eq!(first.after, second.after);
    assert_eq!(first.evaluation_score, second.evaluation_score);
}

#[test]
fn recent_changes_are_newest_first_and_truncated() {
    let mut vc = VersionControl::new(String::from("site"));
    vc.record_change(change("oldest", 10, None));
    vc.record_change(change("newest", 30, None));
    vc.record_change(change("middle", 20, None));
    let recent = vc.get_recent_changes(2);
    assert_eq!(recent.len(), 2);
    assert_eq!(recent[0].id, "newest");
    assert_eq!(recent[1].id, "middle");
    let all = vc.get_recent_changes(10);
    assert_eq!(all.len(), 3);
    assert_eq!(all[2].id, "oldest");
}
