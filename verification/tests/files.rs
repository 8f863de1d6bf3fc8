use agent_engine::file_ops::FileOperations;
use agent_engine::file_ops::FileStore;
use agent_engine::version_control::Change;
use agent_engine::version_control::ChangeType;

fn change_of_kind(kind: ChangeType) -> Change {
    Change {
        id: String::from("c-1"),
        timestamp: 1,
        agent_id: String::from("agent-1"),
        agent_type: String::from("UIAgent"),
        file_path: String::from("page.html"),
        change_type: kind,
        before: String::from("before content"),
        after: String::from("after content"),
        metadata: Vec::new(),
        evaluation_score: None,
    }
}

#[test]
fn store_reads_back_what_was_written() {
    let mut store = FileStore::new();
    store.write_file("a.txt", "one");
    store.write_file("b.txt", "two");
    assert_eq!(store.read_file("a.txt").unwrap(), "one");
    assert_eq!(store.read_file("b.txt").unwrap(), "two");
    store.write_file("a.txt", "three");
    assert_eq!(store.read_file("a.txt").unwrap(), "three");
    assert_eq!(store.read_file("b.txt").unwrap(), "two");
}

#[test]
fn missing_files_report_an_error() {
    let mut store = FileStore::new();
    let err = store.read_file("ghost.txt").unwrap_err();
    assert_eq!(err, "Failed to read file ghost.txt");
    store.write_file("real.txt", "x");
    store.remove_file("real.txt");
    assert!(store.read_file("real.txt").is_err());
}

#[test]
fn applying_writes_and_deleting_removes() {
    let mut store = FileStore::new();
    FileOperations::apply_change(&change_of_kind(ChangeType::Modify), &mut store);
    assert_eq!(store.read_file("page.html").unwrap(), "after content");
    FileOperations::apply_change(&change_of_kind(ChangeType::Delete), &mut store);
    assert!(store.read_file("page.html").is_err());
}

#[test]
fn rollback_restores_content_for_replacing_kinds() {
    for kind in [
        ChangeType::Modify,
        ChangeType::Optimize,
        ChangeType::AddFeature,
        ChangeType::UpdateContent,
        ChangeType::UpdateStyle,
    ] {
        let mut store = FileStore::new();
        let change = change_of_kind(kind);
        FileOperations::apply_change(&change, &mut store);
        FileOperations::rollback_change(&change, &mut store);
        assert_eq!(store.read_file("page.html").unwrap(), "before content");
    }
}

#[test]
fn rollback_removes_created_files() {
    for kind in [ChangeType::Create, ChangeType::AddImage, ChangeType::AddModule] {
        let mut store = FileStore::new();
        let change = change_of_kind(kind);
        FileOperations::apply_change(&change, &mut store);
        FileOperations::rollback_change(&change, &mut store);
        assert!(store.read_file("page.html").is_err());
    }
}

#[test]
fn rollback_restores_deleted_files() {
    let mut store = FileStore::new();
    let change = change_of_kind(ChangeType::Delete);
    FileOperations::apply_change(&change, &mut store);
    assert!(store.read_file("page.html").is_err());
    FileOperations::rollback_change(&change, &mut store);
    assert_eq!(store.read_file("page.html").unwrap(), "before content");
}

#[test]
fn created_changes_carry_fresh_provenance() {
    let c = FileOperations::create_change(
        "agent-9",
        "ContentAgent",
        String::from("blog.html"),
        ChangeType::Create,
        String::from(""),
        String::from("hello"),
    );
    assert_eq!(c.id.len(), 36);
    assert_eq!(c.agent_id, "agent-9");
    assert_eq!(c.agent_type, "ContentAgent");
    assert_eq!(c.file_path, "blog.html");
    assert_eq!(c.before, "");
    assert_eq!(c.after, "hello");
    assert!(c.metadata.is_empty());
    assert!(c.evaluation_score.is_none());
    let d = FileOperations::create_change(
        "agent-9",
        "ContentAgent",
        String::from("blog.html"),
        ChangeType::Create,
        String::from(""),
        String::from("hello"),
    );
    assert_ne!(c.id, d.id);
}
