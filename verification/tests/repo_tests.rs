use pr_grader::file_task_manager::{FileTaskRepository, TaskRepository};
use pr_grader::task::Task;

fn task(id: &str) -> Task {
    Task {
        id: String::from(id),
        name: String::from("name"),
        description: String::from("desc"),
        test_path: String::from("tasks/fixtures"),
    }
}

#[test]
fn fresh_repository_needs_loading() {
    let repo = FileTaskRepository::new(String::from("tasks/tasks.json"));
    assert!(repo.needs_load());
    assert_eq!(repo.file_path(), "tasks/tasks.json");
}

#[test]
fn installed_catalog_is_served_unchanged() {
    let mut repo = FileTaskRepository::new(String::from("tasks/tasks.json"));
    repo.set_tasks(vec![task("t1"), task("t2")]);
    assert!(!repo.needs_load());
    let all = repo.get_all();
    assert_eq!(all.len(), 2);
    assert_eq!(all[0].id, "t1");
    assert_eq!(all[1].id, "t2");
}

#[test]
fn empty_catalog_counts_as_loaded() {
    let mut repo = FileTaskRepository::new(String::from("tasks/tasks.json"));
    repo.set_tasks(Vec::new());
    assert!(!repo.needs_load());
    assert_eq!(repo.get_all().len(), 0);
}
