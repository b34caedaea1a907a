use todo_list::task::TaskStatus;
use todo_list::task_list::TaskList;

#[test]
fn ids_increase_by_one_from_one() {
    let mut list = TaskList::new();
    assert_eq!(list.add_task("a".to_string()), 1);
    assert_eq!(list.add_task("b".to_string()), 2);
    assert_eq!(list.add_task("c".to_string()), 3);
    assert_eq!(list.next_id, 4);
}

#[test]
fn ids_are_never_reused_after_delete() {
    let mut list = TaskList::new();
    assert_eq!(list.add_task("a".to_string()), 1);
    assert_eq!(list.add_task("b".to_string()), 2);
    assert!(list.delete_task(2));
    assert!(list.delete_task(1));
    assert!(list.get_tasks().is_empty());
    assert_eq!(list.add_task("c".to_string()), 3);
    assert_eq!(list.add_task("d".to_string()), 4);
}

#[test]
fn complete_on_missing_id_changes_nothing() {
    let mut list = TaskList::new();
    list.add_task("a".to_string());
    list.add_task("b".to_string());
    let before = list.clone();
    assert!(!list.complete_task(99));
    assert_eq!(list, before);
}

#[test]
fn suspend_on_missing_id_changes_nothing() {
    let mut list = TaskList::new();
    list.add_task("a".to_string());
    let before = list.clone();
    assert!(!list.suspend_task(0));
    assert_eq!(list, before);
}

#[test]
fn delete_removes_exactly_one_and_keeps_order() {
    let mut list = TaskList::new();
    list.add_task("a".to_string());
    list.add_task("b".to_string());
    list.add_task("c".to_string());
    list.add_task("d".to_string());
    assert!(list.delete_task(2));
    let tasks = list.get_tasks();
    assert_eq!(tasks.len(), 3);
    assert_eq!(tasks[0].id(), 1);
    assert_eq!(tasks[1].id(), 3);
    assert_eq!(tasks[2].id(), 4);
    assert_eq!(tasks[0].description, "a");
    assert_eq!(tasks[1].description, "c");
    assert_eq!(tasks[2].description, "d");
}

#[test]
fn delete_on_missing_id_changes_nothing() {
    let mut list = TaskList::new();
    list.add_task("a".to_string());
    let before = list.clone();
    assert!(!list.delete_task(7));
    assert_eq!(list, before);
}

#[test]
fn complete_and_suspend_set_statuses() {
    let mut list = TaskList::new();
    list.add_task("a".to_string());
    list.add_task("b".to_string());
    assert!(list.complete_task(1));
    assert!(list.suspend_task(2));
    let tasks = list.get_tasks();
    assert_eq!(tasks[0].status, TaskStatus::Completed);
    assert!(tasks[0].is_completed());
    assert_eq!(tasks[1].status, TaskStatus::Suspended);
    assert!(!tasks[1].is_completed());
}

#[test]
fn transitions_are_unconstrained() {
    let mut list = TaskList::new();
    list.add_task("a".to_string());
    assert!(list.complete_task(1));
    assert!(list.suspend_task(1));
    assert_eq!(list.get_tasks()[0].status, TaskStatus::Suspended);
    assert!(list.complete_task(1));
    assert!(list.complete_task(1));
    assert_eq!(list.get_tasks()[0].status, TaskStatus::Completed);
}

#[test]
fn complete_leaves_completed_at_unset() {
    let mut list = TaskList::new();
    list.add_task("a".to_string());
    assert!(list.complete_task(1));
    assert_eq!(list.get_tasks()[0].completed_at, None);
}

#[test]
fn full_scenario() {
    let mut list = TaskList::new();
    assert_eq!(list.add_task("Buy milk".to_string()), 1);
    assert_eq!(list.add_task("Walk dog".to_string()), 2);
    assert!(list.complete_task(1));
    {
        let tasks = list.get_tasks();
        assert_eq!(tasks.len(), 2);
        assert_eq!(tasks[0].id(), 1);
        assert_eq!(tasks[0].status, TaskStatus::Completed);
        assert_eq!(tasks[0].description, "Buy milk");
        assert_eq!(tasks[1].id(), 2);
        assert_eq!(tasks[1].status, TaskStatus::Pending);
        assert_eq!(tasks[1].description, "Walk dog");
    }
    assert!(list.delete_task(1));
    {
        let tasks = list.get_tasks();
        assert_eq!(tasks.len(), 1);
        assert_eq!(tasks[0].id(), 2);
    }
    assert!(!list.complete_task(1));
}

#[test]
fn new_list_has_default_name() {
    let list = TaskList::new();
    assert_eq!(list.name, "Task List");
    assert!(list.get_tasks().is_empty());
    assert_eq!(list.next_id, 1);
}

#[test]
fn task_methods_set_status_and_keep_the_rest() {
    let mut t = todo_list::task::Task::new(1, "x".to_string());
    let created = t.created_at.clone();
    t.suspend();
    assert_eq!(t.status, TaskStatus::Suspended);
    t.complete();
    assert_eq!(t.status, TaskStatus::Completed);
    assert!(t.is_completed());
    assert_eq!(t.id(), 1);
    assert_eq!(t.description, "x");
    assert_eq!(t.created_at, created);
    assert_eq!(t.completed_at, None);
}

#[test]
fn task_new_is_pending() {
    let t = todo_list::task::Task::new(5, "x".to_string());
    assert_eq!(t.id(), 5);
    assert_eq!(t.description, "x");
    assert_eq!(t.status, TaskStatus::Pending);
    assert_eq!(t.completed_at, None);
    assert!(!t.is_completed());
}
