use todo_tasks::{TaskRepository, ToDoApp, UiAction, UiEvent};

fn plain(repo: &TaskRepository) -> (Vec<(usize, String, bool)>, usize) {
    repo.snapshot()
}

fn task(id: usize, description: &str, completed: bool) -> (usize, String, bool) {
    (id, description.to_string(), completed)
}

fn with_three() -> TaskRepository {
    let mut repo = TaskRepository::new();
    repo.add_task("first".to_string());
    repo.add_task("second".to_string());
    repo.add_task("third".to_string());
    repo
}

#[test]
fn new_repository_is_empty() {
    let repo = TaskRepository::new();
    assert!(repo.tasks().is_empty());
    assert_eq!(repo.next_id(), 0);
}

#[test]
fn added_ids_increase_and_differ() {
    let repo = with_three();
    let ids: Vec<usize> = repo.tasks().iter().map(|t| t.id).collect();
    assert_eq!(ids, vec![0, 1, 2]);
    assert_eq!(repo.next_id(), 3);
    assert_eq!(
        plain(&repo).0,
        vec![task(0, "first", false), task(1, "second", false), task(2, "third", false)]
    );
}

#[test]
fn delete_after_add_does_not_reuse_id() {
    let mut repo = with_three();
    repo.add_task("X".to_string());
    assert_eq!(repo.next_id(), 4);
    repo.delete_task(3);
    assert_eq!(repo.next_id(), 4);
    assert_eq!(repo.tasks().len(), 3);
    repo.add_task("Y".to_string());
    assert_eq!(repo.tasks()[3].id, 4);
}

#[test]
fn delete_keeps_order_of_the_rest() {
    let mut repo = with_three();
    repo.delete_task(1);
    assert_eq!(plain(&repo), (vec![task(0, "first", false), task(2, "third", false)], 3));
}

#[test]
fn edit_changes_only_that_task() {
    let mut repo = with_three();
    repo.mark_completed(1);
    repo.edit_task(1, "new".to_string());
    assert_eq!(
        plain(&repo),
        (vec![task(0, "first", false), task(1, "new", true), task(2, "third", false)], 3)
    );
}

#[test]
fn edit_to_empty_description() {
    let mut repo = with_three();
    repo.edit_task(0, String::new());
    assert_eq!(repo.tasks()[0].description, "");
    assert_eq!(repo.tasks()[1].description, "second");
}

#[test]
fn mark_completed_twice_is_same_as_once() {
    let mut once = with_three();
    once.mark_completed(2);
    let mut twice = with_three();
    twice.mark_completed(2);
    twice.mark_completed(2);
    assert_eq!(plain(&once), plain(&twice));
    assert_eq!(
        plain(&once).0,
        vec![task(0, "first", false), task(1, "second", false), task(2, "third", true)]
    );
}

#[test]
fn unknown_id_changes_nothing() {
    let mut repo = with_three();
    repo.delete_task(1);
    let before = plain(&repo);
    repo.edit_task(1, "ghost".to_string());
    repo.delete_task(1);
    repo.mark_completed(1);
    repo.edit_task(99, "ghost".to_string());
    repo.delete_task(99);
    repo.mark_completed(99);
    assert_eq!(plain(&repo), before);
}

#[test]
fn lookup_by_id() {
    let repo = with_three();
    assert_eq!(repo.task(1).map(|t| t.description.clone()), Some("second".to_string()));
    assert!(repo.task(7).is_none());
}

#[test]
fn lifecycle_scenario() {
    let mut repo = TaskRepository::new();
    repo.add_task("Buy milk".to_string());
    assert_eq!(plain(&repo), (vec![task(0, "Buy milk", false)], 1));
    repo.mark_completed(0);
    assert_eq!(plain(&repo), (vec![task(0, "Buy milk", true)], 1));
    repo.delete_task(0);
    assert!(repo.tasks().is_empty());
    repo.add_task("Call mom".to_string());
    assert_eq!(plain(&repo), (vec![task(1, "Call mom", false)], 2));
}

#[test]
fn load_without_file_is_empty() {
    let repo = TaskRepository::load(None);
    assert!(repo.tasks().is_empty());
    assert_eq!(repo.next_id(), 0);
}

#[test]
fn save_then_load_gives_repository_back() {
    let mut repo = with_three();
    repo.add_task("with \"quotes\" and ünïcode".to_string());
    repo.edit_task(0, String::new());
    repo.mark_completed(2);
    repo.delete_task(1);
    let text = repo.to_ron();
    let back = TaskRepository::from_ron(&text);
    assert_eq!(plain(&back), plain(&repo));
    let loaded = TaskRepository::load(Some(&text));
    assert_eq!(plain(&loaded), plain(&repo));
}

#[test]
fn save_then_load_empty_repository() {
    let repo = TaskRepository::new();
    let text = repo.to_ron();
    assert!(!text.is_empty());
    assert_eq!(plain(&TaskRepository::from_ron(&text)), (vec![], 0));
}

#[test]
fn load_reads_written_text() {
    let repo = TaskRepository::from_ron("([(3, \"a\", true), (5, \"b\", false)], 6)");
    assert_eq!(plain(&repo), (vec![task(3, "a", true), task(5, "b", false)], 6));
}

#[test]
fn load_malformed_text_is_empty() {
    let repo = TaskRepository::load(Some("not ron at all"));
    assert!(repo.tasks().is_empty());
    assert_eq!(repo.next_id(), 0);
}

#[test]
fn load_keeps_id_not_below_counter() {
    let repo = TaskRepository::from_ron("([(3, \"a\", false)], 3)");
    assert_eq!(plain(&repo), (vec![task(3, "a", false)], 3));
}

#[test]
fn load_keeps_repeated_id() {
    let repo = TaskRepository::from_ron("([(1, \"a\", false), (1, \"b\", false)], 2)");
    assert_eq!(plain(&repo), (vec![task(1, "a", false), task(1, "b", false)], 2));
}

#[test]
fn repeated_id_edit_and_complete_act_on_first() {
    let mut repo = TaskRepository::from_ron("([(1, \"a\", false), (1, \"b\", false), (2, \"c\", false)], 3)");
    repo.edit_task(1, "x".to_string());
    repo.mark_completed(1);
    assert_eq!(
        plain(&repo),
        (vec![task(1, "x", true), task(1, "b", false), task(2, "c", false)], 3)
    );
    assert_eq!(repo.task(1).map(|t| t.description.clone()), Some("x".to_string()));
    repo.delete_task(1);
    assert_eq!(plain(&repo), (vec![task(2, "c", false)], 3));
}

#[test]
fn restore_keeps_snapshot_as_it_stands() {
    let good = TaskRepository::restore(Some((vec![task(0, "a", false)], 1)));
    assert_eq!(plain(&good), (vec![task(0, "a", false)], 1));
    let odd = TaskRepository::restore(Some((vec![task(5, "", false)], 0)));
    assert_eq!(plain(&odd), (vec![task(5, "", false)], 0));
    let none = TaskRepository::restore(None);
    assert_eq!(plain(&none), (vec![], 0));
}

#[test]
fn window_ignores_empty_description() {
    let mut app = ToDoApp::new(TaskRepository::new());
    assert_eq!(app.handle(UiEvent::AddClicked), UiAction::Nothing);
    assert!(app.manager().tasks().is_empty());
}

#[test]
fn window_adds_and_clears_field() {
    let mut app = ToDoApp::new(TaskRepository::new());
    app.set_new_description("Buy milk".to_string());
    assert_eq!(app.handle(UiEvent::AddClicked), UiAction::Save);
    assert_eq!(app.new_description(), "");
    assert_eq!(plain(app.manager()), (vec![task(0, "Buy milk", false)], 1));
}

#[test]
fn window_edit_flow() {
    let mut app = ToDoApp::new(with_three());
    assert_eq!(app.handle(UiEvent::EditClicked(1)), UiAction::Nothing);
    assert!(app.show_edit_popup());
    assert_eq!(app.edit_id_task(), Some(1));
    assert_eq!(app.edit_description(), "second");
    app.set_edit_description("changed".to_string());
    assert_eq!(app.handle(UiEvent::SaveEditClicked), UiAction::Save);
    assert!(!app.show_edit_popup());
    assert_eq!(app.manager().tasks()[1].description, "changed");
}

#[test]
fn window_cancel_edit_keeps_task() {
    let mut app = ToDoApp::new(with_three());
    app.handle(UiEvent::EditClicked(2));
    app.set_edit_description("changed".to_string());
    assert_eq!(app.handle(UiEvent::CancelEditClicked), UiAction::Nothing);
    assert!(!app.show_edit_popup());
    assert_eq!(app.manager().tasks()[2].description, "third");
}

#[test]
fn window_edit_of_unknown_task_does_nothing() {
    let mut app = ToDoApp::new(with_three());
    assert_eq!(app.handle(UiEvent::EditClicked(9)), UiAction::Nothing);
    assert!(!app.show_edit_popup());
    assert_eq!(app.edit_id_task(), None);
    assert_eq!(app.handle(UiEvent::SaveEditClicked), UiAction::Nothing);
}

#[test]
fn window_complete_and_delete_save() {
    let mut app = ToDoApp::new(with_three());
    assert_eq!(app.handle(UiEvent::CompleteClicked(0)), UiAction::Save);
    assert!(app.manager().tasks()[0].completed);
    assert_eq!(app.handle(UiEvent::DeleteClicked(0)), UiAction::Save);
    assert_eq!(app.manager().tasks().len(), 2);
    assert_eq!(app.manager().tasks()[0].id, 1);
}
