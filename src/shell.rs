use vstd::prelude::*;

use crate::repository::{RepositoryView, TaskRepository};

verus! {

/// What the user did in the window.
#[derive(Clone, Copy, Debug, PartialEq, Eq, Structural)]
pub enum UiEvent {
    /// The button that adds the typed description as a task.
    AddClicked,
    /// The edit button of the task with this id.
    EditClicked(usize),
    /// The button that completes the task with this id.
    CompleteClicked(usize),
    /// The button that deletes the task with this id.
    DeleteClicked(usize),
    /// The button that stores the edited description.
    SaveEditClicked,
    /// The button that closes the edit window without storing.
    CancelEditClicked,
}

/// What the window owes after an event.
#[derive(Clone, Copy, Debug, PartialEq, Eq, Structural)]
pub enum UiAction {
    /// Nothing to do.
    Nothing,
    /// Write the repository to storage.
    Save,
}

/// The abstract value of the window's state.
pub struct AppView {
    pub manager: RepositoryView,
    pub new_description: Seq<char>,
    pub edit_description: Seq<char>,
    pub show_edit_popup: bool,
    pub edit_id_task: Option<usize>,
}

impl AppView {
    /// The state after `event`, and what is then owed. A description is
    /// added only where it is not empty; every change of the repository is
    /// saved.
    pub open spec fn stepped(self, event: UiEvent) -> (AppView, UiAction) {
        match event {
            UiEvent::AddClicked => if self.new_description.len() > 0 && self.manager.next_id
                < usize::MAX {
                (
                    AppView {
                        manager: self.manager.added(self.new_description),
                        new_description: Seq::empty(),
                        ..self
                    },
                    UiAction::Save,
                )
            } else {
                (self, UiAction::Nothing)
            },
            UiEvent::EditClicked(id) => if self.manager.has_id(id) {
                (
                    AppView {
                        edit_description: self.manager.task_with(id).description,
                        show_edit_popup: true,
                        edit_id_task: Some(id),
                        ..self
                    },
                    UiAction::Nothing,
                )
            } else {
                (self, UiAction::Nothing)
            },
            UiEvent::CompleteClicked(id) => (
                AppView { manager: self.manager.marked(id), ..self },
                UiAction::Save,
            ),
            UiEvent::DeleteClicked(id) => (
                AppView { manager: self.manager.deleted(id), ..self },
                UiAction::Save,
            ),
            UiEvent::SaveEditClicked => match self.edit_id_task {
                Some(id) => (
                    AppView {
                        manager: self.manager.edited(id, self.edit_description),
                        show_edit_popup: false,
                        ..self
                    },
                    UiAction::Save,
                ),
                None => (AppView { show_edit_popup: false, ..self }, UiAction::Nothing),
            },
            UiEvent::CancelEditClicked => (
                AppView { show_edit_popup: false, ..self },
                UiAction::Nothing,
            ),
        }
    }
}

/// The state of the task list window: the repository and the window's own
/// input fields.
pub struct ToDoApp {
    manager: TaskRepository,
    new_description: String,
    edit_description: String,
    show_edit_popup: bool,
    edit_id_task: Option<usize>,
}

impl View for ToDoApp {
    type V = AppView;

    closed spec fn view(&self) -> AppView {
        AppView {
            manager: self.manager@,
            new_description: self.new_description@,
            edit_description: self.edit_description@,
            show_edit_popup: self.show_edit_popup,
            edit_id_task: self.edit_id_task,
        }
    }
}

impl ToDoApp {
    /// The window over `manager`, with empty fields and no edit window.
    pub fn new(manager: TaskRepository) -> (r: ToDoApp)
        ensures
            r@ == (AppView {
                manager: manager@,
                new_description: Seq::empty(),
                edit_description: Seq::empty(),
                show_edit_popup: false,
                edit_id_task: None,
            }),
    {
        ToDoApp {
            manager,
            new_description: String::new(),
            edit_description: String::new(),
            show_edit_popup: false,
            edit_id_task: None,
        }
    }

    /// Applies `event` and says what is owed.
    pub fn handle(&mut self, event: UiEvent) -> (r: UiAction)
        ensures
            (final(self)@, r) == old(self)@.stepped(event),
    {
        match event {
            UiEvent::AddClicked => {
                if !self.new_description.as_str().is_empty() && self.manager.next_id()
                    < usize::MAX {
                    self.manager.add_task(self.new_description.clone());
                    self.new_description = String::new();
                    UiAction::Save
                } else {
                    UiAction::Nothing
                }
            },
            UiEvent::EditClicked(id) => {
                match self.manager.task(id) {
                    Some(t) => {
                        self.edit_description = t.description.clone();
                        self.show_edit_popup = true;
                        self.edit_id_task = Some(id);
                    },
                    None => {},
                }
                UiAction::Nothing
            },
            UiEvent::CompleteClicked(id) => {
                self.manager.mark_completed(id);
                UiAction::Save
            },
            UiEvent::DeleteClicked(id) => {
                self.manager.delete_task(id);
                UiAction::Save
            },
            UiEvent::SaveEditClicked => {
                self.show_edit_popup = false;
                match self.edit_id_task {
                    Some(id) => {
                        self.manager.edit_task(id, self.edit_description.clone());
                        UiAction::Save
                    },
                    None => UiAction::Nothing,
                }
            },
            UiEvent::CancelEditClicked => {
                self.show_edit_popup = false;
                UiAction::Nothing
            },
        }
    }

    /// The repository shown in the window.
    pub fn manager(&self) -> (r: &TaskRepository)
        ensures
            r@ == self@.manager,
    {
        &self.manager
    }

    /// The text typed for a new task.
    pub fn new_description(&self) -> (r: &String)
        ensures
            r@ == self@.new_description,
    {
        &self.new_description
    }

    /// Replaces the text typed for a new task.
    pub fn set_new_description(&mut self, text: String)
        ensures
            final(self)@ == (AppView { new_description: text@, ..old(self)@ }),
    {
        self.new_description = text;
    }

    /// The text in the edit window.
    pub fn edit_description(&self) -> (r: &String)
        ensures
            r@ == self@.edit_description,
    {
        &self.edit_description
    }

    /// Replaces the text in the edit window.
    pub fn set_edit_description(&mut self, text: String)
        ensures
            final(self)@ == (AppView { edit_description: text@, ..old(self)@ }),
    {
        self.edit_description = text;
    }

    /// Whether the edit window is open.
    pub fn show_edit_popup(&self) -> (r: bool)
        ensures
            r == self@.show_edit_popup,
    {
        self.show_edit_popup
    }

    /// The id of the task last chosen for editing.
    pub fn edit_id_task(&self) -> (r: Option<usize>)
        ensures
            r == self@.edit_id_task,
    {
        self.edit_id_task
    }
}

} // verus!
