use vstd::prelude::*;

verus! {

/// One task: its id, its text, and whether it is done.
pub struct Task {
    pub id: u32,
    pub description: String,
    pub completed: bool,
}

/// What a task holds, as mathematical values.
pub struct TaskModel {
    pub id: u32,
    pub description: Seq<char>,
    pub completed: bool,
}

impl View for Task {
    type V = TaskModel;

    open spec fn view(&self) -> TaskModel {
        TaskModel { id: self.id, description: self.description@, completed: self.completed }
    }
}

impl Task {
    pub fn new(id: u32, description: String, completed: bool) -> (r: Task)
        ensures
            r@ == (TaskModel { id, description: description@, completed }),
    {
        Task { id, description, completed }
    }
}

} // verus!
