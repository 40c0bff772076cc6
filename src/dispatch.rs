use vstd::prelude::*;
use crate::render::{decimal, format_task, push_decimal, task_line};
use crate::store::{Outcome, StoreError, StoreModel, TaskStore};
use crate::task::TaskModel;

verus! {

/// One invocation of the tracker: a single operation on the collection.
pub enum Command {
    Add { description: String },
    List,
    Complete { id: u32 },
    Delete { id: u32 },
}

/// A command as mathematical values.
pub enum Op {
    Add(Seq<char>),
    List,
    Complete(u32),
    Delete(u32),
}

impl View for Command {
    type V = Op;

    open spec fn view(&self) -> Op {
        match self {
            Command::Add { description } => Op::Add(description@),
            Command::List => Op::List,
            Command::Complete { id } => Op::Complete(*id),
            Command::Delete { id } => Op::Delete(*id),
        }
    }
}

pub open spec fn added_message(id: u32) -> Seq<char> {
    "Added task with ID: "@ + decimal(id as nat)
}

pub open spec fn not_found_message(id: u32) -> Seq<char> {
    "Task "@ + decimal(id as nat) + " not found"@
}

pub open spec fn completed_message(id: u32, outcome: Outcome) -> Seq<char> {
    match outcome {
        Outcome::Found => "Completed task: "@ + decimal(id as nat),
        Outcome::NotFound => not_found_message(id),
    }
}

pub open spec fn deleted_message(id: u32, outcome: Outcome) -> Seq<char> {
    match outcome {
        Outcome::Found => "Deleted task: "@ + decimal(id as nat),
        Outcome::NotFound => not_found_message(id),
    }
}

pub open spec fn string_views(v: Seq<String>) -> Seq<Seq<char>> {
    v.map_values(|s: String| s@)
}

impl StoreModel {
    /// The collection after an operation.
    pub open spec fn apply(self, op: Op) -> StoreModel {
        match op {
            Op::Add(d) => self.added(d),
            Op::List => self,
            Op::Complete(id) => self.completed(id),
            Op::Delete(id) => self.removed(id),
        }
    }

    /// The lines that an operation prints, or the error that refuses it.
    pub open spec fn report(self, op: Op) -> Result<Seq<Seq<char>>, StoreError> {
        match op {
            Op::Add(d) => match self.add_result(d) {
                Ok(id) => Ok(seq![added_message(id)]),
                Err(e) => Err(e),
            },
            Op::List => Ok(self.tasks.map_values(|t: TaskModel| task_line(t))),
            Op::Complete(id) => Ok(seq![completed_message(id, self.lookup_outcome(id))]),
            Op::Delete(id) => Ok(seq![deleted_message(id, self.lookup_outcome(id))]),
        }
    }
}

fn message_with_id(prefix: &str, id: u32) -> (r: String)
    ensures
        r@ == prefix@ + decimal(id as nat),
{
    let mut s = String::from_str(prefix);
    push_decimal(&mut s, id as u64);
    s
}

fn not_found_line(id: u32) -> (r: String)
    ensures
        r@ == not_found_message(id),
{
    let mut s = message_with_id("Task ", id);
    s.append(" not found");
    s
}

impl TaskStore {
    /// Carries out one command and returns the lines it reports.
    pub fn execute(&mut self, command: Command) -> (r: Result<Vec<String>, StoreError>)
        requires
            old(self)@.wf(),
        ensures
            final(self)@.wf(),
            final(self)@ == old(self)@.apply(command@),
            match r {
                Ok(lines) => old(self)@.report(command@) == Ok::<Seq<Seq<char>>, StoreError>(
                    string_views(lines@),
                ),
                Err(e) => old(self)@.report(command@) == Err::<Seq<Seq<char>>, StoreError>(e),
            },
    {
        let ghost before = self@;
        match command {
            Command::Add { description } => {
                match self.add(description) {
                    Ok(id) => {
                        let lines = vec![message_with_id("Added task with ID: ", id)];
                        assert(string_views(lines@) =~= seq![added_message(id)]);
                        Ok(lines)
                    },
                    Err(e) => Err(e),
                }
            },
            Command::List => {
                let tasks = self.list();
                let mut lines: Vec<String> = Vec::new();
                let mut i: usize = 0;
                while i < tasks.len()
                    invariant
                        i <= tasks.len(),
                        crate::store::task_models(tasks@) == before.tasks,
                        string_views(lines@) =~= before.tasks.take(i as int).map_values(
                            |t: TaskModel| task_line(t),
                        ),
                    decreases tasks.len() - i,
                {
                    let line = format_task(&tasks[i]);
                    let ghost prev = lines@;
                    lines.push(line);
                    proof {
                        let f = |t: TaskModel| task_line(t);
                        assert(before.tasks[i as int] == tasks@[i as int]@);
                        assert(before.tasks.take(i + 1).map_values(f) =~= before.tasks.take(
                            i as int,
                        ).map_values(f).push(task_line(before.tasks[i as int])));
                        assert(string_views(lines@) =~= string_views(prev).push(line@));
                    }
                    i = i + 1;
                }
                assert(before.tasks.take(i as int) =~= before.tasks);
                Ok(lines)
            },
            Command::Complete { id } => {
                let outcome = self.complete(id);
                let line = match outcome {
                    Outcome::Found => message_with_id("Completed task: ", id),
                    Outcome::NotFound => not_found_line(id),
                };
                let lines = vec![line];
                assert(string_views(lines@) =~= seq![completed_message(id, outcome)]);
                Ok(lines)
            },
            Command::Delete { id } => {
                let outcome = self.delete(id);
                let line = match outcome {
                    Outcome::Found => message_with_id("Deleted task: ", id),
                    Outcome::NotFound => not_found_line(id),
                };
                let lines = vec![line];
                assert(string_views(lines@) =~= seq![deleted_message(id, outcome)]);
                Ok(lines)
            },
        }
    }
}

} // verus!
