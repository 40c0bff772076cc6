use vstd::prelude::*;
use crate::task::{Task, TaskModel};

verus! {

/// One more than the largest id that a task can have.
pub const ID_LIMIT: u64 = 0x1_0000_0000;

/// Why an operation was refused.
#[derive(Debug, Clone, Copy, PartialEq, Eq, Structural)]
pub enum StoreError {
    /// A task needs a description of at least one character.
    InvalidInput,
    /// Every id a task can carry has been handed out.
    IdsExhausted,
    /// Stored rows do not form a valid collection.
    CorruptData,
}

/// Whether complete or delete found the task it names.
#[derive(Debug, Clone, Copy, PartialEq, Eq, Structural)]
pub enum Outcome {
    Found,
    NotFound,
}

/// The collection as mathematical values: the tasks in insertion order, and the
/// id that the next added task receives.
pub struct StoreModel {
    pub tasks: Seq<TaskModel>,
    pub next_id: nat,
}

/// Ids grow strictly along the sequence (so they are pairwise distinct).
pub open spec fn ids_ascending(tasks: Seq<TaskModel>) -> bool {
    forall|i: int, j: int| 0 <= i < j < tasks.len() ==> tasks[i].id < tasks[j].id
}

pub open spec fn task_models(v: Seq<Task>) -> Seq<TaskModel> {
    v.map_values(|t: Task| t@)
}

impl StoreModel {
    pub open spec fn empty() -> StoreModel {
        StoreModel { tasks: Seq::empty(), next_id: 1 }
    }

    /// Ids are unique and ordered by insertion, each below the next id to hand
    /// out, and every description is non-empty.
    pub open spec fn wf(self) -> bool {
        &&& 1 <= self.next_id <= ID_LIMIT
        &&& ids_ascending(self.tasks)
        &&& forall|i: int|
            0 <= i < self.tasks.len() ==> 1 <= #[trigger] self.tasks[i].id < self.next_id
                && self.tasks[i].description.len() > 0
    }

    pub open spec fn contains_id(self, id: u32) -> bool {
        exists|i: int| 0 <= i < self.tasks.len() && #[trigger] self.tasks[i].id == id
    }

    /// The position of the task with this id (meaningful when there is one).
    pub open spec fn position(self, id: u32) -> int {
        choose|i: int| 0 <= i < self.tasks.len() && #[trigger] self.tasks[i].id == id
    }

    /// What add returns: the next id, unless the description is empty or the
    /// ids are used up.
    pub open spec fn add_result(self, description: Seq<char>) -> Result<u32, StoreError> {
        if description.len() == 0 {
            Err(StoreError::InvalidInput)
        } else if self.next_id >= ID_LIMIT {
            Err(StoreError::IdsExhausted)
        } else {
            Ok(self.next_id as u32)
        }
    }

    /// The collection after add: the new task at the end, not done, and the
    /// next id one higher; unchanged where add is refused.
    pub open spec fn added(self, description: Seq<char>) -> StoreModel {
        match self.add_result(description) {
            Ok(id) => StoreModel {
                tasks: self.tasks.push(TaskModel { id, description, completed: false }),
                next_id: self.next_id + 1,
            },
            Err(_) => self,
        }
    }

    pub open spec fn lookup_outcome(self, id: u32) -> Outcome {
        if self.contains_id(id) {
            Outcome::Found
        } else {
            Outcome::NotFound
        }
    }

    /// The collection after complete: the task with this id is marked done.
    pub open spec fn completed(self, id: u32) -> StoreModel {
        if self.contains_id(id) {
            let k = self.position(id);
            StoreModel {
                tasks: self.tasks.update(k, TaskModel { completed: true, ..self.tasks[k] }),
                next_id: self.next_id,
            }
        } else {
            self
        }
    }

    /// The collection after delete: the task with this id is gone.
    pub open spec fn removed(self, id: u32) -> StoreModel {
        if self.contains_id(id) {
            StoreModel { tasks: self.tasks.remove(self.position(id)), next_id: self.next_id }
        } else {
            self
        }
    }
}

/// The task collection held in memory.
pub struct TaskStore {
    tasks: Vec<Task>,
    next_id: u64,
}

impl View for TaskStore {
    type V = StoreModel;

    closed spec fn view(&self) -> StoreModel {
        StoreModel { tasks: task_models(self.tasks@), next_id: self.next_id as nat }
    }
}

impl TaskStore {
    /// An empty collection whose first task gets id 1.
    pub fn new() -> (r: TaskStore)
        ensures
            r@ == StoreModel::empty(),
            r@.wf(),
    {
        let r = TaskStore { tasks: Vec::new(), next_id: 1 };
        assert(r@.tasks =~= Seq::<TaskModel>::empty());
        r
    }

    /// Adds a task that is not done under the next id, and returns that id.
    pub fn add(&mut self, description: String) -> (r: Result<u32, StoreError>)
        requires
            old(self)@.wf(),
        ensures
            final(self)@.wf(),
            r == old(self)@.add_result(description@),
            final(self)@ == old(self)@.added(description@),
    {
        if description.as_str().is_empty() {
            return Err(StoreError::InvalidInput);
        }
        if self.next_id >= ID_LIMIT {
            return Err(StoreError::IdsExhausted);
        }
        let id = self.next_id as u32;
        let ghost d = description@;
        let ghost before = self@;
        self.tasks.push(Task { id, description, completed: false });
        self.next_id = self.next_id + 1;
        assert(self@.tasks =~= before.tasks.push(TaskModel { id, description: d, completed: false }));
        Ok(id)
    }

    /// The index of the task with this id, if there is one.
    fn find(&self, id: u32) -> (r: Option<usize>)
        requires
            self@.wf(),
        ensures
            r.is_some() == self@.contains_id(id),
            r matches Some(k) ==> k < self.tasks.len() && self@.tasks[k as int].id == id
                && self@.position(id) == k,
    {
        let mut i: usize = 0;
        while i < self.tasks.len()
            invariant
                i <= self.tasks.len(),
                self@.wf(),
                forall|j: int| 0 <= j < i ==> self@.tasks[j].id != id,
            decreases self.tasks.len() - i,
        {
            if self.tasks[i].id == id {
                assert(self@.tasks[i as int].id == id);
                let ghost p = self@.position(id);
                assert(self@.tasks[p].id == id);
                assert(p == i) by {
                    if p < i {
                    } else if p > i {
                        assert(self@.tasks[i as int].id < self@.tasks[p].id);
                    }
                };
                return Some(i);
            }
            i = i + 1;
        }
        None
    }

    /// Marks the task with this id as done; reports whether there was one.
    pub fn complete(&mut self, id: u32) -> (r: Outcome)
        requires
            old(self)@.wf(),
        ensures
            final(self)@.wf(),
            r == old(self)@.lookup_outcome(id),
            final(self)@ == old(self)@.completed(id),
    {
        match self.find(id) {
            Some(k) => {
                let ghost before = self@;
                self.tasks[k].completed = true;
                assert(self@.tasks =~= before.tasks.update(
                    k as int,
                    TaskModel { completed: true, ..before.tasks[k as int] },
                ));
                Outcome::Found
            },
            None => Outcome::NotFound,
        }
    }

    /// Removes the task with this id; reports whether there was one.
    pub fn delete(&mut self, id: u32) -> (r: Outcome)
        requires
            old(self)@.wf(),
        ensures
            final(self)@.wf(),
            r == old(self)@.lookup_outcome(id),
            final(self)@ == old(self)@.removed(id),
    {
        match self.find(id) {
            Some(k) => {
                let ghost before = self@;
                self.tasks.remove(k);
                assert(self@.tasks =~= before.tasks.remove(k as int));
                Outcome::Found
            },
            None => Outcome::NotFound,
        }
    }

    /// All tasks, in insertion order.
    pub fn list(&self) -> (r: &Vec<Task>)
        ensures
            task_models(r@) == self@.tasks,
    {
        &self.tasks
    }

    /// The id that the next added task receives.
    pub fn next_id(&self) -> (r: u64)
        ensures
            r == self@.next_id,
    {
        self.next_id
    }

    /// Rebuilds a collection from stored rows and the stored next id. Where no
    /// next id was stored, it is one past the last row's id (1 for no rows).
    /// Rows that do not form a valid collection are refused as corrupt.
    pub fn from_rows(rows: Vec<Task>, next_id: Option<u64>) -> (r: Result<TaskStore, StoreError>)
        ensures
            r.is_ok() == loaded(task_models(rows@), next_id).is_some(),
            r matches Ok(s) ==> s@.wf() && loaded(task_models(rows@), next_id) == Some(s@),
            r matches Err(e) ==> e == StoreError::CorruptData,
    {
        let ghost m = task_models(rows@);
        let next: u64 = match next_id {
            Some(n) => n,
            None => if rows.len() == 0 {
                1
            } else {
                rows[rows.len() - 1].id as u64 + 1
            },
        };
        assert(next == restored_next_id(m, next_id));
        let ghost target = StoreModel { tasks: m, next_id: next as nat };
        if next < 1 || next > ID_LIMIT {
            return Err(StoreError::CorruptData);
        }
        assert(m.len() == rows.len());
        let mut i: usize = 0;
        while i < rows.len()
            invariant
                i <= rows.len(),
                m == task_models(rows@),
                m.len() == rows.len(),
                target == (StoreModel { tasks: m, next_id: next as nat }),
                next == restored_next_id(m, next_id),
                1 <= next <= ID_LIMIT,
                ids_ascending(m.take(i as int)),
                forall|j: int| 0 <= j < i ==> 1 <= #[trigger] m[j].id < next && m[j].description.len() > 0,
            decreases rows.len() - i,
        {
            let t = &rows[i];
            assert(m[i as int] == t@);
            if t.description.as_str().is_empty() || t.id < 1 || t.id as u64 >= next {
                assert(target.tasks[i as int].id == t.id);
                assert(!target.wf());
                return Err(StoreError::CorruptData);
            }
            if i > 0 && rows[i - 1].id >= t.id {
                assert(m[i - 1].id >= m[i as int].id);
                assert(!ids_ascending(m));
                assert(!target.wf());
                return Err(StoreError::CorruptData);
            }
            proof {
                let p = m.take(i as int + 1);
                assert forall|a: int, b: int| 0 <= a < b < p.len() implies p[a].id < p[b].id by {
                    if b < i {
                        assert(m.take(i as int)[a].id < m.take(i as int)[b].id);
                    } else if a < i - 1 {
                        assert(m.take(i as int)[a].id < m.take(i as int)[i - 1].id);
                    }
                }
            }
            i = i + 1;
        }
        assert(m.take(rows.len() as int) =~= m);
        assert(target.wf());
        let s = TaskStore { tasks: rows, next_id: next };
        assert(s@ == target);
        Ok(s)
    }
}

/// The next id that loading uses: the stored one, else one past the last row's
/// id, else 1.
pub open spec fn restored_next_id(rows: Seq<TaskModel>, next_id: Option<u64>) -> nat {
    match next_id {
        Some(n) => n as nat,
        None => if rows.len() == 0 {
            1
        } else {
            rows.last().id as nat + 1
        },
    }
}

/// The collection that stored rows stand for, if they form a valid one.
pub open spec fn loaded(rows: Seq<TaskModel>, next_id: Option<u64>) -> Option<StoreModel> {
    let m = StoreModel { tasks: rows, next_id: restored_next_id(rows, next_id) };
    if m.wf() {
        Some(m)
    } else {
        None
    }
}

} // verus!
