use vstd::prelude::*;
use crate::dispatch::Op;
use crate::store::{loaded, Outcome, StoreModel, ID_LIMIT};
use crate::task::TaskModel;

verus! {

/// The ids that the successful adds among a sequence of operations return, in
/// the order in which they return them.
pub open spec fn assigned_ids(s: StoreModel, ops: Seq<Op>) -> Seq<u32>
    decreases ops.len(),
{
    if ops.len() == 0 {
        Seq::empty()
    } else {
        let rest = assigned_ids(s.apply(ops[0]), ops.drop_first());
        match ops[0] {
            Op::Add(d) => match s.add_result(d) {
                Ok(id) => seq![id] + rest,
                Err(_) => rest,
            },
            _ => rest,
        }
    }
}

/// No operation lowers the next id.
pub proof fn lemma_next_id_never_decreases(s: StoreModel, op: Op)
    ensures
        s.apply(op).next_id >= s.next_id,
{
}

/// Along any sequence of operations, deletes included, each id that add returns
/// is greater than every id returned before it, and no smaller than the next id
/// of the collection the sequence starts from.
pub proof fn lemma_ids_increase(s: StoreModel, ops: Seq<Op>)
    ensures
        forall|i: int, j: int|
            0 <= i < j < assigned_ids(s, ops).len() ==> assigned_ids(s, ops)[i]
                < assigned_ids(s, ops)[j],
        forall|i: int|
            0 <= i < assigned_ids(s, ops).len() ==> s.next_id <= assigned_ids(s, ops)[i],
    decreases ops.len(),
{
    if ops.len() > 0 {
        let s2 = s.apply(ops[0]);
        lemma_next_id_never_decreases(s, ops[0]);
        lemma_ids_increase(s2, ops.drop_first());
        let rest = assigned_ids(s2, ops.drop_first());
        let ids = assigned_ids(s, ops);
        if let Op::Add(d) = ops[0] {
            if let Ok(id) = s.add_result(d) {
                assert(ids == seq![id] + rest);
                assert(id as nat == s.next_id);
                assert(s2.next_id == s.next_id + 1);
                assert forall|i: int, j: int| 0 <= i < j < ids.len() implies ids[i] < ids[j] by {
                    assert(ids[j] == rest[j - 1]);
                    if i > 0 {
                        assert(ids[i] == rest[i - 1]);
                    }
                }
                assert forall|i: int| 0 <= i < ids.len() implies s.next_id <= ids[i] by {
                    if i > 0 {
                        assert(ids[i] == rest[i - 1]);
                    }
                }
            } else {
                assert(ids == rest);
            }
        } else {
            assert(ids == rest);
        }
    }
}

/// Along any sequence of operations on a valid collection, the ids that add
/// returns are pairwise distinct, and none is the id of a task already there.
pub proof fn lemma_ids_distinct(s: StoreModel, ops: Seq<Op>)
    requires
        s.wf(),
    ensures
        forall|i: int, j: int|
            0 <= i < assigned_ids(s, ops).len() && 0 <= j < assigned_ids(s, ops).len() && i
                != j ==> assigned_ids(s, ops)[i] != assigned_ids(s, ops)[j],
        forall|i: int, k: int|
            0 <= i < assigned_ids(s, ops).len() && 0 <= k < s.tasks.len() ==> assigned_ids(
                s,
                ops,
            )[i] != s.tasks[k].id,
{
    lemma_ids_increase(s, ops);
    let ids = assigned_ids(s, ops);
    assert forall|i: int, j: int| 0 <= i < ids.len() && 0 <= j < ids.len() && i != j implies ids[i]
        != ids[j] by {
        if i < j {
            assert(ids[i] < ids[j]);
        } else {
            assert(ids[j] < ids[i]);
        }
    }
    assert forall|i: int, k: int| 0 <= i < ids.len() && 0 <= k < s.tasks.len() implies ids[i]
        != s.tasks[k].id by {
        assert(s.tasks[k].id < s.next_id);
    }
}

/// In a valid collection an id names at most one position.
pub proof fn lemma_position_unique(s: StoreModel, id: u32, k: int)
    requires
        s.wf(),
        0 <= k < s.tasks.len(),
        s.tasks[k].id == id,
    ensures
        s.contains_id(id),
        s.position(id) == k,
{
    let p = s.position(id);
    assert(s.tasks[p].id == id);
    if p < k {
        assert(s.tasks[p].id < s.tasks[k].id);
    } else if p > k {
        assert(s.tasks[k].id < s.tasks[p].id);
    }
}

/// Adding a task keeps a collection valid.
pub proof fn lemma_added_wf(s: StoreModel, d: Seq<char>)
    requires
        s.wf(),
    ensures
        s.added(d).wf(),
{
    let a = s.added(d);
    if s.add_result(d) is Ok {
        assert forall|i: int| 0 <= i < a.tasks.len() implies 1 <= #[trigger] a.tasks[i].id < a.next_id
            && a.tasks[i].description.len() > 0 by {
            if i < s.tasks.len() {
                assert(a.tasks[i] == s.tasks[i]);
            }
        }
        assert forall|i: int, j: int| 0 <= i < j < a.tasks.len() implies a.tasks[i].id
            < a.tasks[j].id by {
            if j < s.tasks.len() {
                assert(a.tasks[i] == s.tasks[i] && a.tasks[j] == s.tasks[j]);
            } else {
                assert(a.tasks[i] == s.tasks[i]);
                assert(s.tasks[i].id < s.next_id);
            }
        }
    }
}

/// Adding a task, storing the collection as rows with its next id, and loading
/// those rows again gives back the same collection, whose last task carries the
/// id add returned, the description given, and is not done.
pub proof fn lemma_round_trip(s: StoreModel, d: Seq<char>)
    requires
        s.wf(),
        s.add_result(d) is Ok,
    ensures
        ({
            let a = s.added(d);
            &&& loaded(a.tasks, Some(a.next_id as u64)) == Some(a)
            &&& a.tasks.last() == (TaskModel {
                id: s.add_result(d)->Ok_0,
                description: d,
                completed: false,
            })
        }),
{
    lemma_added_wf(s, d);
    let a = s.added(d);
    assert(a.next_id <= ID_LIMIT);
    assert((a.next_id as u64) as nat == a.next_id);
}

/// Completing a task is idempotent: after the first completion the task is done,
/// and completing it again reports it found and changes nothing.
pub proof fn lemma_complete_idempotent(s: StoreModel, id: u32)
    requires
        s.wf(),
        s.contains_id(id),
    ensures
        ({
            let c = s.completed(id);
            &&& c.contains_id(id)
            &&& c.tasks[c.position(id)].completed
            &&& c.lookup_outcome(id) == Outcome::Found
            &&& c.completed(id) == c
        }),
{
    let k = s.position(id);
    let c = s.completed(id);
    assert(c.wf()) by {
        assert forall|i: int| 0 <= i < c.tasks.len() implies #[trigger] c.tasks[i].id == s.tasks[i].id
            && c.tasks[i].description == s.tasks[i].description by {}
    }
    assert(c.tasks[k].id == id);
    lemma_position_unique(c, id, k);
    assert(c.completed(id).tasks =~= c.tasks);
}

/// Deleting a present id removes exactly that task: one fewer task, the id is
/// gone, and the other tasks keep their order, ids, descriptions and flags.
pub proof fn lemma_delete_removes_one(s: StoreModel, id: u32)
    requires
        s.wf(),
        s.contains_id(id),
    ensures
        ({
            let k = s.position(id);
            let r = s.removed(id);
            &&& s.lookup_outcome(id) == Outcome::Found
            &&& r.tasks.len() == s.tasks.len() - 1
            &&& !r.contains_id(id)
            &&& forall|i: int| 0 <= i < k ==> r.tasks[i] == s.tasks[i]
            &&& forall|i: int| k < i < s.tasks.len() ==> r.tasks[i - 1] == s.tasks[i]
            &&& r.next_id == s.next_id
        }),
{
    let k = s.position(id);
    let r = s.removed(id);
    assert forall|i: int| 0 <= i < r.tasks.len() implies #[trigger] r.tasks[i].id != id by {
        if i < k {
            assert(s.tasks[i].id < s.tasks[k].id);
        } else {
            assert(s.tasks[k].id < s.tasks[i + 1].id);
        }
    }
}

/// Completing or deleting an id that no task has reports it not found and
/// leaves the collection exactly as it was.
pub proof fn lemma_not_found_unchanged(s: StoreModel, id: u32)
    requires
        !s.contains_id(id),
    ensures
        s.lookup_outcome(id) == Outcome::NotFound,
        s.completed(id) == s,
        s.removed(id) == s,
{
}

} // verus!
