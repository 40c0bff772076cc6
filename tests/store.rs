use tasker::{Outcome, StoreError, Task, TaskStore, ID_LIMIT};

fn rows_of(store: &TaskStore) -> Vec<(u32, String, bool)> {
    store.list().iter().map(|t| (t.id, t.description.clone(), t.completed)).collect()
}

fn task(id: u32, description: &str, completed: bool) -> Task {
    Task::new(id, description.to_string(), completed)
}

#[test]
fn test_add_task() {
    let mut store = TaskStore::new();
    store.add("Test task".to_string()).unwrap();
    let found: Vec<(String, bool)> = store
        .list()
        .iter()
        .filter(|t| t.id == 1)
        .map(|t| (t.description.clone(), t.completed))
        .collect();
    assert_eq!(found, vec![("Test task".to_string(), false)]);
}

#[test]
fn test_complete_task() {
    let mut store = TaskStore::new();
    store.add("Test task".to_string()).unwrap();
    store.complete(1);
    let completed = store.list().iter().find(|t| t.id == 1).unwrap().completed;
    assert!(completed);
}

#[test]
fn test_delete_task() {
    let mut store = TaskStore::new();
    store.add("Test task".to_string()).unwrap();
    store.delete(1);
    let count = store.list().len() as i64;
    assert_eq!(count, 0);
}

#[test]
fn test_list_tasks_empty() {
    let store = TaskStore::new();
    assert!(store.list().is_empty());
}

#[test]
fn fresh_store_first_id_is_one() {
    let mut store = TaskStore::new();
    assert_eq!(store.add("buy milk".to_string()), Ok(1));
    assert_eq!(rows_of(&store), vec![(1, "buy milk".to_string(), false)]);
}

#[test]
fn complete_then_delete_scenario() {
    let mut store = TaskStore::new();
    assert_eq!(store.add("buy milk".to_string()), Ok(1));
    assert_eq!(store.complete(1), Outcome::Found);
    assert_eq!(rows_of(&store), vec![(1, "buy milk".to_string(), true)]);
    assert_eq!(store.delete(1), Outcome::Found);
    assert!(rows_of(&store).is_empty());
}

#[test]
fn complete_missing_on_fresh_store() {
    let mut store = TaskStore::new();
    assert_eq!(store.complete(99), Outcome::NotFound);
    assert!(store.list().is_empty());
    assert_eq!(store.next_id(), 1);
}

#[test]
fn ids_not_reused_after_delete() {
    let mut store = TaskStore::new();
    assert_eq!(store.add("a".to_string()), Ok(1));
    assert_eq!(store.add("b".to_string()), Ok(2));
    assert_eq!(store.delete(1), Outcome::Found);
    assert_eq!(store.add("c".to_string()), Ok(3));
    assert_eq!(
        rows_of(&store),
        vec![(2, "b".to_string(), false), (3, "c".to_string(), false)]
    );
}

#[test]
fn deleting_the_newest_does_not_free_its_id() {
    let mut store = TaskStore::new();
    assert_eq!(store.add("a".to_string()), Ok(1));
    assert_eq!(store.add("b".to_string()), Ok(2));
    assert_eq!(store.delete(2), Outcome::Found);
    assert_eq!(store.add("c".to_string()), Ok(3));
}

#[test]
fn many_adds_give_distinct_increasing_ids() {
    let mut store = TaskStore::new();
    let mut ids = Vec::new();
    for i in 0..20u32 {
        ids.push(store.add(format!("task {}", i)).unwrap());
        if i % 3 == 0 {
            store.delete(ids[ids.len() - 1]);
        }
    }
    for w in ids.windows(2) {
        assert!(w[0] < w[1]);
    }
    assert_eq!(ids, (1..=20).collect::<Vec<u32>>());
}

#[test]
fn complete_twice_is_idempotent() {
    let mut store = TaskStore::new();
    store.add("x".to_string()).unwrap();
    assert_eq!(store.complete(1), Outcome::Found);
    let once = rows_of(&store);
    assert_eq!(store.complete(1), Outcome::Found);
    assert_eq!(rows_of(&store), once);
    assert_eq!(once, vec![(1, "x".to_string(), true)]);
}

#[test]
fn delete_removes_exactly_one() {
    let mut store = TaskStore::new();
    for d in ["a", "b", "c", "d"] {
        store.add(d.to_string()).unwrap();
    }
    store.complete(4);
    assert_eq!(store.delete(2), Outcome::Found);
    assert_eq!(
        rows_of(&store),
        vec![
            (1, "a".to_string(), false),
            (3, "c".to_string(), false),
            (4, "d".to_string(), true)
        ]
    );
}

#[test]
fn not_found_leaves_store_unchanged() {
    let mut store = TaskStore::new();
    store.add("a".to_string()).unwrap();
    store.add("b".to_string()).unwrap();
    store.complete(2);
    let before = rows_of(&store);
    assert_eq!(store.complete(7), Outcome::NotFound);
    assert_eq!(store.delete(7), Outcome::NotFound);
    assert_eq!(rows_of(&store), before);
    assert_eq!(store.next_id(), 3);
}

#[test]
fn empty_description_is_rejected() {
    let mut store = TaskStore::new();
    assert_eq!(store.add(String::new()), Err(StoreError::InvalidInput));
    assert!(store.list().is_empty());
    assert_eq!(store.add("ok".to_string()), Ok(1));
}

#[test]
fn round_trip_through_rows() {
    let mut store = TaskStore::new();
    store.add("first".to_string()).unwrap();
    store.add("second".to_string()).unwrap();
    store.complete(1);
    store.delete(2);
    let id = store.add("third".to_string()).unwrap();
    let rows: Vec<Task> = store
        .list()
        .iter()
        .map(|t| Task::new(t.id, t.description.clone(), t.completed))
        .collect();
    let reloaded = TaskStore::from_rows(rows, Some(store.next_id())).unwrap();
    assert_eq!(rows_of(&reloaded), rows_of(&store));
    assert_eq!(reloaded.next_id(), 4);
    assert_eq!(rows_of(&reloaded).last().unwrap(), &(id, "third".to_string(), false));
}

#[test]
fn rows_without_next_id_continue_after_last() {
    let rows = vec![task(2, "a", false), task(5, "b", true)];
    let mut store = TaskStore::from_rows(rows, None).unwrap();
    assert_eq!(store.next_id(), 6);
    assert_eq!(store.add("c".to_string()), Ok(6));
    let empty = TaskStore::from_rows(Vec::new(), None).unwrap();
    assert_eq!(empty.next_id(), 1);
}

#[test]
fn corrupt_rows_are_refused() {
    let dup = vec![task(1, "a", false), task(1, "b", false)];
    assert!(matches!(TaskStore::from_rows(dup, Some(5)), Err(StoreError::CorruptData)));
    let unordered = vec![task(3, "a", false), task(2, "b", false)];
    assert!(matches!(TaskStore::from_rows(unordered, Some(5)), Err(StoreError::CorruptData)));
    let stale_next = vec![task(4, "a", false)];
    assert!(matches!(TaskStore::from_rows(stale_next, Some(4)), Err(StoreError::CorruptData)));
    let zero_id = vec![task(0, "a", false)];
    assert!(matches!(TaskStore::from_rows(zero_id, Some(4)), Err(StoreError::CorruptData)));
    let empty_text = vec![task(1, "", false)];
    assert!(matches!(TaskStore::from_rows(empty_text, Some(4)), Err(StoreError::CorruptData)));
    assert!(matches!(TaskStore::from_rows(Vec::new(), Some(0)), Err(StoreError::CorruptData)));
    assert!(matches!(
        TaskStore::from_rows(Vec::new(), Some(ID_LIMIT + 1)),
        Err(StoreError::CorruptData)
    ));
}

#[test]
fn ids_run_out_at_the_largest_id() {
    let rows = vec![task(u32::MAX - 1, "a", false)];
    let mut store = TaskStore::from_rows(rows, None).unwrap();
    assert_eq!(store.add("b".to_string()), Ok(u32::MAX));
    assert_eq!(store.next_id(), ID_LIMIT);
    assert_eq!(store.add("c".to_string()), Err(StoreError::IdsExhausted));
    assert_eq!(store.list().len(), 2);
}
