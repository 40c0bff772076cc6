use tasker::{format_task, push_decimal, Command, StoreError, Task, TaskStore};

fn run(store: &mut TaskStore, command: Command) -> Result<Vec<String>, StoreError> {
    store.execute(command)
}

#[test]
fn add_reports_new_id() {
    let mut store = TaskStore::new();
    let out = run(&mut store, Command::Add { description: "buy milk".to_string() });
    assert_eq!(out, Ok(vec!["Added task with ID: 1".to_string()]));
    let out = run(&mut store, Command::List);
    assert_eq!(out, Ok(vec!["1 [ ]: buy milk".to_string()]));
}

#[test]
fn list_after_complete_shows_mark() {
    let mut store = TaskStore::new();
    run(&mut store, Command::Add { description: "buy milk".to_string() }).unwrap();
    let out = run(&mut store, Command::Complete { id: 1 });
    assert_eq!(out, Ok(vec!["Completed task: 1".to_string()]));
    let out = run(&mut store, Command::List);
    assert_eq!(out, Ok(vec!["1 [x]: buy milk".to_string()]));
    let out = run(&mut store, Command::Delete { id: 1 });
    assert_eq!(out, Ok(vec!["Deleted task: 1".to_string()]));
    assert_eq!(run(&mut store, Command::List), Ok(Vec::new()));
}

#[test]
fn missing_ids_are_reported() {
    let mut store = TaskStore::new();
    assert_eq!(
        run(&mut store, Command::Complete { id: 99 }),
        Ok(vec!["Task 99 not found".to_string()])
    );
    assert_eq!(
        run(&mut store, Command::Delete { id: 99 }),
        Ok(vec!["Task 99 not found".to_string()])
    );
    assert_eq!(run(&mut store, Command::List), Ok(Vec::new()));
}

#[test]
fn add_with_empty_text_fails() {
    let mut store = TaskStore::new();
    assert_eq!(
        run(&mut store, Command::Add { description: String::new() }),
        Err(StoreError::InvalidInput)
    );
}

#[test]
fn list_keeps_insertion_order() {
    let mut store = TaskStore::new();
    for d in ["a", "b", "c"] {
        run(&mut store, Command::Add { description: d.to_string() }).unwrap();
    }
    run(&mut store, Command::Complete { id: 2 }).unwrap();
    assert_eq!(
        run(&mut store, Command::List),
        Ok(vec!["1 [ ]: a".to_string(), "2 [x]: b".to_string(), "3 [ ]: c".to_string()])
    );
}

#[test]
fn task_line_format() {
    let t = Task::new(4070, "write report".to_string(), true);
    assert_eq!(format_task(&t), "4070 [x]: write report");
    let t = Task::new(u32::MAX, "edge".to_string(), false);
    assert_eq!(format_task(&t), "4294967295 [ ]: edge");
}

#[test]
fn decimal_numerals() {
    let mut s = "n=".to_string();
    push_decimal(&mut s, 0);
    assert_eq!(s, "n=0");
    let mut s = String::new();
    push_decimal(&mut s, 1009);
    assert_eq!(s, "1009");
    let mut s = String::new();
    push_decimal(&mut s, u64::MAX);
    assert_eq!(s, "18446744073709551615");
}
