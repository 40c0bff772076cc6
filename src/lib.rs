//! A small task tracker: a collection of tasks keyed by integer ids that are
//! never reused, with the operations add, list, complete and delete, the text
//! that each operation reports, and the rows in which the collection is kept.

mod task;
mod store;
mod render;
mod dispatch;
mod laws;

pub use task::{Task, TaskModel};
pub use store::{
    ids_ascending, loaded, restored_next_id, task_models, Outcome, StoreError, StoreModel,
    TaskStore, ID_LIMIT,
};
pub use render::{checkbox, decimal, digit_char, format_task, push_decimal, task_line};
pub use dispatch::{
    added_message, completed_message, deleted_message, not_found_message, string_views, Command,
    Op,
};
pub use laws::{
    assigned_ids, lemma_added_wf, lemma_complete_idempotent, lemma_delete_removes_one,
    lemma_ids_distinct, lemma_ids_increase, lemma_next_id_never_decreases,
    lemma_not_found_unchanged, lemma_position_unique, lemma_round_trip,
};
