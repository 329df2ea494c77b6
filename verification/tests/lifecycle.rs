use clever_todo::errors::TodoError;
use clever_todo::lifecycle::{add_todo, delete_todo, initialize_user, mark_todo};
use clever_todo::states::{Identity, ProfileRecord, TaskRecord};

fn owner() -> Identity {
    Identity { w0: 11, w1: 22, w2: 33, w3: 44 }
}

fn stranger() -> Identity {
    Identity { w0: 99, w1: 22, w2: 33, w3: 44 }
}

#[test]
fn initialize_user_zeroes_counters() {
    let profile = initialize_user(&owner());
    assert_eq!(profile.owner, owner());
    assert_eq!(profile.total_created, 0);
    assert_eq!(profile.active_count, 0);
}

#[test]
fn add_todo_assigns_current_counter() {
    let mut profile = initialize_user(&owner());
    let task = add_todo(&owner(), &mut profile, String::from("buy milk")).unwrap();
    assert_eq!(task.owner, owner());
    assert_eq!(task.index, 0);
    assert_eq!(task.content, "buy milk");
    assert!(!task.done);
    assert_eq!(profile.total_created, 1);
    assert_eq!(profile.active_count, 1);
}

#[test]
fn add_todo_authority_mismatch_changes_nothing() {
    let mut profile = initialize_user(&owner());
    let r = add_todo(&stranger(), &mut profile, String::from("x"));
    assert_eq!(r.unwrap_err(), TodoError::AuthorityMismatch);
    assert_eq!(profile, initialize_user(&owner()));
}

#[test]
fn add_todo_index_space_exhausted() {
    let mut profile = ProfileRecord { owner: owner(), total_created: 256, active_count: 0 };
    let r = add_todo(&owner(), &mut profile, String::from("x"));
    assert_eq!(r.unwrap_err(), TodoError::IndexSpaceExhausted);
    assert_eq!(profile.total_created, 256);
}

#[test]
fn add_todo_counter_overflow() {
    let mut profile = ProfileRecord { owner: owner(), total_created: 5, active_count: u16::MAX };
    let r = add_todo(&owner(), &mut profile, String::from("x"));
    assert_eq!(r.unwrap_err(), TodoError::CounterOverflow);
    assert_eq!(profile.active_count, u16::MAX);
    assert_eq!(profile.total_created, 5);
}

#[test]
fn mark_todo_rejects_unmarked_task() {
    let mut task =
        TaskRecord { owner: owner(), index: 0, content: String::from("t"), done: false };
    let r = mark_todo(&owner(), &mut task);
    assert_eq!(r.unwrap_err(), TodoError::InvalidMarkState);
    assert!(!task.done);
}

#[test]
fn mark_todo_clears_set_flag() {
    let mut task = TaskRecord { owner: owner(), index: 3, content: String::from("t"), done: true };
    mark_todo(&owner(), &mut task).unwrap();
    assert!(!task.done);
    assert_eq!(task.index, 3);
    assert_eq!(task.content, "t");
}

#[test]
fn mark_todo_authority_mismatch_leaves_task() {
    let mut task = TaskRecord { owner: owner(), index: 7, content: String::from("t"), done: true };
    let r = mark_todo(&stranger(), &mut task);
    assert_eq!(r.unwrap_err(), TodoError::AuthorityMismatch);
    assert_eq!(task.owner, owner());
    assert_eq!(task.index, 7);
    assert_eq!(task.content, "t");
    assert!(task.done);
}

#[test]
fn delete_todo_keeps_total_created() {
    let mut profile = ProfileRecord { owner: owner(), total_created: 4, active_count: 2 };
    let task = TaskRecord { owner: owner(), index: 1, content: String::from("t"), done: false };
    delete_todo(&owner(), &mut profile, &task).unwrap();
    assert_eq!(profile.total_created, 4);
    assert_eq!(profile.active_count, 1);
}

#[test]
fn delete_todo_underflow() {
    let mut profile = ProfileRecord { owner: owner(), total_created: 4, active_count: 0 };
    let task = TaskRecord { owner: owner(), index: 1, content: String::from("t"), done: false };
    let r = delete_todo(&owner(), &mut profile, &task);
    assert_eq!(r.unwrap_err(), TodoError::Underflow);
    assert_eq!(profile.active_count, 0);
}

#[test]
fn delete_todo_authority_mismatch_leaves_profile() {
    let mut profile = ProfileRecord { owner: owner(), total_created: 4, active_count: 2 };
    let task = TaskRecord { owner: owner(), index: 1, content: String::from("t"), done: false };
    let r = delete_todo(&stranger(), &mut profile, &task);
    assert_eq!(r.unwrap_err(), TodoError::AuthorityMismatch);
    assert_eq!(profile, ProfileRecord { owner: owner(), total_created: 4, active_count: 2 });
}
