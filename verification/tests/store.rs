use clever_todo::errors::TodoError;
use clever_todo::store::TodoStore;
use clever_todo::states::Identity;

fn owner() -> Identity {
    Identity { w0: 1, w1: 2, w2: 3, w3: 4 }
}

fn stranger() -> Identity {
    Identity { w0: 5, w1: 6, w2: 7, w3: 8 }
}

#[test]
fn initialize_profile_then_read_zeroes() {
    let mut store = TodoStore::new();
    store.initialize_profile(owner()).unwrap();
    let profile = store.get_profile(&owner()).unwrap();
    assert_eq!(profile.owner, owner());
    assert_eq!(profile.total_created, 0);
    assert_eq!(profile.active_count, 0);
}

#[test]
fn initialize_profile_twice_already_exists() {
    let mut store = TodoStore::new();
    store.initialize_profile(owner()).unwrap();
    let r = store.initialize_profile(owner());
    assert_eq!(r.unwrap_err(), TodoError::AlreadyExists);
    let profile = store.get_profile(&owner()).unwrap();
    assert_eq!(profile.total_created, 0);
}

#[test]
fn add_task_on_fresh_profile() {
    let mut store = TodoStore::new();
    store.initialize_profile(owner()).unwrap();
    let index = store.add_task(owner(), String::from("buy milk")).unwrap();
    assert_eq!(index, 0);
    let profile = store.get_profile(&owner()).unwrap();
    assert_eq!(profile.total_created, 1);
    assert_eq!(profile.active_count, 1);
    let task = store.get_task(&owner(), 0).unwrap();
    assert_eq!(task.content, "buy milk");
    assert!(!task.done);
}

#[test]
fn add_task_without_profile_not_found() {
    let mut store = TodoStore::new();
    let r = store.add_task(owner(), String::from("x"));
    assert_eq!(r.unwrap_err(), TodoError::NotFound);
}

#[test]
fn add_task_fills_index_space_then_fails() {
    let mut store = TodoStore::new();
    store.initialize_profile(owner()).unwrap();
    for expected in 0..256u32 {
        let index = store.add_task(owner(), format!("task {}", expected)).unwrap();
        assert_eq!(index as u32, expected);
    }
    let r = store.add_task(owner(), String::from("one too many"));
    assert_eq!(r.unwrap_err(), TodoError::IndexSpaceExhausted);
    let profile = store.get_profile(&owner()).unwrap();
    assert_eq!(profile.total_created, 256);
    assert_eq!(profile.active_count, 256);
}

#[test]
fn delete_task_never_reuses_index() {
    let mut store = TodoStore::new();
    store.initialize_profile(owner()).unwrap();
    let first = store.add_task(owner(), String::from("first")).unwrap();
    assert_eq!(first, 0);
    store.delete_task(owner(), 0).unwrap();
    let profile = store.get_profile(&owner()).unwrap();
    assert_eq!(profile.active_count, 0);
    assert_eq!(profile.total_created, 1);
    assert!(store.get_task(&owner(), 0).is_none());
    let second = store.add_task(owner(), String::from("second")).unwrap();
    assert_eq!(second, 1);
}

#[test]
fn delete_task_missing_not_found() {
    let mut store = TodoStore::new();
    store.initialize_profile(owner()).unwrap();
    let r = store.delete_task(owner(), 3);
    assert_eq!(r.unwrap_err(), TodoError::NotFound);
}

#[test]
fn mark_task_missing_not_found() {
    let mut store = TodoStore::new();
    store.initialize_profile(owner()).unwrap();
    let r = store.mark_task(owner(), 0);
    assert_eq!(r.unwrap_err(), TodoError::NotFound);
}

#[test]
fn mark_task_fresh_task_invalid_state() {
    let mut store = TodoStore::new();
    store.initialize_profile(owner()).unwrap();
    store.add_task(owner(), String::from("t")).unwrap();
    let r = store.mark_task(owner(), 0);
    assert_eq!(r.unwrap_err(), TodoError::InvalidMarkState);
    let task = store.get_task(&owner(), 0).unwrap();
    assert!(!task.done);
    assert_eq!(task.content, "t");
}

#[test]
fn successive_adds_assign_distinct_indices() {
    let mut store = TodoStore::new();
    store.initialize_profile(owner()).unwrap();
    let first = store.add_task(owner(), String::from("a")).unwrap();
    let second = store.add_task(owner(), String::from("b")).unwrap();
    assert_ne!(first, second);
}

#[test]
fn repeated_reads_return_identical_records() {
    let mut store = TodoStore::new();
    store.initialize_profile(owner()).unwrap();
    store.add_task(owner(), String::from("steady")).unwrap();
    let (content1, index1, done1) = {
        let t = store.get_task(&owner(), 0).unwrap();
        (t.content.clone(), t.index, t.done)
    };
    let (content2, index2, done2) = {
        let t = store.get_task(&owner(), 0).unwrap();
        (t.content.clone(), t.index, t.done)
    };
    assert_eq!(content1, content2);
    assert_eq!(index1, index2);
    assert_eq!(done1, done2);
    let r = store.mark_task(owner(), 0);
    assert!(r.is_err());
    let t = store.get_task(&owner(), 0).unwrap();
    assert_eq!(t.content, content1);
    assert_eq!(t.index, index1);
}

#[test]
fn operations_of_one_owner_leave_another_alone() {
    let mut store = TodoStore::new();
    store.initialize_profile(owner()).unwrap();
    store.initialize_profile(stranger()).unwrap();
    store.add_task(owner(), String::from("mine")).unwrap();
    store.add_task(stranger(), String::from("theirs")).unwrap();
    store.delete_task(owner(), 0).unwrap();
    let other_profile = store.get_profile(&stranger()).unwrap();
    assert_eq!(other_profile.total_created, 1);
    assert_eq!(other_profile.active_count, 1);
    let other_task = store.get_task(&stranger(), 0).unwrap();
    assert_eq!(other_task.content, "theirs");
}

#[test]
fn stranger_sees_no_task_under_own_identity() {
    let mut store = TodoStore::new();
    store.initialize_profile(owner()).unwrap();
    store.add_task(owner(), String::from("mine")).unwrap();
    assert!(store.get_task(&stranger(), 0).is_none());
    let mut store2 = store;
    let r = store2.delete_task(stranger(), 0);
    assert_eq!(r.unwrap_err(), TodoError::NotFound);
    let task = store2.get_task(&owner(), 0).unwrap();
    assert_eq!(task.content, "mine");
}
