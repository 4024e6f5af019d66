use std::collections::HashMap;
use zellij_attention::state::{
    load_state, record_of_state, save_state, state_of_record, NotificationSet, NotificationType,
    PersistedState,
};

fn sample() -> PersistedState {
    let mut notifications = HashMap::new();
    notifications.insert(5, NotificationSet::only(NotificationType::Waiting));
    notifications.insert(300, NotificationSet { waiting: true, completed: true });
    notifications.insert(70000, NotificationSet { waiting: false, completed: false });
    let mut original_tab_names = HashMap::new();
    original_tab_names.insert(0, "build é ⏳".to_string());
    original_tab_names.insert(9, String::new());
    PersistedState { notifications, original_tab_names }
}

#[test]
fn saved_state_is_loaded_back() {
    let bytes = save_state(&sample()).unwrap();
    assert_eq!(load_state(Some(bytes)), sample());
    let empty = save_state(&PersistedState::default()).unwrap();
    assert_eq!(empty, vec![0, 0]);
    assert_eq!(load_state(Some(empty)), PersistedState::default());
}

#[test]
fn bytes_of_the_state_file() {
    let mut state = PersistedState::default();
    state.notifications.insert(5, NotificationSet::only(NotificationType::Completed));
    state.original_tab_names.insert(2, "é".to_string());
    assert_eq!(save_state(&state).unwrap(), vec![1, 5, 1, 1, 1, 2, 2, 0xc3, 0xa9]);
}

#[test]
fn unreadable_files_stand_for_the_empty_state() {
    let empty = PersistedState::default();
    assert_eq!(load_state(None), empty);
    assert_eq!(load_state(Some(vec![])), empty);
    assert_eq!(load_state(Some(vec![1, 5])), empty);
    // a notification type that does not exist
    assert_eq!(load_state(Some(vec![1, 5, 1, 2, 0])), empty);
    // a name that is not UTF-8
    assert_eq!(load_state(Some(vec![0, 1, 2, 1, 0xff])), empty);
    // a name that claims more bytes than a 32-bit number can count
    assert_eq!(
        load_state(Some(vec![0, 1, 2, 253, 1, 0, 0, 0, 1, 0, 0, 0, 97])),
        empty
    );
    // a name that is longer than any memory
    assert_eq!(
        load_state(Some(vec![0, 1, 2, 253, 255, 255, 255, 255, 255, 255, 255, 255])),
        empty
    );
}

#[test]
fn bytes_behind_the_state_do_not_count() {
    let mut bytes = save_state(&sample()).unwrap();
    bytes.push(7);
    assert_eq!(load_state(Some(bytes)), sample());
}

#[test]
fn later_entries_of_a_record_count() {
    let record = (
        vec![(1u32, vec![0u32]), (1, vec![1, 1])],
        vec![(4u64, "a"), (4, "b")],
    );
    let state = state_of_record(&record);
    assert_eq!(
        state.notifications.get(&1),
        Some(&NotificationSet { waiting: false, completed: true })
    );
    assert_eq!(state.original_tab_names.get(&4), Some(&"b".to_string()));
    assert_eq!(state.notifications.len(), 1);
    assert_eq!(state.original_tab_names.len(), 1);
}

#[test]
fn unknown_codes_spoil_a_record() {
    let record = (vec![(1u32, vec![0u32]), (2, vec![2])], vec![(4u64, "a")]);
    assert_eq!(state_of_record(&record), PersistedState::default());
}

#[test]
fn record_lists_every_entry_once() {
    let state = sample();
    let mut record = record_of_state(&state);
    record.0.sort();
    record.1.sort();
    assert_eq!(
        record.0,
        vec![(5, vec![0]), (300, vec![0, 1]), (70000, vec![])]
    );
    assert_eq!(
        record.1,
        vec![(0, "build é ⏳"), (9, "")]
    );
}

#[test]
fn notification_sets() {
    let set = NotificationSet::only(NotificationType::Waiting);
    assert!(set.contains(NotificationType::Waiting));
    assert!(!set.contains(NotificationType::Completed));
}
