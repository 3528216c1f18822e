use bobot_impl::persist::entity::conversation_states;
use bobot_impl::persist::entity::conversation_transitions;
use bobot_impl::persist::entity::conversations;
use bobot_impl::tg::dialog::{Conversation, Instance, WorkflowError, WorkflowStore};

const A: u128 = 0xa;
const B: u128 = 0xb;
const T: u128 = 0x100;

fn two_states() -> (WorkflowStore, Conversation) {
    let mut store = WorkflowStore::new();
    let who = store.construct_with(T, A, "/go", "at a", 1, 2).unwrap();
    store.add_state_with(&who, B, "at b").unwrap();
    store.add_transition_with(0x1000, A, B, "x").unwrap();
    (store, who)
}

#[test]
fn new_store_is_empty() {
    let store = WorkflowStore::new();
    assert!(store.conversations().is_empty());
    assert!(store.states().is_empty());
    assert!(store.transitions().is_empty());
    assert!(store.instances().is_empty());
}

#[test]
fn construct_stores_template_start_state_and_position() {
    let mut store = WorkflowStore::new();
    let who = store.construct_with(T, A, "/go", "hello", 7, 8).unwrap();
    assert_eq!(who, Conversation { conversation_id: T, chat: 7, user: 8 });
    assert_eq!(
        store.conversations(),
        &vec![conversations::Model {
            conversation_id: T,
            triggerphrase: "/go".to_string(),
            chat_id: Some(7),
        }]
    );
    assert_eq!(
        store.states(),
        &vec![conversation_states::Model {
            state_id: A,
            parent: T,
            content: "hello".to_string(),
            start_for: Some(T),
        }]
    );
    assert_eq!(store.instances(), &vec![Instance { who, current: A }]);
    assert!(store.transitions().is_empty());
}

#[test]
fn constructed_template_has_exactly_one_start_state() {
    let (mut store, who) = two_states();
    store.add_state_with(&who, 0xc, "at c").unwrap();
    let start = store.get_start(&who).unwrap();
    assert_eq!(start.state_id, A);
    assert_eq!(start.content, "at a");
    assert_eq!(start.start_for, Some(T));
    let marked = store.states().iter().filter(|s| s.start_for == Some(T)).count();
    assert_eq!(marked, 1);
}

#[test]
fn start_state_of_an_unknown_template_is_not_found() {
    let (store, _) = two_states();
    let other = Conversation { conversation_id: 0x999, chat: 1, user: 2 };
    assert_eq!(store.get_start(&other), Err(WorkflowError::NotFound));
}

#[test]
fn construct_refuses_a_template_that_exists() {
    let (mut store, _) = two_states();
    assert_eq!(
        store.construct_with(T, 0xc, "/again", "c", 1, 2),
        Err(WorkflowError::DuplicateKey)
    );
    assert_eq!(store.conversations().len(), 1);
    assert_eq!(store.states().len(), 2);
    assert_eq!(store.instances().len(), 1);
    assert_eq!(store.construct(T, "/again", "c", 5, 6), Err(WorkflowError::DuplicateKey));
}

#[test]
fn construct_refuses_a_state_that_exists() {
    let (mut store, _) = two_states();
    assert_eq!(store.construct_refused(0x200, B, 1, 2), Some(WorkflowError::DuplicateKey));
    assert_eq!(
        store.construct_with(0x200, B, "/other", "c", 1, 2),
        Err(WorkflowError::DuplicateKey)
    );
    assert_eq!(store.conversations().len(), 1);
}

#[test]
fn construct_refuses_a_second_start_state() {
    let store_rows = vec![conversation_states::Model {
        state_id: A,
        parent: T,
        content: "orphan".to_string(),
        start_for: Some(T),
    }];
    let mut store = WorkflowStore::from_rows(vec![], store_rows, vec![], vec![]);
    assert_eq!(
        store.construct_with(T, B, "/go", "b", 1, 2),
        Err(WorkflowError::DuplicateStart)
    );
    assert_eq!(store.states().len(), 1);
}

#[test]
fn construct_refuses_a_position_that_exists() {
    let who = Conversation { conversation_id: T, chat: 1, user: 2 };
    let mut store =
        WorkflowStore::from_rows(vec![], vec![], vec![], vec![Instance { who, current: A }]);
    assert_eq!(store.construct_with(T, B, "/go", "b", 1, 2), Err(WorkflowError::DuplicateKey));
    assert_eq!(store.construct_refused(T, B, 1, 3), None);
}

#[test]
fn construct_draws_a_start_state() {
    let mut store = WorkflowStore::new();
    let who = store.construct(T, "/go", "hello", 1, 2).unwrap();
    let start = store.get_start(&who).unwrap();
    assert_eq!(start.content, "hello");
    assert_eq!(store.get_current(&who), Some(start.state_id));
    assert_eq!(store.get_current_text(&who), Ok("hello".to_string()));
}

#[test]
fn add_state_appends_a_state_without_start_marker() {
    let (store, _) = two_states();
    assert_eq!(
        store.states()[1],
        conversation_states::Model {
            state_id: B,
            parent: T,
            content: "at b".to_string(),
            start_for: None,
        }
    );
    assert!(store.has_state(B));
    assert!(!store.has_state(0xc));
}

#[test]
fn add_state_needs_the_template() {
    let (mut store, _) = two_states();
    let other = Conversation { conversation_id: 0x999, chat: 1, user: 2 };
    assert_eq!(store.add_state_with(&other, 0xc, "c"), Err(WorkflowError::ForeignKey));
    assert_eq!(store.add_state(&other, "c"), Err(WorkflowError::ForeignKey));
    assert_eq!(store.states().len(), 2);
}

#[test]
fn add_state_refuses_an_identifier_in_use() {
    let (mut store, who) = two_states();
    assert_eq!(store.add_state_with(&who, A, "again"), Err(WorkflowError::DuplicateKey));
    assert_eq!(store.states().len(), 2);
}

#[test]
fn add_state_draws_identifiers_that_differ() {
    let (mut store, who) = two_states();
    let c = store.add_state(&who, "c").unwrap();
    let d = store.add_state(&who, "d").unwrap();
    assert_ne!(c, d);
    assert_eq!(store.states()[2].state_id, c);
    assert_eq!(store.states()[3].content, "d");
}

#[test]
fn add_transition_appends_an_edge() {
    let (store, _) = two_states();
    assert_eq!(
        store.transitions(),
        &vec![conversation_transitions::Model {
            transition_id: 0x1000,
            start_state: A,
            end_state: B,
            triggerphrase: "x".to_string(),
        }]
    );
    assert!(store.has_transition(0x1000));
    assert!(!store.has_transition(0x1001));
}

#[test]
fn add_transition_needs_both_ends() {
    let (mut store, _) = two_states();
    assert_eq!(store.add_transition_with(0x1001, A, 0xc, "y"), Err(WorkflowError::ForeignKey));
    assert_eq!(store.add_transition_with(0x1001, 0xc, A, "y"), Err(WorkflowError::ForeignKey));
    assert_eq!(store.add_transition(0xc, 0xd, "y"), Err(WorkflowError::ForeignKey));
    assert_eq!(store.transitions().len(), 1);
}

#[test]
fn add_transition_refuses_an_identifier_in_use() {
    let (mut store, _) = two_states();
    assert_eq!(store.add_transition_with(0x1000, B, A, "back"), Err(WorkflowError::DuplicateKey));
    assert_eq!(store.transitions().len(), 1);
}

#[test]
fn transition_moves_to_the_destination_and_returns_its_prompt() {
    let (mut store, who) = two_states();
    assert_eq!(store.get_current_text(&who), Ok("at a".to_string()));
    assert_eq!(store.transition(&who, "x"), Ok("at b".to_string()));
    assert_eq!(store.get_current(&who), Some(B));
    assert_eq!(store.get_current_text(&who), Ok("at b".to_string()));
}

#[test]
fn undefined_label_is_refused_and_the_pointer_stays() {
    let (mut store, who) = two_states();
    assert_eq!(store.transition(&who, "y"), Err(WorkflowError::NoSuchTransition));
    assert_eq!(store.get_current(&who), Some(A));
    store.transition(&who, "x").unwrap();
    assert_eq!(store.transition(&who, "x"), Err(WorkflowError::NoSuchTransition));
    assert_eq!(store.transition(&who, "y"), Err(WorkflowError::NoSuchTransition));
    assert_eq!(store.get_current(&who), Some(B));
}

#[test]
fn labels_are_matched_exactly() {
    let (mut store, who) = two_states();
    assert_eq!(store.transition(&who, "X"), Err(WorkflowError::NoSuchTransition));
    assert_eq!(store.transition(&who, "x "), Err(WorkflowError::NoSuchTransition));
    assert_eq!(store.transition(&who, ""), Err(WorkflowError::NoSuchTransition));
}

#[test]
fn self_loop_stays_however_often_it_is_followed() {
    let mut store = WorkflowStore::new();
    let who = store.construct_with(T, A, "/go", "more?", 1, 2).unwrap();
    store.add_transition(A, A, "more").unwrap();
    for _ in 0..25 {
        assert_eq!(store.transition(&who, "more"), Ok("more?".to_string()));
        assert_eq!(store.get_current(&who), Some(A));
        assert_eq!(store.get_current_text(&who), Ok("more?".to_string()));
    }
}

#[test]
fn branches_are_told_apart_by_their_labels() {
    let (mut store, who) = two_states();
    store.add_state_with(&who, 0xc, "at c").unwrap();
    store.add_transition_with(0x1001, A, 0xc, "z").unwrap();
    assert_eq!(store.transition(&who, "z"), Ok("at c".to_string()));
    assert_eq!(store.get_current(&who), Some(0xc));
}

#[test]
fn state_without_outgoing_edges_ends_the_conversation() {
    let (mut store, who) = two_states();
    store.transition(&who, "x").unwrap();
    assert_eq!(store.transition(&who, "x"), Err(WorkflowError::NoSuchTransition));
    assert_eq!(store.get_current_text(&who), Ok("at b".to_string()));
}

#[test]
fn conversations_do_not_see_each_other() {
    let mut store = WorkflowStore::new();
    let first = store.construct_with(0x100, 0xa1, "/go", "a1", 1, 1).unwrap();
    store.add_state_with(&first, 0xb1, "b1").unwrap();
    store.add_transition_with(0x1, 0xa1, 0xb1, "x").unwrap();
    let second = store.construct_with(0x200, 0xa2, "/go", "a2", 2, 2).unwrap();
    store.add_state_with(&second, 0xb2, "b2").unwrap();
    store.add_transition_with(0x2, 0xa2, 0xb2, "x").unwrap();

    assert_eq!(store.transition(&first, "x"), Ok("b1".to_string()));
    assert_eq!(store.get_current(&second), Some(0xa2));
    assert_eq!(store.get_current_text(&second), Ok("a2".to_string()));
    assert_eq!(store.transition(&second, "x"), Ok("b2".to_string()));
    assert_eq!(store.get_current(&first), Some(0xb1));
    assert_eq!(store.transition(&first, "x"), Err(WorkflowError::NoSuchTransition));
    assert_eq!(store.get_current(&second), Some(0xb2));
}

#[test]
fn unknown_conversation_is_not_found() {
    let (mut store, who) = two_states();
    let other = Conversation { conversation_id: T, chat: 1, user: 3 };
    assert_eq!(store.get_current(&other), None);
    assert_eq!(store.get_current_text(&other), Err(WorkflowError::NotFound));
    assert_eq!(store.transition(&other, "x"), Err(WorkflowError::NotFound));
    assert_eq!(store.get_current(&who), Some(A));
}

#[test]
fn dangling_pointer_is_not_found() {
    let who = Conversation { conversation_id: T, chat: 1, user: 2 };
    let store = WorkflowStore::from_rows(
        vec![],
        vec![conversation_states::Model {
            state_id: A,
            parent: T,
            content: "a".to_string(),
            start_for: None,
        }],
        vec![],
        vec![Instance { who, current: 0xdead }],
    );
    assert_eq!(store.get_current(&who), Some(0xdead));
    assert_eq!(store.get_current_text(&who), Err(WorkflowError::NotFound));
}

#[test]
fn transition_to_a_missing_state_is_not_found_and_does_not_move() {
    let who = Conversation { conversation_id: T, chat: 1, user: 2 };
    let mut store = WorkflowStore::from_rows(
        vec![],
        vec![conversation_states::Model {
            state_id: A,
            parent: T,
            content: "a".to_string(),
            start_for: None,
        }],
        vec![conversation_transitions::Model {
            transition_id: 1,
            start_state: A,
            end_state: 0xdead,
            triggerphrase: "x".to_string(),
        }],
        vec![Instance { who, current: A }],
    );
    assert_eq!(store.transition(&who, "x"), Err(WorkflowError::NotFound));
    assert_eq!(store.get_current(&who), Some(A));
}

#[test]
fn rows_read_from_the_database_are_kept_in_order() {
    let states = vec![
        conversation_states::Model { state_id: 2, parent: 1, content: "b".to_string(), start_for: None },
        conversation_states::Model { state_id: 1, parent: 1, content: "a".to_string(), start_for: Some(1) },
    ];
    let store = WorkflowStore::from_rows(vec![], states.clone(), vec![], vec![]);
    assert_eq!(store.states(), &states);
}

#[test]
fn of_two_edges_with_one_label_the_first_is_followed() {
    let (mut store, who) = two_states();
    store.add_state_with(&who, 0xc, "at c").unwrap();
    store.add_transition_with(0x1001, A, 0xc, "x").unwrap();
    assert_eq!(store.transition(&who, "x"), Ok("at b".to_string()));
}
