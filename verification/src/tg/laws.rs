//! What holds of conversations whatever the store contains.

use crate::persist::entity::conversation_states::StateRow;
use crate::persist::entity::conversations::ConversationRow;
use crate::tg::dialog::{
    is_conversation, is_instance, is_state, is_transition, leaves, starts, Conversation, Instance,
    StoreView, WorkflowError,
};
use crate::util::search::{
    first_index, lemma_first_index, lemma_first_index_none, lemma_first_index_push,
    lemma_first_index_update, lemma_first_match_push,
};
use vstd::prelude::*;

verus! {

/// A store without rows meets the store's constraints.
pub proof fn law_empty_store_is_well_formed()
    ensures
        StoreView::empty().wf(),
{
}

/// Creating a template keeps the store's constraints.
pub proof fn law_construct_keeps_constraints(
    store: StoreView,
    template: u128,
    start: u128,
    triggerphrase: Seq<char>,
    content: Seq<char>,
    chat: i64,
    user: i64,
)
    requires
        store.wf(),
        store.construct_refused(template, start, chat, user) is None,
    ensures
        store.constructed(template, start, triggerphrase, content, chat, user).wf(),
{
    let after = store.constructed(template, start, triggerphrase, content, chat, user);
    let who = Conversation { conversation_id: template, chat, user };
    lemma_first_index(store.conversations, is_conversation(template));
    lemma_first_index(store.states, is_state(start));
    lemma_first_index(store.states, starts(template));
    lemma_first_index(store.instances, is_instance(who));
    assert forall|i: int, j: int|
        #![trigger after.conversations[i], after.conversations[j]]
        0 <= i < j < after.conversations.len() implies after.conversations[i].conversation_id
        != after.conversations[j].conversation_id by {
        if j == store.conversations.len() {
            assert(!is_conversation(template)(store.conversations[i]));
        } else {
            assert(store.conversations[i].conversation_id != store.conversations[j].conversation_id);
        }
    }
    assert forall|i: int, j: int|
        #![trigger after.states[i], after.states[j]]
        0 <= i < j < after.states.len() implies after.states[i].state_id
        != after.states[j].state_id by {
        if j == store.states.len() {
            assert(!is_state(start)(store.states[i]));
        } else {
            assert(store.states[i].state_id != store.states[j].state_id);
        }
    }
    assert forall|i: int, j: int|
        #![trigger after.instances[i], after.instances[j]]
        0 <= i < j < after.instances.len() implies after.instances[i].who
        != after.instances[j].who by {
        if j == store.instances.len() {
            assert(!is_instance(who)(store.instances[i]));
        } else {
            assert(store.instances[i].who != store.instances[j].who);
        }
    }
    assert forall|i: int, j: int|
        #![trigger after.states[i], after.states[j]]
        0 <= i < j < after.states.len() && after.states[i].start_for is Some implies after.states[i].start_for
        != after.states[j].start_for by {
        if j == store.states.len() {
            assert(!starts(template)(store.states[i]));
        } else {
            assert(store.states[i].start_for != store.states[j].start_for);
        }
    }
    assert forall|i: int| 0 <= i < after.conversations.len() implies after.start_of(
        (#[trigger] after.conversations[i]).conversation_id,
    ) is Some by {
        let id = after.conversations[i].conversation_id;
        lemma_first_index_push(
            store.states,
            starts(id),
            StateRow { state_id: start, parent: template, content, start_for: Some(template) },
        );
        if i < store.conversations.len() {
            assert(store.start_of(store.conversations[i].conversation_id) is Some);
        }
    }
    let conversation = ConversationRow {
        conversation_id: template,
        triggerphrase,
        chat_id: Some(chat),
    };
    let first = StateRow { state_id: start, parent: template, content, start_for: Some(template) };
    assert forall|i: int| 0 <= i < after.states.len() implies after.has_conversation(
        (#[trigger] after.states[i]).parent,
    ) by {
        lemma_first_index_push(
            store.conversations,
            is_conversation(after.states[i].parent),
            conversation,
        );
        if i < store.states.len() {
            assert(store.has_conversation(store.states[i].parent));
        }
    }
    assert forall|i: int| 0 <= i < after.transitions.len() implies after.state(
        (#[trigger] after.transitions[i]).start_state,
    ) is Some && after.state(after.transitions[i].end_state) is Some by {
        lemma_first_match_push(store.states, is_state(store.transitions[i].start_state), first);
        lemma_first_match_push(store.states, is_state(store.transitions[i].end_state), first);
        assert(store.state(store.transitions[i].start_state) is Some);
    }
}

/// Adding a state keeps the store's constraints.
pub proof fn law_add_state_keeps_constraints(
    store: StoreView,
    template: u128,
    state: u128,
    content: Seq<char>,
)
    requires
        store.wf(),
        store.add_state_refused(template, state) is None,
    ensures
        store.with_state(template, state, content).wf(),
{
    let after = store.with_state(template, state, content);
    lemma_first_index(store.states, is_state(state));
    assert forall|i: int, j: int|
        #![trigger after.states[i], after.states[j]]
        0 <= i < j < after.states.len() implies after.states[i].state_id
        != after.states[j].state_id by {
        if j == store.states.len() {
            assert(!is_state(state)(store.states[i]));
        } else {
            assert(store.states[i].state_id != store.states[j].state_id);
        }
    }
    assert forall|i: int, j: int|
        #![trigger after.states[i], after.states[j]]
        0 <= i < j < after.states.len() && after.states[i].start_for is Some implies after.states[i].start_for
        != after.states[j].start_for by {
        if j < store.states.len() {
            assert(store.states[i].start_for != store.states[j].start_for);
        }
    }
    assert forall|i: int| 0 <= i < after.conversations.len() implies after.start_of(
        (#[trigger] after.conversations[i]).conversation_id,
    ) is Some by {
        let id = after.conversations[i].conversation_id;
        lemma_first_index_push(
            store.states,
            starts(id),
            StateRow { state_id: state, parent: template, content, start_for: None },
        );
        assert(store.start_of(store.conversations[i].conversation_id) is Some);
    }
    let added = StateRow { state_id: state, parent: template, content, start_for: None };
    assert forall|i: int| 0 <= i < after.states.len() implies after.has_conversation(
        (#[trigger] after.states[i]).parent,
    ) by {
        if i < store.states.len() {
            assert(store.has_conversation(store.states[i].parent));
        }
    }
    assert forall|i: int| 0 <= i < after.transitions.len() implies after.state(
        (#[trigger] after.transitions[i]).start_state,
    ) is Some && after.state(after.transitions[i].end_state) is Some by {
        lemma_first_match_push(store.states, is_state(store.transitions[i].start_state), added);
        lemma_first_match_push(store.states, is_state(store.transitions[i].end_state), added);
        assert(store.state(store.transitions[i].start_state) is Some);
    }
}

/// Adding a transition keeps the store's constraints.
pub proof fn law_add_transition_keeps_constraints(
    store: StoreView,
    transition: u128,
    from: u128,
    to: u128,
    label: Seq<char>,
)
    requires
        store.wf(),
        store.add_transition_refused(transition, from, to) is None,
    ensures
        store.with_transition(transition, from, to, label).wf(),
{
    let after = store.with_transition(transition, from, to, label);
    lemma_first_index(store.transitions, is_transition(transition));
    assert forall|i: int, j: int|
        #![trigger after.transitions[i], after.transitions[j]]
        0 <= i < j < after.transitions.len() implies after.transitions[i].transition_id
        != after.transitions[j].transition_id by {
        if j == store.transitions.len() {
            assert(!is_transition(transition)(store.transitions[i]));
        } else {
            assert(store.transitions[i].transition_id != store.transitions[j].transition_id);
        }
    }
    assert forall|i: int| 0 <= i < after.conversations.len() implies after.start_of(
        (#[trigger] after.conversations[i]).conversation_id,
    ) is Some by {
        assert(store.start_of(store.conversations[i].conversation_id) is Some);
    }
    assert forall|i: int| 0 <= i < after.states.len() implies after.has_conversation(
        (#[trigger] after.states[i]).parent,
    ) by {
        assert(store.has_conversation(store.states[i].parent));
    }
    assert forall|i: int| 0 <= i < after.transitions.len() implies after.state(
        (#[trigger] after.transitions[i]).start_state,
    ) is Some && after.state(after.transitions[i].end_state) is Some by {
        if i < store.transitions.len() {
            assert(store.state(store.transitions[i].start_state) is Some);
        }
    }
}

/// Pointing a conversation at a state changes its pointer and no other row.
pub proof fn law_moved_pointer(store: StoreView, who: Conversation, to: u128)
    requires
        store.pointer(who) is Some,
    ensures
        store.moved(who, to).pointer(who) == Some(to),
        store.moved(who, to).conversations == store.conversations,
        store.moved(who, to).states == store.states,
        store.moved(who, to).transitions == store.transitions,
        store.moved(who, to).instances.len() == store.instances.len(),
{
    lemma_first_index(store.instances, is_instance(who));
    let i = first_index(store.instances, is_instance(who))->0;
    lemma_first_index_update(store.instances, is_instance(who), i, Instance { who, current: to });
}

/// A transition keeps the store's constraints.
pub proof fn law_transition_keeps_constraints(store: StoreView, who: Conversation, label: Seq<char>)
    requires
        store.wf(),
    ensures
        store.after_transition(who, label).wf(),
{
    let after = store.after_transition(who, label);
    match store.target(who, label) {
        Ok(row) => {
            law_moved_pointer(store, who, row.state_id);
            lemma_first_index(store.instances, is_instance(who));
            let at = first_index(store.instances, is_instance(who))->0;
            assert forall|i: int, j: int|
                #![trigger after.instances[i], after.instances[j]]
                0 <= i < j < after.instances.len() implies after.instances[i].who
                != after.instances[j].who by {
                assert(after.instances[i].who == store.instances[i].who);
                assert(after.instances[j].who == store.instances[j].who);
                assert(store.instances[i].who != store.instances[j].who);
            }
            assert forall|i: int| 0 <= i < after.conversations.len() implies after.start_of(
                (#[trigger] after.conversations[i]).conversation_id,
            ) is Some by {
                assert(store.start_of(store.conversations[i].conversation_id) is Some);
            }
            assert forall|i: int| 0 <= i < after.states.len() implies after.has_conversation(
                (#[trigger] after.states[i]).parent,
            ) by {
                assert(store.has_conversation(store.states[i].parent));
            }
            assert forall|i: int| 0 <= i < after.transitions.len() implies after.state(
                (#[trigger] after.transitions[i]).start_state,
            ) is Some && after.state(after.transitions[i].end_state) is Some by {
                assert(store.state(store.transitions[i].start_state) is Some);
            }
        },
        Err(_) => {},
    }
}

/// In a store that meets its constraints every transition leads to a stored
/// state: a conversation that has a transition to follow reaches a state.
pub proof fn law_edge_leads_to_a_state(store: StoreView, who: Conversation, label: Seq<char>)
    requires
        store.wf(),
        store.pointer(who) is Some,
        store.edge(store.pointer(who)->0, label) is Some,
    ensures
        store.target(who, label) is Ok,
{
    lemma_first_index(store.transitions, leaves(store.pointer(who)->0, label));
    let at = first_index(store.transitions, leaves(store.pointer(who)->0, label))->0;
    assert(store.state(store.transitions[at].end_state) is Some);
}

/// Right after a template was created exactly one state carries its start
/// marker, and looking up the start state finds that state.
pub proof fn law_construct_marks_one_start(
    store: StoreView,
    template: u128,
    start: u128,
    triggerphrase: Seq<char>,
    content: Seq<char>,
    chat: i64,
    user: i64,
)
    requires
        store.construct_refused(template, start, chat, user) is None,
    ensures
        ({
            let after = store.constructed(template, start, triggerphrase, content, chat, user);
            &&& after.start_of(template) == Some(
                StateRow { state_id: start, parent: template, content, start_for: Some(template) },
            )
            &&& forall|i: int|
                0 <= i < after.states.len() && (#[trigger] after.states[i]).start_for == Some(
                    template,
                ) ==> i == store.states.len()
        }),
{
    let after = store.constructed(template, start, triggerphrase, content, chat, user);
    let row = StateRow { state_id: start, parent: template, content, start_for: Some(template) };
    lemma_first_index(store.states, starts(template));
    lemma_first_index_push(store.states, starts(template), row);
    assert forall|i: int|
        0 <= i < after.states.len() && (#[trigger] after.states[i]).start_for == Some(
            template,
        ) implies i == store.states.len() by {
        if i < store.states.len() {
            assert(!starts(template)(store.states[i]));
        }
    }
}

/// In a store that meets its constraints every template has exactly one
/// state that carries its start marker.
pub proof fn law_every_template_has_one_start(store: StoreView, template: u128)
    requires
        store.wf(),
        store.has_conversation(template),
    ensures
        store.start_of(template) is Some,
        forall|i: int, j: int|
            #![trigger store.states[i], store.states[j]]
            0 <= i < store.states.len() && 0 <= j < store.states.len()
                && store.states[i].start_for == Some(template) && store.states[j].start_for
                == Some(template) ==> i == j,
{
    lemma_first_index(store.conversations, is_conversation(template));
    let c = first_index(store.conversations, is_conversation(template))->0;
    assert(store.start_of(store.conversations[c].conversation_id) is Some);
    assert forall|i: int, j: int|
        #![trigger store.states[i], store.states[j]]
        0 <= i < store.states.len() && 0 <= j < store.states.len() && store.states[i].start_for
            == Some(template) && store.states[j].start_for == Some(template) implies i == j by {
        if i < j {
            assert(store.states[i].start_for != store.states[j].start_for);
        } else if j < i {
            assert(store.states[j].start_for != store.states[i].start_for);
        }
    }
}

/// A conversation at state `a`, where the transitions that leave `a` under
/// `label` all lead to `b`, moves to `b` under that label and is given the
/// prompt of `b`; afterwards its pointer is at `b`.
pub proof fn law_transition_follows_edge(
    store: StoreView,
    who: Conversation,
    a: u128,
    b: StateRow,
    label: Seq<char>,
)
    requires
        store.pointer(who) == Some(a),
        store.state(b.state_id) == Some(b),
        exists|i: int|
            0 <= i < store.transitions.len() && leaves(a, label)(#[trigger] store.transitions[i]),
        forall|i: int|
            0 <= i < store.transitions.len() && leaves(a, label)(#[trigger] store.transitions[i])
                ==> store.transitions[i].end_state == b.state_id,
    ensures
        store.target(who, label) == Ok::<StateRow, WorkflowError>(b),
        store.after_transition(who, label).pointer(who) == Some(b.state_id),
        store.after_transition(who, label).current_text(who) == Ok::<Seq<char>, WorkflowError>(
            b.content,
        ),
{
    lemma_first_index(store.transitions, leaves(a, label));
    lemma_first_index(store.states, is_state(b.state_id));
    law_moved_pointer(store, who, b.state_id);
}

/// A conversation at state `a` that is given a label under which no
/// transition leaves `a` is refused with the error for an input that does
/// not fit, and the store stays as it was.
pub proof fn law_unknown_label_is_refused(
    store: StoreView,
    who: Conversation,
    a: u128,
    label: Seq<char>,
)
    requires
        store.pointer(who) == Some(a),
        forall|i: int|
            0 <= i < store.transitions.len() ==> !leaves(a, label)(#[trigger] store.transitions[i]),
    ensures
        store.target(who, label) == Err::<StateRow, WorkflowError>(WorkflowError::NoSuchTransition),
        store.after_transition(who, label) == store,
        store.after_transition(who, label).pointer(who) == Some(a),
{
    lemma_first_index_none(store.transitions, leaves(a, label));
}

/// The store after a conversation was asked `n` times to move under `label`.
pub open spec fn after_transitions(store: StoreView, who: Conversation, label: Seq<char>, n: nat)
    -> StoreView
    decreases n,
{
    if n == 0 {
        store
    } else {
        after_transitions(store, who, label, (n - 1) as nat).after_transition(who, label)
    }
}

/// A conversation at a state `s` whose transitions under `label` all lead
/// back to `s` is given the prompt of `s` each time it follows the label,
/// and stays at `s` however often it does.
pub proof fn law_self_loop_stays(
    store: StoreView,
    who: Conversation,
    s: StateRow,
    label: Seq<char>,
    n: nat,
)
    requires
        store.pointer(who) == Some(s.state_id),
        store.state(s.state_id) == Some(s),
        exists|i: int|
            0 <= i < store.transitions.len() && leaves(s.state_id, label)(
                #[trigger] store.transitions[i],
            ),
        forall|i: int|
            0 <= i < store.transitions.len() && leaves(s.state_id, label)(
                #[trigger] store.transitions[i],
            ) ==> store.transitions[i].end_state == s.state_id,
    ensures
        after_transitions(store, who, label, n) == store,
        after_transitions(store, who, label, n).target(who, label) == Ok::<
            StateRow,
            WorkflowError,
        >(s),
        after_transitions(store, who, label, n).pointer(who) == Some(s.state_id),
        after_transitions(store, who, label, n).current_text(who) == Ok::<
            Seq<char>,
            WorkflowError,
        >(s.content),
    decreases n,
{
    law_transition_follows_edge(store, who, s.state_id, s, label);
    lemma_first_index(store.instances, is_instance(who));
    let at = first_index(store.instances, is_instance(who))->0;
    assert(store.instances[at] == Instance { who, current: s.state_id });
    assert(store.instances.update(at, Instance { who, current: s.state_id })
        =~= store.instances);
    assert(store.after_transition(who, label) == store);
    if n > 0 {
        law_self_loop_stays(store, who, s, label, (n - 1) as nat);
    }
}

/// Moving one conversation never changes the pointer of another.
pub proof fn law_conversations_are_independent(
    store: StoreView,
    moving: Conversation,
    other: Conversation,
    label: Seq<char>,
)
    requires
        moving != other,
    ensures
        store.after_transition(moving, label).pointer(other) == store.pointer(other),
        store.after_transition(moving, label).current_text(other) == store.current_text(other),
{
    match store.target(moving, label) {
        Ok(row) => {
            lemma_first_index(store.instances, is_instance(moving));
            let at = first_index(store.instances, is_instance(moving))->0;
            let changed = Instance { who: moving, current: row.state_id };
            lemma_first_index_update(store.instances, is_instance(other), at, changed);
            lemma_first_index(store.instances, is_instance(other));
        },
        Err(_) => {},
    }
}

} // verus!
