//! Conversations: finite-state interactions whose states, transitions and
//! current positions are kept as rows of a relational store, so that a
//! conversation survives a restart and many chats are served side by side.

use crate::persist::entity::conversation_states;
use crate::persist::entity::conversation_states::StateRow;
use crate::persist::entity::conversation_transitions;
use crate::persist::entity::conversation_transitions::TransitionRow;
use crate::persist::entity::conversations;
use crate::persist::entity::conversations::ConversationRow;
use crate::util::ids::fresh_uuid;
use crate::tg::laws::{
    law_add_state_keeps_constraints, law_add_transition_keeps_constraints,
    law_construct_keeps_constraints, law_transition_keeps_constraints,
};
use crate::util::search::{first_index, first_match, lemma_first_index_is, lemma_first_index_none};
use vstd::prelude::*;

verus! {

/// The identity of one running conversation: a template, and the chat and
/// user it runs for.
#[derive(Clone, Copy, Debug, PartialEq, Eq, Structural)]
pub struct Conversation {
    pub conversation_id: u128,
    pub chat: i64,
    pub user: i64,
}

/// The position of one running conversation: the state it is at.
#[derive(Clone, Copy, Debug, PartialEq, Eq, Structural)]
pub struct Instance {
    pub who: Conversation,
    pub current: u128,
}

/// Why an operation on conversations did not succeed.
#[derive(Clone, Copy, Debug, PartialEq, Eq, Structural)]
pub enum WorkflowError {
    /// No transition with this label leaves the current state: the user's
    /// input does not fit, and may be asked for again.
    NoSuchTransition,
    /// The conversation, or the state it points to, is not in the store.
    NotFound,
    /// A row with this identifier is in the store already.
    DuplicateKey,
    /// The template has a start state already.
    DuplicateStart,
    /// The row refers to a row that is not in the store.
    ForeignKey,
}

/// Rows for a template with this identifier.
pub open spec fn is_conversation(id: u128) -> spec_fn(ConversationRow) -> bool {
    |row: ConversationRow| row.conversation_id == id
}

/// Rows for a state with this identifier.
pub open spec fn is_state(id: u128) -> spec_fn(StateRow) -> bool {
    |row: StateRow| row.state_id == id
}

/// Rows for a state that carries the start marker of this template.
pub open spec fn starts(template: u128) -> spec_fn(StateRow) -> bool {
    |row: StateRow| row.start_for == Some(template)
}

/// Rows for a transition with this identifier.
pub open spec fn is_transition(id: u128) -> spec_fn(TransitionRow) -> bool {
    |row: TransitionRow| row.transition_id == id
}

/// Rows for a transition that leaves `from` under `label`.
pub open spec fn leaves(from: u128, label: Seq<char>) -> spec_fn(TransitionRow) -> bool {
    |row: TransitionRow| row.start_state == from && row.triggerphrase == label
}

/// Rows for the position of this conversation.
pub open spec fn is_instance(who: Conversation) -> spec_fn(Instance) -> bool {
    |row: Instance| row.who == who
}

/// The contents of the store: its four tables, each in the order of insertion.
pub struct StoreView {
    pub conversations: Seq<ConversationRow>,
    pub states: Seq<StateRow>,
    pub transitions: Seq<TransitionRow>,
    pub instances: Seq<Instance>,
}

impl StoreView {
    /// A store without rows.
    pub open spec fn empty() -> StoreView {
        StoreView {
            conversations: Seq::empty(),
            states: Seq::empty(),
            transitions: Seq::empty(),
            instances: Seq::empty(),
        }
    }

    /// Whether a template with this identifier is stored.
    pub open spec fn has_conversation(self, id: u128) -> bool {
        first_index(self.conversations, is_conversation(id)) is Some
    }

    /// The state with this identifier.
    pub open spec fn state(self, id: u128) -> Option<StateRow> {
        first_match(self.states, is_state(id))
    }

    /// The state that carries the start marker of this template.
    pub open spec fn start_of(self, template: u128) -> Option<StateRow> {
        first_match(self.states, starts(template))
    }

    /// Whether a transition with this identifier is stored.
    pub open spec fn has_transition(self, id: u128) -> bool {
        first_index(self.transitions, is_transition(id)) is Some
    }

    /// The transition that leaves `from` under `label`; where several do, the
    /// one that was added first.
    pub open spec fn edge(self, from: u128, label: Seq<char>) -> Option<TransitionRow> {
        first_match(self.transitions, leaves(from, label))
    }

    /// The state this conversation is at.
    pub open spec fn pointer(self, who: Conversation) -> Option<u128> {
        match first_match(self.instances, is_instance(who)) {
            Some(row) => Some(row.current),
            None => None,
        }
    }

    /// The prompt of the state this conversation is at.
    pub open spec fn current_text(self, who: Conversation) -> Result<Seq<char>, WorkflowError> {
        match self.pointer(who) {
            None => Err(WorkflowError::NotFound),
            Some(current) => match self.state(current) {
                None => Err(WorkflowError::NotFound),
                Some(row) => Ok(row.content),
            },
        }
    }

    /// Why a template cannot be created, if it cannot.
    pub open spec fn construct_refused(self, template: u128, start: u128, chat: i64, user: i64)
        -> Option<WorkflowError> {
        if self.has_conversation(template) {
            Some(WorkflowError::DuplicateKey)
        } else if self.state(start) is Some {
            Some(WorkflowError::DuplicateKey)
        } else if self.start_of(template) is Some {
            Some(WorkflowError::DuplicateStart)
        } else if self.pointer(Conversation { conversation_id: template, chat, user }) is Some {
            Some(WorkflowError::DuplicateKey)
        } else {
            None
        }
    }

    /// The store after a template was created: it holds the template, its
    /// start state, and a conversation for the chat and user that is at the
    /// start state.
    pub open spec fn constructed(
        self,
        template: u128,
        start: u128,
        triggerphrase: Seq<char>,
        content: Seq<char>,
        chat: i64,
        user: i64,
    ) -> StoreView {
        StoreView {
            conversations: self.conversations.push(
                ConversationRow { conversation_id: template, triggerphrase, chat_id: Some(chat) },
            ),
            states: self.states.push(
                StateRow { state_id: start, parent: template, content, start_for: Some(template) },
            ),
            transitions: self.transitions,
            instances: self.instances.push(
                Instance {
                    who: Conversation { conversation_id: template, chat, user },
                    current: start,
                },
            ),
        }
    }

    /// Whether `made` and `after` are what creating a template gives: the
    /// error and an unchanged store where it is refused, else the new
    /// conversation and the store that holds it.
    pub open spec fn construct_gives(
        self,
        template: u128,
        start: u128,
        triggerphrase: Seq<char>,
        content: Seq<char>,
        chat: i64,
        user: i64,
        made: Result<Conversation, WorkflowError>,
        after: StoreView,
    ) -> bool {
        match self.construct_refused(template, start, chat, user) {
            Some(error) => made == Err::<Conversation, WorkflowError>(error) && after == self,
            None => made == Ok::<Conversation, WorkflowError>(
                Conversation { conversation_id: template, chat, user },
            ) && after == self.constructed(template, start, triggerphrase, content, chat, user),
        }
    }

    /// Why a state cannot be added, if it cannot.
    pub open spec fn add_state_refused(self, template: u128, state: u128) -> Option<WorkflowError> {
        if !self.has_conversation(template) {
            Some(WorkflowError::ForeignKey)
        } else if self.state(state) is Some {
            Some(WorkflowError::DuplicateKey)
        } else {
            None
        }
    }

    /// The store after a state was added to a template.
    pub open spec fn with_state(self, template: u128, state: u128, content: Seq<char>) -> StoreView {
        StoreView {
            conversations: self.conversations,
            states: self.states.push(
                StateRow { state_id: state, parent: template, content, start_for: None },
            ),
            transitions: self.transitions,
            instances: self.instances,
        }
    }

    /// Whether `added` and `after` are what adding a state gives: the error
    /// and an unchanged store where it is refused, else the state's
    /// identifier and the store that holds it.
    pub open spec fn add_state_gives(
        self,
        template: u128,
        state: u128,
        content: Seq<char>,
        added: Result<u128, WorkflowError>,
        after: StoreView,
    ) -> bool {
        match self.add_state_refused(template, state) {
            Some(error) => added == Err::<u128, WorkflowError>(error) && after == self,
            None => added == Ok::<u128, WorkflowError>(state) && after == self.with_state(
                template,
                state,
                content,
            ),
        }
    }

    /// Why a transition cannot be added, if it cannot.
    pub open spec fn add_transition_refused(self, transition: u128, from: u128, to: u128) -> Option<
        WorkflowError,
    > {
        if self.state(from) is None || self.state(to) is None {
            Some(WorkflowError::ForeignKey)
        } else if self.has_transition(transition) {
            Some(WorkflowError::DuplicateKey)
        } else {
            None
        }
    }

    /// The store after a transition was added.
    pub open spec fn with_transition(
        self,
        transition: u128,
        from: u128,
        to: u128,
        label: Seq<char>,
    ) -> StoreView {
        StoreView {
            conversations: self.conversations,
            states: self.states,
            transitions: self.transitions.push(
                TransitionRow {
                    transition_id: transition,
                    start_state: from,
                    end_state: to,
                    triggerphrase: label,
                },
            ),
            instances: self.instances,
        }
    }

    /// Whether `added` and `after` are what adding a transition gives: the
    /// error and an unchanged store where it is refused, else the store that
    /// holds the transition.
    pub open spec fn add_transition_gives(
        self,
        transition: u128,
        from: u128,
        to: u128,
        label: Seq<char>,
        added: Result<(), WorkflowError>,
        after: StoreView,
    ) -> bool {
        match self.add_transition_refused(transition, from, to) {
            Some(error) => added == Err::<(), WorkflowError>(error) && after == self,
            None => added == Ok::<(), WorkflowError>(()) && after == self.with_transition(
                transition,
                from,
                to,
                label,
            ),
        }
    }

    /// The state a conversation reaches under `label`, or why it cannot move.
    pub open spec fn target(self, who: Conversation, label: Seq<char>) -> Result<
        StateRow,
        WorkflowError,
    > {
        match self.pointer(who) {
            None => Err(WorkflowError::NotFound),
            Some(current) => match self.edge(current, label) {
                None => Err(WorkflowError::NoSuchTransition),
                Some(edge) => match self.state(edge.end_state) {
                    None => Err(WorkflowError::NotFound),
                    Some(row) => Ok(row),
                },
            },
        }
    }

    /// The store after the conversation `who` was pointed at the state `to`.
    pub open spec fn moved(self, who: Conversation, to: u128) -> StoreView {
        match first_index(self.instances, is_instance(who)) {
            Some(i) => StoreView {
                conversations: self.conversations,
                states: self.states,
                transitions: self.transitions,
                instances: self.instances.update(i, Instance { who, current: to }),
            },
            None => self,
        }
    }

    /// The store after a conversation was asked to move under `label`: its
    /// pointer is at the target where there is one, and nothing has changed
    /// where there is none.
    pub open spec fn after_transition(self, who: Conversation, label: Seq<char>) -> StoreView {
        match self.target(who, label) {
            Ok(row) => self.moved(who, row.state_id),
            Err(_) => self,
        }
    }

    /// What the store's constraints keep true: identifiers are not used
    /// twice, no template has two start states and every template has one,
    /// every state belongs to a stored template, and every transition leads
    /// from a stored state to a stored state.
    pub open spec fn wf(self) -> bool {
        &&& forall|i: int, j: int|
            #![trigger self.conversations[i], self.conversations[j]]
            0 <= i < j < self.conversations.len() ==> self.conversations[i].conversation_id
                != self.conversations[j].conversation_id
        &&& forall|i: int, j: int|
            #![trigger self.states[i], self.states[j]]
            0 <= i < j < self.states.len() ==> self.states[i].state_id != self.states[j].state_id
        &&& forall|i: int, j: int|
            #![trigger self.transitions[i], self.transitions[j]]
            0 <= i < j < self.transitions.len() ==> self.transitions[i].transition_id
                != self.transitions[j].transition_id
        &&& forall|i: int, j: int|
            #![trigger self.instances[i], self.instances[j]]
            0 <= i < j < self.instances.len() ==> self.instances[i].who != self.instances[j].who
        &&& forall|i: int, j: int|
            #![trigger self.states[i], self.states[j]]
            0 <= i < j < self.states.len() && self.states[i].start_for is Some
                ==> self.states[i].start_for != self.states[j].start_for
        &&& forall|i: int|
            0 <= i < self.conversations.len() ==> self.start_of(
                (#[trigger] self.conversations[i]).conversation_id,
            ) is Some
        &&& forall|i: int|
            0 <= i < self.states.len() ==> self.has_conversation(
                (#[trigger] self.states[i]).parent,
            )
        &&& forall|i: int|
            0 <= i < self.transitions.len() ==> self.state(
                (#[trigger] self.transitions[i]).start_state,
            ) is Some && self.state(self.transitions[i].end_state) is Some
    }
}

/// The relational store of the conversations.
pub struct WorkflowStore {
    conversations: Vec<conversations::Model>,
    states: Vec<conversation_states::Model>,
    transitions: Vec<conversation_transitions::Model>,
    instances: Vec<Instance>,
}

impl View for WorkflowStore {
    type V = StoreView;

    closed spec fn view(&self) -> StoreView {
        StoreView {
            conversations: conversations::rows(self.conversations@),
            states: conversation_states::rows(self.states@),
            transitions: conversation_transitions::rows(self.transitions@),
            instances: self.instances@,
        }
    }
}

impl WorkflowStore {
    /// A store without rows.
    pub fn new() -> (store: WorkflowStore)
        ensures
            store@ == StoreView::empty(),
            store@.wf(),
    {
        let store = WorkflowStore {
            conversations: Vec::new(),
            states: Vec::new(),
            transitions: Vec::new(),
            instances: Vec::new(),
        };
        assert(store@.conversations =~= Seq::empty());
        assert(store@.states =~= Seq::empty());
        assert(store@.transitions =~= Seq::empty());
        store
    }

    /// A store that holds the given rows, as they were read from the database.
    pub fn from_rows(
        conversations: Vec<conversations::Model>,
        states: Vec<conversation_states::Model>,
        transitions: Vec<conversation_transitions::Model>,
        instances: Vec<Instance>,
    ) -> (store: WorkflowStore)
        ensures
            store@.conversations == conversations::rows(conversations@),
            store@.states == conversation_states::rows(states@),
            store@.transitions == conversation_transitions::rows(transitions@),
            store@.instances == instances@,
    {
        WorkflowStore { conversations, states, transitions, instances }
    }

    /// The templates, in the order of insertion.
    pub fn conversations(&self) -> (rows: &Vec<conversations::Model>)
        ensures
            conversations::rows(rows@) == self@.conversations,
    {
        &self.conversations
    }

    /// The states, in the order of insertion.
    pub fn states(&self) -> (rows: &Vec<conversation_states::Model>)
        ensures
            conversation_states::rows(rows@) == self@.states,
    {
        &self.states
    }

    /// The transitions, in the order of insertion.
    pub fn transitions(&self) -> (rows: &Vec<conversation_transitions::Model>)
        ensures
            conversation_transitions::rows(rows@) == self@.transitions,
    {
        &self.transitions
    }

    /// The positions of the running conversations, in the order of insertion.
    pub fn instances(&self) -> (rows: &Vec<Instance>)
        ensures
            rows@ == self@.instances,
    {
        &self.instances
    }

    /// Whether a state with this identifier is stored.
    pub fn has_state(&self, id: u128) -> (held: bool)
        ensures
            held == self@.state(id) is Some,
    {
        self.find_state(id).is_some()
    }

    /// Whether a transition with this identifier is stored.
    pub fn has_transition(&self, id: u128) -> (held: bool)
        ensures
            held == self@.has_transition(id),
    {
        self.find_transition(id)
    }

    /// Why a template with these identifiers cannot be created, if it cannot.
    pub fn construct_refused(&self, template: u128, start: u128, chat: i64, user: i64) -> (refused:
        Option<WorkflowError>)
        ensures
            refused == self@.construct_refused(template, start, chat, user),
    {
        let who = Conversation { conversation_id: template, chat, user };
        if self.find_conversation(template).is_some() {
            Some(WorkflowError::DuplicateKey)
        } else if self.find_state(start).is_some() {
            Some(WorkflowError::DuplicateKey)
        } else if self.find_start(template).is_some() {
            Some(WorkflowError::DuplicateStart)
        } else if self.find_instance(&who).is_some() {
            Some(WorkflowError::DuplicateKey)
        } else {
            None
        }
    }

    fn find_conversation(&self, id: u128) -> (found: Option<usize>)
        ensures
            found is Some == self@.has_conversation(id),
    {
        let mut i: usize = 0;
        while i < self.conversations.len()
            invariant
                i <= self.conversations.len(),
                self@.conversations.len() == self.conversations.len(),
                forall|j: int| 0 <= j < i ==> !is_conversation(id)(#[trigger] self@.conversations[j]),
            decreases self.conversations.len() - i,
        {
            if self.conversations[i].conversation_id == id {
                proof {
                    lemma_first_index_is(self@.conversations, is_conversation(id), i as int);
                }
                return Some(i);
            }
            i += 1;
        }
        proof {
            lemma_first_index_none(self@.conversations, is_conversation(id));
        }
        None
    }

    fn find_state(&self, id: u128) -> (found: Option<usize>)
        ensures
            match found {
                Some(i) => i < self.states.len() && self.states[i as int].state_id == id
                    && self@.state(id) == Some(self.states[i as int]@),
                None => self@.state(id) is None,
            },
    {
        let mut i: usize = 0;
        while i < self.states.len()
            invariant
                i <= self.states.len(),
                self@.states.len() == self.states.len(),
                forall|j: int| 0 <= j < i ==> !is_state(id)(#[trigger] self@.states[j]),
            decreases self.states.len() - i,
        {
            if self.states[i].state_id == id {
                proof {
                    lemma_first_index_is(self@.states, is_state(id), i as int);
                }
                return Some(i);
            }
            i += 1;
        }
        proof {
            lemma_first_index_none(self@.states, is_state(id));
        }
        None
    }

    fn find_start(&self, template: u128) -> (found: Option<usize>)
        ensures
            match found {
                Some(i) => i < self.states.len() && self@.start_of(template) == Some(
                    self.states[i as int]@,
                ),
                None => self@.start_of(template) is None,
            },
    {
        let mut i: usize = 0;
        while i < self.states.len()
            invariant
                i <= self.states.len(),
                self@.states.len() == self.states.len(),
                forall|j: int| 0 <= j < i ==> !starts(template)(#[trigger] self@.states[j]),
            decreases self.states.len() - i,
        {
            let marked = match self.states[i].start_for {
                Some(t) => t == template,
                None => false,
            };
            if marked {
                proof {
                    lemma_first_index_is(self@.states, starts(template), i as int);
                }
                return Some(i);
            }
            i += 1;
        }
        proof {
            lemma_first_index_none(self@.states, starts(template));
        }
        None
    }

    fn find_transition(&self, id: u128) -> (found: bool)
        ensures
            found == self@.has_transition(id),
    {
        let mut i: usize = 0;
        while i < self.transitions.len()
            invariant
                i <= self.transitions.len(),
                self@.transitions.len() == self.transitions.len(),
                forall|j: int| 0 <= j < i ==> !is_transition(id)(#[trigger] self@.transitions[j]),
            decreases self.transitions.len() - i,
        {
            if self.transitions[i].transition_id == id {
                proof {
                    lemma_first_index_is(self@.transitions, is_transition(id), i as int);
                }
                return true;
            }
            i += 1;
        }
        proof {
            lemma_first_index_none(self@.transitions, is_transition(id));
        }
        false
    }

    fn find_edge(&self, from: u128, label: &str) -> (found: Option<usize>)
        ensures
            match found {
                Some(i) => i < self.transitions.len() && self@.edge(from, label@) == Some(
                    self.transitions[i as int]@,
                ),
                None => self@.edge(from, label@) is None,
            },
    {
        let wanted = label.to_owned();
        let mut i: usize = 0;
        while i < self.transitions.len()
            invariant
                i <= self.transitions.len(),
                wanted@ == label@,
                self@.transitions.len() == self.transitions.len(),
                forall|j: int| 0 <= j < i ==> !leaves(from, label@)(#[trigger] self@.transitions[j]),
            decreases self.transitions.len() - i,
        {
            if self.transitions[i].start_state == from && self.transitions[i].triggerphrase
                == wanted {
                proof {
                    lemma_first_index_is(self@.transitions, leaves(from, label@), i as int);
                }
                return Some(i);
            }
            i += 1;
        }
        proof {
            lemma_first_index_none(self@.transitions, leaves(from, label@));
        }
        None
    }

    fn find_instance(&self, who: &Conversation) -> (found: Option<usize>)
        ensures
            match found {
                Some(i) => i < self.instances.len() && first_index(
                    self@.instances,
                    is_instance(*who),
                ) == Some(i as int) && self@.pointer(*who) == Some(self.instances[i as int].current),
                None => self@.pointer(*who) is None,
            },
    {
        let mut i: usize = 0;
        while i < self.instances.len()
            invariant
                i <= self.instances.len(),
                forall|j: int| 0 <= j < i ==> !is_instance(*who)(#[trigger] self@.instances[j]),
            decreases self.instances.len() - i,
        {
            if self.instances[i].who == *who {
                proof {
                    lemma_first_index_is(self@.instances, is_instance(*who), i as int);
                }
                return Some(i);
            }
            i += 1;
        }
        proof {
            lemma_first_index_none(self@.instances, is_instance(*who));
        }
        None
    }

    /// Creates a template with the given identifiers for itself and for its
    /// start state, and starts a conversation for the chat and user at that
    /// state. Nothing is stored where an identifier is in use already.
    pub fn construct_with(
        &mut self,
        template: u128,
        start: u128,
        triggerphrase: &str,
        content: &str,
        chat: i64,
        user: i64,
    ) -> (made: Result<Conversation, WorkflowError>)
        ensures
            old(self)@.construct_gives(
                template,
                start,
                triggerphrase@,
                content@,
                chat,
                user,
                made,
                final(self)@,
            ),
            old(self)@.wf() ==> final(self)@.wf(),
    {
        let who = Conversation { conversation_id: template, chat, user };
        if let Some(error) = self.construct_refused(template, start, chat, user) {
            return Err(error);
        }
        self.conversations.push(
            conversations::Model {
                conversation_id: template,
                triggerphrase: triggerphrase.to_owned(),
                chat_id: Some(chat),
            },
        );
        self.states.push(
            conversation_states::Model {
                state_id: start,
                parent: template,
                content: content.to_owned(),
                start_for: Some(template),
            },
        );
        self.instances.push(Instance { who, current: start });
        proof {
            let after = old(self)@.constructed(
                template,
                start,
                triggerphrase@,
                content@,
                chat,
                user,
            );
            assert(self@.conversations =~= after.conversations);
            assert(self@.states =~= after.states);
            assert(self@.transitions =~= after.transitions);
            assert(self@.instances =~= after.instances);
            if old(self)@.wf() {
                law_construct_keeps_constraints(
                    old(self)@,
                    template,
                    start,
                    triggerphrase@,
                    content@,
                    chat,
                    user,
                );
            }
        }
        Ok(who)
    }

    /// Creates a template and its start state, and starts a conversation for
    /// the chat and user at that state. The start state gets a freshly drawn
    /// identifier; the call fails where the template's identifier, or by
    /// chance the drawn one, is in use already.
    pub fn construct(
        &mut self,
        template: u128,
        triggerphrase: &str,
        content: &str,
        chat: i64,
        user: i64,
    ) -> (made: Result<Conversation, WorkflowError>)
        ensures
            exists|start: u128|
                #[trigger] old(self)@.construct_gives(
                    template,
                    start,
                    triggerphrase@,
                    content@,
                    chat,
                    user,
                    made,
                    final(self)@,
                ),
            old(self)@.wf() ==> final(self)@.wf(),
    {
        let start = fresh_uuid();
        self.construct_with(template, start, triggerphrase, content, chat, user)
    }

    /// The start state of a conversation's template.
    pub fn get_start(&self, who: &Conversation) -> (start: Result<
        conversation_states::Model,
        WorkflowError,
    >)
        ensures
            match self@.start_of(who.conversation_id) {
                Some(row) => start is Ok && start->Ok_0@ == row,
                None => start is Err && start->Err_0 == WorkflowError::NotFound,
            },
    {
        match self.find_start(who.conversation_id) {
            Some(i) => Ok(self.states[i].clone()),
            None => Err(WorkflowError::NotFound),
        }
    }

    /// Adds a state with the given identifier to a conversation's template.
    pub fn add_state_with(&mut self, who: &Conversation, state: u128, content: &str) -> (added:
        Result<u128, WorkflowError>)
        ensures
            old(self)@.add_state_gives(who.conversation_id, state, content@, added, final(self)@),
            old(self)@.wf() ==> final(self)@.wf(),
    {
        if self.find_conversation(who.conversation_id).is_none() {
            return Err(WorkflowError::ForeignKey);
        }
        if self.find_state(state).is_some() {
            return Err(WorkflowError::DuplicateKey);
        }
        self.states.push(
            conversation_states::Model {
                state_id: state,
                parent: who.conversation_id,
                content: content.to_owned(),
                start_for: None,
            },
        );
        proof {
            let after = old(self)@.with_state(who.conversation_id, state, content@);
            assert(self@.conversations =~= after.conversations);
            assert(self@.states =~= after.states);
            assert(self@.transitions =~= after.transitions);
            if old(self)@.wf() {
                law_add_state_keeps_constraints(old(self)@, who.conversation_id, state, content@);
            }
        }
        Ok(state)
    }

    /// Adds a state to a conversation's template and returns its freshly
    /// drawn identifier. It fails where the template is not stored or, by
    /// chance, the drawn identifier is in use already.
    pub fn add_state(&mut self, who: &Conversation, content: &str) -> (added: Result<
        u128,
        WorkflowError,
    >)
        ensures
            exists|state: u128|
                #[trigger] old(self)@.add_state_gives(
                    who.conversation_id,
                    state,
                    content@,
                    added,
                    final(self)@,
                ),
            old(self)@.wf() ==> final(self)@.wf(),
    {
        let state = fresh_uuid();
        self.add_state_with(who, state, content)
    }

    /// Adds a transition with the given identifier from one state to another.
    /// Both ends may be the same state: such a transition repeats a step.
    /// Two transitions that leave one state under one label are not refused.
    pub fn add_transition_with(&mut self, transition: u128, from: u128, to: u128, label: &str) -> (added:
        Result<(), WorkflowError>)
        ensures
            old(self)@.add_transition_gives(transition, from, to, label@, added, final(self)@),
            old(self)@.wf() ==> final(self)@.wf(),
    {
        if self.find_state(from).is_none() || self.find_state(to).is_none() {
            return Err(WorkflowError::ForeignKey);
        }
        if self.find_transition(transition) {
            return Err(WorkflowError::DuplicateKey);
        }
        self.transitions.push(
            conversation_transitions::Model {
                transition_id: transition,
                start_state: from,
                end_state: to,
                triggerphrase: label.to_owned(),
            },
        );
        proof {
            let after = old(self)@.with_transition(transition, from, to, label@);
            assert(self@.conversations =~= after.conversations);
            assert(self@.states =~= after.states);
            assert(self@.transitions =~= after.transitions);
            if old(self)@.wf() {
                law_add_transition_keeps_constraints(old(self)@, transition, from, to, label@);
            }
        }
        Ok(())
    }

    /// Adds a transition from one state to another under a freshly drawn
    /// identifier. It fails where an end is not stored or, by chance, the
    /// drawn identifier is in use already.
    pub fn add_transition(&mut self, from: u128, to: u128, label: &str) -> (added: Result<
        (),
        WorkflowError,
    >)
        ensures
            exists|transition: u128|
                #[trigger] old(self)@.add_transition_gives(
                    transition,
                    from,
                    to,
                    label@,
                    added,
                    final(self)@,
                ),
            old(self)@.wf() ==> final(self)@.wf(),
    {
        let transition = fresh_uuid();
        self.add_transition_with(transition, from, to, label)
    }

    /// The state a conversation is at.
    pub fn get_current(&self, who: &Conversation) -> (current: Option<u128>)
        ensures
            current == self@.pointer(*who),
    {
        match self.find_instance(who) {
            Some(i) => Some(self.instances[i].current),
            None => None,
        }
    }

    /// The prompt of the state a conversation is at. It fails where the
    /// conversation is not stored or points to a state that is not.
    pub fn get_current_text(&self, who: &Conversation) -> (text: Result<String, WorkflowError>)
        ensures
            match self@.current_text(*who) {
                Ok(content) => text is Ok && text->Ok_0@ == content,
                Err(error) => text is Err && text->Err_0 == error,
            },
    {
        match self.find_instance(who) {
            None => Err(WorkflowError::NotFound),
            Some(i) => match self.find_state(self.instances[i].current) {
                None => Err(WorkflowError::NotFound),
                Some(s) => Ok(self.states[s].content.clone()),
            },
        }
    }

    /// Moves a conversation along the transition that leaves its current
    /// state under `label`, and returns the prompt of the state it reaches.
    /// Where no such transition exists the conversation stays where it is.
    pub fn transition(&mut self, who: &Conversation, label: &str) -> (text: Result<
        String,
        WorkflowError,
    >)
        ensures
            final(self)@ == old(self)@.after_transition(*who, label@),
            old(self)@.wf() ==> final(self)@.wf(),
            match old(self)@.target(*who, label@) {
                Ok(row) => text is Ok && text->Ok_0@ == row.content,
                Err(error) => text is Err && text->Err_0 == error,
            },
    {
        let i = match self.find_instance(who) {
            None => {
                return Err(WorkflowError::NotFound);
            },
            Some(i) => i,
        };
        let edge = match self.find_edge(self.instances[i].current, label) {
            None => {
                return Err(WorkflowError::NoSuchTransition);
            },
            Some(e) => e,
        };
        let to = self.transitions[edge].end_state;
        let reached = match self.find_state(to) {
            None => {
                return Err(WorkflowError::NotFound);
            },
            Some(s) => s,
        };
        let text = self.states[reached].content.clone();
        self.instances.set(i, Instance { who: *who, current: to });
        proof {
            let after = old(self)@.after_transition(*who, label@);
            assert(self@.conversations =~= after.conversations);
            assert(self@.states =~= after.states);
            assert(self@.transitions =~= after.transitions);
            assert(self@.instances =~= after.instances);
            if old(self)@.wf() {
                law_transition_keeps_constraints(old(self)@, *who, label@);
            }
        }
        Ok(text)
    }
}

} // verus!
