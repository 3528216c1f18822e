//! The sticker collection: a user uploads a sticker, names it and tags it,
//! one message at a time.

pub mod entities;

use crate::modules::sticker::entities::stickers;
use crate::modules::sticker::entities::stickers::StickerRow;
use crate::modules::sticker::entities::tags::ModelRedis;
use crate::persist::cache::{CommandView, Pipeline, PipelineView};
use crate::persist::redis::{chat_scoped, scope_key_by_chatuser, tag_msgpack, RedisStr};
use crate::persist::entity::conversation_states::StateRow;
use crate::persist::entity::conversation_transitions::TransitionRow;
use crate::persist::entity::conversations::ConversationRow;
use crate::tg::dialog::{
    is_conversation, is_state, is_transition, Conversation, StoreView, WorkflowError,
    WorkflowStore,
};
use crate::util::error::BotError;
use crate::util::ids::fresh_uuid;
use crate::util::search::{
    first_index, first_match, lemma_first_index_push, lemma_first_match_push,
};
use crate::util::ids::{parse_uuid, text_uuid, uuid_text, uuid_to_string};
use vstd::prelude::*;
use vstd::string::{StrSliceExecFns, StringExecFns, StringSliceAdditionalSpecFns};

verus! {

// Keys of the cache, each scoped to a chat and a user.
pub const KEY_TYPE_TAG: &'static str = "wc:tag";

pub const KEY_TYPE_STICKER_ID: &'static str = "wc:stickerid";

pub const KEY_TYPE_STICKER_NAME: &'static str = "wc:stickername";

// The upload conversation: its trigger, the labels of its transitions and
// the prompts of its states.
pub const UPLOAD_CMD: &'static str = "/upload";

pub const TRANSITION_NAME: &'static str = "stickername";

pub const TRANSITION_DONE: &'static str = "stickerdone";

pub const TRANSITION_UPLOAD: &'static str = "upload";

pub const TRANSITION_TAG: &'static str = "stickertag";

pub const TRANSITION_MORETAG: &'static str = "stickermoretag";

pub const STATE_START: &'static str = "Send a sticker to upload";

pub const STATE_UPLOAD: &'static str = "sticker uploaded";

pub const STATE_NAME: &'static str = "Send a name for this sticker";

pub const STATE_TAGS: &'static str =
    "Send tags for this sticker, one at a time. Send /done to stop";

pub const STATE_DONE: &'static str = "Successfully uploaded sticker";

/// Whether two texts are the same.
pub fn same_text(left: &str, right: &str) -> (same: bool)
    ensures
        same == (left@ == right@),
{
    left.to_owned() == right.to_owned()
}

/// Why a message could not be handled.
#[derive(Clone, Copy, Debug, PartialEq, Eq, Structural)]
pub enum StickerError {
    /// The message has no sender.
    NoSender,
    /// A sticker was asked for and the message holds none.
    NotASticker,
    /// A text was asked for and the message holds none.
    NoText,
    /// A conversation was to be started for a message that has no sender.
    HasNoSender,
    /// The tag could not be encoded.
    Encode,
    /// A freshly drawn identifier is in use already.
    IdInUse,
}

impl StickerError {
    /// The message that tells the user of the error.
    pub open spec fn text(self) -> Seq<char> {
        match self {
            StickerError::NoSender => "message without sender"@,
            StickerError::NotASticker => "Send a sticker"@,
            StickerError::NoText => "no text"@,
            StickerError::HasNoSender => "message has no sender"@,
            StickerError::Encode => "could not encode tag"@,
            StickerError::IdInUse => "identifier in use"@,
        }
    }

    /// The error as the user is shown it.
    pub fn to_bot_error(&self) -> (error: BotError)
        ensures
            error@ == self.text(),
    {
        match self {
            StickerError::NoSender => BotError::new("message without sender"),
            StickerError::NotASticker => BotError::new("Send a sticker"),
            StickerError::NoText => BotError::new("no text"),
            StickerError::HasNoSender => BotError::new("message has no sender"),
            StickerError::Encode => BotError::new("could not encode tag"),
            StickerError::IdInUse => BotError::new("identifier in use"),
        }
    }
}

/// The identifiers of the rows of one upload conversation: the template,
/// its five states and its five transitions.
#[derive(Clone, Copy, Debug, PartialEq, Eq, Structural)]
pub struct WizardIds {
    pub template: u128,
    pub start: u128,
    pub upload: u128,
    pub name: u128,
    pub tags: u128,
    pub done: u128,
    pub to_upload: u128,
    pub to_name: u128,
    pub to_tags: u128,
    pub more_tags: u128,
    pub to_done: u128,
}

/// The store after an upload conversation was added to it. The conversation
/// leads from the start over the sticker and its name to the tags, stays at
/// the tags for each tag, and ends when the tags are done.
pub open spec fn wizard(store: StoreView, ids: WizardIds, chat: i64, user: i64) -> StoreView {
    store.constructed(
        ids.template,
        ids.start,
        UPLOAD_CMD@,
        STATE_START@,
        chat,
        user,
    ).with_state(ids.template, ids.upload, STATE_UPLOAD@).with_state(
        ids.template,
        ids.name,
        STATE_NAME@,
    ).with_state(ids.template, ids.tags, STATE_TAGS@).with_state(
        ids.template,
        ids.done,
        STATE_DONE@,
    ).with_transition(ids.to_upload, ids.start, ids.upload, TRANSITION_UPLOAD@).with_transition(
        ids.to_name,
        ids.upload,
        ids.name,
        TRANSITION_NAME@,
    ).with_transition(ids.to_tags, ids.name, ids.tags, TRANSITION_TAG@).with_transition(
        ids.more_tags,
        ids.tags,
        ids.tags,
        TRANSITION_MORETAG@,
    ).with_transition(ids.to_done, ids.tags, ids.done, TRANSITION_DONE@)
}

/// Whether the identifiers of the states differ from each other and from
/// those in the store.
pub open spec fn states_free(store: StoreView, ids: WizardIds) -> bool {
    &&& store.state(ids.upload) is None
    &&& store.state(ids.name) is None
    &&& store.state(ids.tags) is None
    &&& store.state(ids.done) is None
    &&& ids.start != ids.upload
    &&& ids.start != ids.name
    &&& ids.start != ids.tags
    &&& ids.start != ids.done
    &&& ids.upload != ids.name
    &&& ids.upload != ids.tags
    &&& ids.upload != ids.done
    &&& ids.name != ids.tags
    &&& ids.name != ids.done
    &&& ids.tags != ids.done
}

/// Whether the identifiers of the transitions differ from each other and
/// from those in the store.
pub open spec fn transitions_free(store: StoreView, ids: WizardIds) -> bool {
    &&& !store.has_transition(ids.to_upload)
    &&& !store.has_transition(ids.to_name)
    &&& !store.has_transition(ids.to_tags)
    &&& !store.has_transition(ids.more_tags)
    &&& !store.has_transition(ids.to_done)
    &&& ids.to_upload != ids.to_name
    &&& ids.to_upload != ids.to_tags
    &&& ids.to_upload != ids.more_tags
    &&& ids.to_upload != ids.to_done
    &&& ids.to_name != ids.to_tags
    &&& ids.to_name != ids.more_tags
    &&& ids.to_name != ids.to_done
    &&& ids.to_tags != ids.more_tags
    &&& ids.to_tags != ids.to_done
    &&& ids.more_tags != ids.to_done
}

/// Why an upload conversation with these identifiers cannot be added, if it cannot.
pub open spec fn wizard_refused(store: StoreView, ids: WizardIds, chat: i64, user: i64) -> Option<
    WorkflowError,
> {
    match store.construct_refused(ids.template, ids.start, chat, user) {
        Some(error) => Some(error),
        None => if states_free(store, ids) && transitions_free(store, ids) {
            None
        } else {
            Some(WorkflowError::DuplicateKey)
        },
    }
}

fn wizard_ids_free(store: &WorkflowStore, ids: &WizardIds) -> (free: bool)
    ensures
        free == (states_free(store@, *ids) && transitions_free(store@, *ids)),
{
    !store.has_state(ids.upload) && !store.has_state(ids.name) && !store.has_state(ids.tags)
        && !store.has_state(ids.done) && ids.start != ids.upload && ids.start != ids.name
        && ids.start != ids.tags && ids.start != ids.done && ids.upload != ids.name
        && ids.upload != ids.tags && ids.upload != ids.done && ids.name != ids.tags && ids.name
        != ids.done && ids.tags != ids.done && !store.has_transition(ids.to_upload)
        && !store.has_transition(ids.to_name) && !store.has_transition(ids.to_tags)
        && !store.has_transition(ids.more_tags) && !store.has_transition(ids.to_done)
        && ids.to_upload != ids.to_name && ids.to_upload != ids.to_tags && ids.to_upload
        != ids.more_tags && ids.to_upload != ids.to_done && ids.to_name != ids.to_tags
        && ids.to_name != ids.more_tags && ids.to_name != ids.to_done && ids.to_tags
        != ids.more_tags && ids.to_tags != ids.to_done && ids.more_tags != ids.to_done
}

proof fn lemma_states_after_push(states: Seq<StateRow>, row: StateRow, ids: WizardIds)
    ensures
        first_match(states.push(row), is_state(ids.start)) == pushed(
            first_match(states, is_state(ids.start)),
            row,
            ids.start,
        ),
        first_match(states.push(row), is_state(ids.upload)) == pushed(
            first_match(states, is_state(ids.upload)),
            row,
            ids.upload,
        ),
        first_match(states.push(row), is_state(ids.name)) == pushed(
            first_match(states, is_state(ids.name)),
            row,
            ids.name,
        ),
        first_match(states.push(row), is_state(ids.tags)) == pushed(
            first_match(states, is_state(ids.tags)),
            row,
            ids.tags,
        ),
        first_match(states.push(row), is_state(ids.done)) == pushed(
            first_match(states, is_state(ids.done)),
            row,
            ids.done,
        ),
{
    lemma_first_match_push(states, is_state(ids.start), row);
    lemma_first_match_push(states, is_state(ids.upload), row);
    lemma_first_match_push(states, is_state(ids.name), row);
    lemma_first_match_push(states, is_state(ids.tags), row);
    lemma_first_match_push(states, is_state(ids.done), row);
}

spec fn pushed(before: Option<StateRow>, row: StateRow, id: u128) -> Option<StateRow> {
    match before {
        Some(found) => Some(found),
        None => if row.state_id == id {
            Some(row)
        } else {
            None
        },
    }
}

proof fn lemma_transitions_after_push(
    transitions: Seq<TransitionRow>,
    row: TransitionRow,
    ids: WizardIds,
)
    ensures
        first_index(transitions.push(row), is_transition(ids.to_upload)) is Some == (first_index(
            transitions,
            is_transition(ids.to_upload),
        ) is Some || row.transition_id == ids.to_upload),
        first_index(transitions.push(row), is_transition(ids.to_name)) is Some == (first_index(
            transitions,
            is_transition(ids.to_name),
        ) is Some || row.transition_id == ids.to_name),
        first_index(transitions.push(row), is_transition(ids.to_tags)) is Some == (first_index(
            transitions,
            is_transition(ids.to_tags),
        ) is Some || row.transition_id == ids.to_tags),
        first_index(transitions.push(row), is_transition(ids.more_tags)) is Some == (first_index(
            transitions,
            is_transition(ids.more_tags),
        ) is Some || row.transition_id == ids.more_tags),
        first_index(transitions.push(row), is_transition(ids.to_done)) is Some == (first_index(
            transitions,
            is_transition(ids.to_done),
        ) is Some || row.transition_id == ids.to_done),
{
    lemma_first_index_push(transitions, is_transition(ids.to_upload), row);
    lemma_first_index_push(transitions, is_transition(ids.to_name), row);
    lemma_first_index_push(transitions, is_transition(ids.to_tags), row);
    lemma_first_index_push(transitions, is_transition(ids.more_tags), row);
    lemma_first_index_push(transitions, is_transition(ids.to_done), row);
}

/// Adds an upload conversation with the given identifiers to the store and
/// starts it for the chat and user. Either all of its rows are added or,
/// where an identifier is in use, none.
pub fn upload_sticker_conversation_with(
    store: &mut WorkflowStore,
    ids: &WizardIds,
    chat: i64,
    user: i64,
) -> (made: Result<Conversation, WorkflowError>)
    ensures
        match wizard_refused(old(store)@, *ids, chat, user) {
            Some(error) => made == Err::<Conversation, WorkflowError>(error) && final(store)@
                == old(store)@,
            None => made == Ok::<Conversation, WorkflowError>(
                Conversation { conversation_id: ids.template, chat, user },
            ) && final(store)@ == wizard(old(store)@, *ids, chat, user),
        },
        old(store)@.wf() ==> final(store)@.wf(),
{
    if let Some(error) = store.construct_refused(ids.template, ids.start, chat, user) {
        return Err(error);
    }
    if !wizard_ids_free(store, ids) {
        return Err(WorkflowError::DuplicateKey);
    }
    let ghost s0 = store@;
    let who = match store.construct_with(
        ids.template,
        ids.start,
        UPLOAD_CMD,
        STATE_START,
        chat,
        user,
    ) {
        Ok(who) => who,
        Err(error) => {
            return Err(error);
        },
    };
    let ghost s1 = store@;
    proof {
        lemma_first_index_push(
            s0.conversations,
            is_conversation(ids.template),
            ConversationRow {
                conversation_id: ids.template,
                triggerphrase: UPLOAD_CMD@,
                chat_id: Some(chat),
            },
        );
        lemma_states_after_push(s0.states, s1.states.last(), *ids);
        assert(s1.states == s0.states.push(s1.states.last()));
    }
    match store.add_state_with(&who, ids.upload, STATE_UPLOAD) {
        Ok(_) => {},
        Err(error) => {
            return Err(error);
        },
    }
    let ghost s2 = store@;
    proof {
        lemma_states_after_push(s1.states, s2.states.last(), *ids);
        assert(s2.states == s1.states.push(s2.states.last()));
    }
    match store.add_state_with(&who, ids.name, STATE_NAME) {
        Ok(_) => {},
        Err(error) => {
            return Err(error);
        },
    }
    let ghost s3 = store@;
    proof {
        lemma_states_after_push(s2.states, s3.states.last(), *ids);
        assert(s3.states == s2.states.push(s3.states.last()));
    }
    match store.add_state_with(&who, ids.tags, STATE_TAGS) {
        Ok(_) => {},
        Err(error) => {
            return Err(error);
        },
    }
    let ghost s4 = store@;
    proof {
        lemma_states_after_push(s3.states, s4.states.last(), *ids);
        assert(s4.states == s3.states.push(s4.states.last()));
    }
    match store.add_state_with(&who, ids.done, STATE_DONE) {
        Ok(_) => {},
        Err(error) => {
            return Err(error);
        },
    }
    let ghost s5 = store@;
    proof {
        lemma_states_after_push(s4.states, s5.states.last(), *ids);
        assert(s5.states == s4.states.push(s5.states.last()));
    }
    match store.add_transition_with(ids.to_upload, ids.start, ids.upload, TRANSITION_UPLOAD) {
        Ok(_) => {},
        Err(error) => {
            return Err(error);
        },
    }
    let ghost s6 = store@;
    proof {
        lemma_transitions_after_push(s5.transitions, s6.transitions.last(), *ids);
        assert(s6.transitions == s5.transitions.push(s6.transitions.last()));
    }
    match store.add_transition_with(ids.to_name, ids.upload, ids.name, TRANSITION_NAME) {
        Ok(_) => {},
        Err(error) => {
            return Err(error);
        },
    }
    let ghost s7 = store@;
    proof {
        lemma_transitions_after_push(s6.transitions, s7.transitions.last(), *ids);
        assert(s7.transitions == s6.transitions.push(s7.transitions.last()));
    }
    match store.add_transition_with(ids.to_tags, ids.name, ids.tags, TRANSITION_TAG) {
        Ok(_) => {},
        Err(error) => {
            return Err(error);
        },
    }
    let ghost s8 = store@;
    proof {
        lemma_transitions_after_push(s7.transitions, s8.transitions.last(), *ids);
        assert(s8.transitions == s7.transitions.push(s8.transitions.last()));
    }
    match store.add_transition_with(ids.more_tags, ids.tags, ids.tags, TRANSITION_MORETAG) {
        Ok(_) => {},
        Err(error) => {
            return Err(error);
        },
    }
    let ghost s9 = store@;
    proof {
        lemma_transitions_after_push(s8.transitions, s9.transitions.last(), *ids);
        assert(s9.transitions == s8.transitions.push(s9.transitions.last()));
    }
    match store.add_transition_with(ids.to_done, ids.tags, ids.done, TRANSITION_DONE) {
        Ok(_) => {},
        Err(error) => {
            return Err(error);
        },
    }
    Ok(who)
}

/// Adds an upload conversation to the store and starts it for the chat a
/// message came from and for its sender. The rows get freshly drawn
/// identifiers; where one of them is, by chance, in use, no row is added.
pub fn upload_sticker_conversation(store: &mut WorkflowStore, chat: i64, sender: Option<i64>) -> (made:
    Result<Conversation, StickerError>)
    ensures
        match sender {
            None => made == Err::<Conversation, StickerError>(StickerError::HasNoSender)
                && final(store)@ == old(store)@,
            Some(user) => exists|ids: WizardIds| #[trigger]
                wizard_gives(old(store)@, ids, chat, user, made, final(store)@),
        },
        old(store)@.wf() ==> final(store)@.wf(),
{
    let user = match sender {
        None => {
            return Err(StickerError::HasNoSender);
        },
        Some(user) => user,
    };
    let ids = WizardIds {
        template: fresh_uuid(),
        start: fresh_uuid(),
        upload: fresh_uuid(),
        name: fresh_uuid(),
        tags: fresh_uuid(),
        done: fresh_uuid(),
        to_upload: fresh_uuid(),
        to_name: fresh_uuid(),
        to_tags: fresh_uuid(),
        more_tags: fresh_uuid(),
        to_done: fresh_uuid(),
    };
    let made = match upload_sticker_conversation_with(store, &ids, chat, user) {
        Ok(who) => Ok(who),
        Err(_) => Err(StickerError::IdInUse),
    };
    assert(wizard_gives(old(store)@, ids, chat, user, made, store@));
    made
}

/// Whether `made` and `after` are what adding an upload conversation with
/// these identifiers gives: the conversation and the store that holds it,
/// or an error and an unchanged store where an identifier is in use.
pub open spec fn wizard_gives(
    store: StoreView,
    ids: WizardIds,
    chat: i64,
    user: i64,
    made: Result<Conversation, StickerError>,
    after: StoreView,
) -> bool {
    match wizard_refused(store, ids, chat, user) {
        Some(_) => made == Err::<Conversation, StickerError>(StickerError::IdInUse) && after
            == store,
        None => made == Ok::<Conversation, StickerError>(
            Conversation { conversation_id: ids.template, chat, user },
        ) && after == wizard(store, ids, chat, user),
    }
}

/// A command of the sticker collection.
#[derive(Clone, Copy, Debug, PartialEq, Eq, Structural)]
pub enum StickerCommand {
    /// Start to upload a sticker.
    Upload,
    /// List the user's stickers.
    List,
    /// Delete a sticker.
    Delete,
}

/// The command that a word stands for.
pub open spec fn command_of(word: Seq<char>) -> Option<StickerCommand> {
    if word == "/upload"@ {
        Some(StickerCommand::Upload)
    } else if word == "/list"@ {
        Some(StickerCommand::List)
    } else if word == "/delete"@ {
        Some(StickerCommand::Delete)
    } else {
        None
    }
}

/// Tells which command the first word of a message asks for, if any.
pub fn handle_command(word: &str) -> (command: Option<StickerCommand>)
    ensures
        command == command_of(word@),
{
    if same_text(word, "/upload") {
        Some(StickerCommand::Upload)
    } else if same_text(word, "/list") {
        Some(StickerCommand::List)
    } else if same_text(word, "/delete") {
        Some(StickerCommand::Delete)
    } else {
        None
    }
}

/// A step of the upload conversation at which a message is awaited.
#[derive(Clone, Copy, Debug, PartialEq, Eq, Structural)]
pub enum WizardStep {
    /// The conversation has just started.
    Start,
    /// A sticker is awaited.
    Upload,
    /// A name is awaited.
    Name,
    /// A tag is awaited, or the word that ends the tags.
    Tags,
}

/// The step whose prompt is `text`.
pub open spec fn step_of(text: Seq<char>) -> Option<WizardStep> {
    if text == STATE_START@ {
        Some(WizardStep::Start)
    } else if text == STATE_UPLOAD@ {
        Some(WizardStep::Upload)
    } else if text == STATE_NAME@ {
        Some(WizardStep::Name)
    } else if text == STATE_TAGS@ {
        Some(WizardStep::Tags)
    } else {
        None
    }
}

/// Tells from the prompt of a conversation's current state which step of
/// the upload it is at. At any other state no message is awaited.
pub fn handle_conversation(text: &str) -> (step: Option<WizardStep>)
    ensures
        step == step_of(text@),
{
    if same_text(text, STATE_START) {
        Some(WizardStep::Start)
    } else if same_text(text, STATE_UPLOAD) {
        Some(WizardStep::Upload)
    } else if same_text(text, STATE_NAME) {
        Some(WizardStep::Name)
    } else if same_text(text, STATE_TAGS) {
        Some(WizardStep::Tags)
    } else {
        None
    }
}

/// What the first message of the conversation is answered with, and the
/// label under which the conversation moves on.
pub fn conv_start() -> (turn: (&'static str, &'static str))
    ensures
        turn.0@ == STATE_START@,
        turn.1@ == TRANSITION_UPLOAD@,
{
    (STATE_START, TRANSITION_UPLOAD)
}

/// The batch that remembers the sticker of an upload: the sticker's file
/// identifier is written under the sender's key, and tags staged for an
/// earlier upload are removed.
pub open spec fn upload_commands(chat: int, user: int, file_id: Seq<u8>) -> Seq<CommandView> {
    seq![
        CommandView::Put(chat_scoped(KEY_TYPE_STICKER_ID@, chat, user, seq!['c', 'u']), file_id),
        CommandView::Del(chat_scoped(KEY_TYPE_TAG@, chat, user, seq!['c', 'u'])),
    ]
}

/// Handles the message that should hold the sticker: gives the batch for the
/// cache and the label under which the conversation moves on.
pub fn conv_upload(chat_id: i64, sender: Option<i64>, sticker_file_id: Option<&str>) -> (turn:
    Result<(Pipeline, &'static str), StickerError>)
    ensures
        match (sticker_file_id, sender) {
            (None, _) => turn == Err::<(Pipeline, &'static str), StickerError>(
                StickerError::NotASticker,
            ),
            (Some(_), None) => turn == Err::<(Pipeline, &'static str), StickerError>(
                StickerError::NoSender,
            ),
            (Some(file_id), Some(user)) => turn is Ok && turn->Ok_0.0@ == (PipelineView {
                atomic: false,
                commands: upload_commands(chat_id as int, user as int, file_id.spec_bytes()),
            }) && turn->Ok_0.1@ == TRANSITION_NAME@,
        },
{
    let file_id = match sticker_file_id {
        None => {
            return Err(StickerError::NotASticker);
        },
        Some(file_id) => file_id,
    };
    let key = match scope_key_by_chatuser(KEY_TYPE_STICKER_ID, chat_id, sender) {
        Err(_) => {
            return Err(StickerError::NoSender);
        },
        Ok(key) => key,
    };
    let taglist = match scope_key_by_chatuser(KEY_TYPE_TAG, chat_id, sender) {
        Err(_) => {
            return Err(StickerError::NoSender);
        },
        Ok(key) => key,
    };
    let batch = Pipeline::new().set(key.as_str(), &file_id.as_bytes_vec()).del(taglist.as_str());
    assert(batch@.commands =~= upload_commands(
        chat_id as int,
        sender->0 as int,
        file_id.spec_bytes(),
    ));
    Ok((batch, TRANSITION_NAME))
}

/// The batch that remembers the name of an upload.
pub open spec fn name_commands(chat: int, user: int, name: Seq<u8>) -> Seq<CommandView> {
    seq![CommandView::Put(chat_scoped(KEY_TYPE_STICKER_NAME@, chat, user, seq!['c', 'u']), name)]
}

/// Handles the message that should hold the sticker's name.
pub fn conv_name(chat_id: i64, sender: Option<i64>, text: Option<&str>) -> (turn: Result<
    (Pipeline, &'static str),
    StickerError,
>)
    ensures
        match (sender, text) {
            (None, _) => turn == Err::<(Pipeline, &'static str), StickerError>(
                StickerError::NoSender,
            ),
            (Some(_), None) => turn == Err::<(Pipeline, &'static str), StickerError>(
                StickerError::NoText,
            ),
            (Some(user), Some(name)) => turn is Ok && turn->Ok_0.0@ == (PipelineView {
                atomic: false,
                commands: name_commands(chat_id as int, user as int, name.spec_bytes()),
            }) && turn->Ok_0.1@ == TRANSITION_TAG@,
        },
{
    let key = match scope_key_by_chatuser(KEY_TYPE_STICKER_NAME, chat_id, sender) {
        Err(_) => {
            return Err(StickerError::NoSender);
        },
        Ok(key) => key,
    };
    let name = match text {
        None => {
            return Err(StickerError::NoText);
        },
        Some(name) => name,
    };
    let batch = Pipeline::new().set(key.as_str(), &name.as_bytes_vec());
    assert(batch@.commands =~= name_commands(chat_id as int, sender->0 as int, name.spec_bytes()));
    Ok((batch, TRANSITION_TAG))
}

/// What a message at the tags step asks for.
#[derive(Debug, PartialEq, Eq)]
pub enum TagTurn {
    /// The tags are complete: the staged tags are drained and stored with
    /// the sticker, and the conversation moves on under the label.
    Commit(&'static str),
    /// One more tag: the batch stages it, and the conversation stays at the
    /// tags step by following the label.
    Stage(Pipeline, &'static str),
}

/// The batch that stages one more tag.
pub open spec fn tag_commands(chat: int, user: int, sticker_id: Seq<char>, tag: Seq<char>) -> Seq<
    CommandView,
> {
    seq![
        CommandView::Lpush(
            chat_scoped(KEY_TYPE_TAG@, chat, user, seq!['c', 'u']),
            tag_msgpack(sticker_id, user, tag),
        ),
    ]
}

/// Handles a message at the tags step. The word `/done` ends the tags; any
/// other text is one more tag of the sticker.
pub fn conv_moretags(chat_id: i64, sender: Option<i64>, sticker_id: &str, text: Option<&str>) -> (turn:
    Result<TagTurn, StickerError>)
    ensures
        match (sender, text) {
            (None, _) => turn == Err::<TagTurn, StickerError>(StickerError::NoSender),
            (Some(_), None) => turn == Err::<TagTurn, StickerError>(StickerError::NoText),
            (Some(user), Some(text)) => if text@ == "/done"@ {
                turn matches Ok(TagTurn::Commit(label)) && label@ == TRANSITION_DONE@
            } else {
                turn matches Ok(TagTurn::Stage(batch, label)) && batch@ == (PipelineView {
                    atomic: true,
                    commands: tag_commands(chat_id as int, user as int, sticker_id@, text@),
                }) && label@ == TRANSITION_MORETAG@
            },
        },
{
    let taglist = match scope_key_by_chatuser(KEY_TYPE_TAG, chat_id, sender) {
        Err(_) => {
            return Err(StickerError::NoSender);
        },
        Ok(key) => key,
    };
    let text = match text {
        None => {
            return Err(StickerError::NoText);
        },
        Some(text) => text,
    };
    let user = match sender {
        None => {
            return Err(StickerError::NoSender);
        },
        Some(user) => user,
    };
    if same_text(text, "/done") {
        return Ok(TagTurn::Commit(TRANSITION_DONE));
    }
    let staged = ModelRedis {
        sticker_id: sticker_id.to_owned(),
        owner_id: user,
        tag: text.to_owned(),
    };
    match RedisStr::new(&staged) {
        Err(_) => Err(StickerError::Encode),
        Ok(tag) => {
            let batch = Pipeline::new().atomic().lpush(taglist.as_str(), &tag);
            assert(batch@.commands =~= tag_commands(
                chat_id as int,
                user as int,
                sticker_id@,
                text@,
            ));
            Ok(TagTurn::Stage(batch, TRANSITION_MORETAG))
        },
    }
}

/// What a delete command asks for: the identifier of the sticker, or the
/// message for the user. The command takes one argument, the text of the
/// identifier; where that text is no identifier the message is the one with
/// which it was refused.
pub open spec fn delete_target(words: Seq<Seq<char>>) -> Result<u128, Seq<char>> {
    if words.len() != 2 {
        Err("invalid command args"@)
    } else {
        text_uuid(words[1])
    }
}

/// The words of a command as plain values.
pub open spec fn word_views(words: Seq<String>) -> Seq<Seq<char>> {
    Seq::new(words.len(), |i: int| words[i]@)
}

/// Reads the arguments of a delete command.
pub fn delete_sticker(words: &Vec<String>) -> (target: Result<u128, BotError>)
    ensures
        match delete_target(word_views(words@)) {
            Ok(id) => target is Ok && target->Ok_0 == id,
            Err(message) => target is Err && target->Err_0@ == message,
        },
{
    if words.len() != 2 {
        return Err(BotError::new("invalid command args"));
    }
    assert(word_views(words@)[1] == words[1]@);
    match parse_uuid(words[1].as_str()) {
        Ok(id) => Ok(id),
        Err(message) => Err(BotError::new(message.as_str())),
    }
}

/// The row of a sticker whose upload is finished: the file, its owner, the
/// identifier under which it can be deleted, and the name the user chose.
pub fn new_sticker_with(unique_id: &str, owner_id: i64, uuid: u128, chosen_name: &str) -> (row:
    stickers::Model)
    ensures
        row@ == (StickerRow {
            unique_id: unique_id@,
            owner_id,
            uuid,
            chosen_name: Some(chosen_name@),
        }),
{
    stickers::Model {
        unique_id: unique_id.to_owned(),
        owner_id,
        uuid,
        chosen_name: Some(chosen_name.to_owned()),
    }
}

/// The row of a sticker whose upload is finished, under a freshly drawn
/// identifier.
pub fn new_sticker(unique_id: &str, owner_id: i64, chosen_name: &str) -> (row: stickers::Model)
    ensures
        row@.unique_id == unique_id@,
        row@.owner_id == owner_id,
        row@.chosen_name == Some(chosen_name@),
{
    new_sticker_with(unique_id, owner_id, fresh_uuid(), chosen_name)
}

/// One line of the list of stickers: the name the user chose, or `Unnamed`,
/// and the sticker's identifier.
pub open spec fn sticker_line(sticker: StickerRow) -> Seq<char> {
    "\n - "@ + (match sticker.chosen_name {
        Some(name) => name,
        None => "Unnamed"@,
    }) + " "@ + uuid_text(sticker.uuid)
}

/// The list of a user's stickers: a heading, then one line for each sticker.
pub open spec fn sticker_list(stickers: Seq<StickerRow>) -> Seq<char>
    decreases stickers.len(),
{
    if stickers.len() == 0 {
        "My stickers:"@
    } else {
        sticker_list(stickers.drop_last()) + sticker_line(stickers.last())
    }
}

/// Writes the list of a user's stickers.
pub fn list_stickers(stickers: &Vec<stickers::Model>) -> (text: String)
    ensures
        text@ == sticker_list(stickers::rows(stickers@)),
{
    let mut text = String::from_str("My stickers:");
    let mut i: usize = 0;
    assert(stickers::rows(stickers@).subrange(0, 0) =~= Seq::empty());
    while i < stickers.len()
        invariant
            i <= stickers.len(),
            text@ == sticker_list(stickers::rows(stickers@).subrange(0, i as int)),
        decreases stickers.len() - i,
    {
        let ghost before = text@;
        let ghost done = stickers::rows(stickers@).subrange(0, i + 1);
        text.append("\n - ");
        match &stickers[i].chosen_name {
            Some(name) => {
                text.append(name.as_str());
            },
            None => {
                text.append("Unnamed");
            },
        }
        text.append(" ");
        let id = uuid_to_string(stickers[i].uuid);
        text.append(id.as_str());
        proof {
            assert(done.drop_last() =~= stickers::rows(stickers@).subrange(0, i as int));
            assert(done.last() == stickers[i as int]@);
            assert(text@ =~= before + sticker_line(done.last()));
        }
        i += 1;
    }
    assert(stickers::rows(stickers@).subrange(0, i as int) =~= stickers::rows(stickers@));
    text
}

/// The pattern that finds the tags which hold `key`: the key between two `%`.
pub open spec fn like_pattern(key: Seq<char>) -> Seq<char> {
    seq!['%'] + key + seq!['%']
}

/// The pattern with which the store is searched for the tags of an inline query.
pub fn handle_inline(key: &str) -> (pattern: String)
    ensures
        pattern@ == like_pattern(key@),
{
    proof {
        reveal_strlit("%");
    }
    let mut pattern = String::from_str("%");
    pattern.append(key);
    pattern.append("%");
    assert(pattern@ =~= like_pattern(key@));
    pattern
}

} // verus!
