//! The commands of the key-value cache, batches of them, and the staging
//! list: a list in the cache that collects a user's input over several
//! turns until it is stored for good in one step.

use crate::modules::sticker::entities::tags::{ModelRedis, TagView};
use crate::persist::redis::{msgpack_tag, tag_msgpack, CodecError, RedisStr};
use vstd::prelude::*;

verus! {

/// One command of the cache.
#[derive(Debug, PartialEq, Eq)]
pub enum Command {
    /// Reads the value at a key.
    Get(String),
    /// Writes a value at a key, whatever was there.
    Put(String, Vec<u8>),
    /// Removes a key, whatever was there.
    Del(String),
    /// Puts an item at the head of the list at a key.
    Lpush(String, Vec<u8>),
    /// Reads the whole list at a key, from its head.
    Lrange(String),
}

/// A command as plain values.
pub enum CommandView {
    Get(Seq<char>),
    Put(Seq<char>, Seq<u8>),
    Del(Seq<char>),
    Lpush(Seq<char>, Seq<u8>),
    Lrange(Seq<char>),
}

impl View for Command {
    type V = CommandView;

    open spec fn view(&self) -> CommandView {
        match self {
            Command::Get(key) => CommandView::Get(key@),
            Command::Put(key, value) => CommandView::Put(key@, value@),
            Command::Del(key) => CommandView::Del(key@),
            Command::Lpush(key, item) => CommandView::Lpush(key@, item@),
            Command::Lrange(key) => CommandView::Lrange(key@),
        }
    }
}

/// The commands of a batch as plain values.
pub open spec fn command_views(commands: Seq<Command>) -> Seq<CommandView> {
    Seq::new(commands.len(), |i: int| commands[i]@)
}

/// Byte strings as plain values.
pub open spec fn byte_strings(items: Seq<Vec<u8>>) -> Seq<Seq<u8>> {
    Seq::new(items.len(), |i: int| items[i]@)
}

/// Encoded values as plain values.
pub open spec fn encoded_items(items: Seq<RedisStr>) -> Seq<Seq<u8>> {
    Seq::new(items.len(), |i: int| items[i]@)
}

/// A batch as plain values.
pub struct PipelineView {
    pub atomic: bool,
    pub commands: Seq<CommandView>,
}

/// A batch of commands that goes to the cache in one round trip. A batch
/// marked atomic is applied as a whole, with no other client's command in
/// between.
#[derive(Debug, PartialEq, Eq)]
pub struct Pipeline {
    atomic: bool,
    commands: Vec<Command>,
}

impl View for Pipeline {
    type V = PipelineView;

    closed spec fn view(&self) -> PipelineView {
        PipelineView { atomic: self.atomic, commands: command_views(self.commands@) }
    }
}

impl Pipeline {
    /// A batch without commands, not atomic.
    pub fn new() -> (batch: Pipeline)
        ensures
            batch@ == (PipelineView { atomic: false, commands: Seq::empty() }),
    {
        let batch = Pipeline { atomic: false, commands: Vec::new() };
        assert(batch@.commands =~= Seq::empty());
        batch
    }

    /// Marks the batch atomic.
    pub fn atomic(self) -> (batch: Pipeline)
        ensures
            batch@ == (PipelineView { atomic: true, commands: self@.commands }),
    {
        Pipeline { atomic: true, commands: self.commands }
    }

    fn with(self, command: Command) -> (batch: Pipeline)
        ensures
            batch@ == (PipelineView {
                atomic: self@.atomic,
                commands: self@.commands.push(command@),
            }),
    {
        let mut commands = self.commands;
        commands.push(command);
        let batch = Pipeline { atomic: self.atomic, commands };
        assert(batch@.commands =~= self@.commands.push(command@));
        batch
    }

    /// Adds a command that reads the value at `key`.
    pub fn get(self, key: &str) -> (batch: Pipeline)
        ensures
            batch@ == (PipelineView {
                atomic: self@.atomic,
                commands: self@.commands.push(CommandView::Get(key@)),
            }),
    {
        self.with(Command::Get(key.to_owned()))
    }

    /// Adds a command that writes `value` at `key`.
    pub fn set(self, key: &str, value: &Vec<u8>) -> (batch: Pipeline)
        ensures
            batch@ == (PipelineView {
                atomic: self@.atomic,
                commands: self@.commands.push(CommandView::Put(key@, value@)),
            }),
    {
        self.with(Command::Put(key.to_owned(), copy_bytes(value)))
    }

    /// Adds a command that removes `key`.
    pub fn del(self, key: &str) -> (batch: Pipeline)
        ensures
            batch@ == (PipelineView {
                atomic: self@.atomic,
                commands: self@.commands.push(CommandView::Del(key@)),
            }),
    {
        self.with(Command::Del(key.to_owned()))
    }

    /// Adds a command that puts `item` at the head of the list at `key`.
    pub fn lpush(self, key: &str, item: &RedisStr) -> (batch: Pipeline)
        ensures
            batch@ == (PipelineView {
                atomic: self@.atomic,
                commands: self@.commands.push(CommandView::Lpush(key@, item@)),
            }),
    {
        self.with(Command::Lpush(key.to_owned(), copy_bytes(item.as_bytes())))
    }

    /// Adds a command that reads the whole list at `key`.
    pub fn lrange(self, key: &str) -> (batch: Pipeline)
        ensures
            batch@ == (PipelineView {
                atomic: self@.atomic,
                commands: self@.commands.push(CommandView::Lrange(key@)),
            }),
    {
        self.with(Command::Lrange(key.to_owned()))
    }

    /// Whether the batch is marked atomic.
    pub fn is_atomic(&self) -> (atomic: bool)
        ensures
            atomic == self@.atomic,
    {
        self.atomic
    }

    /// The commands of the batch, in the order in which they were added.
    pub fn commands(&self) -> (commands: &Vec<Command>)
        ensures
            command_views(commands@) == self@.commands,
    {
        &self.commands
    }
}

/// A copy of a byte string.
pub fn copy_bytes(bytes: &Vec<u8>) -> (copy: Vec<u8>)
    ensures
        copy@ == bytes@,
{
    let mut copy: Vec<u8> = Vec::new();
    let mut i: usize = 0;
    while i < bytes.len()
        invariant
            i <= bytes.len(),
            copy@ == bytes@.subrange(0, i as int),
        decreases bytes.len() - i,
    {
        copy.push(bytes[i]);
        assert(copy@ =~= bytes@.subrange(0, i + 1));
        i += 1;
    }
    assert(copy@ =~= bytes@);
    copy
}

/// The commands that replace the list at `key` by `items`: the key is
/// removed, then the items are put at its head one after the other.
pub open spec fn list_commands(key: Seq<char>, items: Seq<Seq<u8>>) -> Seq<CommandView> {
    seq![CommandView::Del(key)] + Seq::new(
        items.len(),
        |i: int| CommandView::Lpush(key, items[i]),
    )
}

/// The atomic batch that replaces the list at `key` by the encoded items:
/// a list that was there before is gone, not added to.
pub fn list_pipeline(key: &str, items: &Vec<RedisStr>) -> (batch: Pipeline)
    ensures
        batch@ == (PipelineView {
            atomic: true,
            commands: list_commands(key@, encoded_items(items@)),
        }),
{
    let mut batch = Pipeline::new().atomic().del(key);
    let mut i: usize = 0;
    assert(batch@.commands =~= list_commands(key@, encoded_items(items@).subrange(0, 0)));
    while i < items.len()
        invariant
            i <= items.len(),
            batch@.atomic,
            batch@.commands == list_commands(key@, encoded_items(items@).subrange(0, i as int)),
        decreases items.len() - i,
    {
        batch = batch.lpush(key, &items[i]);
        assert(batch@.commands =~= list_commands(
            key@,
            encoded_items(items@).subrange(0, i + 1),
        ));
        i += 1;
    }
    assert(encoded_items(items@).subrange(0, i as int) =~= encoded_items(items@));
    batch
}

/// The encodings of staged tags.
pub open spec fn tag_encodings(tags: Seq<TagView>) -> Seq<Seq<u8>> {
    Seq::new(tags.len(), |i: int| tag_msgpack(tags[i].sticker_id, tags[i].owner_id, tags[i].tag))
}

/// Staged tags as plain values.
pub open spec fn tag_views(tags: Seq<ModelRedis>) -> Seq<TagView> {
    Seq::new(tags.len(), |i: int| tags[i]@)
}

/// Encodes every tag, in order.
pub fn encode_list(tags: &Vec<ModelRedis>) -> (encoded: Result<Vec<RedisStr>, CodecError>)
    ensures
        encoded is Ok,
        encoded_items(encoded->Ok_0@) == tag_encodings(tag_views(tags@)),
{
    let mut items: Vec<RedisStr> = Vec::new();
    let mut i: usize = 0;
    while i < tags.len()
        invariant
            i <= tags.len(),
            encoded_items(items@) == tag_encodings(tag_views(tags@)).subrange(0, i as int),
        decreases tags.len() - i,
    {
        match RedisStr::new(&tags[i]) {
            Ok(item) => {
                let ghost before = encoded_items(items@);
                assert(tag_views(tags@)[i as int] == tags[i as int]@);
                assert(tag_encodings(tag_views(tags@))[i as int] == item@);
                items.push(item);
                assert(encoded_items(items@) =~= before.push(item@));
            },
            Err(error) => {
                return Err(error);
            },
        }
        assert(encoded_items(items@) =~= tag_encodings(tag_views(tags@)).subrange(0, i + 1));
        i += 1;
    }
    assert(tag_encodings(tag_views(tags@)).subrange(0, i as int) =~= tag_encodings(
        tag_views(tags@),
    ));
    Ok(items)
}

/// The atomic batch that replaces the list at `key` by the encodings of the
/// tags. The tags are encoded before the batch is made, so that a failure
/// of the encoder would leave nothing to send.
pub fn create_list_pipeline(key: &str, tags: &Vec<ModelRedis>) -> (batch: Result<
    Pipeline,
    CodecError,
>)
    ensures
        batch is Ok,
        batch->Ok_0@ == (PipelineView {
            atomic: true,
            commands: list_commands(key@, tag_encodings(tag_views(tags@))),
        }),
{
    match encode_list(tags) {
        Ok(items) => Ok(list_pipeline(key, &items)),
        Err(error) => Err(error),
    }
}

/// Whether each of the tags comes back from its encoding as it was.
pub open spec fn round_trips(tags: Seq<TagView>) -> bool {
    forall|i: int|
        0 <= i < tags.len() ==> msgpack_tag(#[trigger] tag_encodings(tags)[i]) == Some(
            (tags[i].sticker_id, tags[i].owner_id, tags[i].tag),
        )
}

/// Encodes each tag, decodes it again and compares: tells whether every tag
/// comes back as it was.
pub fn tags_round_trip(tags: &Vec<ModelRedis>) -> (ok: bool)
    ensures
        ok == round_trips(tag_views(tags@)),
{
    let mut i: usize = 0;
    while i < tags.len()
        invariant
            i <= tags.len(),
            forall|j: int|
                0 <= j < i ==> msgpack_tag(#[trigger] tag_encodings(tag_views(tags@))[j]) == Some(
                    (tags[j]@.sticker_id, tags[j]@.owner_id, tags[j]@.tag),
                ),
        decreases tags.len() - i,
    {
        assert(tag_views(tags@)[i as int] == tags[i as int]@);
        let same = match RedisStr::new(&tags[i]) {
            Err(_) => false,
            Ok(item) => match item.get() {
                Err(_) => false,
                Ok(back) => back.sticker_id == tags[i].sticker_id && back.owner_id
                    == tags[i].owner_id && back.tag == tags[i].tag,
            },
        };
        if !same {
            assert(msgpack_tag(tag_encodings(tag_views(tags@))[i as int]) != Some(
                (tags[i as int]@.sticker_id, tags[i as int]@.owner_id, tags[i as int]@.tag),
            ));
            return false;
        }
        i += 1;
    }
    assert forall|j: int| 0 <= j < tag_views(tags@).len() implies msgpack_tag(
        #[trigger] tag_encodings(tag_views(tags@))[j],
    ) == Some(
        (tag_views(tags@)[j].sticker_id, tag_views(tags@)[j].owner_id, tag_views(tags@)[j].tag),
    ) by {
        assert(tag_views(tags@)[j] == tags[j]@);
    }
    true
}

/// The commands that read the whole list at `key` and remove it.
pub open spec fn drain_commands(key: Seq<char>) -> Seq<CommandView> {
    seq![CommandView::Lrange(key), CommandView::Del(key)]
}

/// The atomic batch that reads the whole list at `key` and removes it in
/// the same round trip.
pub fn drain_pipeline(key: &str) -> (batch: Pipeline)
    ensures
        batch@ == (PipelineView { atomic: true, commands: drain_commands(key@) }),
{
    let batch = Pipeline::new().atomic().lrange(key).del(key);
    assert(batch@.commands =~= drain_commands(key@));
    batch
}

/// What the cache answers to one command.
#[derive(Debug, PartialEq, Eq)]
pub enum Reply {
    /// There is no value.
    Nil,
    /// The command was carried out.
    Okay,
    /// A number: the length of a list, or how many keys were removed.
    Int(u64),
    /// A value.
    Data(Vec<u8>),
    /// The items of a list, from its head.
    Bulk(Vec<Vec<u8>>),
    /// The key holds a value of another kind than the command works on.
    WrongType,
}

/// An answer as plain values.
pub enum ReplyView {
    Nil,
    Okay,
    Int(u64),
    Data(Seq<u8>),
    Bulk(Seq<Seq<u8>>),
    WrongType,
}

impl View for Reply {
    type V = ReplyView;

    open spec fn view(&self) -> ReplyView {
        match self {
            Reply::Nil => ReplyView::Nil,
            Reply::Okay => ReplyView::Okay,
            Reply::Int(n) => ReplyView::Int(*n),
            Reply::Data(bytes) => ReplyView::Data(bytes@),
            Reply::Bulk(items) => ReplyView::Bulk(byte_strings(items@)),
            Reply::WrongType => ReplyView::WrongType,
        }
    }
}

/// The answers to a batch as plain values.
pub open spec fn reply_views(replies: Seq<Reply>) -> Seq<ReplyView> {
    Seq::new(replies.len(), |i: int| replies[i]@)
}

/// Why an answer of the cache could not be used.
#[derive(Clone, Copy, Debug, PartialEq, Eq, Structural)]
pub enum CacheError {
    /// The answer is of another kind than the one asked for.
    WrongType,
    /// A value could not be encoded; nothing was sent.
    Encode,
    /// An item does not have the layout of the value asked for.
    Decode,
}

impl RedisStr {
    /// Takes the encoded value out of an answer. Only an answer that holds a
    /// value is accepted.
    pub fn from_reply(reply: &Reply) -> (value: Result<RedisStr, CacheError>)
        ensures
            match reply@ {
                ReplyView::Data(bytes) => value is Ok && value->Ok_0@ == bytes,
                _ => value is Err && value->Err_0 == CacheError::WrongType,
            },
    {
        match reply {
            Reply::Data(bytes) => Ok(RedisStr::from_bytes(copy_bytes(bytes))),
            _ => Err(CacheError::WrongType),
        }
    }
}

/// The items that the answers to a draining batch hold, in the order in
/// which they were put on the list: the reverse of the list from its head.
pub open spec fn drained(replies: Seq<ReplyView>) -> Result<Seq<Seq<u8>>, CacheError> {
    if replies.len() == 2 && replies[0] is Bulk && replies[1] is Int {
        Ok(replies[0]->Bulk_0.reverse())
    } else {
        Err(CacheError::WrongType)
    }
}

/// Reads the answers to a draining batch: the items of the list, oldest first.
pub fn drained_items(replies: &Vec<Reply>) -> (items: Result<Vec<RedisStr>, CacheError>)
    ensures
        match drained(reply_views(replies@)) {
            Ok(expected) => items is Ok && encoded_items(items->Ok_0@) == expected,
            Err(error) => items is Err && items->Err_0 == error,
        },
{
    if replies.len() != 2 {
        return Err(CacheError::WrongType);
    }
    match &replies[1] {
        Reply::Int(_) => {},
        _ => {
            return Err(CacheError::WrongType);
        },
    }
    match &replies[0] {
        Reply::Bulk(list) => {
            let ghost expected = byte_strings(list@).reverse();
            let mut items: Vec<RedisStr> = Vec::new();
            let mut left: usize = list.len();
            while left > 0
                invariant
                    left <= list.len(),
                    expected == byte_strings(list@).reverse(),
                    encoded_items(items@) == expected.subrange(0, list.len() - left),
                decreases left,
            {
                left -= 1;
                let ghost before = encoded_items(items@);
                let item = RedisStr::from_bytes(copy_bytes(&list[left]));
                assert(expected[list.len() - left - 1] == byte_strings(list@)[left as int]);
                assert(expected[list.len() - left - 1] == item@);
                items.push(item);
                assert(encoded_items(items@) =~= before.push(item@));
                assert(encoded_items(items@) =~= expected.subrange(0, list.len() - left));
            }
            assert(expected.subrange(0, list.len() as int) =~= expected);
            Ok(items)
        },
        _ => Err(CacheError::WrongType),
    }
}

/// Whether every item is the encoding of a tag.
pub open spec fn all_tags(items: Seq<Seq<u8>>) -> bool {
    forall|i: int| 0 <= i < items.len() ==> msgpack_tag(#[trigger] items[i]) is Some
}

/// The tags that the items decode to.
pub open spec fn decoded_tags(items: Seq<Seq<u8>>) -> Seq<TagView> {
    Seq::new(
        items.len(),
        |i: int|
            {
                let fields = msgpack_tag(items[i])->0;
                TagView { sticker_id: fields.0, owner_id: fields.1, tag: fields.2 }
            },
    )
}

/// Decodes every item, in order. Where an item is not the encoding of a tag
/// nothing is returned but the error: no part of the list comes back.
pub fn decode_list(items: &Vec<RedisStr>) -> (tags: Result<Vec<ModelRedis>, CodecError>)
    ensures
        match tags {
            Ok(tags) => all_tags(encoded_items(items@)) && tag_views(tags@) == decoded_tags(
                encoded_items(items@),
            ),
            Err(error) => error == CodecError::Decode && !all_tags(encoded_items(items@)),
        },
{
    let mut tags: Vec<ModelRedis> = Vec::new();
    let mut i: usize = 0;
    while i < items.len()
        invariant
            i <= items.len(),
            all_tags(encoded_items(items@).subrange(0, i as int)),
            tag_views(tags@) == decoded_tags(encoded_items(items@)).subrange(0, i as int),
        decreases items.len() - i,
    {
        match items[i].get() {
            Ok(tag) => {
                let ghost before = tag_views(tags@);
                assert(encoded_items(items@)[i as int] == items[i as int]@);
                assert(decoded_tags(encoded_items(items@))[i as int] == tag@);
                tags.push(tag);
                assert(tag_views(tags@) =~= before.push(tag@));
            },
            Err(error) => {
                assert(msgpack_tag(encoded_items(items@)[i as int]) is None);
                return Err(error);
            },
        }
        assert(tag_views(tags@) =~= decoded_tags(encoded_items(items@)).subrange(0, i + 1));
        assert forall|j: int| 0 <= j < i + 1 implies msgpack_tag(
            #[trigger] encoded_items(items@).subrange(0, i + 1)[j],
        ) is Some by {
            if j < i {
                assert(encoded_items(items@).subrange(0, i as int)[j] == encoded_items(items@)[j]);
            }
        }
        i += 1;
    }
    assert(encoded_items(items@).subrange(0, i as int) =~= encoded_items(items@));
    assert(decoded_tags(encoded_items(items@)).subrange(0, i as int) =~= decoded_tags(
        encoded_items(items@),
    ));
    Ok(tags)
}

} // verus!
