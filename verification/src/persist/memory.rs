//! What the cache holds and what its commands do to it, and a cache in
//! memory that behaves so.

use crate::modules::sticker::entities::tags::{ModelRedis, TagView};
use crate::persist::cache::{
    all_tags, byte_strings, copy_bytes, create_list_pipeline, decode_list, decoded_tags,
    drain_commands, drain_pipeline, drained, drained_items, list_commands, reply_views, round_trips,
    tag_encodings, tag_views, CacheError, Command, CommandView, Pipeline, PipelineView, Reply,
    ReplyView,
};
use crate::util::search::{
    first_index, first_match, lemma_first_index, lemma_first_index_is, lemma_first_index_none,
    lemma_first_index_push, lemma_first_index_update,
};
use vstd::pervasive::VecAdditionalExecFns;
use vstd::prelude::*;

verus! {

/// What the cache holds at one key.
pub enum Stored {
    /// A single value.
    Scalar(Seq<u8>),
    /// A list of items, from its head.
    List(Seq<Seq<u8>>),
}

/// What one command does to the contents of the cache, and what the cache
/// answers. A command for a single value refuses a list and the other way
/// round; writing and removing work on either.
pub open spec fn apply(contents: Map<Seq<char>, Stored>, command: CommandView) -> (
    Map<Seq<char>, Stored>,
    ReplyView,
) {
    match command {
        CommandView::Get(key) => if !contents.dom().contains(key) {
            (contents, ReplyView::Nil)
        } else {
            match contents[key] {
                Stored::Scalar(value) => (contents, ReplyView::Data(value)),
                Stored::List(_) => (contents, ReplyView::WrongType),
            }
        },
        CommandView::Put(key, value) => (
            contents.insert(key, Stored::Scalar(value)),
            ReplyView::Okay,
        ),
        CommandView::Del(key) => (
            contents.remove(key),
            ReplyView::Int(
                if contents.dom().contains(key) {
                    1
                } else {
                    0
                },
            ),
        ),
        CommandView::Lpush(key, item) => if !contents.dom().contains(key) {
            (contents.insert(key, Stored::List(seq![item])), ReplyView::Int(1))
        } else {
            match contents[key] {
                Stored::List(items) => (
                    contents.insert(key, Stored::List(seq![item] + items)),
                    ReplyView::Int((items.len() + 1) as u64),
                ),
                Stored::Scalar(_) => (contents, ReplyView::WrongType),
            }
        },
        CommandView::Lrange(key) => if !contents.dom().contains(key) {
            (contents, ReplyView::Bulk(Seq::empty()))
        } else {
            match contents[key] {
                Stored::List(items) => (contents, ReplyView::Bulk(items)),
                Stored::Scalar(_) => (contents, ReplyView::WrongType),
            }
        },
    }
}

/// What a batch does to the contents of the cache: its commands are applied
/// in order, and each is answered.
pub open spec fn run(contents: Map<Seq<char>, Stored>, commands: Seq<CommandView>) -> (
    Map<Seq<char>, Stored>,
    Seq<ReplyView>,
)
    decreases commands.len(),
{
    if commands.len() == 0 {
        (contents, Seq::empty())
    } else {
        let (before, replies) = run(contents, commands.drop_last());
        let (after, reply) = apply(before, commands.last());
        (after, replies.push(reply))
    }
}

/// The contents after the list at `key` was replaced by `items`: the list
/// holds the items with the newest at its head, and an empty list is no list.
pub open spec fn staged(contents: Map<Seq<char>, Stored>, key: Seq<char>, items: Seq<Seq<u8>>)
    -> Map<Seq<char>, Stored> {
    if items.len() == 0 {
        contents.remove(key)
    } else {
        contents.insert(key, Stored::List(items.reverse()))
    }
}

/// Replacing the list at a key leaves exactly the new items there, whatever
/// the key held before, and touches no other key.
pub proof fn law_create_list_replaces(
    contents: Map<Seq<char>, Stored>,
    key: Seq<char>,
    items: Seq<Seq<u8>>,
)
    ensures
        run(contents, list_commands(key, items)).0 == staged(contents, key, items),
    decreases items.len(),
{
    let commands = list_commands(key, items);
    if items.len() == 0 {
        assert(commands =~= seq![CommandView::Del(key)]);
        assert(commands.drop_last() =~= Seq::empty());
        assert(run(contents, commands.drop_last()).0 == contents);
    } else {
        let earlier = items.drop_last();
        assert(commands.drop_last() =~= list_commands(key, earlier));
        assert(commands.last() == CommandView::Lpush(key, items.last()));
        law_create_list_replaces(contents, key, earlier);
        let before = staged(contents, key, earlier);
        let after = apply(before, commands.last()).0;
        if earlier.len() == 0 {
            assert(seq![items.last()] =~= items.reverse());
            assert(after =~= staged(contents, key, items));
        } else {
            assert(seq![items.last()] + earlier.reverse() =~= items.reverse());
            assert(after =~= staged(contents, key, items));
        }
    }
}

/// The contents and the answers after the list at `key` was drained.
pub proof fn law_drain_reads_and_clears(contents: Map<Seq<char>, Stored>, key: Seq<char>)
    ensures
        run(contents, drain_commands(key)).0 == contents.remove(key),
        drained(run(contents, drain_commands(key)).1) == if !contents.dom().contains(key) {
            Ok::<Seq<Seq<u8>>, CacheError>(Seq::empty())
        } else {
            match contents[key] {
                Stored::List(items) => Ok::<Seq<Seq<u8>>, CacheError>(items.reverse()),
                Stored::Scalar(_) => Err::<Seq<Seq<u8>>, CacheError>(CacheError::WrongType),
            }
        },
{
    let commands = drain_commands(key);
    let first = commands.drop_last();
    assert(first =~= seq![CommandView::Lrange(key)]);
    assert(first.drop_last() =~= Seq::empty());
    assert(run(contents, first.drop_last()) == (contents, Seq::<ReplyView>::empty()));
    let read = apply(contents, CommandView::Lrange(key));
    assert(first.last() == CommandView::Lrange(key));
    assert(run(contents, first).0 == contents);
    assert(run(contents, first).1 =~= seq![read.1]);
    assert(commands.last() == CommandView::Del(key));
    let replies = run(contents, commands).1;
    assert(replies.len() == 2);
    assert(replies[0] == read.1);
    assert(replies[1] is Int);
    if !contents.dom().contains(key) {
        assert(Seq::<Seq<u8>>::empty().reverse() =~= Seq::<Seq<u8>>::empty());
    }
}

/// A list that was created from items and is then drained gives back
/// exactly those items, in the order in which they were given, and is gone
/// afterwards: draining once more gives no items.
pub proof fn law_create_then_drain(
    contents: Map<Seq<char>, Stored>,
    key: Seq<char>,
    items: Seq<Seq<u8>>,
)
    ensures
        ({
            let created = run(contents, list_commands(key, items)).0;
            let first = run(created, drain_commands(key));
            let second = run(first.0, drain_commands(key));
            &&& drained(first.1) == Ok::<Seq<Seq<u8>>, CacheError>(items)
            &&& !first.0.dom().contains(key)
            &&& drained(second.1) == Ok::<Seq<Seq<u8>>, CacheError>(Seq::empty())
            &&& !second.0.dom().contains(key)
        }),
{
    let created = run(contents, list_commands(key, items)).0;
    law_create_list_replaces(contents, key, items);
    law_drain_reads_and_clears(created, key);
    let first = run(created, drain_commands(key));
    law_drain_reads_and_clears(first.0, key);
    if items.len() == 0 {
        assert(items =~= Seq::empty());
    } else {
        assert(items.reverse().reverse() =~= items);
    }
}

/// Where decoding gives back what encoding was given, which
/// `tags_round_trip` tells of given tags, a staged list of tags that is
/// created and then drained comes back as the same tags in the same order.
pub proof fn law_staged_tags_come_back(
    contents: Map<Seq<char>, Stored>,
    key: Seq<char>,
    tags: Seq<TagView>,
)
    requires
        round_trips(tags),
    ensures
        ({
            let created = run(contents, list_commands(key, tag_encodings(tags))).0;
            let answers = run(created, drain_commands(key)).1;
            &&& drained(answers) == Ok::<Seq<Seq<u8>>, CacheError>(tag_encodings(tags))
            &&& all_tags(tag_encodings(tags))
            &&& decoded_tags(tag_encodings(tags)) == tags
        }),
{
    law_create_then_drain(contents, key, tag_encodings(tags));
    assert(decoded_tags(tag_encodings(tags)) =~= tags);
}

/// What a slot of the cache in memory holds. A key that was removed keeps
/// its slot, which is then empty.
enum Slot {
    Empty,
    Scalar(Vec<u8>),
    List(Vec<Vec<u8>>),
}

/// A slot as plain values.
pub enum SlotView {
    Empty,
    Scalar(Seq<u8>),
    List(Seq<Seq<u8>>),
}

struct Row {
    key: String,
    slot: Slot,
}

/// A row of the cache in memory as plain values.
pub struct RowView {
    pub key: Seq<char>,
    pub slot: SlotView,
}

impl View for Slot {
    type V = SlotView;

    closed spec fn view(&self) -> SlotView {
        match self {
            Slot::Empty => SlotView::Empty,
            Slot::Scalar(value) => SlotView::Scalar(value@),
            Slot::List(items) => SlotView::List(byte_strings(items@)),
        }
    }
}

impl View for Row {
    type V = RowView;

    closed spec fn view(&self) -> RowView {
        RowView { key: self.key@, slot: self.slot@ }
    }
}

/// Rows for this key.
pub open spec fn has_key(key: Seq<char>) -> spec_fn(RowView) -> bool {
    |row: RowView| row.key == key
}

/// What the rows hold: for each key the first row that has it, unless that
/// row's slot is empty.
pub open spec fn contents_of(rows: Seq<RowView>) -> Map<Seq<char>, Stored> {
    Map::new(
        |key: Seq<char>|
            first_match(rows, has_key(key)) matches Some(row) && !(row.slot is Empty),
        |key: Seq<char>|
            match first_match(rows, has_key(key))->0.slot {
                SlotView::Scalar(value) => Stored::Scalar(value),
                SlotView::List(items) => Stored::List(items),
                SlotView::Empty => Stored::List(Seq::empty()),
            },
    )
}

/// The contents after `slot` was written at `key`: an empty slot removes the key.
pub open spec fn written(contents: Map<Seq<char>, Stored>, key: Seq<char>, slot: SlotView) -> Map<
    Seq<char>,
    Stored,
> {
    match slot {
        SlotView::Empty => contents.remove(key),
        SlotView::Scalar(value) => contents.insert(key, Stored::Scalar(value)),
        SlotView::List(items) => contents.insert(key, Stored::List(items)),
    }
}

proof fn lemma_written_in_place(rows: Seq<RowView>, at: int, row: RowView)
    requires
        first_index(rows, has_key(row.key)) == Some(at),
    ensures
        contents_of(rows.update(at, row)) == written(contents_of(rows), row.key, row.slot),
{
    lemma_first_index(rows, has_key(row.key));
    let changed = rows.update(at, row);
    assert forall|key: Seq<char>|
        first_match(changed, has_key(key)) == if key == row.key {
            Some(row)
        } else {
            first_match(rows, has_key(key))
        } by {
        lemma_first_index_update(rows, has_key(key), at, row);
        lemma_first_index(rows, has_key(key));
    }
    assert(contents_of(changed) =~= written(contents_of(rows), row.key, row.slot));
}

proof fn lemma_written_at_end(rows: Seq<RowView>, row: RowView)
    requires
        first_index(rows, has_key(row.key)) is None,
    ensures
        contents_of(rows.push(row)) == written(contents_of(rows), row.key, row.slot),
{
    let longer = rows.push(row);
    assert forall|key: Seq<char>|
        first_match(longer, has_key(key)) == if key == row.key {
            Some(row)
        } else {
            first_match(rows, has_key(key))
        } by {
        lemma_first_index_push(rows, has_key(key), row);
        lemma_first_index(rows, has_key(key));
    }
    assert(contents_of(longer) =~= written(contents_of(rows), row.key, row.slot));
}

/// A copy of a list of byte strings.
pub fn copy_list(items: &Vec<Vec<u8>>) -> (copy: Vec<Vec<u8>>)
    ensures
        byte_strings(copy@) == byte_strings(items@),
{
    let mut copy: Vec<Vec<u8>> = Vec::new();
    let mut i: usize = 0;
    while i < items.len()
        invariant
            i <= items.len(),
            byte_strings(copy@) == byte_strings(items@).subrange(0, i as int),
        decreases items.len() - i,
    {
        let ghost before = byte_strings(copy@);
        let item = copy_bytes(&items[i]);
        copy.push(item);
        assert(byte_strings(copy@) =~= before.push(items[i as int]@));
        assert(byte_strings(copy@) =~= byte_strings(items@).subrange(0, i + 1));
        i += 1;
    }
    assert(byte_strings(items@).subrange(0, i as int) =~= byte_strings(items@));
    copy
}

/// A cache in memory. It answers every command as the cache does, so that
/// what is built on the cache can be tried without a server.
pub struct MemoryCache {
    rows: Vec<Row>,
}

impl View for MemoryCache {
    type V = Map<Seq<char>, Stored>;

    closed spec fn view(&self) -> Map<Seq<char>, Stored> {
        contents_of(self.row_views())
    }
}

impl MemoryCache {
    closed spec fn row_views(&self) -> Seq<RowView> {
        Seq::new(self.rows@.len(), |i: int| self.rows@[i]@)
    }

    /// A cache that holds nothing.
    pub fn new() -> (cache: MemoryCache)
        ensures
            cache@ == Map::<Seq<char>, Stored>::empty(),
    {
        let cache = MemoryCache { rows: Vec::new() };
        proof {
            assert forall|key: Seq<char>| first_match(cache.row_views(), has_key(key)) is None by {
                lemma_first_index(cache.row_views(), has_key(key));
            }
            assert(cache@ =~= Map::<Seq<char>, Stored>::empty());
        }
        cache
    }

    fn find(&self, key: &str) -> (found: Option<usize>)
        ensures
            match found {
                Some(i) => i < self.rows.len() && first_index(self.row_views(), has_key(key@))
                    == Some(i as int),
                None => first_index(self.row_views(), has_key(key@)) is None,
            },
    {
        let wanted = key.to_owned();
        let mut i: usize = 0;
        while i < self.rows.len()
            invariant
                i <= self.rows.len(),
                wanted@ == key@,
                self.row_views().len() == self.rows.len(),
                forall|j: int| 0 <= j < i ==> !has_key(key@)(#[trigger] self.row_views()[j]),
            decreases self.rows.len() - i,
        {
            if self.rows[i].key == wanted {
                proof {
                    lemma_first_index_is(self.row_views(), has_key(key@), i as int);
                }
                return Some(i);
            }
            i += 1;
        }
        proof {
            lemma_first_index_none(self.row_views(), has_key(key@));
        }
        None
    }

    fn write(&mut self, key: &str, slot: Slot)
        ensures
            final(self)@ == written(old(self)@, key@, slot@),
    {
        let row = Row { key: key.to_owned(), slot };
        match self.find(key) {
            Some(i) => {
                self.rows.set(i, row);
                proof {
                    assert(self.row_views() =~= old(self).row_views().update(i as int, row@));
                    lemma_written_in_place(old(self).row_views(), i as int, row@);
                }
            },
            None => {
                self.rows.push(row);
                proof {
                    assert(self.row_views() =~= old(self).row_views().push(row@));
                    lemma_written_at_end(old(self).row_views(), row@);
                }
            },
        }
    }

    /// Carries out one command and answers it.
    pub fn apply(&mut self, command: &Command) -> (reply: Reply)
        ensures
            (final(self)@, reply@) == apply(old(self)@, command@),
    {
        proof {
            lemma_first_index(old(self).row_views(), has_key(command_key(command@)));
        }
        match command {
            Command::Get(key) => match self.find(key.as_str()) {
                None => Reply::Nil,
                Some(i) => match &self.rows[i].slot {
                    Slot::Empty => Reply::Nil,
                    Slot::Scalar(value) => Reply::Data(copy_bytes(value)),
                    Slot::List(_) => Reply::WrongType,
                },
            },
            Command::Put(key, value) => {
                self.write(key.as_str(), Slot::Scalar(copy_bytes(value)));
                Reply::Okay
            },
            Command::Del(key) => {
                let held = match self.find(key.as_str()) {
                    None => false,
                    Some(i) => match &self.rows[i].slot {
                        Slot::Empty => false,
                        _ => true,
                    },
                };
                self.write(key.as_str(), Slot::Empty);
                Reply::Int(
                    if held {
                        1
                    } else {
                        0
                    },
                )
            },
            Command::Lpush(key, item) => {
                let mut items: Vec<Vec<u8>> = Vec::new();
                match self.find(key.as_str()) {
                    None => {},
                    Some(i) => match &self.rows[i].slot {
                        Slot::Empty => {},
                        Slot::Scalar(_) => {
                            return Reply::WrongType;
                        },
                        Slot::List(held) => {
                            items = copy_list(held);
                        },
                    },
                }
                let ghost before = byte_strings(items@);
                items.insert(0, copy_bytes(item));
                assert(byte_strings(items@) =~= seq![item@] + before);
                let length = items.len();
                self.write(key.as_str(), Slot::List(items));
                Reply::Int(length as u64)
            },
            Command::Lrange(key) => match self.find(key.as_str()) {
                None => {
                    let items: Vec<Vec<u8>> = Vec::new();
                    assert(byte_strings(items@) =~= Seq::empty());
                    Reply::Bulk(items)
                },
                Some(i) => match &self.rows[i].slot {
                    Slot::Empty => {
                        let items: Vec<Vec<u8>> = Vec::new();
                        assert(byte_strings(items@) =~= Seq::empty());
                        Reply::Bulk(items)
                    },
                    Slot::Scalar(_) => Reply::WrongType,
                    Slot::List(held) => Reply::Bulk(copy_list(held)),
                },
            },
        }
    }

    /// Carries out a batch, command by command, and answers each.
    pub fn execute(&mut self, batch: &Pipeline) -> (replies: Vec<Reply>)
        ensures
            (final(self)@, reply_views(replies@)) == run(old(self)@, batch@.commands),
    {
        let commands = batch.commands();
        let mut replies: Vec<Reply> = Vec::new();
        let mut i: usize = 0;
        assert(batch@.commands.subrange(0, 0) =~= Seq::empty());
        assert(reply_views(replies@) =~= Seq::empty());
        while i < commands.len()
            invariant
                i <= commands.len(),
                crate::persist::cache::command_views(commands@) == batch@.commands,
                (self@, reply_views(replies@)) == run(
                    old(self)@,
                    batch@.commands.subrange(0, i as int),
                ),
            decreases commands.len() - i,
        {
            let ghost before = reply_views(replies@);
            let ghost done = batch@.commands.subrange(0, i + 1);
            let reply = self.apply(&commands[i]);
            replies.push(reply);
            proof {
                assert(done.drop_last() =~= batch@.commands.subrange(0, i as int));
                assert(done.last() == commands[i as int]@);
                assert(reply_views(replies@) =~= before.push(reply@));
            }
            i += 1;
        }
        assert(batch@.commands.subrange(0, i as int) =~= batch@.commands);
        replies
    }
}

/// The items of the list at `key`, oldest first: none where the key holds
/// nothing, and an error where it holds a single value.
pub open spec fn staged_items(contents: Map<Seq<char>, Stored>, key: Seq<char>) -> Result<
    Seq<Seq<u8>>,
    CacheError,
> {
    if !contents.dom().contains(key) {
        Ok(Seq::empty())
    } else {
        match contents[key] {
            Stored::List(items) => Ok(items.reverse()),
            Stored::Scalar(_) => Err(CacheError::WrongType),
        }
    }
}

/// A batch without commands, as `Pipeline::new` makes it.
pub open spec fn is_new(batch: Pipeline) -> bool {
    batch@ == (PipelineView { atomic: false, commands: Seq::empty() })
}

impl MemoryCache {
    /// The value at `key`, if there is one. A list is not a value.
    pub fn get(&self, key: &str) -> (value: Result<Option<Vec<u8>>, CacheError>)
        ensures
            match value {
                Ok(Some(bytes)) => self@.dom().contains(key@) && self@[key@] == Stored::Scalar(
                    bytes@,
                ),
                Ok(None) => !self@.dom().contains(key@),
                Err(error) => error == CacheError::WrongType && self@.dom().contains(key@)
                    && self@[key@] is List,
            },
    {
        proof {
            lemma_first_index(self.row_views(), has_key(key@));
        }
        match self.find(key) {
            None => Ok(None),
            Some(i) => match &self.rows[i].slot {
                Slot::Empty => Ok(None),
                Slot::Scalar(value) => Ok(Some(copy_bytes(value))),
                Slot::List(_) => Err(CacheError::WrongType),
            },
        }
    }

    /// Writes `value` at `key`, whatever the key held.
    pub fn set(&mut self, key: &str, value: &Vec<u8>)
        ensures
            final(self)@ == old(self)@.insert(key@, Stored::Scalar(value@)),
    {
        self.write(key, Slot::Scalar(copy_bytes(value)));
    }

    /// Removes `key`, whatever it held.
    pub fn del(&mut self, key: &str)
        ensures
            final(self)@ == old(self)@.remove(key@),
    {
        self.write(key, Slot::Empty);
    }

    /// Lets `func` put together a batch, carries it out and returns the answers.
    pub fn pipe<F: FnOnce(Pipeline) -> Pipeline>(&mut self, func: F) -> (replies: Vec<Reply>)
        requires
            forall|start: Pipeline| #[trigger] is_new(start) ==> func.requires((start,)),
        ensures
            exists|start: Pipeline, batch: Pipeline|
                is_new(start) && #[trigger] func.ensures((start,), batch) && (
                    final(self)@,
                    reply_views(replies@),
                ) == run(old(self)@, batch@.commands),
    {
        let start = Pipeline::new();
        assert(is_new(start));
        let batch = func(start);
        let replies = self.execute(&batch);
        assert(func.ensures((start,), batch));
        replies
    }

    /// Lets `func` put together a batch, carries it out and returns the
    /// answers. Where `func` fails nothing is carried out and its error is
    /// returned.
    pub fn try_pipe<E, F: FnOnce(Pipeline) -> Result<Pipeline, E>>(&mut self, func: F) -> (replies:
        Result<Vec<Reply>, E>)
        requires
            forall|start: Pipeline| #[trigger] is_new(start) ==> func.requires((start,)),
        ensures
            exists|start: Pipeline, built: Result<Pipeline, E>|
                is_new(start) && #[trigger] func.ensures((start,), built) && match built {
                    Ok(batch) => replies is Ok && (final(self)@, reply_views(replies->Ok_0@))
                        == run(old(self)@, batch@.commands),
                    Err(error) => replies is Err && replies->Err_0 == error && final(self)@
                        == old(self)@,
                },
    {
        let start = Pipeline::new();
        assert(is_new(start));
        let built = func(start);
        assert(func.ensures((start,), built));
        match built {
            Ok(batch) => Ok(self.execute(&batch)),
            Err(error) => Err(error),
        }
    }

    /// Replaces the list at `key` by the encodings of the tags, in one atomic
    /// batch: afterwards the list holds exactly these tags.
    pub fn create_list(&mut self, key: &str, tags: &Vec<ModelRedis>) -> (done: Result<
        (),
        CacheError,
    >)
        ensures
            done is Ok,
            final(self)@ == staged(old(self)@, key@, tag_encodings(tag_views(tags@))),
    {
        match create_list_pipeline(key, tags) {
            Err(_) => Err(CacheError::Encode),
            Ok(batch) => {
                proof {
                    law_create_list_replaces(old(self)@, key@, tag_encodings(tag_views(tags@)));
                }
                let _ = self.execute(&batch);
                Ok(())
            },
        }
    }

    /// Reads the whole list at `key` and removes it, in one atomic batch, and
    /// decodes the items, oldest first. Where an item is not the encoding of
    /// a tag no tag is returned.
    pub fn drain_list(&mut self, key: &str) -> (tags: Result<Vec<ModelRedis>, CacheError>)
        ensures
            final(self)@ == old(self)@.remove(key@),
            match staged_items(old(self)@, key@) {
                Err(error) => tags is Err && tags->Err_0 == error,
                Ok(items) => if all_tags(items) {
                    tags is Ok && tag_views(tags->Ok_0@) == decoded_tags(items)
                } else {
                    tags is Err && tags->Err_0 == CacheError::Decode
                },
            },
    {
        let batch = drain_pipeline(key);
        proof {
            law_drain_reads_and_clears(old(self)@, key@);
        }
        let replies = self.execute(&batch);
        match drained_items(&replies) {
            Err(error) => Err(error),
            Ok(items) => match decode_list(&items) {
                Ok(tags) => Ok(tags),
                Err(_) => Err(CacheError::Decode),
            },
        }
    }
}

/// The key a command works on.
pub open spec fn command_key(command: CommandView) -> Seq<char> {
    match command {
        CommandView::Get(key) => key,
        CommandView::Put(key, _) => key,
        CommandView::Del(key) => key,
        CommandView::Lpush(key, _) => key,
        CommandView::Lrange(key) => key,
    }
}

} // verus!
