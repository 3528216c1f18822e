//! The key-value cache: keys, encoded values and the connection settings.

use crate::modules::sticker::entities::tags::ModelRedis;
use crate::util::error::BotError;
use crate::util::ids::{fresh_uuid, is_hyphenated, uuid_text, uuid_to_string};
use crate::util::text::{
    int_decimal, is_decimal_char, lemma_int_decimal, lemma_split_at_colon, push_int_decimal,
};
use vstd::prelude::*;
use vstd::string::StringExecFns;

verus! {

// Keys of the write cache.
pub const KEY_WRITE_CACHE: &'static str = "writecache";

pub const KEY_TYPE_PREFIX: &'static str = "wc:typeprefix";

pub const KEY_WRAPPER: &'static str = "wc:wrapper";

pub const KEY_TYPE_VAL: &'static str = "wc:typeval";

pub const KEY_UUID: &'static str = "wc:uuid";

/// The error of the cache client.
#[verifier::external_type_specification]
#[verifier::external_body]
pub struct ExRedisError(bb8_redis::redis::RedisError);

/// Turns a failure of the cache client into the error the user is shown.
/// Whatever failed, the user reads the same message.
pub fn error_mapper(err: bb8_redis::redis::RedisError) -> (mapped: BotError)
    ensures
        mapped@ == "some redis error"@,
{
    BotError::new("some redis error")
}

/// The key under which a value is cached for one user:
/// `u:`, the user's id in decimal, `:`, then the key.
pub open spec fn user_scoped(key: Seq<char>, user: int) -> Seq<char> {
    seq!['u', ':'] + int_decimal(user) + seq![':'] + key
}

/// Scopes a cache key to one user.
pub fn scope_key_by_user(key: &str, user: i64) -> (scoped: String)
    ensures
        scoped@ == user_scoped(key@, user as int),
{
    proof {
        reveal_strlit("u:");
        reveal_strlit(":");
    }
    let mut scoped = String::from_str("u:");
    assert(scoped@ =~= seq!['u', ':']);
    push_int_decimal(&mut scoped, user);
    scoped.append(":");
    scoped.append(key);
    assert(scoped@ =~= user_scoped(key@, user as int));
    scoped
}

/// The key under which a value is cached for one user in one chat:
/// the prefix, the chat's id, the user's id and the key, with `:` between them.
pub open spec fn chat_scoped(key: Seq<char>, chat: int, user: int, prefix: Seq<char>) -> Seq<
    char,
> {
    prefix + seq![':'] + int_decimal(chat) + seq![':'] + int_decimal(user) + seq![':'] + key
}

/// Keys that are scoped to a user are the same only for the same user and
/// the same key: no two users share a scoped key.
pub proof fn law_user_scoped_keys_differ(k1: Seq<char>, u1: int, k2: Seq<char>, u2: int)
    requires
        user_scoped(k1, u1) == user_scoped(k2, u2),
    ensures
        u1 == u2,
        k1 == k2,
{
    lemma_int_decimal(u1, u2);
    lemma_int_decimal(u2, u1);
    let head = seq!['u', ':'];
    let rest1 = int_decimal(u1) + seq![':'] + k1;
    let rest2 = int_decimal(u2) + seq![':'] + k2;
    assert(user_scoped(k1, u1) =~= head + rest1);
    assert(user_scoped(k2, u2) =~= head + rest2);
    assert(rest1 =~= (head + rest1).subrange(2, (head + rest1).len() as int));
    assert(rest2 =~= (head + rest2).subrange(2, (head + rest2).len() as int));
    assert forall|k: int| 0 <= k < int_decimal(u1).len() implies #[trigger] int_decimal(u1)[k]
        != ':' by {
        assert(is_decimal_char(int_decimal(u1)[k]));
    }
    assert forall|k: int| 0 <= k < int_decimal(u2).len() implies #[trigger] int_decimal(u2)[k]
        != ':' by {
        assert(is_decimal_char(int_decimal(u2)[k]));
    }
    lemma_split_at_colon(int_decimal(u1), k1, int_decimal(u2), k2);
}

/// Keys that are scoped to a chat and a user under one prefix are the same
/// only for the same chat, the same user and the same key: no two pairs of
/// chat and user share a scoped key.
pub proof fn law_scoped_keys_differ(
    k1: Seq<char>,
    c1: int,
    u1: int,
    k2: Seq<char>,
    c2: int,
    u2: int,
    prefix: Seq<char>,
)
    requires
        chat_scoped(k1, c1, u1, prefix) == chat_scoped(k2, c2, u2, prefix),
    ensures
        c1 == c2,
        u1 == u2,
        k1 == k2,
{
    lemma_int_decimal(c1, c2);
    lemma_int_decimal(c2, c1);
    lemma_int_decimal(u1, u2);
    lemma_int_decimal(u2, u1);
    let head = prefix + seq![':'];
    let tail1 = int_decimal(u1) + seq![':'] + k1;
    let tail2 = int_decimal(u2) + seq![':'] + k2;
    let rest1 = int_decimal(c1) + seq![':'] + tail1;
    let rest2 = int_decimal(c2) + seq![':'] + tail2;
    assert(chat_scoped(k1, c1, u1, prefix) =~= head + rest1);
    assert(chat_scoped(k2, c2, u2, prefix) =~= head + rest2);
    assert(rest1 =~= (head + rest1).subrange(head.len() as int, (head + rest1).len() as int));
    assert(rest2 =~= (head + rest2).subrange(head.len() as int, (head + rest2).len() as int));
    assert forall|k: int| 0 <= k < int_decimal(c1).len() implies #[trigger] int_decimal(c1)[k]
        != ':' by {
        assert(is_decimal_char(int_decimal(c1)[k]));
    }
    assert forall|k: int| 0 <= k < int_decimal(c2).len() implies #[trigger] int_decimal(c2)[k]
        != ':' by {
        assert(is_decimal_char(int_decimal(c2)[k]));
    }
    assert forall|k: int| 0 <= k < int_decimal(u1).len() implies #[trigger] int_decimal(u1)[k]
        != ':' by {
        assert(is_decimal_char(int_decimal(u1)[k]));
    }
    assert forall|k: int| 0 <= k < int_decimal(u2).len() implies #[trigger] int_decimal(u2)[k]
        != ':' by {
        assert(is_decimal_char(int_decimal(u2)[k]));
    }
    lemma_split_at_colon(int_decimal(c1), tail1, int_decimal(c2), tail2);
    lemma_split_at_colon(int_decimal(u1), k1, int_decimal(u2), k2);
}

/// Scopes a cache key to the chat a message came from and to its sender.
/// A message without a sender has no such key.
pub fn scope_key(key: &str, chat_id: i64, sender: Option<i64>, prefix: &str) -> (scoped: Result<
    String,
    BotError,
>)
    ensures
        match sender {
            Some(user) => scoped is Ok && scoped->Ok_0@ == chat_scoped(
                key@,
                chat_id as int,
                user as int,
                prefix@,
            ),
            None => scoped is Err && scoped->Err_0@ == "message without sender"@,
        },
{
    match sender {
        None => Err(BotError::new("message without sender")),
        Some(user) => {
            proof {
                reveal_strlit(":");
            }
            let mut scoped = String::from_str(prefix);
            scoped.append(":");
            push_int_decimal(&mut scoped, chat_id);
            scoped.append(":");
            push_int_decimal(&mut scoped, user);
            scoped.append(":");
            scoped.append(key);
            assert(scoped@ =~= chat_scoped(key@, chat_id as int, user as int, prefix@));
            Ok(scoped)
        },
    }
}

/// Scopes a cache key to a chat and a user, under the prefix `cu`.
pub fn scope_key_by_chatuser(key: &str, chat_id: i64, sender: Option<i64>) -> (scoped: Result<
    String,
    BotError,
>)
    ensures
        match sender {
            Some(user) => scoped is Ok && scoped->Ok_0@ == chat_scoped(
                key@,
                chat_id as int,
                user as int,
                seq!['c', 'u'],
            ),
            None => scoped is Err && scoped->Err_0@ == "message without sender"@,
        },
{
    proof {
        reveal_strlit("cu");
    }
    assert("cu"@ =~= seq!['c', 'u']);
    scope_key(key, chat_id, sender, "cu")
}

/// A key that holds an identifier: `r:`, the prefix, `:`, then the identifier's text.
pub open spec fn keyed_by_uuid(prefix: Seq<char>, id: u128) -> Seq<char> {
    seq!['r', ':'] + prefix + seq![':'] + uuid_text(id)
}

/// The key for one given identifier.
pub fn key_for_uuid(prefix: &str, id: u128) -> (key: String)
    ensures
        key@ == keyed_by_uuid(prefix@, id),
        key@.len() == prefix@.len() + 39,
        is_hyphenated(key@.subrange(prefix@.len() as int + 3, key@.len() as int)),
{
    proof {
        reveal_strlit("r:");
        reveal_strlit(":");
    }
    let mut key = String::from_str("r:");
    key.append(prefix);
    key.append(":");
    let text = uuid_to_string(id);
    key.append(text.as_str());
    assert(key@ =~= keyed_by_uuid(prefix@, id));
    assert(key@.subrange(prefix@.len() as int + 3, key@.len() as int) =~= text@);
    key
}

/// A key that holds a freshly drawn identifier: `r:`, the prefix, `:`, then
/// the 36 characters of the identifier's text.
pub fn random_key(prefix: &str) -> (key: String)
    ensures
        exists|id: u128| key@ == keyed_by_uuid(prefix@, id),
        key@.len() == prefix@.len() + 39,
        is_hyphenated(key@.subrange(prefix@.len() as int + 3, key@.len() as int)),
{
    let id = fresh_uuid();
    key_for_uuid(prefix, id)
}

/// Why a value could not pass through the codec.
#[derive(Clone, Copy, Debug, PartialEq, Eq, Structural)]
pub enum CodecError {
    /// The value could not be written.
    Encode,
    /// The bytes do not have the layout of the expected value.
    Decode,
}

/// The error of the MessagePack encoder.
#[verifier::external_type_specification]
#[verifier::external_body]
pub struct ExEncodeError(rmp_serde::encode::Error);

/// The error of the MessagePack decoder.
#[verifier::external_type_specification]
#[verifier::external_body]
pub struct ExDecodeError(rmp_serde::decode::Error);

/// The MessagePack encoding of a staged tag: an array of its three fields.
pub uninterp spec fn tag_msgpack(sticker_id: Seq<char>, owner_id: int, tag: Seq<char>) -> Seq<u8>;

/// The staged tag that a string of bytes decodes to, if it is the encoding of one.
pub uninterp spec fn msgpack_tag(bytes: Seq<u8>) -> Option<(Seq<char>, int, Seq<char>)>;

/// Calls `rmp_serde::to_vec` on the three fields as a tuple, which it writes
/// as an array in the compact form. The encoder refuses no string and no
/// integer, so that it succeeds, and the bytes depend on the fields alone.
/// Its one failure is that of its writer where memory for the bytes cannot
/// be had; memory is taken to be there, as it is wherever a vector grows.
#[verifier::external_body]
pub(crate) fn msgpack_encode(sticker_id: &String, owner_id: i64, tag: &String) -> (written: Result<
    Vec<u8>,
    rmp_serde::encode::Error,
>)
    ensures
        written is Ok,
        written matches Ok(bytes) ==> bytes@ == tag_msgpack(sticker_id@, owner_id as int, tag@),
{
    rmp_serde::to_vec(&(sticker_id, owner_id, tag))
}

/// Calls `rmp_serde::from_slice` for a tuple of a string, an integer and a
/// string. Whether it succeeds, and with which fields, depends on the bytes alone.
#[verifier::external_body]
pub(crate) fn msgpack_decode(bytes: &[u8]) -> (read: Result<(String, i64, String), rmp_serde::decode::Error>)
    ensures
        read is Ok <==> msgpack_tag(bytes@) is Some,
        read matches Ok(fields) ==> msgpack_tag(bytes@) == Some(
            (fields.0@, fields.1 as int, fields.2@),
        ),
{
    rmp_serde::from_slice(bytes)
}

/// An encoded value as the cache stores it: an opaque string of bytes.
#[derive(Debug, PartialEq, Eq)]
pub struct RedisStr(Vec<u8>);

impl View for RedisStr {
    type V = Seq<u8>;

    /// The bytes of the encoded value.
    closed spec fn view(&self) -> Seq<u8> {
        self.0@
    }
}

impl RedisStr {
    /// Wraps bytes that are already encoded.
    pub fn from_bytes(bytes: Vec<u8>) -> (encoded: RedisStr)
        ensures
            encoded@ == bytes@,
    {
        RedisStr(bytes)
    }

    /// The encoded bytes.
    pub fn as_bytes(&self) -> (bytes: &Vec<u8>)
        ensures
            bytes@ == self@,
    {
        &self.0
    }

    /// Encodes a staged tag. Every tag can be encoded, and the bytes are the
    /// tag's encoding.
    pub fn new(val: &ModelRedis) -> (encoded: Result<RedisStr, CodecError>)
        ensures
            encoded is Ok,
            encoded->Ok_0@ == tag_msgpack(val@.sticker_id, val@.owner_id, val@.tag),
    {
        match msgpack_encode(&val.sticker_id, val.owner_id, &val.tag) {
            Ok(bytes) => Ok(RedisStr(bytes)),
            Err(_) => Err(CodecError::Encode),
        }
    }

    /// Decodes a staged tag. It succeeds exactly on the bytes that are the
    /// encoding of a tag, and then returns that tag; nothing is made up for
    /// bytes of another layout.
    pub fn get(&self) -> (decoded: Result<ModelRedis, CodecError>)
        ensures
            match decoded {
                Ok(val) => msgpack_tag(self@) == Some((val@.sticker_id, val@.owner_id, val@.tag)),
                Err(e) => e == CodecError::Decode && msgpack_tag(self@) is None,
            },
    {
        match msgpack_decode(self.0.as_slice()) {
            Ok(fields) => Ok(ModelRedis { sticker_id: fields.0, owner_id: fields.1, tag: fields.2 }),
            Err(_) => Err(CodecError::Decode),
        }
    }
}

/// The settings from which a pool of cache connections is made.
#[derive(Debug, PartialEq, Eq)]
pub struct RedisPoolBuilder {
    connectionstr: String,
}

impl RedisPoolBuilder {
    /// Remembers the address of the cache server.
    pub fn new(connectionstr: &str) -> (builder: RedisPoolBuilder)
        ensures
            builder.connection_string() == connectionstr@,
    {
        RedisPoolBuilder { connectionstr: connectionstr.to_owned() }
    }

    /// The address the pool will connect to.
    pub closed spec fn connection_string(&self) -> Seq<char> {
        self.connectionstr@
    }

    /// Hands out the address of the cache server.
    pub fn connectionstr(&self) -> (address: &str)
        ensures
            address@ == self.connection_string(),
    {
        self.connectionstr.as_str()
    }
}

} // verus!
