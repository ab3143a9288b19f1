//! The task queue's client settings, the fields a task is pushed to its
//! stream with, and the reading of what the queue replies: a stream entry's
//! fields come as a flat list of names and values, which is read into named
//! text fields and then into a task.
use vstd::prelude::*;
use std::time::Duration;
use vstd::string::*;
use crate::text::{strings_view, i64_to_decimal, lemma_i32_decimal_round_trip, parse_i32, parse_i32_str, signed_decimal_of, str_eq};
use crate::dto::{time_text, time_to_text, uuid_text, uuid_to_text};
use crate::constants::{REDIS_API_KEY_STORE, REDIS_RESULT_CACHE_PREFIX};
use crate::types::{task_priority_of_value, task_priority_stream, InferenceTask};
use crate::utils::{hex_lower, sha256_hash, sha256_of, uuid_from_text, uuid_parse_str, uuid_text_valid};
use uuid::Uuid;
use vstd::utf8::encode_utf8;

verus! {

/// The errors of the task queue.
#[derive(Debug)]
pub enum RedisError {
    /// A failure of the connection, by its message.
    Connection(String),
    Serialization(serde_json::Error),
    EntryNotFound,
    GroupNotFound,
}

/// `Clone` of a duration, which is `Copy`: the copy is the same duration.
pub assume_specification[ <Duration as Clone>::clone ](d: &Duration) -> (r: Duration)
    ensures
        r == *d,
;

/// A duration of whole seconds.
pub uninterp spec fn secs_duration(secs: u64) -> Duration;

/// Calls `Duration::from_secs`.
#[verifier::external_body]
fn duration_from_secs(secs: u64) -> (d: Duration)
    ensures
        d == secs_duration(secs),
{
    Duration::from_secs(secs)
}

/// How the queue client connects and how long cached entries live.
#[derive(Debug, Clone)]
pub struct RedisPoolConfig {
    pub url: String,
    pub pool_size: usize,
    pub connection_timeout: Duration,
    pub api_key_cache_ttl: u64,
    pub result_cache_ttl: u64,
    pub task_timeout_ms: u64,
}

impl Default for RedisPoolConfig {
    /// A local server, ten connections, five seconds to connect, keys cached
    /// for an hour, results for a day, tasks timing out after five minutes.
    fn default() -> (c: RedisPoolConfig)
        ensures
            c.url@ == "redis://127.0.0.1:6379"@,
            c.pool_size == 10,
            c.connection_timeout == secs_duration(5),
            c.api_key_cache_ttl == 3600,
            c.result_cache_ttl == 86400,
            c.task_timeout_ms == 300000,
    {
        RedisPoolConfig {
            url: "redis://127.0.0.1:6379".to_owned(),
            pool_size: 10,
            connection_timeout: duration_from_secs(5),
            api_key_cache_ttl: 3600,
            result_cache_ttl: 86400,
            task_timeout_ms: 300000,
        }
    }
}

/// A value of the queue's protocol, as far as entries are read.
#[derive(Debug)]
pub enum RedisValue {
    Nil,
    Int(i64),
    BulkString(Vec<u8>),
    Array(Vec<RedisValue>),
    SimpleString(String),
    Okay,
}

/// Bytes read as UTF-8 text, each ill-formed part replaced by U+FFFD, as
/// `String::from_utf8_lossy` reads them.
pub uninterp spec fn utf8_lossy(bytes: Seq<u8>) -> Seq<char>;

/// Whether lossy reading gives the plain UTF-8 text of bytes that are valid
/// UTF-8.
pub open spec fn lossy_is_plain(bytes: Seq<u8>) -> bool {
    vstd::utf8::valid_utf8(bytes) ==> utf8_lossy(bytes) == vstd::utf8::decode_utf8(bytes)
}

/// Calls `String::from_utf8_lossy`. Claims, as its documentation says, that
/// bytes that are valid UTF-8 are read as the text they encode.
#[verifier::external_body]
fn utf8_lossy_text(bytes: &[u8]) -> (s: String)
    ensures
        s@ == utf8_lossy(bytes@),
        vstd::utf8::valid_utf8(bytes@) ==> s@ == vstd::utf8::decode_utf8(bytes@),
{
    String::from_utf8_lossy(bytes).into_owned()
}

/// The name and value pairs of a flat field list: items are taken two at a
/// time, a pair is kept when both are byte strings, and a last odd item is
/// ignored.
pub open spec fn field_pairs(items: Seq<RedisValue>) -> Seq<(Seq<char>, Seq<char>)>
    decreases items.len(),
{
    if items.len() < 2 {
        Seq::empty()
    } else {
        let rest = field_pairs(items.subrange(2, items.len() as int));
        match (items[0], items[1]) {
            (RedisValue::BulkString(k), RedisValue::BulkString(v)) => seq![(utf8_lossy(k@), utf8_lossy(v@))] + rest,
            _ => rest,
        }
    }
}

/// Whether a flat field list holds exactly the given name and value pairs,
/// each text as its UTF-8 bytes.
pub open spec fn items_encode_pairs(items: Seq<RedisValue>, pairs: Seq<(Seq<char>, Seq<char>)>) -> bool {
    &&& items.len() == 2 * pairs.len()
    &&& forall|j: int| 0 <= j < pairs.len() ==> (#[trigger] items[2 * j] matches RedisValue::BulkString(k)
        && k@ == vstd::utf8::encode_utf8(pairs[j].0))
    &&& forall|j: int| 0 <= j < pairs.len() ==> (#[trigger] items[2 * j + 1] matches RedisValue::BulkString(v)
        && v@ == vstd::utf8::encode_utf8(pairs[j].1))
}

/// Whether the `j`-th pair of a field list, when both are byte strings, is
/// read as plain text where valid.
pub open spec fn pair_read_plainly(items: Seq<RedisValue>, j: int) -> bool {
    match (items[2 * j], items[2 * j + 1]) {
        (RedisValue::BulkString(k), RedisValue::BulkString(v)) => lossy_is_plain(k@) && lossy_is_plain(v@),
        _ => true,
    }
}

proof fn lemma_encoded_pairs_read_back(items: Seq<RedisValue>, pairs: Seq<(Seq<char>, Seq<char>)>)
    requires
        items_encode_pairs(items, pairs),
        forall|j: int| 0 <= j < pairs.len() ==> #[trigger] pair_read_plainly(items, j),
    ensures
        field_pairs(items) == pairs,
    decreases pairs.len(),
{
    if pairs.len() == 0 {
        assert(items.len() == 0);
        assert(pairs =~= Seq::<(Seq<char>, Seq<char>)>::empty());
    } else {
        let rest = items.subrange(2, items.len() as int);
        let tail = pairs.drop_first();
        assert(items_encode_pairs(rest, tail)) by {
            assert forall|j: int| 0 <= j < tail.len() implies (#[trigger] rest[2 * j] matches RedisValue::BulkString(k)
                && k@ == vstd::utf8::encode_utf8(tail[j].0)) by {
                assert(rest[2 * j] == items[2 * (j + 1)]);
                assert(tail[j] == pairs[j + 1]);
            }
            assert forall|j: int| 0 <= j < tail.len() implies (#[trigger] rest[2 * j + 1] matches RedisValue::BulkString(v)
                && v@ == vstd::utf8::encode_utf8(tail[j].1)) by {
                assert(rest[2 * j + 1] == items[2 * (j + 1) + 1]);
                assert(tail[j] == pairs[j + 1]);
            }
        }
        assert forall|j: int| 0 <= j < tail.len() implies #[trigger] pair_read_plainly(rest, j) by {
            assert(pair_read_plainly(items, j + 1));
            assert(rest[2 * j] == items[2 * (j + 1)]);
            assert(rest[2 * j + 1] == items[2 * (j + 1) + 1]);
        }
        lemma_encoded_pairs_read_back(rest, tail);
        assert(items[2 * 0int] == items[0]);
        assert(items[2 * 0int + 1] == items[1]);
        assert(pair_read_plainly(items, 0));
        let k = pairs[0].0;
        let v = pairs[0].1;
        vstd::utf8::encode_utf8_valid_utf8(k);
        vstd::utf8::encode_utf8_decode_utf8(k);
        vstd::utf8::encode_utf8_valid_utf8(v);
        vstd::utf8::encode_utf8_decode_utf8(v);
        assert(pairs =~= seq![(k, v)] + tail);
    }
}

/// The value of a field: a later pair with the same name wins.
pub open spec fn field_value(pairs: Seq<(Seq<char>, Seq<char>)>, name: Seq<char>) -> Option<Seq<char>>
    decreases pairs.len(),
{
    if pairs.len() == 0 {
        None
    } else if pairs.last().0 == name {
        Some(pairs.last().1)
    } else {
        field_value(pairs.drop_last(), name)
    }
}

/// The named text fields of a stream entry, as name and value pairs in the
/// order the entry gives them; a later pair with a name wins. They are kept
/// in a `Vec` rather than a `HashMap<String, String>` because Verus
/// specifies no contents for a hash map keyed by `String`, so its lookups
/// could not be tied to the entry.
#[derive(Debug, Clone)]
pub struct RedisFields {
    pairs: Vec<(String, String)>,
}

impl View for RedisFields {
    type V = Seq<(Seq<char>, Seq<char>)>;

    closed spec fn view(&self) -> Seq<(Seq<char>, Seq<char>)> {
        self.pairs@.map_values(|p: (String, String)| (p.0@, p.1@))
    }
}

impl RedisFields {
    /// The value of a field, if the entry has it.
    pub fn get(&self, name: &str) -> (r: Option<&String>)
        ensures
            match r {
                Some(v) => field_value(self@, name@) == Some(v@),
                None => field_value(self@, name@) is None,
            },
    {
        let mut i: usize = self.pairs.len();
        proof {
            assert(self@.subrange(0, i as int) == self@);
        }
        while i > 0
            invariant
                i <= self.pairs@.len(),
                field_value(self@, name@) == field_value(self@.subrange(0, i as int), name@),
            decreases i,
        {
            let ghost pre = self@.subrange(0, i as int);
            proof {
                assert(pre.last() == (self.pairs@[i - 1].0@, self.pairs@[i - 1].1@));
                assert(pre.drop_last() == self@.subrange(0, i - 1));
            }
            if str_eq(self.pairs[i - 1].0.as_str(), name) {
                return Some(&self.pairs[i - 1].1);
            }
            i = i - 1;
        }
        None
    }
}

/// The JSON value that a text holds, if it holds one.
pub uninterp spec fn json_text_value(text: Seq<char>) -> Option<serde_json::Value>;

/// Calls `serde_json::from_str` for a `serde_json::Value`, keeping the value
/// when the text parses.
#[verifier::external_body]
fn parse_json_text(text: &str) -> (v: Option<serde_json::Value>)
    ensures
        v == json_text_value(text@),
{
    serde_json::from_str(text).ok()
}

/// A task as it is read from a priority stream.
#[derive(Debug, Clone)]
pub struct TaskMessage {
    pub stream: String,
    pub entry_id: String,
    pub task_id: Uuid,
    pub model_id: Uuid,
    pub user_id: Uuid,
    pub api_key_id: Uuid,
    pub priority: i32,
    pub created_at: String,
    pub inputs: Option<serde_json::Value>,
}

/// The id and the field list of a stream entry: its first item must be a
/// byte string and its second a list.
pub open spec fn entry_parts(entry: Seq<RedisValue>) -> Option<(Seq<u8>, Seq<RedisValue>)> {
    if entry.len() < 2 {
        None
    } else {
        match (entry[0], entry[1]) {
            (RedisValue::BulkString(id), RedisValue::Array(items)) => Some((id@, items@)),
            _ => None,
        }
    }
}

/// A field read as a UUID, when the entry has it in a form that UUIDs are
/// written in.
pub open spec fn field_uuid(pairs: Seq<(Seq<char>, Seq<char>)>, name: Seq<char>) -> Option<Uuid> {
    match field_value(pairs, name) {
        Some(v) => if uuid_text_valid(encode_utf8(v)) {
            Some(uuid_from_text(encode_utf8(v)))
        } else {
            None
        },
        None => None,
    }
}

/// A field read as a 32-bit integer, when the entry has it as one.
pub open spec fn field_i32(pairs: Seq<(Seq<char>, Seq<char>)>, name: Seq<char>) -> Option<i32> {
    match field_value(pairs, name) {
        Some(v) => parse_i32(v),
        None => None,
    }
}

/// Whether a task entry has every field that a task needs, each readable.
pub open spec fn task_fields_complete(pairs: Seq<(Seq<char>, Seq<char>)>) -> bool {
    &&& field_uuid(pairs, "task_id"@) is Some
    &&& field_uuid(pairs, "model_id"@) is Some
    &&& field_uuid(pairs, "user_id"@) is Some
    &&& field_uuid(pairs, "api_key_id"@) is Some
    &&& field_i32(pairs, "priority"@) is Some
    &&& field_value(pairs, "created_at"@) is Some
}

/// The task inputs of an entry: its `inputs` field when that holds JSON.
pub open spec fn task_inputs(pairs: Seq<(Seq<char>, Seq<char>)>) -> Option<serde_json::Value> {
    match field_value(pairs, "inputs"@) {
        Some(t) => json_text_value(t),
        None => None,
    }
}

/// The compact JSON text of a value, as `serde_json` writes it.
pub uninterp spec fn json_text(v: serde_json::Value) -> Seq<char>;

/// Calls `serde_json::Value::to_string`, which writes the value as compact
/// JSON.
#[verifier::external_body]
fn json_value_text(v: &serde_json::Value) -> (s: String)
    ensures
        s@ == json_text(*v),
{
    v.to_string()
}

/// Name and value pairs of strings, by their texts.
pub open spec fn text_pairs(v: Seq<(String, String)>) -> Seq<(Seq<char>, Seq<char>)> {
    v.map_values(|p: (String, String)| (p.0@, p.1@))
}

/// The fields a task is pushed to its stream with: its ids as text, its
/// priority in decimal, its creation time and its inputs as JSON.
pub open spec fn task_entry_pairs(task: InferenceTask) -> Seq<(Seq<char>, Seq<char>)> {
    seq![
        ("task_id"@, uuid_text(task.id)),
        ("model_id"@, uuid_text(task.model_id)),
        ("user_id"@, uuid_text(task.user_id)),
        ("api_key_id"@, uuid_text(task.api_key_id)),
        ("priority"@, signed_decimal_of(task.priority as int)),
        ("created_at"@, time_text(task.created_at)),
        ("inputs"@, json_text(task.inputs)),
    ]
}

/// Whether the text of a UUID reads back as that UUID.
pub open spec fn uuid_text_reads_back(u: Uuid) -> bool {
    &&& uuid_text_valid(encode_utf8(uuid_text(u)))
    &&& uuid_from_text(encode_utf8(uuid_text(u))) == u
}

proof fn lemma_task_entry_reads_back(task: InferenceTask)
    requires
        uuid_text_reads_back(task.id),
        uuid_text_reads_back(task.model_id),
        uuid_text_reads_back(task.user_id),
        uuid_text_reads_back(task.api_key_id),
    ensures
        task_fields_complete(task_entry_pairs(task)),
        field_uuid(task_entry_pairs(task), "task_id"@) == Some(task.id),
        field_uuid(task_entry_pairs(task), "model_id"@) == Some(task.model_id),
        field_uuid(task_entry_pairs(task), "user_id"@) == Some(task.user_id),
        field_uuid(task_entry_pairs(task), "api_key_id"@) == Some(task.api_key_id),
        field_i32(task_entry_pairs(task), "priority"@) == Some(task.priority),
        field_value(task_entry_pairs(task), "created_at"@) == Some(time_text(task.created_at)),
        task_inputs(task_entry_pairs(task)) == json_text_value(json_text(task.inputs)),
{
    reveal_strlit("task_id");
    reveal_strlit("model_id");
    reveal_strlit("user_id");
    reveal_strlit("api_key_id");
    reveal_strlit("priority");
    reveal_strlit("created_at");
    reveal_strlit("inputs");
    lemma_i32_decimal_round_trip(task.priority);
    let p = task_entry_pairs(task);
    assert("task_id"@[0] != "user_id"@[0]);
    assert("model_id"@[0] != "priority"@[0]);
    assert("api_key_id"@[0] != "created_at"@[0]);
    lemma_field_value_at(p, "task_id"@, 0);
    lemma_field_value_at(p, "model_id"@, 1);
    lemma_field_value_at(p, "user_id"@, 2);
    lemma_field_value_at(p, "api_key_id"@, 3);
    lemma_field_value_at(p, "priority"@, 4);
    lemma_field_value_at(p, "created_at"@, 5);
    lemma_field_value_at(p, "inputs"@, 6);
}

proof fn lemma_field_value_at(pairs: Seq<(Seq<char>, Seq<char>)>, name: Seq<char>, i: int)
    requires
        0 <= i < pairs.len(),
        pairs[i].0 == name,
        forall|j: int| i < j < pairs.len() ==> #[trigger] pairs[j].0 != name,
    ensures
        field_value(pairs, name) == Some(pairs[i].1),
    decreases pairs.len(),
{
    if i < pairs.len() - 1 {
        assert(pairs.last().0 != name);
        let pre = pairs.drop_last();
        assert forall|j: int| i < j < pre.len() implies #[trigger] pre[j].0 != name by {
            assert(pre[j] == pairs[j]);
        }
        lemma_field_value_at(pre, name, i);
    }
}

/// What reading a stream entry into a task of `stream` gives: a task with
/// the entry's id and fields when the entry is an id and a field list with
/// every field a task needs, and `EntryNotFound` otherwise.
pub open spec fn task_entry_read(stream: Seq<char>, entry: Seq<RedisValue>, r: Result<TaskMessage, RedisError>) -> bool {
    match entry_parts(entry) {
        None => r matches Err(RedisError::EntryNotFound),
        Some((id, items)) => {
            let pairs = field_pairs(items);
            if task_fields_complete(pairs) {
                r matches Ok(m) && m.stream@ == stream && m.entry_id@ == utf8_lossy(id)
                    && Some(m.task_id) == field_uuid(pairs, "task_id"@)
                    && Some(m.model_id) == field_uuid(pairs, "model_id"@)
                    && Some(m.user_id) == field_uuid(pairs, "user_id"@)
                    && Some(m.api_key_id) == field_uuid(pairs, "api_key_id"@)
                    && Some(m.priority) == field_i32(pairs, "priority"@)
                    && Some(m.created_at@) == field_value(pairs, "created_at"@)
                    && m.inputs == task_inputs(pairs)
            } else {
                r matches Err(RedisError::EntryNotFound)
            }
        },
    }
}

/// Whether an entry reads into a task.
pub open spec fn entry_readable(entry: Seq<RedisValue>) -> bool {
    match entry_parts(entry) {
        Some((_, items)) => task_fields_complete(field_pairs(items)),
        None => false,
    }
}

/// The entry that a group read of one entry delivers for `stream`: in the
/// first part of the reply that is a list naming the stream and holding a
/// non-empty list of entries, its first entry, when that is a list.
pub open spec fn stream_part_entry(stream: Seq<char>, part: RedisValue) -> Option<Seq<RedisValue>> {
    match part {
        RedisValue::Array(items) => if items@.len() >= 2 {
            match (items@[0], items@[1]) {
                (RedisValue::BulkString(name), RedisValue::Array(entries)) => if utf8_lossy(name@) == stream
                    && entries@.len() > 0 {
                    match entries@[0] {
                        RedisValue::Array(e) => Some(e@),
                        _ => None,
                    }
                } else {
                    None
                },
                _ => None,
            }
        } else {
            None
        },
        _ => None,
    }
}

/// The first entry that any part of a group-read reply delivers for
/// `stream`.
pub open spec fn reply_entry(stream: Seq<char>, parts: Seq<RedisValue>) -> Option<Seq<RedisValue>>
    decreases parts.len(),
{
    if parts.len() == 0 {
        None
    } else {
        match stream_part_entry(stream, parts[0]) {
            Some(e) => Some(e),
            None => reply_entry(stream, parts.drop_first()),
        }
    }
}

/// The ids of the pending entries in a pending-list reply: of each item
/// that is a non-empty list starting with a byte string, that string.
pub open spec fn pending_ids(pending: Seq<RedisValue>) -> Seq<Seq<char>>
    decreases pending.len(),
{
    if pending.len() == 0 {
        Seq::empty()
    } else {
        let rest = pending_ids(pending.drop_last());
        match pending.last() {
            RedisValue::Array(arr) => if arr@.len() > 0 {
                match arr@[0] {
                    RedisValue::BulkString(b) => rest.push(utf8_lossy(b@)),
                    _ => rest,
                }
            } else {
                rest
            },
            _ => rest,
        }
    }
}

/// The claimed entries that read into tasks, in order.
pub open spec fn readable_entries(claimed: Seq<Vec<RedisValue>>) -> Seq<Seq<RedisValue>>
    decreases claimed.len(),
{
    if claimed.len() == 0 {
        Seq::empty()
    } else {
        let rest = readable_entries(claimed.drop_last());
        if entry_readable(claimed.last()@) {
            rest.push(claimed.last()@)
        } else {
            rest
        }
    }
}

/// A task pushed with the fields its stream entry is made of, stored as
/// their UTF-8 bytes, is read back from the stream with its ids, priority
/// and creation time. (The texts of its ids read back as the ids, as the
/// making of the entry shows, and reading the entry gives the texts of
/// UTF-8 fields.)
pub proof fn lemma_pushed_task_reads_back(
    task: InferenceTask,
    stream: Seq<char>,
    entry: Seq<RedisValue>,
    r: Result<TaskMessage, RedisError>,
)
    requires
        uuid_text_reads_back(task.id),
        uuid_text_reads_back(task.model_id),
        uuid_text_reads_back(task.user_id),
        uuid_text_reads_back(task.api_key_id),
        entry_parts(entry) matches Some((_, items)) && items_encode_pairs(items, task_entry_pairs(task)),
        task_entry_read(stream, entry, r),
        entry_parts(entry) matches Some((_, items)) && (forall|p: Seq<(Seq<char>, Seq<char>)>|
            #[trigger] items_encode_pairs(items, p) ==> field_pairs(items) == p),
    ensures
        r matches Ok(m) && m.stream@ == stream && m.task_id == task.id && m.model_id == task.model_id
            && m.user_id == task.user_id && m.api_key_id == task.api_key_id && m.priority == task.priority
            && m.created_at@ == time_text(task.created_at),
{
    let items = entry_parts(entry)->Some_0.1;
    assert(items_encode_pairs(items, task_entry_pairs(task)));
    assert(field_pairs(items) == task_entry_pairs(task));
    lemma_task_entry_reads_back(task);
}

/// The queue client's settings and its reading of stream entries; the
/// connection itself is held by the service.
pub struct RedisClient {
    config: RedisPoolConfig,
}

proof fn lemma_field_pairs_step(items: Seq<RedisValue>, i: int)
    requires
        0 <= i,
        i + 2 <= items.len(),
    ensures
        field_pairs(items.subrange(i, items.len() as int)) == match (items[i], items[i + 1]) {
            (RedisValue::BulkString(k), RedisValue::BulkString(v)) => seq![(utf8_lossy(k@), utf8_lossy(v@))]
                + field_pairs(items.subrange(i + 2, items.len() as int)),
            _ => field_pairs(items.subrange(i + 2, items.len() as int)),
        },
{
    let s = items.subrange(i, items.len() as int);
    assert(s.subrange(2, s.len() as int) == items.subrange(i + 2, items.len() as int));
    assert(s[0] == items[i] && s[1] == items[i + 1]);
}

impl RedisClient {
    /// A client with these settings.
    pub fn new(config: RedisPoolConfig) -> (c: RedisClient)
        ensures
            c.settings() == config,
    {
        RedisClient { config }
    }

    pub closed spec fn settings(&self) -> RedisPoolConfig {
        self.config
    }

    /// The client's settings.
    pub fn config(&self) -> (c: &RedisPoolConfig)
        ensures
            *c == self.settings(),
    {
        &self.config
    }

    /// Reads the flat field list of a stream entry into named fields.
    pub fn parse_fields(&self, fields: &[RedisValue]) -> (r: Result<RedisFields, RedisError>)
        ensures
            r matches Ok(f) && f@ == field_pairs(fields@),
            forall|p: Seq<(Seq<char>, Seq<char>)>| #[trigger] items_encode_pairs(fields@, p) ==> field_pairs(fields@) == p,
    {
        let mut pairs: Vec<(String, String)> = Vec::new();
        let mut i: usize = 0;
        proof {
            assert(fields@.subrange(0, fields@.len() as int) == fields@);
            assert(pairs@.map_values(|p: (String, String)| (p.0@, p.1@)) == Seq::<(Seq<char>, Seq<char>)>::empty());
        }
        while i + 1 < fields.len()
            invariant
                i <= fields@.len(),
                i % 2 == 0,
                pairs@.map_values(|p: (String, String)| (p.0@, p.1@)) + field_pairs(fields@.subrange(i as int, fields@.len() as int))
                    == field_pairs(fields@),
                forall|j: int| 0 <= j && 2 * j + 1 < i ==> #[trigger] pair_read_plainly(fields@, j),
            decreases fields@.len() - i,
        {
            proof { lemma_field_pairs_step(fields@, i as int); }
            let ghost before = pairs@;
            match (&fields[i], &fields[i + 1]) {
                (RedisValue::BulkString(k), RedisValue::BulkString(v)) => {
                    let key = utf8_lossy_text(k.as_slice());
                    let value = utf8_lossy_text(v.as_slice());
                    pairs.push((key, value));
                    proof {
                        assert(pairs@.map_values(|p: (String, String)| (p.0@, p.1@))
                            == before.map_values(|p: (String, String)| (p.0@, p.1@)).push((utf8_lossy(k@), utf8_lossy(v@))));
                        let j = i as int / 2;
                        assert(2 * j == i);
                        assert(pair_read_plainly(fields@, j));
                    }
                },
                _ => {},
            }
            i = i + 2;
        }
        proof {
            assert(field_pairs(fields@.subrange(i as int, fields@.len() as int)) == Seq::<(Seq<char>, Seq<char>)>::empty());
            assert forall|p: Seq<(Seq<char>, Seq<char>)>| #[trigger] items_encode_pairs(fields@, p) implies field_pairs(fields@) == p by {
                assert forall|j: int| 0 <= j < p.len() implies #[trigger] pair_read_plainly(fields@, j) by {
                    assert(2 * j + 1 < i);
                }
                lemma_encoded_pairs_read_back(fields@, p);
            }
        }
        Ok(RedisFields { pairs })
    }

    /// The text of a field; an entry without it is refused.
    pub fn get_field_as_string(&self, data: &RedisFields, field: &str) -> (r: Result<String, RedisError>)
        ensures
            match field_value(data@, field@) {
                Some(v) => r matches Ok(s) && s@ == v,
                None => r matches Err(RedisError::EntryNotFound),
            },
    {
        match data.get(field) {
            Some(v) => Ok(v.clone()),
            None => Err(RedisError::EntryNotFound),
        }
    }

    /// A field as a 32-bit integer; an entry without it, or with text that
    /// is not such an integer, is refused.
    pub fn get_field_as_i32(&self, data: &RedisFields, field: &str) -> (r: Result<i32, RedisError>)
        ensures
            match field_value(data@, field@) {
                Some(v) => match parse_i32(v) {
                    Some(n) => r == Ok::<i32, RedisError>(n),
                    None => r matches Err(RedisError::EntryNotFound),
                },
                None => r matches Err(RedisError::EntryNotFound),
            },
    {
        let s = self.get_field_as_string(data, field)?;
        match parse_i32_str(s.as_str()) {
            Some(n) => Ok(n),
            None => Err(RedisError::EntryNotFound),
        }
    }

    /// The stream a task is pushed to, by its priority, and the fields it is
    /// pushed with. Reading those fields back as an entry gives the task's
    /// ids, priority and creation time.
    pub fn task_stream_entry(&self, task: &InferenceTask) -> (r: (&'static str, Vec<(String, String)>))
        ensures
            r.0@ == task_priority_stream(task_priority_of_value(task.priority as int)),
            text_pairs(r.1@) == task_entry_pairs(*task),
            task_fields_complete(text_pairs(r.1@)),
            field_uuid(text_pairs(r.1@), "task_id"@) == Some(task.id),
            field_uuid(text_pairs(r.1@), "model_id"@) == Some(task.model_id),
            field_uuid(text_pairs(r.1@), "user_id"@) == Some(task.user_id),
            field_uuid(text_pairs(r.1@), "api_key_id"@) == Some(task.api_key_id),
            field_i32(text_pairs(r.1@), "priority"@) == Some(task.priority),
            field_value(text_pairs(r.1@), "created_at"@) == Some(time_text(task.created_at)),
            uuid_text_reads_back(task.id),
            uuid_text_reads_back(task.model_id),
            uuid_text_reads_back(task.user_id),
            uuid_text_reads_back(task.api_key_id),
    {
        let stream = task.priority_enum().stream_key();
        let task_id = uuid_to_text(&task.id);
        let model_id = uuid_to_text(&task.model_id);
        let user_id = uuid_to_text(&task.user_id);
        let api_key_id = uuid_to_text(&task.api_key_id);
        let priority = i64_to_decimal(task.priority as i64);
        let created_at = time_to_text(task.created_at);
        let inputs = json_value_text(&task.inputs);
        let mut fields: Vec<(String, String)> = Vec::new();
        fields.push(("task_id".to_owned(), task_id));
        fields.push(("model_id".to_owned(), model_id));
        fields.push(("user_id".to_owned(), user_id));
        fields.push(("api_key_id".to_owned(), api_key_id));
        fields.push(("priority".to_owned(), priority));
        fields.push(("created_at".to_owned(), created_at));
        fields.push(("inputs".to_owned(), inputs));
        proof {
            assert(text_pairs(fields@) =~= task_entry_pairs(*task));
            lemma_task_entry_reads_back(*task);
        }
        (stream, fields)
    }

    /// A field as a UUID; an entry without it, or with text that is no
    /// UUID, is refused.
    pub fn get_field_as_uuid(&self, data: &RedisFields, field: &str) -> (r: Result<Uuid, RedisError>)
        ensures
            match field_uuid(data@, field@) {
                Some(u) => r matches Ok(x) && x == u,
                None => r matches Err(RedisError::EntryNotFound),
            },
    {
        let s = self.get_field_as_string(data, field)?;
        match uuid_parse_str(s.as_str()) {
            Ok(u) => Ok(u),
            Err(_) => Err(RedisError::EntryNotFound),
        }
    }

    /// Reads a stream entry, its id and its field list, into a task of the
    /// given stream. An entry that is not an id and a list, or that lacks a
    /// field a task needs, is refused; inputs that are not JSON are left
    /// out.
    pub fn parse_stream_entry(&self, stream: &str, entry: &[RedisValue]) -> (r: Result<TaskMessage, RedisError>)
        ensures
            task_entry_read(stream@, entry@, r),
            entry_parts(entry@) matches Some((id, items)) ==> lossy_is_plain(id) && forall|p: Seq<(Seq<char>, Seq<char>)>|
                #[trigger] items_encode_pairs(items, p) ==> field_pairs(items) == p,
    {
        if entry.len() < 2 {
            return Err(RedisError::EntryNotFound);
        }
        let entry_id = match &entry[0] {
            RedisValue::BulkString(bytes) => utf8_lossy_text(bytes.as_slice()),
            _ => return Err(RedisError::EntryNotFound),
        };
        let fields = match &entry[1] {
            RedisValue::Array(arr) => arr,
            _ => return Err(RedisError::EntryNotFound),
        };
        let data = self.parse_fields(fields.as_slice())?;
        let task_id = self.get_field_as_uuid(&data, "task_id")?;
        let model_id = self.get_field_as_uuid(&data, "model_id")?;
        let user_id = self.get_field_as_uuid(&data, "user_id")?;
        let api_key_id = self.get_field_as_uuid(&data, "api_key_id")?;
        let priority = self.get_field_as_i32(&data, "priority")?;
        let created_at = self.get_field_as_string(&data, "created_at")?;
        let inputs = match data.get("inputs") {
            Some(t) => parse_json_text(t.as_str()),
            None => None,
        };
        Ok(TaskMessage {
            stream: stream.to_owned(),
            entry_id,
            task_id,
            model_id,
            user_id,
            api_key_id,
            priority,
            created_at,
            inputs,
        })
    }

    /// Reads the reply to a group read of one entry from `stream`: the
    /// entry delivered for the stream is read into a task; a reply without
    /// one gives `None`.
    pub fn read_from_stream(&self, stream: &str, reply: &RedisValue) -> (r: Result<Option<TaskMessage>, RedisError>)
        ensures
            match reply {
                RedisValue::Array(parts) => match reply_entry(stream@, parts@) {
                    Some(e) => match r {
                        Ok(Some(m)) => task_entry_read(stream@, e, Ok(m)),
                        Ok(None) => false,
                        Err(x) => task_entry_read(stream@, e, Err(x)),
                    },
                    None => r matches Ok(None),
                },
                _ => r matches Ok(None),
            },
    {
        let parts = match reply {
            RedisValue::Array(parts) => parts,
            _ => return Ok(None),
        };
        let mut i: usize = 0;
        proof {
            assert(parts@.subrange(0, parts@.len() as int) == parts@);
        }
        while i < parts.len()
            invariant
                *reply == RedisValue::Array(*parts),
                i <= parts@.len(),
                reply_entry(stream@, parts@) == reply_entry(stream@, parts@.subrange(i as int, parts@.len() as int)),
            decreases parts@.len() - i,
        {
            let ghost rest = parts@.subrange(i as int, parts@.len() as int);
            proof {
                assert(rest[0] == parts@[i as int]);
                assert(rest.drop_first() == parts@.subrange(i + 1, parts@.len() as int));
            }
            if let RedisValue::Array(items) = &parts[i] {
                if items.len() >= 2 {
                    if let (RedisValue::BulkString(name), RedisValue::Array(entries)) = (&items[0], &items[1]) {
                        let stream_name = utf8_lossy_text(name.as_slice());
                        if str_eq(stream_name.as_str(), stream) && entries.len() > 0 {
                            if let RedisValue::Array(entry) = &entries[0] {
                                return match self.parse_stream_entry(stream, entry.as_slice()) {
                                    Ok(m) => Ok(Some(m)),
                                    Err(x) => Err(x),
                                };
                            }
                        }
                    }
                }
            }
            i = i + 1;
        }
        Ok(None)
    }

    /// The ids of the entries a pending-list reply names, in order.
    pub fn pending_entry_ids(&self, pending: &[RedisValue]) -> (ids: Vec<String>)
        ensures
            strings_view(ids@) == pending_ids(pending@),
    {
        let mut ids: Vec<String> = Vec::new();
        let mut i: usize = 0;
        while i < pending.len()
            invariant
                i <= pending@.len(),
                strings_view(ids@) == pending_ids(pending@.subrange(0, i as int)),
            decreases pending@.len() - i,
        {
            let ghost before = ids@;
            proof {
                assert(pending@.subrange(0, i + 1).drop_last() == pending@.subrange(0, i as int));
                assert(pending@.subrange(0, i + 1).last() == pending@[i as int]);
            }
            if let RedisValue::Array(arr) = &pending[i] {
                if arr.len() > 0 {
                    if let RedisValue::BulkString(b) = &arr[0] {
                        ids.push(utf8_lossy_text(b.as_slice()));
                        proof {
                            assert(strings_view(ids@) == strings_view(before).push(ids@.last()@));
                        }
                    }
                }
            }
            i = i + 1;
        }
        proof {
            assert(pending@.subrange(0, pending@.len() as int) == pending@);
        }
        ids
    }

    /// The tasks that claimed entries of `stream` read into, in order;
    /// entries that do not read into a task are passed over.
    pub fn claimed_tasks(&self, stream: &str, claimed: &[Vec<RedisValue>]) -> (tasks: Vec<TaskMessage>)
        ensures
            tasks@.len() == readable_entries(claimed@).len(),
            forall|k: int| 0 <= k < tasks@.len() ==> task_entry_read(
                stream@,
                #[trigger] readable_entries(claimed@)[k],
                Ok(tasks@[k]),
            ),
    {
        let mut tasks: Vec<TaskMessage> = Vec::new();
        let mut i: usize = 0;
        while i < claimed.len()
            invariant
                i <= claimed@.len(),
                tasks@.len() == readable_entries(claimed@.subrange(0, i as int)).len(),
                forall|k: int| 0 <= k < tasks@.len() ==> task_entry_read(
                    stream@,
                    #[trigger] readable_entries(claimed@.subrange(0, i as int))[k],
                    Ok(tasks@[k]),
                ),
            decreases claimed@.len() - i,
        {
            let ghost pre = claimed@.subrange(0, i as int);
            let ghost next = claimed@.subrange(0, i + 1);
            proof {
                assert(next.drop_last() == pre);
                assert(next.last() == claimed@[i as int]);
            }
            let r = self.parse_stream_entry(stream, claimed[i].as_slice());
            match r {
                Ok(m) => {
                    tasks.push(m);
                },
                Err(_) => {},
            }
            i = i + 1;
        }
        proof {
            assert(claimed@.subrange(0, claimed@.len() as int) == claimed@);
        }
        tasks
    }
}

/// The key under which the record of an API key is kept, by the key's
/// digest: the API key store's prefix, a colon and the digest.
pub fn api_key_store_key(key_hash: &str) -> (k: String)
    ensures
        k@ == REDIS_API_KEY_STORE@ + ":"@ + key_hash@,
{
    let mut k = REDIS_API_KEY_STORE.to_owned();
    k.append(":");
    k.append(key_hash);
    k
}

/// The key under which the result of a task is cached: the result cache's
/// prefix, a colon and the task's id.
pub fn result_cache_key(task_id: &Uuid) -> (k: String)
    ensures
        k@ == REDIS_RESULT_CACHE_PREFIX@ + ":"@ + uuid_text(*task_id),
{
    let mut k = REDIS_RESULT_CACHE_PREFIX.to_owned();
    k.append(":");
    let id = uuid_to_text(task_id);
    k.append(id.as_str());
    k
}

/// The key under which an API key's record is cached: the SHA-256 digest
/// of the key in lowercase hex.
pub fn hash_api_key(key: &str) -> (h: String)
    ensures
        h@ == hex_lower(sha256_of(key.spec_bytes())),
        h@.len() == 64,
{
    sha256_hash(key)
}

} // verus!
