//! The inference engine's session cache: which loaded model sessions are
//! kept, which model is being loaded, and which one leaves the cache when
//! room is needed. Sessions themselves live outside the library; the cache
//! holds, for each model id, the handle by which its session is found.
use vstd::prelude::*;
use lru::LruCache;
use std::collections::HashSet;
use std::collections::hash_map::RandomState;
use vstd::string::*;
use crate::errors::{CoreError, list_text, usize_list_text};
use crate::tensor::{Tensor, tensor_bytes, bytes_i8s, bytes_i64s, tensor_decode_error_message};
use crate::text::{decimal_of, u64_to_decimal};
use crate::types::TensorDataType;

verus! {

broadcast use vstd::std_specs::hash::group_hash_axioms;

#[verifier::external_type_specification]
#[verifier::external_body]
#[verifier::reject_recursive_types(K)]
#[verifier::reject_recursive_types(V)]
#[verifier::reject_recursive_types(S)]
pub struct ExLruCache<K, V, S>(LruCache<K, V, S>);

/// The entries of a session cache, least recently used first.
pub uninterp spec fn lru_entries(cache: LruCache<u128, u64, RandomState>) -> Seq<(u128, u64)>;

/// The number of entries a session cache was made to hold.
pub uninterp spec fn lru_capacity(cache: LruCache<u128, u64, RandomState>) -> nat;

/// Some entry has the key.
pub open spec fn has_key(s: Seq<(u128, u64)>, k: u128) -> bool {
    exists|i: int| 0 <= i < s.len() && #[trigger] s[i].0 == k
}

/// The position of an entry with the key (meaningful when there is one).
pub open spec fn key_index(s: Seq<(u128, u64)>, k: u128) -> int {
    choose|i: int| 0 <= i < s.len() && #[trigger] s[i].0 == k
}

/// No key occurs twice.
pub open spec fn keys_distinct(s: Seq<(u128, u64)>) -> bool {
    forall|i: int, j: int| 0 <= i < s.len() && 0 <= j < s.len() && i != j ==> #[trigger] s[i].0 != #[trigger] s[j].0
}

/// The keys, least recently used first.
pub open spec fn entry_keys(s: Seq<(u128, u64)>) -> Seq<u128> {
    s.map_values(|e: (u128, u64)| e.0)
}

/// The entries after `get` of a present key: it moves to the most recent end.
pub open spec fn touched(s: Seq<(u128, u64)>, k: u128) -> Seq<(u128, u64)> {
    s.remove(key_index(s, k)).push(s[key_index(s, k)])
}

/// The entries after `put` of a key that is absent: the least recently used
/// entry leaves when the cache is full, and the new one becomes the most recent.
pub open spec fn inserted(s: Seq<(u128, u64)>, capacity: nat, k: u128, v: u64) -> Seq<(u128, u64)> {
    if s.len() == capacity && s.len() > 0 {
        s.drop_first().push((k, v))
    } else {
        s.push((k, v))
    }
}

/// Calls `LruCache::with_hasher` with std's default hasher. Claims that the cache is empty and holds up to
/// `capacity` entries.
#[verifier::external_body]
fn lru_new(capacity: usize) -> (c: LruCache<u128, u64, RandomState>)
    requires
        capacity > 0,
    ensures
        lru_entries(c) == Seq::<(u128, u64)>::empty(),
        lru_capacity(c) == capacity,
{
    LruCache::with_hasher(std::num::NonZeroUsize::new(capacity).unwrap(), RandomState::new())
}

/// Calls `LruCache::len`. Claims that it counts the entries.
#[verifier::external_body]
fn lru_len(c: &LruCache<u128, u64, RandomState>) -> (n: usize)
    ensures
        n == lru_entries(*c).len(),
{
    c.len()
}

/// Calls `LruCache::cap`. Claims that it is the capacity the cache was made with.
#[verifier::external_body]
fn lru_cap(c: &LruCache<u128, u64, RandomState>) -> (n: usize)
    ensures
        n == lru_capacity(*c),
{
    c.cap().get()
}

/// Calls `LruCache::contains`, which does not change the order of use.
/// Claims that it tells whether some entry has the key.
#[verifier::external_body]
fn lru_contains(c: &LruCache<u128, u64, RandomState>, k: u128) -> (b: bool)
    ensures
        b == has_key(lru_entries(*c), k),
{
    c.contains(&k)
}

/// Calls `LruCache::get`. Claims that it returns the value of an entry with
/// the key and makes that entry the most recently used, or returns `None`
/// and changes nothing when no entry has the key.
#[verifier::external_body]
fn lru_get(c: &mut LruCache<u128, u64, RandomState>, k: u128) -> (r: Option<u64>)
    ensures
        lru_capacity(*final(c)) == lru_capacity(*old(c)),
        match r {
            Some(v) => exists|i: int|
                0 <= i < lru_entries(*old(c)).len() && #[trigger] lru_entries(*old(c))[i] == (k, v)
                    && lru_entries(*final(c)) == lru_entries(*old(c)).remove(i).push((k, v)),
            None => !has_key(lru_entries(*old(c)), k) && lru_entries(*final(c)) == lru_entries(*old(c)),
        },
{
    c.get(&k).copied()
}

/// Calls `LruCache::put` for a key that no entry has. Claims that the entry
/// becomes the most recently used and that, when the cache was full, the
/// least recently used entry left; nothing is returned for a new key.
#[verifier::external_body]
fn lru_put_new(c: &mut LruCache<u128, u64, RandomState>, k: u128, v: u64)
    requires
        !has_key(lru_entries(*old(c)), k),
        lru_entries(*old(c)).len() <= lru_capacity(*old(c)),
    ensures
        lru_capacity(*final(c)) == lru_capacity(*old(c)),
        lru_entries(*final(c)) == inserted(lru_entries(*old(c)), lru_capacity(*old(c)), k, v),
{
    c.put(k, v);
}

/// Calls `LruCache::pop_lru`. Claims that it removes and returns the least
/// recently used entry, or returns `None` from an empty cache.
#[verifier::external_body]
fn lru_pop_lru(c: &mut LruCache<u128, u64, RandomState>) -> (r: Option<(u128, u64)>)
    ensures
        lru_capacity(*final(c)) == lru_capacity(*old(c)),
        lru_entries(*old(c)).len() == 0 ==> r is None && lru_entries(*final(c)) == lru_entries(*old(c)),
        lru_entries(*old(c)).len() > 0 ==> r == Some(lru_entries(*old(c))[0])
            && lru_entries(*final(c)) == lru_entries(*old(c)).drop_first(),
{
    c.pop_lru()
}

/// Calls `LruCache::clear`. Claims that no entry is left.
#[verifier::external_body]
fn lru_clear(c: &mut LruCache<u128, u64, RandomState>)
    ensures
        lru_capacity(*final(c)) == lru_capacity(*old(c)),
        lru_entries(*final(c)) == Seq::<(u128, u64)>::empty(),
{
    c.clear()
}

/// Calls `LruCache::iter` and keeps each key. Claims that the keys come
/// most recently used first.
#[verifier::external_body]
fn lru_keys_recent_first(c: &LruCache<u128, u64, RandomState>) -> (keys: Vec<u128>)
    ensures
        keys@ == entry_keys(lru_entries(*c)).reverse(),
{
    c.iter().map(|(k, _)| *k).collect()
}

/// The name by which a tensor type is shown in messages.
pub open spec fn tensor_type_label(t: TensorDataType) -> Seq<char> {
    match t {
        TensorDataType::Float32 => "Float32"@,
        TensorDataType::Int8 => "Int8"@,
        TensorDataType::Int64 => "Int64"@,
    }
}

fn tensor_type_label_text(t: TensorDataType) -> (s: String)
    ensures
        s@ == tensor_type_label(t),
{
    match t {
        TensorDataType::Float32 => "Float32".to_owned(),
        TensorDataType::Int8 => "Int8".to_owned(),
        TensorDataType::Int64 => "Int64".to_owned(),
    }
}

/// A shape's dimensions as unsigned sizes (a negative dimension wraps around).
pub open spec fn usize_dims(shape: Seq<i64>) -> Seq<usize> {
    shape.map_values(|d: i64| d as usize)
}

/// The product of sizes.
pub open spec fn size_product(dims: Seq<usize>) -> nat
    decreases dims.len(),
{
    if dims.len() == 0 {
        1
    } else {
        size_product(dims.drop_last()) * (dims.last() as nat)
    }
}

/// Each running product of the sizes, taken from the first, fits in a `usize`.
pub open spec fn products_fit(dims: Seq<usize>) -> bool {
    forall|k: int| 0 <= k <= dims.len() ==> #[trigger] size_product(dims.subrange(0, k)) <= usize::MAX
}

/// The outcome of checking a decoded input against the shape a model
/// expects: the model's shape must be the tensor's, and the number of
/// elements must be the product of the model's shape.
pub open spec fn input_check(tensor_shape: Seq<i64>, expected: Seq<i64>, data_len: nat) -> Result<Seq<usize>, Seq<char>> {
    if usize_dims(tensor_shape) != usize_dims(expected) {
        Err("Shape mismatch: model expects "@ + list_text(usize_dims(expected)) + ", but tensor has "@
            + list_text(usize_dims(tensor_shape)))
    } else if data_len != size_product(usize_dims(expected)) {
        Err("Data size mismatch: expected "@ + decimal_of(size_product(usize_dims(expected))) + " elements for shape "@
            + list_text(usize_dims(expected)) + ", got "@ + decimal_of(data_len))
    } else {
        Ok(usize_dims(expected))
    }
}

fn to_usize_dims(shape: &[i64]) -> (dims: Vec<usize>)
    ensures
        dims@ == usize_dims(shape@),
{
    let mut dims: Vec<usize> = Vec::new();
    let mut i: usize = 0;
    while i < shape.len()
        invariant
            i <= shape@.len(),
            dims@ == usize_dims(shape@.subrange(0, i as int)),
        decreases shape@.len() - i,
    {
        proof {
            assert(shape@.subrange(0, i as int + 1) == shape@.subrange(0, i as int).push(shape@[i as int]));
        }
        dims.push(shape[i] as usize);
        i = i + 1;
    }
    proof {
        assert(shape@.subrange(0, shape@.len() as int) == shape@);
    }
    dims
}

fn dims_equal(a: &Vec<usize>, b: &Vec<usize>) -> (eq: bool)
    ensures
        eq == (a@ == b@),
{
    if a.len() != b.len() {
        return false;
    }
    let mut i: usize = 0;
    while i < a.len()
        invariant
            a@.len() == b@.len(),
            i <= a@.len(),
            forall|j: int| 0 <= j < i ==> a@[j] == b@[j],
        decreases a@.len() - i,
    {
        if a[i] != b[i] {
            return false;
        }
        i = i + 1;
    }
    proof {
        assert(a@ =~= b@);
    }
    true
}

fn dims_product(dims: &Vec<usize>) -> (p: usize)
    requires
        products_fit(dims@),
    ensures
        p == size_product(dims@),
{
    let mut p: usize = 1;
    let mut i: usize = 0;
    while i < dims.len()
        invariant
            i <= dims@.len(),
            products_fit(dims@),
            p == size_product(dims@.subrange(0, i as int)),
        decreases dims@.len() - i,
    {
        proof {
            let pre = dims@.subrange(0, i as int);
            let next = dims@.subrange(0, i as int + 1);
            assert(next.drop_last() == pre);
            assert(size_product(next) <= usize::MAX);
        }
        p = p * dims[i];
        i = i + 1;
    }
    proof {
        assert(dims@.subrange(0, dims@.len() as int) == dims@);
    }
    p
}

fn check_input(tensor_shape: &Vec<i64>, expected_shape: &[i64], data_len: usize) -> (r: Result<Vec<usize>, String>)
    requires
        usize_dims(tensor_shape@) == usize_dims(expected_shape@) ==> products_fit(usize_dims(expected_shape@)),
    ensures
        match r {
            Ok(d) => input_check(tensor_shape@, expected_shape@, data_len as nat) == Ok::<Seq<usize>, Seq<char>>(d@),
            Err(m) => input_check(tensor_shape@, expected_shape@, data_len as nat) == Err::<Seq<usize>, Seq<char>>(m@),
        },
{
    let expected = to_usize_dims(expected_shape);
    let actual = to_usize_dims(tensor_shape.as_slice());
    if !dims_equal(&expected, &actual) {
        let mut m = "Shape mismatch: model expects ".to_owned();
        m.append(usize_list_text(&expected).as_str());
        m.append(", but tensor has ");
        m.append(usize_list_text(&actual).as_str());
        proof { reveal_strlit("Shape mismatch: model expects "); reveal_strlit(", but tensor has "); }
        return Err(m);
    }
    let expected_len = dims_product(&expected);
    if data_len != expected_len {
        let mut m = "Data size mismatch: expected ".to_owned();
        m.append(u64_to_decimal(expected_len as u64).as_str());
        m.append(" elements for shape ");
        m.append(usize_list_text(&expected).as_str());
        m.append(", got ");
        m.append(u64_to_decimal(data_len as u64).as_str());
        return Err(m);
    }
    Ok(expected)
}

/// The decoding reaches the count of elements: the type is right, the data
/// decodes, and the shapes agree.
pub open spec fn input_reaches_count(t: Tensor, dtype: TensorDataType, expected: Seq<i64>) -> bool {
    t.dtype == dtype && tensor_bytes(t, dtype) is Ok && usize_dims(t.shape@) == usize_dims(expected)
}

/// What extracting `int8` input data gives: the elements and the model's
/// shape, or the message of the input error.
pub open spec fn extract_i8_outcome(t: Tensor, expected: Seq<i64>) -> Result<(Seq<i8>, Seq<usize>), Seq<char>> {
    if t.dtype != TensorDataType::Int8 {
        Err("Expected int8 tensor, got "@ + tensor_type_label(t.dtype))
    } else {
        match tensor_bytes(t, TensorDataType::Int8) {
            Err(e) => Err("Failed to decode tensor: "@ + tensor_decode_error_message(e)),
            Ok(b) => match input_check(t.shape@, expected, bytes_i8s(b).len()) {
                Err(m) => Err(m),
                Ok(d) => Ok((bytes_i8s(b), d)),
            },
        }
    }
}

/// What extracting `int64` input data gives, as for `int8`.
pub open spec fn extract_i64_outcome(t: Tensor, expected: Seq<i64>) -> Result<(Seq<i64>, Seq<usize>), Seq<char>> {
    if t.dtype != TensorDataType::Int64 {
        Err("Expected int64 tensor, got "@ + tensor_type_label(t.dtype))
    } else {
        match tensor_bytes(t, TensorDataType::Int64) {
            Err(e) => Err("Failed to decode tensor: "@ + tensor_decode_error_message(e)),
            Ok(b) => match input_check(t.shape@, expected, bytes_i64s(b).len()) {
                Err(m) => Err(m),
                Ok(d) => Ok((bytes_i64s(b), d)),
            },
        }
    }
}

/// Extracting input data, when it succeeds, gives the model's expected
/// shape as unsigned sizes, dimension by dimension and in the same order,
/// the tensor's own shape is that shape, the elements are those the tensor
/// decodes to, and their number is the product of the sizes.
pub proof fn lemma_extracted_dims_are_expected_shape(t: Tensor, expected: Seq<i64>)
    ensures
        extract_i8_outcome(t, expected) matches Ok((d, s)) ==> s.len() == expected.len()
            && (forall|i: int| 0 <= i < expected.len() ==> #[trigger] s[i] == expected[i] as usize)
            && t.shape@.len() == expected.len()
            && (forall|i: int| 0 <= i < expected.len() ==> #[trigger] (t.shape@[i] as usize) == expected[i] as usize)
            && d.len() == size_product(s)
            && (tensor_bytes(t, TensorDataType::Int8) matches Ok(b) && d == bytes_i8s(b)),
        extract_i64_outcome(t, expected) matches Ok((d, s)) ==> s.len() == expected.len()
            && (forall|i: int| 0 <= i < expected.len() ==> #[trigger] s[i] == expected[i] as usize)
            && t.shape@.len() == expected.len()
            && (forall|i: int| 0 <= i < expected.len() ==> #[trigger] (t.shape@[i] as usize) == expected[i] as usize)
            && d.len() == size_product(s)
            && (tensor_bytes(t, TensorDataType::Int64) matches Ok(b) && d == bytes_i64s(b)),
{
    if extract_i8_outcome(t, expected) is Ok || extract_i64_outcome(t, expected) is Ok {
        let a = usize_dims(t.shape@);
        let b = usize_dims(expected);
        assert(a == b);
        assert(a.len() == t.shape@.len() && b.len() == expected.len());
        assert forall|i: int| 0 <= i < expected.len() implies #[trigger] (t.shape@[i] as usize) == expected[i] as usize by {
            assert(a[i] == b[i]);
        }
    }
}

/// Takes the elements of an `int8` input tensor for a model input of the
/// given shape: the tensor must be of type `int8`, decode, have the model's
/// shape, and hold as many elements as that shape counts.
pub fn extract_i8_data(tensor: &Tensor, expected_shape: &[i64]) -> (r: Result<(Vec<i8>, Vec<usize>), CoreError>)
    requires
        input_reaches_count(*tensor, TensorDataType::Int8, expected_shape@) ==> products_fit(usize_dims(expected_shape@)),
    ensures
        match r {
            Ok((d, s)) => extract_i8_outcome(*tensor, expected_shape@) == Ok::<(Seq<i8>, Seq<usize>), Seq<char>>((d@, s@)),
            Err(e) => e matches CoreError::InvalidInput(m)
                && extract_i8_outcome(*tensor, expected_shape@) == Err::<(Seq<i8>, Seq<usize>), Seq<char>>(m@),
        },
{
    if tensor.dtype != TensorDataType::Int8 {
        let mut m = "Expected int8 tensor, got ".to_owned();
        m.append(tensor_type_label_text(tensor.dtype).as_str());
        proof { reveal_strlit("Expected int8 tensor, got "); }
        return Err(CoreError::InvalidInput(m));
    }
    match tensor.decode_i8() {
        Err(e) => {
            let mut m = "Failed to decode tensor: ".to_owned();
            m.append(e.to_string().as_str());
            Err(CoreError::InvalidInput(m))
        },
        Ok(data) => {
            match check_input(&tensor.shape, expected_shape, data.len()) {
                Err(m) => Err(CoreError::InvalidInput(m)),
                Ok(dims) => Ok((data, dims)),
            }
        },
    }
}

/// Takes the elements of an `int64` input tensor for a model input of the
/// given shape, under the same rules as for `int8`.
pub fn extract_i64_data(tensor: &Tensor, expected_shape: &[i64]) -> (r: Result<(Vec<i64>, Vec<usize>), CoreError>)
    requires
        input_reaches_count(*tensor, TensorDataType::Int64, expected_shape@) ==> products_fit(usize_dims(expected_shape@)),
    ensures
        match r {
            Ok((d, s)) => extract_i64_outcome(*tensor, expected_shape@) == Ok::<(Seq<i64>, Seq<usize>), Seq<char>>((d@, s@)),
            Err(e) => e matches CoreError::InvalidInput(m)
                && extract_i64_outcome(*tensor, expected_shape@) == Err::<(Seq<i64>, Seq<usize>), Seq<char>>(m@),
        },
{
    if tensor.dtype != TensorDataType::Int64 {
        let mut m = "Expected int64 tensor, got ".to_owned();
        m.append(tensor_type_label_text(tensor.dtype).as_str());
        proof { reveal_strlit("Expected int64 tensor, got "); }
        return Err(CoreError::InvalidInput(m));
    }
    match tensor.decode_i64() {
        Err(e) => {
            let mut m = "Failed to decode tensor: ".to_owned();
            m.append(e.to_string().as_str());
            Err(CoreError::InvalidInput(m))
        },
        Ok(data) => {
            match check_input(&tensor.shape, expected_shape, data.len()) {
                Err(m) => Err(CoreError::InvalidInput(m)),
                Ok(dims) => Ok((data, dims)),
            }
        },
    }
}

/// The capacity of a cache made for a configured size: a size of zero
/// gives the default of five.
pub open spec fn effective_capacity(cache_size: nat) -> nat {
    if cache_size == 0 { 5 } else { cache_size }
}

/// The abstract state of the session cache.
pub struct CacheView {
    /// Cached sessions by model id, least recently used first.
    pub entries: Seq<(u128, u64)>,
    /// How many sessions the cache holds at most.
    pub capacity: nat,
    /// Models whose session is being loaded.
    pub loading: Set<u128>,
}

/// The invariant of the session cache: each model is cached once, the cache
/// is never over capacity, and a model being loaded is not cached.
pub open spec fn cache_wf(v: CacheView) -> bool {
    &&& keys_distinct(v.entries)
    &&& v.entries.len() <= v.capacity
    &&& v.capacity > 0
    &&& forall|i: int| 0 <= i < v.entries.len() ==> !v.loading.contains(#[trigger] v.entries[i].0)
}

/// What a request for a model's session is to do next.
#[derive(Debug, Clone, Copy, PartialEq, Eq)]
pub enum SessionLookup {
    /// The session is cached under this handle; it is now the most recently used.
    Hit(u64),
    /// Another request is loading the model: wait and ask again.
    Wait,
    /// The request is to load the model; `evicted` is the model whose session
    /// left the cache to make room.
    Load { evicted: Option<u128> },
}

/// What a request to preload a model is to do next.
#[derive(Debug, Clone, Copy, PartialEq, Eq)]
pub enum PreloadDecision {
    /// The model is cached already.
    AlreadyCached,
    /// Another request is loading the model.
    AlreadyLoading,
    /// The request is to load the model; `evicted` as for a lookup.
    Load { evicted: Option<u128> },
}

/// The eviction that makes room for one more session.
pub open spec fn eviction(v: CacheView) -> Option<u128> {
    if v.entries.len() >= v.capacity && v.entries.len() > 0 {
        Some(v.entries[0].0)
    } else {
        None
    }
}

/// The entries once room is made for one more: the least recently used
/// entry leaves a full cache.
pub open spec fn room_made(v: CacheView) -> Seq<(u128, u64)> {
    if v.entries.len() >= v.capacity && v.entries.len() > 0 {
        v.entries.drop_first()
    } else {
        v.entries
    }
}

/// The cache with room made for a session that is about to be loaded.
pub open spec fn start_loading(v: CacheView, id: u128) -> CacheView {
    CacheView { entries: room_made(v), capacity: v.capacity, loading: v.loading.insert(id) }
}

/// The answer to a request for a model's session.
pub open spec fn lookup_outcome(v: CacheView, id: u128) -> SessionLookup {
    if has_key(v.entries, id) {
        SessionLookup::Hit(v.entries[key_index(v.entries, id)].1)
    } else if v.loading.contains(id) {
        SessionLookup::Wait
    } else {
        SessionLookup::Load { evicted: eviction(v) }
    }
}

/// The cache after a request for a model's session.
pub open spec fn after_lookup(v: CacheView, id: u128) -> CacheView {
    if has_key(v.entries, id) {
        CacheView { entries: touched(v.entries, id), ..v }
    } else if v.loading.contains(id) {
        v
    } else {
        start_loading(v, id)
    }
}

/// The answer to a request to preload a model.
pub open spec fn preload_outcome(v: CacheView, id: u128) -> PreloadDecision {
    if has_key(v.entries, id) {
        PreloadDecision::AlreadyCached
    } else if v.loading.contains(id) {
        PreloadDecision::AlreadyLoading
    } else {
        PreloadDecision::Load { evicted: eviction(v) }
    }
}

/// The cache after a request to preload a model.
pub open spec fn after_preload(v: CacheView, id: u128) -> CacheView {
    if has_key(v.entries, id) || v.loading.contains(id) {
        v
    } else {
        start_loading(v, id)
    }
}

/// The cache after a load ends, with the new session's handle when it succeeded.
pub open spec fn after_load(v: CacheView, id: u128, loaded: Option<u64>) -> CacheView {
    CacheView {
        entries: match loaded {
            Some(h) => inserted(v.entries, v.capacity, id, h),
            None => v.entries,
        },
        capacity: v.capacity,
        loading: v.loading.remove(id),
    }
}

/// The cache's size and capacity.
#[derive(Debug, Clone, Copy, PartialEq, Eq)]
pub struct CacheStatus {
    pub loaded_models: usize,
    pub max_size: usize,
}

/// How many inference requests may run at once and how many may start now.
#[derive(Debug, Clone, Copy, PartialEq, Eq)]
pub struct ConcurrencyStatus {
    pub available_permits: usize,
    pub total_permits: usize,
}

/// The engine's cache of loaded model sessions.
pub struct ModelCache {
    cache: LruCache<u128, u64, RandomState>,
    loading: HashSet<u128>,
}

impl View for ModelCache {
    type V = CacheView;

    closed spec fn view(&self) -> CacheView {
        CacheView {
            entries: lru_entries(self.cache),
            capacity: lru_capacity(self.cache),
            loading: self.loading@,
        }
    }
}

proof fn lemma_touched(s: Seq<(u128, u64)>, k: u128)
    requires
        keys_distinct(s),
        has_key(s, k),
    ensures
        keys_distinct(touched(s, k)),
        touched(s, k).len() == s.len(),
        has_key(touched(s, k), k),
        touched(s, k).last().0 == k,
        forall|j: int| 0 <= j < touched(s, k).len() ==> has_key(s, #[trigger] touched(s, k)[j].0),
        forall|x: u128| has_key(touched(s, k), x) <==> has_key(s, x),
{
    let i = key_index(s, k);
    let t = touched(s, k);
    assert(0 <= i < s.len() && s[i].0 == k);
    assert forall|a: int, b: int| 0 <= a < t.len() && 0 <= b < t.len() && a != b implies #[trigger] t[a].0 != #[trigger] t[b].0 by {
        let ia = if a == t.len() - 1 { i } else if a < i { a } else { a + 1 };
        let ib = if b == t.len() - 1 { i } else if b < i { b } else { b + 1 };
        assert(t[a] == s[ia]);
        assert(t[b] == s[ib]);
    }
    assert(t[t.len() - 1] == s[i]);
    assert forall|j: int| 0 <= j < t.len() implies has_key(s, #[trigger] t[j].0) by {
        let ij = if j == t.len() - 1 { i } else if j < i { j } else { j + 1 };
        assert(t[j] == s[ij]);
    }
    assert forall|x: u128| has_key(t, x) <==> has_key(s, x) by {
        if has_key(s, x) {
            let ix = choose|m: int| 0 <= m < s.len() && #[trigger] s[m].0 == x;
            let jx = if ix == i { t.len() - 1 } else if ix < i { ix } else { ix - 1 };
            assert(t[jx] == s[ix]);
        }
        if has_key(t, x) {
            let jx = choose|m: int| 0 <= m < t.len() && #[trigger] t[m].0 == x;
            let ix = if jx == t.len() - 1 { i } else if jx < i { jx } else { jx + 1 };
            assert(t[jx] == s[ix]);
        }
    }
}

proof fn lemma_start_loading(v: CacheView, id: u128)
    requires
        cache_wf(v),
        !has_key(v.entries, id),
    ensures
        cache_wf(start_loading(v, id)),
        start_loading(v, id).entries.len() < v.capacity,
        !has_key(start_loading(v, id).entries, id),
{
    let n = start_loading(v, id);
    if v.entries.len() >= v.capacity && v.entries.len() > 0 {
        assert forall|j: int| 0 <= j < n.entries.len() implies n.entries[j] == v.entries[j + 1] by {}
        assert forall|a: int, b: int| 0 <= a < n.entries.len() && 0 <= b < n.entries.len() && a != b
            implies #[trigger] n.entries[a].0 != #[trigger] n.entries[b].0 by {
            assert(n.entries[a] == v.entries[a + 1]);
            assert(n.entries[b] == v.entries[b + 1]);
        }
        assert forall|j: int| 0 <= j < n.entries.len() implies !n.loading.contains(#[trigger] n.entries[j].0) by {
            assert(n.entries[j] == v.entries[j + 1]);
            assert(v.entries[j + 1].0 != id);
        }
        if has_key(n.entries, id) {
            let j = choose|m: int| 0 <= m < n.entries.len() && #[trigger] n.entries[m].0 == id;
            assert(n.entries[j] == v.entries[j + 1]);
        }
    } else {
        assert forall|j: int| 0 <= j < n.entries.len() implies !n.loading.contains(#[trigger] n.entries[j].0) by {
            assert(v.entries[j].0 != id);
        }
    }
}

proof fn lemma_inserted(s: Seq<(u128, u64)>, capacity: nat, k: u128, h: u64)
    requires
        keys_distinct(s),
        s.len() <= capacity,
        capacity > 0,
        !has_key(s, k),
    ensures
        keys_distinct(inserted(s, capacity, k, h)),
        inserted(s, capacity, k, h).len() <= capacity,
        inserted(s, capacity, k, h).last() == (k, h),
        forall|j: int| 0 <= j < inserted(s, capacity, k, h).len() - 1
            ==> has_key(s, #[trigger] inserted(s, capacity, k, h)[j].0),
{
    let t = inserted(s, capacity, k, h);
    let base = if s.len() >= capacity && s.len() > 0 { s.drop_first() } else { s };
    let off: int = if s.len() >= capacity && s.len() > 0 { 1 } else { 0 };
    assert(t == base.push((k, h)));
    assert forall|j: int| 0 <= j < base.len() implies base[j] == s[j + off] by {}
    assert forall|a: int, b: int| 0 <= a < t.len() && 0 <= b < t.len() && a != b implies #[trigger] t[a].0 != #[trigger] t[b].0 by {
        if a < base.len() && b < base.len() {
            assert(t[a] == s[a + off]);
            assert(t[b] == s[b + off]);
        } else if a < base.len() {
            assert(t[a] == s[a + off]);
        } else if b < base.len() {
            assert(t[b] == s[b + off]);
        }
    }
    assert forall|j: int| 0 <= j < t.len() - 1 implies has_key(s, #[trigger] t[j].0) by {
        assert(t[j] == s[j + off]);
    }
}

/// Every operation of the cache keeps its invariant: each model is cached
/// once, the cache never holds more sessions than its capacity, and a model
/// being loaded is not cached.
pub proof fn lemma_cache_operations_keep_invariant(v: CacheView, id: u128, loaded: Option<u64>)
    requires
        cache_wf(v),
    ensures
        cache_wf(after_lookup(v, id)),
        cache_wf(after_preload(v, id)),
        v.loading.contains(id) ==> cache_wf(after_load(v, id, loaded)),
{
    if has_key(v.entries, id) {
        lemma_touched(v.entries, id);
        let n = after_lookup(v, id);
        assert forall|j: int| 0 <= j < n.entries.len() implies !n.loading.contains(#[trigger] n.entries[j].0) by {
            assert(has_key(v.entries, n.entries[j].0));
            let m = choose|m: int| 0 <= m < v.entries.len() && #[trigger] v.entries[m].0 == n.entries[j].0;
            assert(!v.loading.contains(v.entries[m].0));
        }
    } else if !v.loading.contains(id) {
        lemma_start_loading(v, id);
    }
    if v.loading.contains(id) {
        assert(!has_key(v.entries, id)) by {
            if has_key(v.entries, id) {
                let m = choose|m: int| 0 <= m < v.entries.len() && #[trigger] v.entries[m].0 == id;
                assert(!v.loading.contains(v.entries[m].0));
            }
        }
        let n = after_load(v, id, loaded);
        match loaded {
            Some(h) => {
                lemma_inserted(v.entries, v.capacity, id, h);
                assert forall|j: int| 0 <= j < n.entries.len() implies !n.loading.contains(#[trigger] n.entries[j].0) by {
                    if j == n.entries.len() - 1 {
                        assert(n.entries[j].0 == id);
                    } else {
                        assert(has_key(v.entries, n.entries[j].0));
                        let m = choose|m: int| 0 <= m < v.entries.len() && #[trigger] v.entries[m].0 == n.entries[j].0;
                        assert(!v.loading.contains(v.entries[m].0));
                    }
                }
            },
            None => {},
        }
    }
}

/// A session stored when its load succeeds is what the next request for the
/// model gets, and it is then the most recently used.
pub proof fn lemma_loaded_session_is_found(v: CacheView, id: u128, h: u64)
    requires
        cache_wf(v),
        v.loading.contains(id),
    ensures
        lookup_outcome(after_load(v, id, Some(h)), id) == SessionLookup::Hit(h),
        after_lookup(after_load(v, id, Some(h)), id).entries.last() == (id, h),
{
    lemma_cache_operations_keep_invariant(v, id, Some(h));
    let n = after_load(v, id, Some(h));
    assert(!has_key(v.entries, id)) by {
        if has_key(v.entries, id) {
            let m = choose|m: int| 0 <= m < v.entries.len() && #[trigger] v.entries[m].0 == id;
            assert(!v.loading.contains(v.entries[m].0));
        }
    }
    lemma_inserted(v.entries, v.capacity, id, h);
    let last = n.entries.len() - 1;
    assert(n.entries[last].0 == id);
    assert(has_key(n.entries, id));
    let k = key_index(n.entries, id);
    assert(k == last);
    lemma_touched(n.entries, id);
}

/// While a model is being loaded, every other request for it waits and
/// leaves the cache as it is; once the load fails, the next request loads it.
pub proof fn lemma_requests_wait_for_a_load(v: CacheView, id: u128)
    requires
        cache_wf(v),
        !has_key(v.entries, id),
        !v.loading.contains(id),
    ensures
        lookup_outcome(v, id) is Load,
        lookup_outcome(after_lookup(v, id), id) == SessionLookup::Wait,
        after_lookup(after_lookup(v, id), id) == after_lookup(v, id),
        preload_outcome(after_lookup(v, id), id) == PreloadDecision::AlreadyLoading,
        lookup_outcome(after_load(after_lookup(v, id), id, None), id) is Load,
{
    lemma_start_loading(v, id);
    let n = after_lookup(v, id);
    let m = after_load(n, id, None);
    assert(m.entries == n.entries);
    assert(!m.loading.contains(id));
}

/// Room is made by evicting the least recently used session, and only when
/// the cache is full.
pub proof fn lemma_eviction_is_least_recent(v: CacheView, id: u128)
    requires
        cache_wf(v),
        !has_key(v.entries, id),
        !v.loading.contains(id),
    ensures
        lookup_outcome(v, id) == (SessionLookup::Load {
            evicted: if v.entries.len() == v.capacity { Some(v.entries[0].0) } else { None },
        }),
        v.entries.len() == v.capacity ==> !has_key(after_lookup(v, id).entries, v.entries[0].0),
{
    lemma_start_loading(v, id);
    if v.entries.len() == v.capacity {
        let n = after_lookup(v, id);
        if has_key(n.entries, v.entries[0].0) {
            let j = choose|m: int| 0 <= m < n.entries.len() && #[trigger] n.entries[m].0 == v.entries[0].0;
            assert(n.entries[j] == v.entries[j + 1]);
        }
    }
}

impl ModelCache {
    /// A cache for the configured number of sessions; a size of zero gives
    /// the default of five.
    pub fn new(cache_size: usize) -> (c: ModelCache)
        ensures
            cache_wf(c@),
            c@.entries.len() == 0,
            c@.capacity == effective_capacity(cache_size as nat),
            c@.loading.is_empty(),
    {
        let capacity: usize = if cache_size == 0 { 5 } else { cache_size };
        ModelCache { cache: lru_new(capacity), loading: HashSet::new() }
    }

    /// Decides a request for a model's session: a cached session is used
    /// (and becomes the most recently used), a model being loaded is waited
    /// for, and otherwise the request loads the model, after the least
    /// recently used session leaves a full cache.
    pub fn lookup(&mut self, model_id: u128) -> (r: SessionLookup)
        requires
            cache_wf(old(self)@),
        ensures
            r == lookup_outcome(old(self)@, model_id),
            final(self)@ == after_lookup(old(self)@, model_id),
            cache_wf(final(self)@),
    {
        proof { lemma_cache_operations_keep_invariant(self@, model_id, None); }
        if lru_contains(&self.cache, model_id) {
            let got = lru_get(&mut self.cache, model_id);
            match got {
                Some(h) => {
                    proof {
                        let old_entries = old(self)@.entries;
                        let i = choose|i: int| 0 <= i < old_entries.len() && #[trigger] old_entries[i] == (model_id, h)
                            && lru_entries(self.cache) == old_entries.remove(i).push((model_id, h));
                        let k = key_index(old_entries, model_id);
                        assert(old_entries[i].0 == model_id);
                        assert(i == k);
                        assert(self@.entries == touched(old_entries, model_id));
                    }
                    SessionLookup::Hit(h)
                },
                None => {
                    proof { assert(false); }
                    SessionLookup::Wait
                },
            }
        } else if self.loading.contains(&model_id) {
            SessionLookup::Wait
        } else {
            let evicted = self.make_room();
            self.loading.insert(model_id);
            proof {
                assert(self@.loading == old(self)@.loading.insert(model_id));
                assert(self@ == start_loading(old(self)@, model_id));
            }
            SessionLookup::Load { evicted }
        }
    }

    /// Evicts the least recently used session when the cache is full.
    fn make_room(&mut self) -> (evicted: Option<u128>)
        requires
            cache_wf(old(self)@),
        ensures
            evicted == eviction(old(self)@),
            final(self)@.entries == room_made(old(self)@),
            final(self)@.capacity == old(self)@.capacity,
            final(self)@.loading == old(self)@.loading,
    {
        if lru_len(&self.cache) >= lru_cap(&self.cache) {
            match lru_pop_lru(&mut self.cache) {
                Some(entry) => Some(entry.0),
                None => None,
            }
        } else {
            None
        }
    }

    /// Decides a request to preload a model: nothing is done for a model that
    /// is cached or being loaded; otherwise room is made as for a lookup and
    /// the model is marked as being loaded.
    pub fn begin_preload(&mut self, model_id: u128) -> (r: PreloadDecision)
        requires
            cache_wf(old(self)@),
        ensures
            r == preload_outcome(old(self)@, model_id),
            final(self)@ == after_preload(old(self)@, model_id),
            cache_wf(final(self)@),
    {
        proof { lemma_cache_operations_keep_invariant(self@, model_id, None); }
        if lru_contains(&self.cache, model_id) {
            PreloadDecision::AlreadyCached
        } else if self.loading.contains(&model_id) {
            PreloadDecision::AlreadyLoading
        } else {
            let evicted = self.make_room();
            self.loading.insert(model_id);
            proof {
                assert(self@ == start_loading(old(self)@, model_id));
            }
            PreloadDecision::Load { evicted }
        }
    }

    /// Records the end of a load that this cache started: the model is no
    /// longer being loaded, and on success its session becomes the most
    /// recently used, the least recently used one leaving a full cache.
    pub fn finish_load(&mut self, model_id: u128, loaded: Option<u64>)
        requires
            cache_wf(old(self)@),
            old(self)@.loading.contains(model_id),
        ensures
            final(self)@ == after_load(old(self)@, model_id, loaded),
            cache_wf(final(self)@),
    {
        proof {
            lemma_cache_operations_keep_invariant(self@, model_id, loaded);
            let v = self@;
            assert(!has_key(v.entries, model_id)) by {
                if has_key(v.entries, model_id) {
                    let m = choose|m: int| 0 <= m < v.entries.len() && #[trigger] v.entries[m].0 == model_id;
                    assert(!v.loading.contains(v.entries[m].0));
                }
            }
        }
        self.loading.remove(&model_id);
        match loaded {
            Some(h) => lru_put_new(&mut self.cache, model_id, h),
            None => {},
        }
        proof {
            assert(self@.loading == old(self)@.loading.remove(model_id));
        }
    }

    /// Empties the cache and forgets every load in progress; returns the ids
    /// of the sessions that left, most recently used first.
    pub fn clear(&mut self) -> (evicted: Vec<u128>)
        requires
            cache_wf(old(self)@),
        ensures
            evicted@ == entry_keys(old(self)@.entries).reverse(),
            final(self)@.entries.len() == 0,
            final(self)@.loading.is_empty(),
            final(self)@.capacity == old(self)@.capacity,
            cache_wf(final(self)@),
    {
        let evicted = lru_keys_recent_first(&self.cache);
        lru_clear(&mut self.cache);
        self.loading.clear();
        evicted
    }

    /// How many sessions are cached and how many may be.
    pub fn status(&self) -> (s: CacheStatus)
        ensures
            s.loaded_models == self@.entries.len(),
            s.max_size == self@.capacity,
    {
        CacheStatus { loaded_models: lru_len(&self.cache), max_size: lru_cap(&self.cache) }
    }

    /// The ids of the cached models, most recently used first.
    pub fn cached_model_ids(&self) -> (ids: Vec<u128>)
        ensures
            ids@ == entry_keys(self@.entries).reverse(),
    {
        lru_keys_recent_first(&self.cache)
    }
}

} // verus!
