//! Tensors as they travel in requests and results: an element type, a shape,
//! and the elements' bytes in row-major order, Base64-encoded.
//!
//! Multi-byte elements are laid out little-endian, as on the platforms the
//! service runs on.
use vstd::prelude::*;
use crate::types::{TensorDataType, tensor_element_size};

verus! {

/// The Base64 text (standard alphabet, with padding) of a byte string.
pub uninterp spec fn base64_encoding(bytes: Seq<u8>) -> Seq<char>;

/// The bytes that a Base64 text (standard alphabet, canonical padding)
/// stands for, or `None` when the text is not valid Base64.
pub uninterp spec fn base64_decoding(text: Seq<char>) -> Option<Seq<u8>>;

/// Calls `base64::Engine::encode` with the standard engine.
/// Claims that the result is the encoding of `bytes`, and that decoding it
/// gives `bytes` back (the crate's round-trip property).
#[verifier::external_body]
fn base64_encode(bytes: &[u8]) -> (text: String)
    ensures
        text@ == base64_encoding(bytes@),
        base64_decoding(text@) == Some(bytes@),
{
    base64::Engine::encode(&base64::engine::general_purpose::STANDARD, bytes)
}

/// Calls `base64::Engine::decode` with the standard engine, mapping its
/// error to `None`. Claims that the result is the decoding of `text`.
#[verifier::external_body]
pub(crate) fn base64_decode(text: &str) -> (bytes: Option<Vec<u8>>)
    ensures
        match bytes {
            Some(b) => base64_decoding(text@) == Some(b@),
            None => base64_decoding(text@) is None,
        },
{
    base64::Engine::decode(&base64::engine::general_purpose::STANDARD, text).ok()
}

/// Why a tensor's elements could not be read.
#[derive(Debug, Clone, Copy, PartialEq, Eq, Structural)]
pub enum TensorDecodeError {
    InvalidBase64,
    SizeMismatch,
    TypeMismatch,
}

impl TensorDecodeError {
    /// The message of the error.
    pub fn to_string(&self) -> (s: String)
        ensures
            s@ == tensor_decode_error_message(*self),
    {
        match self {
            TensorDecodeError::InvalidBase64 => "Invalid base64 encoding".to_owned(),
            TensorDecodeError::SizeMismatch => "Data size does not match shape".to_owned(),
            TensorDecodeError::TypeMismatch => "Tensor type mismatch".to_owned(),
        }
    }
}

pub open spec fn tensor_decode_error_message(e: TensorDecodeError) -> Seq<char> {
    match e {
        TensorDecodeError::InvalidBase64 => "Invalid base64 encoding"@,
        TensorDecodeError::SizeMismatch => "Data size does not match shape"@,
        TensorDecodeError::TypeMismatch => "Tensor type mismatch"@,
    }
}

/// A tensor: element type, shape, and the Base64 text of its elements.
#[derive(Debug, Clone)]
pub struct Tensor {
    pub dtype: TensorDataType,
    pub shape: Vec<i64>,
    pub data: String,
}

/// A dimension as it counts towards the number of elements: dimensions that
/// are zero or negative (unknown) count as one.
pub open spec fn counted_dim(d: i64) -> int {
    if d > 0 {
        d as int
    } else {
        1
    }
}

/// The product of the positive dimensions of a shape.
pub open spec fn positive_product(shape: Seq<i64>) -> int
    decreases shape.len(),
{
    if shape.len() == 0 {
        1
    } else {
        positive_product(shape.drop_last()) * counted_dim(shape.last())
    }
}

/// Every dimension of the shape is at least one.
pub open spec fn dims_all_positive(shape: Seq<i64>) -> bool {
    forall|i: int| 0 <= i < shape.len() ==> shape[i] >= 1
}

/// The product of all dimensions of a shape.
pub open spec fn dims_product(shape: Seq<i64>) -> int
    decreases shape.len(),
{
    if shape.len() == 0 {
        1
    } else {
        dims_product(shape.drop_last()) * shape.last()
    }
}

/// The product of the positive dimensions is at least one.
pub proof fn lemma_positive_product_pos(shape: Seq<i64>)
    ensures
        positive_product(shape) >= 1,
    decreases shape.len(),
{
    if shape.len() > 0 {
        lemma_positive_product_pos(shape.drop_last());
        let p = positive_product(shape.drop_last());
        let d = counted_dim(shape.last());
        assert(p * d >= 1) by (nonlinear_arith)
            requires
                p >= 1,
                d >= 1,
        ;
    }
}

/// The product over a prefix never exceeds the product over the whole shape.
pub proof fn lemma_positive_product_prefix(shape: Seq<i64>, k: int)
    requires
        0 <= k <= shape.len(),
    ensures
        positive_product(shape.subrange(0, k)) <= positive_product(shape),
    decreases shape.len() - k,
{
    if k < shape.len() {
        lemma_positive_product_prefix(shape, k + 1);
        let pre = shape.subrange(0, k + 1);
        assert(pre.drop_last() =~= shape.subrange(0, k));
        lemma_positive_product_pos(shape.subrange(0, k));
        let p = positive_product(shape.subrange(0, k));
        let d = counted_dim(pre.last());
        assert(p <= p * d) by (nonlinear_arith)
            requires
                p >= 1,
                d >= 1,
        ;
    } else {
        assert(shape.subrange(0, k) =~= shape);
    }
}

/// When every dimension is positive, the two products agree.
pub proof fn lemma_products_agree(shape: Seq<i64>)
    requires
        dims_all_positive(shape),
    ensures
        dims_product(shape) == positive_product(shape),
    decreases shape.len(),
{
    if shape.len() > 0 {
        lemma_products_agree(shape.drop_last());
    }
}

/// The bytes of a tensor when it holds elements of type `dtype`: the type
/// must match, the text must be Base64, and there must be one element for
/// each position counted by the shape.
pub open spec fn tensor_bytes(t: Tensor, dtype: TensorDataType) -> Result<Seq<u8>, TensorDecodeError> {
    if t.dtype != dtype {
        Err(TensorDecodeError::TypeMismatch)
    } else {
        match base64_decoding(t.data@) {
            None => Err(TensorDecodeError::InvalidBase64),
            Some(b) => if b.len() != positive_product(t.shape@) * tensor_element_size(dtype) {
                Err(TensorDecodeError::SizeMismatch)
            } else {
                Ok(b)
            },
        }
    }
}

/// The bytes of a tensor viewed as a dense array of its own type: as
/// `tensor_bytes`, and every dimension must be at least one.
pub open spec fn tensor_array_bytes(t: Tensor) -> Result<Seq<u8>, TensorDecodeError> {
    match tensor_bytes(t, t.dtype) {
        Err(e) => Err(e),
        Ok(b) => if dims_all_positive(t.shape@) {
            Ok(b)
        } else {
            Err(TensorDecodeError::SizeMismatch)
        },
    }
}

/// The little-endian bytes of an `i64`.
pub open spec fn i64_le_bytes(x: i64) -> Seq<u8> {
    let u = x as u64;
    seq![
        (u & 0xff) as u8,
        ((u >> 8u64) & 0xff) as u8,
        ((u >> 16u64) & 0xff) as u8,
        ((u >> 24u64) & 0xff) as u8,
        ((u >> 32u64) & 0xff) as u8,
        ((u >> 40u64) & 0xff) as u8,
        ((u >> 48u64) & 0xff) as u8,
        ((u >> 56u64) & 0xff) as u8,
    ]
}

/// The `i64` whose little-endian bytes start at `off` in `b`.
pub open spec fn i64_from_le(b: Seq<u8>, off: int) -> i64 {
    (b[off] as u64 | (b[off + 1] as u64) << 8u64 | (b[off + 2] as u64) << 16u64 | (b[off + 3] as u64)
        << 24u64 | (b[off + 4] as u64) << 32u64 | (b[off + 5] as u64) << 40u64 | (b[off + 6] as u64)
        << 48u64 | (b[off + 7] as u64) << 56u64) as i64
}

/// The bytes of a sequence of `i8`, one byte each.
pub open spec fn i8s_bytes(v: Seq<i8>) -> Seq<u8> {
    v.map_values(|x: i8| x as u8)
}

/// The `i8` values of a byte string.
pub open spec fn bytes_i8s(b: Seq<u8>) -> Seq<i8> {
    b.map_values(|x: u8| x as i8)
}

/// The bytes of a sequence of `i64`, eight little-endian bytes each.
pub open spec fn i64s_bytes(v: Seq<i64>) -> Seq<u8>
    decreases v.len(),
{
    if v.len() == 0 {
        Seq::empty()
    } else {
        i64s_bytes(v.drop_last()) + i64_le_bytes(v.last())
    }
}

/// The `i64` values of a byte string whose length is a multiple of eight.
pub open spec fn bytes_i64s(b: Seq<u8>) -> Seq<i64> {
    Seq::new(b.len() / 8, |i: int| i64_from_le(b, 8 * i))
}

proof fn lemma_i64_le_round_trip(x: i64)
    ensures
        i64_from_le(i64_le_bytes(x), 0) == x,
{
    let u = x as u64;
    let b = i64_le_bytes(x);
    let b0 = (u & 0xff) as u8;
    let b1 = ((u >> 8u64) & 0xff) as u8;
    let b2 = ((u >> 16u64) & 0xff) as u8;
    let b3 = ((u >> 24u64) & 0xff) as u8;
    let b4 = ((u >> 32u64) & 0xff) as u8;
    let b5 = ((u >> 40u64) & 0xff) as u8;
    let b6 = ((u >> 48u64) & 0xff) as u8;
    let b7 = ((u >> 56u64) & 0xff) as u8;
    assert(b[0] == b0 && b[1] == b1 && b[2] == b2 && b[3] == b3);
    assert(b[4] == b4 && b[5] == b5 && b[6] == b6 && b[7] == b7);
    assert((b0 as u64 | (b1 as u64) << 8u64 | (b2 as u64) << 16u64 | (b3 as u64) << 24u64 | (
    b4 as u64) << 32u64 | (b5 as u64) << 40u64 | (b6 as u64) << 48u64 | (b7 as u64) << 56u64)
        == u) by (bit_vector)
        requires
            b0 == (u & 0xff) as u8,
            b1 == ((u >> 8u64) & 0xff) as u8,
            b2 == ((u >> 16u64) & 0xff) as u8,
            b3 == ((u >> 24u64) & 0xff) as u8,
            b4 == ((u >> 32u64) & 0xff) as u8,
            b5 == ((u >> 40u64) & 0xff) as u8,
            b6 == ((u >> 48u64) & 0xff) as u8,
            b7 == ((u >> 56u64) & 0xff) as u8,
    ;
    assert((u as i64) == x) by (bit_vector)
        requires
            u == x as u64,
    ;
}

proof fn lemma_i64s_bytes_len(v: Seq<i64>)
    ensures
        i64s_bytes(v).len() == 8 * v.len(),
    decreases v.len(),
{
    if v.len() > 0 {
        lemma_i64s_bytes_len(v.drop_last());
    }
}

proof fn lemma_i64s_bytes_index(v: Seq<i64>, i: int, k: int)
    requires
        0 <= i < v.len(),
        0 <= k < 8,
    ensures
        i64s_bytes(v)[8 * i + k] == i64_le_bytes(v[i])[k],
    decreases v.len(),
{
    lemma_i64s_bytes_len(v.drop_last());
    if i < v.len() - 1 {
        lemma_i64s_bytes_index(v.drop_last(), i, k);
    }
}

/// Reading back the bytes of a sequence of `i64` gives the sequence.
pub proof fn lemma_i64s_round_trip(v: Seq<i64>)
    ensures
        bytes_i64s(i64s_bytes(v)) == v,
{
    lemma_i64s_bytes_len(v);
    let b = i64s_bytes(v);
    assert forall|i: int| 0 <= i < v.len() implies #[trigger] bytes_i64s(b)[i] == v[i] by {
        assert forall|k: int| 0 <= k < 8 implies b[8 * i + k] == i64_le_bytes(v[i])[k] by {
            lemma_i64s_bytes_index(v, i, k);
        }
        lemma_i64_le_round_trip(v[i]);
        assert(b[8 * i] == i64_le_bytes(v[i])[0]);
        assert(b[8 * i + 1] == i64_le_bytes(v[i])[1]);
        assert(b[8 * i + 2] == i64_le_bytes(v[i])[2]);
        assert(b[8 * i + 3] == i64_le_bytes(v[i])[3]);
        assert(b[8 * i + 4] == i64_le_bytes(v[i])[4]);
        assert(b[8 * i + 5] == i64_le_bytes(v[i])[5]);
        assert(b[8 * i + 6] == i64_le_bytes(v[i])[6]);
        assert(b[8 * i + 7] == i64_le_bytes(v[i])[7]);
    }
    assert(bytes_i64s(b) =~= v);
}

/// Reading back the bytes of a sequence of `i8` gives the sequence.
pub proof fn lemma_i8s_round_trip(v: Seq<i8>)
    ensures
        bytes_i8s(i8s_bytes(v)) == v,
{
    assert forall|i: int| 0 <= i < v.len() implies #[trigger] bytes_i8s(i8s_bytes(v))[i] == v[i] by {
        let x = v[i];
        assert(((x as u8) as i8) == x) by (bit_vector);
    }
    assert(bytes_i8s(i8s_bytes(v)) =~= v);
}

/// Whether the positions counted by `shape`, times `elem` bytes each, come
/// to exactly `len` bytes.
fn counted_size_is(shape: &Vec<i64>, elem: usize, len: usize) -> (r: bool)
    requires
        elem >= 1,
    ensures
        r == (positive_product(shape@) * elem == len),
{
    if elem > len {
        proof {
            lemma_rest_not_smaller(shape@, 0, elem as int);
            assert(shape@.subrange(0, 0) =~= Seq::<i64>::empty());
        }
        return false;
    }
    let mut p: usize = elem;
    let mut i: usize = 0;
    assert(shape@.subrange(0, 0) =~= Seq::<i64>::empty());
    while i < shape.len()
        invariant
            i <= shape@.len(),
            elem >= 1,
            p as int == positive_product(shape@.subrange(0, i as int)) * elem,
            p <= len,
        decreases shape@.len() - i,
    {
        let ghost pre = shape@.subrange(0, i as int);
        let ghost next = shape@.subrange(0, i as int + 1);
        assert(next.drop_last() =~= pre);
        let d = shape[i];
        let c: usize = if d > 0 {
            if d as u64 > len as u64 {
                proof {
                    lemma_positive_product_pos(pre);
                    lemma_rest_not_smaller(shape@, i as int + 1, elem as int);
                    let pp = positive_product(pre);
                    assert(pp * d * elem > len) by (nonlinear_arith)
                        requires
                            pp >= 1,
                            elem >= 1,
                            d > len,
                    ;
                    assert(positive_product(next) == pp * d);
                    assert(pp * d * elem == positive_product(next) * elem) by (nonlinear_arith)
                        requires
                            positive_product(next) == pp * d,
                    ;
                }
                return false;
            }
            d as usize
        } else {
            1
        };
        if c > 1 && p > len / c {
            proof {
                let pp = positive_product(pre);
                lemma_positive_product_pos(pre);
                assert(p * c > len) by (nonlinear_arith)
                    requires
                        p > len / c,
                        c >= 1,
                ;
                assert(positive_product(next) == pp * c);
                assert(positive_product(next) * elem == p * c) by (nonlinear_arith)
                    requires
                        positive_product(next) == pp * c,
                        p == pp * elem,
                ;
                lemma_rest_not_smaller(shape@, i as int + 1, elem as int);
            }
            return false;
        }
        proof {
            let pp = positive_product(pre);
            assert(positive_product(next) == pp * c);
            assert(p * c <= len) by (nonlinear_arith)
                requires
                    c <= 1 || p <= len / c,
                    p <= len,
                    c >= 1,
            ;
            assert(positive_product(next) * elem == p * c) by (nonlinear_arith)
                requires
                    positive_product(next) == pp * c,
                    p == pp * elem,
            ;
        }
        p = p * c;
        i = i + 1;
    }
    assert(shape@.subrange(0, shape@.len() as int) =~= shape@);
    p == len
}

/// Multiplying in the rest of a shape never makes the count smaller.
proof fn lemma_rest_not_smaller(shape: Seq<i64>, k: int, elem: int)
    requires
        0 <= k <= shape.len(),
        elem >= 1,
    ensures
        positive_product(shape.subrange(0, k)) * elem <= positive_product(shape) * elem,
{
    lemma_positive_product_prefix(shape, k);
    let a = positive_product(shape.subrange(0, k));
    let b = positive_product(shape);
    assert(a * elem <= b * elem) by (nonlinear_arith)
        requires
            a <= b,
            elem >= 1,
    ;
}

/// The shape after removing the listed dimensions of size one, taking the
/// axes from the last listed to the first; an axis that is out of range, or
/// whose dimension is not one, is passed over.
pub open spec fn squeeze_shape(shape: Seq<i64>, axes: Seq<usize>) -> Seq<i64>
    decreases axes.len(),
{
    if axes.len() == 0 {
        shape
    } else {
        let a = axes.last() as int;
        let next = if a < shape.len() && shape[a] == 1 {
            shape.remove(a)
        } else {
            shape
        };
        squeeze_shape(next, axes.drop_last())
    }
}

/// The shape after inserting a dimension of size one at each listed axis,
/// in the order listed; an axis past the end of the shape is passed over.
pub open spec fn unsqueeze_shape(shape: Seq<i64>, axes: Seq<usize>) -> Seq<i64>
    decreases axes.len(),
{
    if axes.len() == 0 {
        shape
    } else {
        let a = axes[0] as int;
        let next = if a <= shape.len() {
            shape.insert(a, 1)
        } else {
            shape
        };
        unsqueeze_shape(next, axes.drop_first())
    }
}

/// Inserting a dimension of size one at an axis and then squeezing that
/// axis gives back the shape.
pub proof fn lemma_unsqueeze_then_squeeze(shape: Seq<i64>, axis: usize)
    requires
        axis <= shape.len(),
    ensures
        squeeze_shape(unsqueeze_shape(shape, seq![axis]), seq![axis]) == shape,
{
    reveal_with_fuel(unsqueeze_shape, 2);
    reveal_with_fuel(squeeze_shape, 2);
    let u = shape.insert(axis as int, 1);
    assert(seq![axis][0] == axis);
    assert(seq![axis].last() == axis);
    assert(seq![axis].drop_first() =~= Seq::<usize>::empty());
    assert(unsqueeze_shape(shape, seq![axis]) == u);
    assert(seq![axis].drop_last() =~= Seq::<usize>::empty());
    assert(u[axis as int] == 1);
    assert(u.remove(axis as int) =~= shape);
}

proof fn lemma_unsqueeze_push(shape: Seq<i64>, axes: Seq<usize>, a: usize)
    ensures
        unsqueeze_shape(shape, axes.push(a)) == (if a <= unsqueeze_shape(shape, axes).len() {
            unsqueeze_shape(shape, axes).insert(a as int, 1)
        } else {
            unsqueeze_shape(shape, axes)
        }),
    decreases axes.len(),
{
    if axes.len() == 0 {
        assert(axes.push(a).drop_first() =~= Seq::<usize>::empty());
        assert(axes.push(a)[0] == a);
        let next = if a <= shape.len() { shape.insert(a as int, 1) } else { shape };
        assert(unsqueeze_shape(next, Seq::<usize>::empty()) == next);
        assert(unsqueeze_shape(shape, axes.push(a)) == unsqueeze_shape(next, axes.push(a).drop_first()));
        assert(unsqueeze_shape(shape, axes) == shape);
    } else {
        let x = axes[0] as int;
        let next = if x <= shape.len() { shape.insert(x, 1) } else { shape };
        assert(axes.push(a).drop_first() =~= axes.drop_first().push(a));
        assert(axes.push(a)[0] == axes[0]);
        lemma_unsqueeze_push(next, axes.drop_first(), a);
        assert(unsqueeze_shape(shape, axes.push(a)) == unsqueeze_shape(next, axes.push(a).drop_first()));
        assert(unsqueeze_shape(shape, axes) == unsqueeze_shape(next, axes.drop_first()));
    }
}

proof fn lemma_unsqueeze_len(shape: Seq<i64>, axes: Seq<usize>)
    requires
        forall|i: int| 0 <= i < axes.len() ==> #[trigger] axes[i] <= shape.len() + i,
    ensures
        unsqueeze_shape(shape, axes).len() == shape.len() + axes.len(),
    decreases axes.len(),
{
    if axes.len() > 0 {
        let pre = axes.drop_last();
        assert forall|i: int| 0 <= i < pre.len() implies #[trigger] pre[i] <= shape.len() + i by {
            assert(pre[i] == axes[i]);
        }
        lemma_unsqueeze_len(shape, pre);
        assert(pre.push(axes.last()) =~= axes);
        lemma_unsqueeze_push(shape, pre, axes.last());
    }
}

/// Inserting dimensions of size one at each listed axis, each axis at most
/// the length the shape has reached when it is inserted, and then squeezing
/// the same axes gives back the shape.
pub proof fn lemma_unsqueeze_then_squeeze_axes(shape: Seq<i64>, axes: Seq<usize>)
    requires
        forall|i: int| 0 <= i < axes.len() ==> #[trigger] axes[i] <= shape.len() + i,
    ensures
        unsqueeze_shape(shape, axes).len() == shape.len() + axes.len(),
        squeeze_shape(unsqueeze_shape(shape, axes), axes) == shape,
    decreases axes.len(),
{
    lemma_unsqueeze_len(shape, axes);
    if axes.len() > 0 {
        let pre = axes.drop_last();
        let a = axes.last();
        assert forall|i: int| 0 <= i < pre.len() implies #[trigger] pre[i] <= shape.len() + i by {
            assert(pre[i] == axes[i]);
        }
        lemma_unsqueeze_then_squeeze_axes(shape, pre);
        assert(pre.push(a) =~= axes);
        lemma_unsqueeze_push(shape, pre, a);
        let u = unsqueeze_shape(shape, pre);
        let v = u.insert(a as int, 1);
        assert(v[a as int] == 1);
        assert(v.remove(a as int) =~= u);
    }
}

proof fn lemma_insert_one_product(shape: Seq<i64>, a: int)
    requires
        0 <= a <= shape.len(),
    ensures
        positive_product(shape.insert(a, 1)) == positive_product(shape),
        dims_all_positive(shape) ==> dims_all_positive(shape.insert(a, 1)),
    decreases shape.len(),
{
    let v = shape.insert(a, 1);
    if a == shape.len() {
        assert(v.drop_last() =~= shape);
        assert(v.last() == 1);
        assert(counted_dim(1) == 1);
        assert(positive_product(v) == positive_product(v.drop_last()) * counted_dim(v.last()));
    } else {
        assert(v.drop_last() =~= shape.drop_last().insert(a, 1));
        assert(v.last() == shape.last());
        lemma_insert_one_product(shape.drop_last(), a);
        assert(positive_product(v) == positive_product(v.drop_last()) * counted_dim(v.last()));
        assert(positive_product(shape) == positive_product(shape.drop_last()) * counted_dim(shape.last()));
    }
    if dims_all_positive(shape) {
        assert forall|i: int| 0 <= i < v.len() implies v[i] >= 1 by {
            if i < a {
                assert(v[i] == shape[i]);
            } else if i > a {
                assert(v[i] == shape[i - 1]);
            }
        }
    }
}

proof fn lemma_unsqueeze_product(shape: Seq<i64>, axes: Seq<usize>)
    requires
        forall|i: int| 0 <= i < axes.len() ==> #[trigger] axes[i] <= shape.len() + i,
    ensures
        positive_product(unsqueeze_shape(shape, axes)) == positive_product(shape),
        dims_all_positive(shape) ==> dims_all_positive(unsqueeze_shape(shape, axes)),
    decreases axes.len(),
{
    if axes.len() > 0 {
        let pre = axes.drop_last();
        let a = axes.last();
        assert forall|i: int| 0 <= i < pre.len() implies #[trigger] pre[i] <= shape.len() + i by {
            assert(pre[i] == axes[i]);
        }
        lemma_unsqueeze_product(shape, pre);
        lemma_unsqueeze_len(shape, pre);
        assert(pre.push(a) =~= axes);
        lemma_unsqueeze_push(shape, pre, a);
        lemma_insert_one_product(unsqueeze_shape(shape, pre), a as int);
    }
}

/// A tensor that unsqueezing another at valid axes gives reads again as an
/// array of the same bytes, and squeezing it at the same axes gives back the
/// first tensor's shape.
pub proof fn lemma_unsqueeze_tensor_back(t: Tensor, u: Tensor, axes: Seq<usize>)
    requires
        tensor_array_bytes(t) is Ok,
        forall|i: int| 0 <= i < axes.len() ==> #[trigger] axes[i] <= t.shape@.len() + i,
        u.dtype == t.dtype,
        u.shape@ == unsqueeze_shape(t.shape@, axes),
        base64_decoding(u.data@) == Some(tensor_array_bytes(t)->Ok_0),
    ensures
        tensor_array_bytes(u) == tensor_array_bytes(t),
        squeeze_shape(u.shape@, axes) == t.shape@,
{
    lemma_unsqueeze_product(t.shape@, axes);
    lemma_unsqueeze_then_squeeze_axes(t.shape@, axes);
}

/// A requested shape with unknown (negative) dimensions read as one.
pub open spec fn reshape_dims(shape: Seq<i64>) -> Seq<i64> {
    shape.map_values(|d: i64| if d < 0 { 1i64 } else { d })
}

/// The tensor that a shape change gives: the same type and elements under a
/// new shape.
proof fn lemma_dims_product_zero(shape: Seq<i64>, i: int)
    requires
        0 <= i < shape.len(),
        shape[i] == 0,
    ensures
        dims_product(shape) == 0,
    decreases shape.len(),
{
    if i < shape.len() - 1 {
        lemma_dims_product_zero(shape.drop_last(), i);
    }
}

/// `axes` lists each of the axes `0..n` exactly once.
pub open spec fn is_axis_permutation(axes: Seq<usize>, n: int) -> bool {
    &&& axes.len() == n
    &&& forall|k: int| 0 <= k < n ==> axes[k] < n
    &&& forall|k1: int, k2: int| 0 <= k1 < n && 0 <= k2 < n && k1 != k2 ==> axes[k1] != axes[k2]
}

/// The shape whose `k`-th dimension is dimension `axes[k]` of `shape`.
pub open spec fn permuted_dims(shape: Seq<i64>, axes: Seq<usize>) -> Seq<i64> {
    Seq::new(axes.len(), |k: int| shape[axes[k] as int])
}

/// For each axis `m`, the position at which `axes` lists it.
pub open spec fn inverse_axes(axes: Seq<usize>) -> Seq<int> {
    Seq::new(axes.len(), |m: int| choose|k: int| 0 <= k < axes.len() && axes[k] == m)
}

/// The row-major multi-index of flat position `f` in an array of `shape`.
pub open spec fn unravel(shape: Seq<i64>, f: int) -> Seq<int>
    decreases shape.len(),
{
    if shape.len() == 0 {
        Seq::empty()
    } else {
        unravel(shape.drop_last(), f / (shape.last() as int)).push(f % (shape.last() as int))
    }
}

/// The row-major flat position of multi-index `idx` in an array of `shape`.
pub open spec fn ravel(shape: Seq<i64>, idx: Seq<int>) -> int
    decreases shape.len(),
{
    if shape.len() == 0 {
        0
    } else {
        ravel(shape.drop_last(), idx.drop_last()) * (shape.last() as int) + idx.last()
    }
}

/// The flat position in the source array of the element that lands at flat
/// position `f` of the transposed array.
pub open spec fn transpose_source(shape: Seq<i64>, axes: Seq<usize>, f: int) -> int {
    let i = unravel(permuted_dims(shape, axes), f);
    let inv = inverse_axes(axes);
    ravel(shape, Seq::new(shape.len(), |m: int| i[inv[m]]))
}

/// The bytes of the first `count` elements of the transposed array, each
/// element `elem` bytes long.
pub open spec fn transposed_prefix(
    bytes: Seq<u8>,
    elem: int,
    shape: Seq<i64>,
    axes: Seq<usize>,
    count: int,
) -> Seq<u8>
    decreases count,
{
    if count <= 0 {
        Seq::empty()
    } else {
        let src = transpose_source(shape, axes, count - 1);
        transposed_prefix(bytes, elem, shape, axes, count - 1) + bytes.subrange(
            src * elem,
            src * elem + elem,
        )
    }
}

/// The bytes of the transposed array.
pub open spec fn transposed_bytes(bytes: Seq<u8>, elem: int, shape: Seq<i64>, axes: Seq<usize>) -> Seq<u8> {
    transposed_prefix(bytes, elem, shape, axes, dims_product(permuted_dims(shape, axes)))
}

proof fn lemma_permutation_onto(axes: Seq<usize>, n: int, m: int)
    requires
        is_axis_permutation(axes, n),
        0 <= m < n,
    ensures
        exists|k: int| 0 <= k < n && axes[k] == m,
{
    let a = axes.map_values(|x: usize| x as int);
    assert(a.no_duplicates()) by {
        assert forall|i: int, j: int| 0 <= i < a.len() && 0 <= j < a.len() && i != j implies a[i] != a[j] by {
            assert(axes[i] != axes[j]);
        }
    }
    a.unique_seq_to_set();
    vstd::set_lib::lemma_int_range(0, n);
    let r = vstd::set_lib::set_int_range(0, n);
    assert(a.to_set().subset_of(r)) by {
        assert forall|x: int| a.to_set().contains(x) implies r.contains(x) by {
            assert(a.contains(x));
            let k = choose|k: int| 0 <= k < a.len() && a[k] == x;
            assert(axes[k] < n);
        }
    }
    vstd::seq_lib::seq_to_set_is_finite(a);
    vstd::set_lib::lemma_subset_equality(a.to_set(), r);
    assert(r.contains(m));
    assert(a.to_set().contains(m));
    assert(a.contains(m));
    let k = choose|k: int| 0 <= k < a.len() && a[k] == m;
    assert(axes[k] == m);
}

proof fn lemma_inverse_axes(axes: Seq<usize>, n: int, m: int)
    requires
        is_axis_permutation(axes, n),
        0 <= m < n,
    ensures
        0 <= inverse_axes(axes)[m] < n,
        axes[inverse_axes(axes)[m]] == m,
{
    lemma_permutation_onto(axes, n, m);
}

proof fn lemma_dims_product_pos(shape: Seq<i64>)
    requires
        dims_all_positive(shape),
    ensures
        dims_product(shape) >= 1,
    decreases shape.len(),
{
    if shape.len() > 0 {
        lemma_dims_product_pos(shape.drop_last());
        let p = dims_product(shape.drop_last());
        let d = shape.last() as int;
        assert(p * d >= 1) by (nonlinear_arith)
            requires
                p >= 1,
                d >= 1,
        ;
    }
}

proof fn lemma_dims_product_remove(x: Seq<i64>, p: int)
    requires
        0 <= p < x.len(),
    ensures
        dims_product(x) == dims_product(x.remove(p)) * (x[p] as int),
    decreases x.len(),
{
    if p < x.len() - 1 {
        let y = x.drop_last();
        lemma_dims_product_remove(y, p);
        assert(x.remove(p).drop_last() =~= y.remove(p));
        assert(x.remove(p).last() == x.last());
        let a = dims_product(y.remove(p));
        let b = x[p] as int;
        let c = x.last() as int;
        assert(a * b * c == a * c * b) by (nonlinear_arith);
    } else {
        assert(x.remove(p) =~= x.drop_last());
    }
}

/// Permuting the dimensions does not change the number of elements.
pub proof fn lemma_permuted_product(shape: Seq<i64>, axes: Seq<usize>)
    requires
        is_axis_permutation(axes, shape.len() as int),
    ensures
        dims_product(permuted_dims(shape, axes)) == dims_product(shape),
    decreases shape.len(),
{
    let n = shape.len() as int;
    if n > 0 {
        let m = n - 1;
        lemma_permutation_onto(axes, n, m);
        let p = choose|k: int| 0 <= k < n && axes[k] == m;
        let axes2 = axes.remove(p);
        let shape2 = shape.drop_last();
        assert(is_axis_permutation(axes2, n - 1)) by {
            assert forall|k: int| 0 <= k < n - 1 implies axes2[k] < n - 1 by {
                let k0 = if k < p { k } else { k + 1 };
                assert(axes2[k] == axes[k0]);
                assert(k0 != p);
            }
            assert forall|k1: int, k2: int| 0 <= k1 < n - 1 && 0 <= k2 < n - 1 && k1 != k2 implies axes2[k1]
                != axes2[k2] by {
                let j1 = if k1 < p { k1 } else { k1 + 1 };
                let j2 = if k2 < p { k2 } else { k2 + 1 };
                assert(axes2[k1] == axes[j1]);
                assert(axes2[k2] == axes[j2]);
            }
        }
        lemma_permuted_product(shape2, axes2);
        let out = permuted_dims(shape, axes);
        lemma_dims_product_remove(out, p);
        assert(out.remove(p) =~= permuted_dims(shape2, axes2)) by {
            assert forall|k: int| 0 <= k < n - 1 implies out.remove(p)[k] == permuted_dims(shape2, axes2)[k] by {
                let k0 = if k < p { k } else { k + 1 };
                assert(axes2[k] == axes[k0]);
                assert(k0 != p);
                assert(axes[k0] != axes[p]);
            }
        }
    }
}

proof fn lemma_dim_at_most_product(shape: Seq<i64>, t: int)
    requires
        dims_all_positive(shape),
        0 <= t < shape.len(),
    ensures
        shape[t] <= dims_product(shape),
{
    lemma_dims_product_remove(shape, t);
    let rest = shape.remove(t);
    assert(dims_all_positive(rest)) by {
        assert forall|i: int| 0 <= i < rest.len() implies rest[i] >= 1 by {
            if i < t {
                assert(rest[i] == shape[i]);
            } else {
                assert(rest[i] == shape[i + 1]);
            }
        }
    }
    lemma_dims_product_pos(rest);
    let p = dims_product(rest);
    let d = shape[t] as int;
    assert(d <= p * d) by (nonlinear_arith)
        requires
            p >= 1,
            d >= 1,
    ;
}

proof fn lemma_unravel_len(shape: Seq<i64>, f: int)
    ensures
        unravel(shape, f).len() == shape.len(),
    decreases shape.len(),
{
    if shape.len() > 0 {
        lemma_unravel_len(shape.drop_last(), f / (shape.last() as int));
    }
}

proof fn lemma_unravel_bounds(shape: Seq<i64>, f: int)
    requires
        dims_all_positive(shape),
        0 <= f < dims_product(shape),
    ensures
        unravel(shape, f).len() == shape.len(),
        forall|t: int| 0 <= t < shape.len() ==> 0 <= #[trigger] unravel(shape, f)[t] < shape[t],
    decreases shape.len(),
{
    lemma_unravel_len(shape, f);
    if shape.len() > 0 {
        let pre = shape.drop_last();
        let d = shape.last() as int;
        let p = dims_product(pre);
        assert(0 <= f / d < p) by (nonlinear_arith)
            requires
                0 <= f < p * d,
                d >= 1,
        ;
        lemma_unravel_bounds(pre, f / d);
        assert(0 <= f % d < d) by (nonlinear_arith)
            requires
                d >= 1,
        ;
    }
}

proof fn lemma_ravel_bound(shape: Seq<i64>, idx: Seq<int>)
    requires
        dims_all_positive(shape),
        idx.len() == shape.len(),
        forall|t: int| 0 <= t < shape.len() ==> 0 <= #[trigger] idx[t] < shape[t],
    ensures
        0 <= ravel(shape, idx) < dims_product(shape),
    decreases shape.len(),
{
    if shape.len() > 0 {
        let pre = shape.drop_last();
        lemma_ravel_bound(pre, idx.drop_last());
        let r = ravel(pre, idx.drop_last());
        let p = dims_product(pre);
        let d = shape.last() as int;
        let x = idx.last();
        assert(0 <= r * d + x < p * d) by (nonlinear_arith)
            requires
                0 <= r < p,
                0 <= x < d,
        ;
    }
}

proof fn lemma_dims_product_prefix(shape: Seq<i64>, k: int)
    requires
        dims_all_positive(shape),
        0 <= k <= shape.len(),
    ensures
        dims_product(shape.subrange(0, k)) <= dims_product(shape),
{
    lemma_products_agree(shape);
    lemma_products_agree(shape.subrange(0, k));
    lemma_positive_product_prefix(shape, k);
}

proof fn lemma_ravel_unravel(shape: Seq<i64>, f: int)
    requires
        dims_all_positive(shape),
        0 <= f < dims_product(shape),
    ensures
        ravel(shape, unravel(shape, f)) == f,
    decreases shape.len(),
{
    if shape.len() > 0 {
        let pre = shape.drop_last();
        let d = shape.last() as int;
        let p = dims_product(pre);
        assert(0 <= f / d < p) by (nonlinear_arith)
            requires
                0 <= f < p * d,
                d >= 1,
        ;
        lemma_ravel_unravel(pre, f / d);
        let u = unravel(shape, f);
        assert(u == unravel(pre, f / d).push(f % d));
        assert(u.drop_last() =~= unravel(pre, f / d));
        assert(u.last() == f % d);
        vstd::arithmetic::div_mod::lemma_fundamental_div_mod(f, d);
        assert((f / d) * d == d * (f / d)) by (nonlinear_arith);
    }
}

proof fn lemma_unravel_ravel(shape: Seq<i64>, idx: Seq<int>)
    requires
        dims_all_positive(shape),
        idx.len() == shape.len(),
        forall|t: int| 0 <= t < shape.len() ==> 0 <= #[trigger] idx[t] < shape[t],
    ensures
        unravel(shape, ravel(shape, idx)) == idx,
    decreases shape.len(),
{
    if shape.len() == 0 {
        assert(idx =~= Seq::<int>::empty());
    } else {
        let pre = shape.drop_last();
        let d = shape.last() as int;
        let rest = idx.drop_last();
        let r = ravel(pre, rest);
        let x = idx.last();
        assert(forall|t: int| 0 <= t < pre.len() ==> 0 <= #[trigger] rest[t] < pre[t]) by {
            assert forall|t: int| 0 <= t < pre.len() implies 0 <= #[trigger] rest[t] < pre[t] by {
                assert(rest[t] == idx[t]);
            }
        }
        lemma_unravel_ravel(pre, rest);
        assert(0 <= x < d);
        vstd::arithmetic::div_mod::lemma_fundamental_div_mod_converse(r * d + x, d, r, x);
        assert(ravel(shape, idx) == r * d + x);
        assert(unravel(shape, r * d + x) == unravel(pre, r).push(x));
        assert(unravel(shape, ravel(shape, idx)) =~= idx);
    }
}

proof fn lemma_transpose_source_bounds(shape: Seq<i64>, axes: Seq<usize>, f: int)
    requires
        dims_all_positive(shape),
        is_axis_permutation(axes, shape.len() as int),
        0 <= f < dims_product(permuted_dims(shape, axes)),
    ensures
        0 <= transpose_source(shape, axes, f) < dims_product(shape),
{
    let n = shape.len() as int;
    let out = permuted_dims(shape, axes);
    assert(dims_all_positive(out)) by {
        assert forall|k: int| 0 <= k < n implies out[k] >= 1 by {
            assert(axes[k] < n);
        }
    }
    lemma_unravel_bounds(out, f);
    let i = unravel(out, f);
    let inv = inverse_axes(axes);
    let idx = Seq::new(shape.len(), |m: int| i[inv[m]]);
    assert forall|m: int| 0 <= m < n implies 0 <= #[trigger] idx[m] < shape[m] by {
        lemma_inverse_axes(axes, n, m);
        let q = inv[m];
        assert(out[q] == shape[axes[q] as int]);
    }
    lemma_ravel_bound(shape, idx);
}

proof fn lemma_transposed_prefix_byte(bytes: Seq<u8>, e: int, shape: Seq<i64>, axes: Seq<usize>, count: int, p: int)
    requires
        e >= 1,
        count >= 0,
        forall|g: int| 0 <= g < count ==> 0 <= #[trigger] transpose_source(shape, axes, g)
            && transpose_source(shape, axes, g) * e + e <= bytes.len(),
    ensures
        transposed_prefix(bytes, e, shape, axes, count).len() == count * e,
        0 <= p < count * e ==> transposed_prefix(bytes, e, shape, axes, count)[p]
            == bytes[transpose_source(shape, axes, p / e) * e + p % e],
    decreases count,
{
    if count > 0 {
        lemma_transposed_prefix_byte(bytes, e, shape, axes, count - 1, p);
        let prev = transposed_prefix(bytes, e, shape, axes, count - 1);
        let src = transpose_source(shape, axes, count - 1);
        assert(0 <= src && src * e + e <= bytes.len());
        let chunk = bytes.subrange(src * e, src * e + e);
        assert(transposed_prefix(bytes, e, shape, axes, count) == prev + chunk);
        assert((count - 1) * e + e == count * e) by (nonlinear_arith);
        if 0 <= p < count * e && p >= (count - 1) * e {
            let r = p - (count - 1) * e;
            vstd::arithmetic::div_mod::lemma_fundamental_div_mod_converse(p, e, count - 1, r);
        }
    } else {
        assert(0 * e == 0) by (nonlinear_arith);
    }
}

proof fn lemma_transpose_sources_compose(shape: Seq<i64>, axes: Seq<usize>, back: Seq<usize>, f: int)
    requires
        dims_all_positive(shape),
        is_axis_permutation(axes, shape.len() as int),
        is_axis_permutation(back, shape.len() as int),
        forall|m: int| 0 <= m < shape.len() ==> axes[#[trigger] back[m] as int] == m,
        0 <= f < dims_product(shape),
    ensures
        permuted_dims(permuted_dims(shape, axes), back) == shape,
        transpose_source(shape, axes, transpose_source(permuted_dims(shape, axes), back, f)) == f,
{
    let n = shape.len() as int;
    let s1 = permuted_dims(shape, axes);
    assert(permuted_dims(s1, back) =~= shape) by {
        assert forall|m: int| 0 <= m < n implies permuted_dims(s1, back)[m] == shape[m] by {
            assert(back[m] < n);
            assert(axes[back[m] as int] == m);
        }
    }
    assert(dims_all_positive(s1)) by {
        assert forall|k: int| 0 <= k < n implies s1[k] >= 1 by {
            assert(axes[k] < n);
        }
    }
    // `back` undoes `axes` in the other order too.
    assert forall|m: int| 0 <= m < n implies #[trigger] back[axes[m] as int] == m by {
        let k = axes[m] as int;
        assert(axes[back[k] as int] == k);
        assert(back[k] < n);
        if back[k] != m {
            assert(axes[back[k] as int] != axes[m]);
        }
    }
    let i = unravel(shape, f);
    lemma_unravel_bounds(shape, f);
    let invb = inverse_axes(back);
    assert forall|m: int| 0 <= m < n implies #[trigger] invb[m] == axes[m] as int by {
        lemma_inverse_axes(back, n, m);
        let q = invb[m];
        assert(back[q] == m);
        assert(back[axes[m] as int] == m);
        assert(axes[m] < n);
        if q != axes[m] as int {
            assert(back[q] != back[axes[m] as int]);
        }
    }
    let j = Seq::new(shape.len(), |m: int| i[invb[m]]);
    assert(j =~= Seq::new(shape.len(), |m: int| i[axes[m] as int]));
    assert forall|m: int| 0 <= m < n implies 0 <= #[trigger] j[m] < s1[m] by {
        assert(j[m] == i[axes[m] as int]);
        assert(axes[m] < n);
    }
    let src2 = transpose_source(s1, back, f);
    assert(src2 == ravel(s1, j));
    lemma_unravel_ravel(s1, j);
    let inva = inverse_axes(axes);
    let idx2 = Seq::new(shape.len(), |m: int| unravel(s1, src2)[inva[m]]);
    assert(idx2 =~= i) by {
        assert forall|m: int| 0 <= m < n implies idx2[m] == i[m] by {
            lemma_inverse_axes(axes, n, m);
            let q = inva[m];
            assert(j[q] == i[axes[q] as int]);
        }
    }
    lemma_ravel_unravel(shape, f);
}

/// Transposing by some axes and then by their inverse gives back the shape
/// and the bytes of the elements.
pub proof fn lemma_transpose_back_restores(bytes: Seq<u8>, e: int, shape: Seq<i64>, axes: Seq<usize>, back: Seq<usize>)
    requires
        e >= 1,
        dims_all_positive(shape),
        bytes.len() == dims_product(shape) * e,
        is_axis_permutation(axes, shape.len() as int),
        is_axis_permutation(back, shape.len() as int),
        forall|m: int| 0 <= m < shape.len() ==> axes[#[trigger] back[m] as int] == m,
    ensures
        permuted_dims(permuted_dims(shape, axes), back) == shape,
        transposed_bytes(bytes, e, shape, axes).len() == bytes.len(),
        transposed_bytes(transposed_bytes(bytes, e, shape, axes), e, permuted_dims(shape, axes), back) == bytes,
{
    let n = shape.len() as int;
    let s1 = permuted_dims(shape, axes);
    let count = dims_product(shape);
    lemma_dims_product_pos(shape);
    lemma_transpose_sources_compose(shape, axes, back, 0int);
    lemma_permuted_product(shape, axes);
    assert(dims_all_positive(s1)) by {
        assert forall|k: int| 0 <= k < n implies s1[k] >= 1 by {
            assert(axes[k] < n);
        }
    }
    assert(dims_product(s1) == count);
    assert(permuted_dims(s1, back) == shape);
    assert forall|g: int| 0 <= g < count implies 0 <= #[trigger] transpose_source(shape, axes, g)
        && transpose_source(shape, axes, g) * e + e <= bytes.len() by {
        lemma_transpose_source_bounds(shape, axes, g);
        let x = transpose_source(shape, axes, g);
        assert(x * e + e <= count * e) by (nonlinear_arith)
            requires
                0 <= x < count,
                e >= 1,
        ;
    }
    let t1 = transposed_bytes(bytes, e, shape, axes);
    lemma_transposed_prefix_byte(bytes, e, shape, axes, count, 0);
    assert(t1.len() == count * e);
    assert forall|g: int| 0 <= g < count implies 0 <= #[trigger] transpose_source(s1, back, g)
        && transpose_source(s1, back, g) * e + e <= t1.len() by {
        lemma_transpose_source_bounds(s1, back, g);
        let x = transpose_source(s1, back, g);
        assert(x * e + e <= count * e) by (nonlinear_arith)
            requires
                0 <= x < count,
                e >= 1,
        ;
    }
    let t2 = transposed_bytes(t1, e, s1, back);
    lemma_transposed_prefix_byte(t1, e, s1, back, count, 0);
    assert(t2.len() == count * e);
    assert forall|p: int| 0 <= p < t2.len() implies t2[p] == bytes[p] by {
        lemma_transposed_prefix_byte(t1, e, s1, back, count, p);
        let f = p / e;
        let r = p % e;
        vstd::arithmetic::div_mod::lemma_fundamental_div_mod(p, e);
        assert(0 <= r < e) by {
            vstd::arithmetic::div_mod::lemma_mod_bound(p, e);
        }
        assert(0 <= f < count) by (nonlinear_arith)
            requires
                0 <= p < count * e,
                p == e * f + r,
                0 <= r < e,
                e >= 1,
        ;
        lemma_transpose_source_bounds(s1, back, f);
        let g = transpose_source(s1, back, f);
        let q = g * e + r;
        assert(t2[p] == t1[q]);
        vstd::arithmetic::div_mod::lemma_fundamental_div_mod_converse(q, e, g, r);
        assert(0 <= q < count * e) by (nonlinear_arith)
            requires
                0 <= g < count,
                0 <= r < e,
                q == g * e + r,
        ;
        lemma_transposed_prefix_byte(bytes, e, shape, axes, count, q);
        lemma_transpose_sources_compose(shape, axes, back, f);
        assert(transpose_source(shape, axes, g) == f);
        assert(f * e + r == p) by (nonlinear_arith)
            requires
                p == e * f + r,
        ;
    }
    assert(t2 =~= bytes);
}

/// A tensor that transposing another by `axes` gives reads again as an
/// array, of the transposed bytes; transposing it by the inverse axes is
/// allowed and gives back the first tensor's shape and bytes.
pub proof fn lemma_transpose_tensor_back(t: Tensor, r: Tensor, axes: Seq<usize>, back: Seq<usize>)
    requires
        tensor_array_bytes(t) is Ok,
        is_axis_permutation(axes, t.shape@.len() as int),
        is_axis_permutation(back, t.shape@.len() as int),
        forall|m: int| 0 <= m < t.shape@.len() ==> axes[#[trigger] back[m] as int] == m,
        r.dtype == t.dtype,
        r.shape@ == permuted_dims(t.shape@, axes),
        base64_decoding(r.data@) == Some(
            transposed_bytes(tensor_array_bytes(t)->Ok_0, tensor_element_size(t.dtype) as int, t.shape@, axes),
        ),
    ensures
        tensor_array_bytes(r) == Ok::<Seq<u8>, TensorDecodeError>(
            transposed_bytes(tensor_array_bytes(t)->Ok_0, tensor_element_size(t.dtype) as int, t.shape@, axes),
        ),
        is_axis_permutation(back, r.shape@.len() as int),
        permuted_dims(r.shape@, back) == t.shape@,
        transposed_bytes(
            transposed_bytes(tensor_array_bytes(t)->Ok_0, tensor_element_size(t.dtype) as int, t.shape@, axes),
            tensor_element_size(t.dtype) as int,
            r.shape@,
            back,
        ) == tensor_array_bytes(t)->Ok_0,
{
    let b = tensor_array_bytes(t)->Ok_0;
    let e = tensor_element_size(t.dtype) as int;
    let n = t.shape@.len() as int;
    lemma_products_agree(t.shape@);
    lemma_transpose_back_restores(b, e, t.shape@, axes, back);
    lemma_permuted_product(t.shape@, axes);
    assert(dims_all_positive(r.shape@)) by {
        assert forall|k: int| 0 <= k < n implies r.shape@[k] >= 1 by {
            assert(axes[k] < n);
        }
    }
    lemma_products_agree(r.shape@);
}

/// Whether every dimension of the shape is at least one.
fn all_positive(shape: &Vec<i64>) -> (r: bool)
    ensures
        r == dims_all_positive(shape@),
{
    let mut i: usize = 0;
    while i < shape.len()
        invariant
            i <= shape@.len(),
            forall|j: int| 0 <= j < i ==> shape@[j] >= 1,
        decreases shape@.len() - i,
    {
        if shape[i] < 1 {
            return false;
        }
        i = i + 1;
    }
    true
}

impl Tensor {
    /// A tensor of the given type and shape over raw element bytes.
    pub fn from_bytes(dtype: TensorDataType, shape: Vec<i64>, bytes: &[u8]) -> (t: Tensor)
        ensures
            t.dtype == dtype,
            t.shape@ == shape@,
            t.data@ == base64_encoding(bytes@),
            base64_decoding(t.data@) == Some(bytes@),
    {
        Tensor { dtype, shape, data: base64_encode(bytes) }
    }

    /// An `int8` tensor over the given values.
    pub fn new_i8(shape: Vec<i64>, data: &[i8]) -> (t: Tensor)
        ensures
            t.dtype == TensorDataType::Int8,
            t.shape@ == shape@,
            t.data@ == base64_encoding(i8s_bytes(data@)),
            base64_decoding(t.data@) == Some(i8s_bytes(data@)),
            data@.len() == positive_product(shape@) ==> tensor_bytes(t, TensorDataType::Int8)
                == Ok::<Seq<u8>, TensorDecodeError>(i8s_bytes(data@)) && bytes_i8s(i8s_bytes(data@))
                == data@,
    {
        proof {
            lemma_i8s_round_trip(data@);
        }
        let mut bytes: Vec<u8> = Vec::new();
        let mut i: usize = 0;
        while i < data.len()
            invariant
                i <= data@.len(),
                bytes@ == i8s_bytes(data@.subrange(0, i as int)),
            decreases data@.len() - i,
        {
            bytes.push(data[i] as u8);
            i = i + 1;
            assert(bytes@ =~= i8s_bytes(data@.subrange(0, i as int)));
        }
        assert(data@.subrange(0, data@.len() as int) =~= data@);
        Tensor::from_bytes(TensorDataType::Int8, shape, bytes.as_slice())
    }

    /// An `int64` tensor over the given values.
    pub fn new_i64(shape: Vec<i64>, data: &[i64]) -> (t: Tensor)
        ensures
            t.dtype == TensorDataType::Int64,
            t.shape@ == shape@,
            t.data@ == base64_encoding(i64s_bytes(data@)),
            base64_decoding(t.data@) == Some(i64s_bytes(data@)),
            data@.len() == positive_product(shape@) ==> tensor_bytes(t, TensorDataType::Int64)
                == Ok::<Seq<u8>, TensorDecodeError>(i64s_bytes(data@)) && bytes_i64s(
                i64s_bytes(data@),
            ) == data@,
    {
        proof {
            lemma_i64s_round_trip(data@);
            lemma_i64s_bytes_len(data@);
        }
        let mut bytes: Vec<u8> = Vec::new();
        let mut i: usize = 0;
        while i < data.len()
            invariant
                i <= data@.len(),
                bytes@ == i64s_bytes(data@.subrange(0, i as int)),
            decreases data@.len() - i,
        {
            let u = data[i] as u64;
            bytes.push((u & 0xff) as u8);
            bytes.push(((u >> 8u64) & 0xff) as u8);
            bytes.push(((u >> 16u64) & 0xff) as u8);
            bytes.push(((u >> 24u64) & 0xff) as u8);
            bytes.push(((u >> 32u64) & 0xff) as u8);
            bytes.push(((u >> 40u64) & 0xff) as u8);
            bytes.push(((u >> 48u64) & 0xff) as u8);
            bytes.push(((u >> 56u64) & 0xff) as u8);
            let ghost next = data@.subrange(0, i as int + 1);
            assert(next.drop_last() =~= data@.subrange(0, i as int));
            i = i + 1;
            assert(bytes@ =~= i64s_bytes(data@.subrange(0, i as int)));
        }
        assert(data@.subrange(0, data@.len() as int) =~= data@);
        Tensor::from_bytes(TensorDataType::Int64, shape, bytes.as_slice())
    }

    /// The element bytes, provided the tensor holds elements of `dtype`.
    pub fn raw_bytes(&self, dtype: TensorDataType) -> (r: Result<Vec<u8>, TensorDecodeError>)
        ensures
            match r {
                Ok(b) => tensor_bytes(*self, dtype) == Ok::<Seq<u8>, TensorDecodeError>(b@),
                Err(e) => tensor_bytes(*self, dtype) == Err::<Seq<u8>, TensorDecodeError>(e),
            },
    {
        if self.dtype != dtype {
            return Err(TensorDecodeError::TypeMismatch);
        }
        let bytes = match base64_decode(self.data.as_str()) {
            Some(b) => b,
            None => return Err(TensorDecodeError::InvalidBase64),
        };
        if !counted_size_is(&self.shape, dtype.element_size(), bytes.len()) {
            return Err(TensorDecodeError::SizeMismatch);
        }
        Ok(bytes)
    }

    /// The element bytes of the tensor read as a dense array of its own type.
    fn array_bytes(&self) -> (r: Result<Vec<u8>, TensorDecodeError>)
        ensures
            match r {
                Ok(b) => tensor_array_bytes(*self) == Ok::<Seq<u8>, TensorDecodeError>(b@),
                Err(e) => tensor_array_bytes(*self) == Err::<Seq<u8>, TensorDecodeError>(e),
            },
    {
        let bytes = self.raw_bytes(self.dtype)?;
        if !all_positive(&self.shape) {
            return Err(TensorDecodeError::SizeMismatch);
        }
        Ok(bytes)
    }

    /// The values of an `int8` tensor.
    pub fn decode_i8(&self) -> (r: Result<Vec<i8>, TensorDecodeError>)
        ensures
            match r {
                Ok(v) => tensor_bytes(*self, TensorDataType::Int8) matches Ok(b) && v@ == bytes_i8s(b),
                Err(e) => tensor_bytes(*self, TensorDataType::Int8) == Err::<Seq<u8>, TensorDecodeError>(e),
            },
    {
        let bytes = self.raw_bytes(TensorDataType::Int8)?;
        let mut out: Vec<i8> = Vec::new();
        let mut i: usize = 0;
        while i < bytes.len()
            invariant
                i <= bytes@.len(),
                out@ == bytes_i8s(bytes@.subrange(0, i as int)),
            decreases bytes@.len() - i,
        {
            out.push(bytes[i] as i8);
            i = i + 1;
            assert(out@ =~= bytes_i8s(bytes@.subrange(0, i as int)));
        }
        assert(bytes@.subrange(0, bytes@.len() as int) =~= bytes@);
        Ok(out)
    }

    /// The values of an `int64` tensor.
    pub fn decode_i64(&self) -> (r: Result<Vec<i64>, TensorDecodeError>)
        ensures
            match r {
                Ok(v) => tensor_bytes(*self, TensorDataType::Int64) matches Ok(b) && v@ == bytes_i64s(b),
                Err(e) => tensor_bytes(*self, TensorDataType::Int64) == Err::<Seq<u8>, TensorDecodeError>(e),
            },
    {
        let bytes = self.raw_bytes(TensorDataType::Int64)?;
        proof {
            let pp = positive_product(self.shape@);
            assert(bytes@.len() == pp * 8);
            assert(bytes@.len() % 8 == 0 && 8 * (bytes@.len() / 8) == bytes@.len()) by (nonlinear_arith)
                requires
                    bytes@.len() == pp * 8,
            ;
        }
        let len = bytes.len();
        let n = len / 8;
        let mut out: Vec<i64> = Vec::new();
        let mut i: usize = 0;
        while i < n
            invariant
                n == bytes@.len() / 8,
                len == bytes@.len(),
                8 * n == len,
                i <= n,
                out@.len() == i,
                forall|j: int| 0 <= j < i ==> out@[j] == #[trigger] i64_from_le(bytes@, 8 * j),
            decreases n - i,
        {
            let o = 8 * i;
            let v = (bytes[o] as u64 | (bytes[o + 1] as u64) << 8u64 | (bytes[o + 2] as u64) << 16u64
                | (bytes[o + 3] as u64) << 24u64 | (bytes[o + 4] as u64) << 32u64 | (bytes[o + 5] as u64)
                << 40u64 | (bytes[o + 6] as u64) << 48u64 | (bytes[o + 7] as u64) << 56u64) as i64;
            out.push(v);
            i = i + 1;
        }
        assert(out@ =~= bytes_i64s(bytes@));
        Ok(out)
    }

    /// The tensor with the listed dimensions of size one removed.
    pub fn squeeze(&self, axes: &[usize]) -> (r: Result<Tensor, TensorDecodeError>)
        ensures
            match tensor_array_bytes(*self) {
                Err(e) => r == Err::<Tensor, TensorDecodeError>(e),
                Ok(b) => r matches Ok(t) && t.dtype == self.dtype && t.shape@ == squeeze_shape(
                    self.shape@,
                    axes@,
                ) && t.data@ == base64_encoding(b) && base64_decoding(t.data@) == Some(b),
            },
    {
        let bytes = self.array_bytes()?;
        let mut shape = self.shape.clone();
        assert(shape@ == self.shape@);
        let mut k: usize = axes.len();
        assert(axes@.subrange(0, k as int) =~= axes@);
        while k > 0
            invariant
                k <= axes@.len(),
                squeeze_shape(shape@, axes@.subrange(0, k as int)) == squeeze_shape(self.shape@, axes@),
            decreases k,
        {
            let ghost cur = shape@;
            let a = axes[k - 1];
            if a < shape.len() && shape[a] == 1 {
                shape.remove(a);
            }
            let ghost sub = axes@.subrange(0, k as int);
            assert(sub.drop_last() =~= axes@.subrange(0, k - 1));
            assert(sub.last() == a);
            k = k - 1;
        }
        assert(axes@.subrange(0, 0) =~= Seq::<usize>::empty());
        Ok(Tensor::from_bytes(self.dtype, shape, bytes.as_slice()))
    }

    /// The tensor with a dimension of size one inserted at each listed axis.
    pub fn unsqueeze(&self, axes: &[usize]) -> (r: Result<Tensor, TensorDecodeError>)
        ensures
            match tensor_array_bytes(*self) {
                Err(e) => r == Err::<Tensor, TensorDecodeError>(e),
                Ok(b) => r matches Ok(t) && t.dtype == self.dtype && t.shape@ == unsqueeze_shape(
                    self.shape@,
                    axes@,
                ) && t.data@ == base64_encoding(b) && base64_decoding(t.data@) == Some(b),
            },
    {
        let bytes = self.array_bytes()?;
        let mut shape = self.shape.clone();
        assert(shape@ == self.shape@);
        let mut k: usize = 0;
        assert(axes@.subrange(0, axes@.len() as int) =~= axes@);
        while k < axes.len()
            invariant
                k <= axes@.len(),
                unsqueeze_shape(shape@, axes@.subrange(k as int, axes@.len() as int))
                    == unsqueeze_shape(self.shape@, axes@),
            decreases axes@.len() - k,
        {
            let a = axes[k];
            if a <= shape.len() {
                shape.insert(a, 1);
            }
            let ghost sub = axes@.subrange(k as int, axes@.len() as int);
            assert(sub.drop_first() =~= axes@.subrange(k + 1, axes@.len() as int));
            assert(sub[0] == a);
            k = k + 1;
        }
        assert(axes@.subrange(axes@.len() as int, axes@.len() as int) =~= Seq::<usize>::empty());
        Ok(Tensor::from_bytes(self.dtype, shape, bytes.as_slice()))
    }

    /// The tensor under a new shape with the same number of elements;
    /// unknown (negative) dimensions of the new shape are read as one.
    pub fn reshape(&self, new_shape: &[i64]) -> (r: Result<Tensor, TensorDecodeError>)
        ensures
            match tensor_array_bytes(*self) {
                Err(e) => r == Err::<Tensor, TensorDecodeError>(e),
                Ok(b) => if dims_product(reshape_dims(new_shape@)) == positive_product(self.shape@) {
                    r matches Ok(t) && t.dtype == self.dtype && t.shape@ == reshape_dims(new_shape@)
                        && t.data@ == base64_encoding(b) && base64_decoding(t.data@) == Some(b)
                } else {
                    r == Err::<Tensor, TensorDecodeError>(TensorDecodeError::SizeMismatch)
                },
            },
    {
        let bytes = self.array_bytes()?;
        let mut dims: Vec<i64> = Vec::new();
        let mut has_zero = false;
        let mut i: usize = 0;
        while i < new_shape.len()
            invariant
                i <= new_shape@.len(),
                dims@ == reshape_dims(new_shape@.subrange(0, i as int)),
                has_zero == exists|j: int| 0 <= j < i && dims@[j] == 0,
            decreases new_shape@.len() - i,
        {
            let d = new_shape[i];
            let e: i64 = if d < 0 { 1 } else { d };
            let ghost old_dims = dims@;
            if e == 0 {
                has_zero = true;
            }
            dims.push(e);
            proof {
                assert(dims@[i as int] == e);
                assert forall|j: int| 0 <= j < i implies dims@[j] == old_dims[j] by {}
                if e != 0 && has_zero {
                    let w = choose|j: int| 0 <= j < i && old_dims[j] == 0;
                    assert(dims@[w] == 0);
                }
            }
            i = i + 1;
            assert(dims@ =~= reshape_dims(new_shape@.subrange(0, i as int)));
        }
        assert(new_shape@.subrange(0, new_shape@.len() as int) =~= new_shape@);
        let es = self.dtype.element_size();
        proof {
            lemma_positive_product_pos(self.shape@);
            let pp = positive_product(self.shape@);
            assert(bytes@.len() == pp * es);
            assert(bytes@.len() as int / (es as int) == pp) by (nonlinear_arith)
                requires
                    bytes@.len() == pp * es,
                    es >= 1,
            ;
        }
        let count = bytes.len() / es;
        if has_zero {
            proof {
                let j = choose|j: int| 0 <= j < dims@.len() && dims@[j] == 0;
                lemma_dims_product_zero(dims@, j);
            }
            return Err(TensorDecodeError::SizeMismatch);
        }
        proof {
            assert forall|j: int| 0 <= j < dims@.len() implies dims@[j] >= 1 by {
                assert(dims@[j] != 0);
            }
            lemma_products_agree(dims@);
        }
        if !counted_size_is(&dims, 1, count) {
            return Err(TensorDecodeError::SizeMismatch);
        }
        Ok(Tensor::from_bytes(self.dtype, dims, bytes.as_slice()))
    }

    /// The tensor with its axes permuted: dimension `k` of the result is
    /// dimension `axes[k]` of this tensor, and the elements move with them.
    pub fn transpose(&self, axes: &[usize]) -> (r: Result<Tensor, TensorDecodeError>)
        requires
            tensor_array_bytes(*self) is Ok ==> is_axis_permutation(axes@, self.shape@.len() as int),
        ensures
            match tensor_array_bytes(*self) {
                Err(e) => r == Err::<Tensor, TensorDecodeError>(e),
                Ok(b) => r matches Ok(t) && t.dtype == self.dtype && t.shape@ == permuted_dims(
                    self.shape@,
                    axes@,
                ) && t.data@ == base64_encoding(
                    transposed_bytes(b, tensor_element_size(self.dtype) as int, self.shape@, axes@),
                ) && base64_decoding(t.data@) == Some(
                    transposed_bytes(b, tensor_element_size(self.dtype) as int, self.shape@, axes@),
                ),
            },
    {
        let bytes = self.array_bytes()?;
        let es = self.dtype.element_size();
        let n = self.shape.len();
        let ghost shape = self.shape@;
        let ghost out_shape = permuted_dims(shape, axes@);
        let ghost inv_spec = inverse_axes(axes@);
        proof {
            lemma_products_agree(shape);
            lemma_dims_product_pos(shape);
        }
        let count = bytes.len() / es;
        proof {
            let pp = dims_product(shape);
            assert(bytes@.len() == pp * es);
            assert(bytes@.len() as int / (es as int) == pp) by (nonlinear_arith)
                requires
                    bytes@.len() == pp * es,
                    es >= 1,
            ;
            lemma_permuted_product(shape, axes@);
            assert(dims_all_positive(out_shape)) by {
                assert forall|k: int| 0 <= k < n implies out_shape[k] >= 1 by {
                    assert(axes@[k] < n);
                }
            }
        }
        // The output dimensions and the inverse permutation.
        let mut out_dims: Vec<usize> = Vec::new();
        let mut k: usize = 0;
        while k < n
            invariant
                n == shape.len(),
                n == axes@.len(),
                is_axis_permutation(axes@, n as int),
                dims_all_positive(shape),
                shape == self.shape@,
                k <= n,
                out_dims@.len() == k,
                forall|t: int| 0 <= t < k ==> out_dims@[t] as int == shape[axes@[t] as int] as int,
                count == dims_product(shape),
            decreases n - k,
        {
            let d = self.shape[axes[k]];
            proof {
                lemma_dim_at_most_product(shape, axes@[k as int] as int);
            }
            out_dims.push(d as usize);
            k = k + 1;
        }
        let mut inv: Vec<usize> = Vec::new();
        let mut k: usize = 0;
        while k < n
            invariant
                k <= n,
                inv@.len() == k,
            decreases n - k,
        {
            inv.push(0);
            k = k + 1;
        }
        let mut k: usize = 0;
        while k < n
            invariant
                n == axes@.len(),
                is_axis_permutation(axes@, n as int),
                k <= n,
                inv@.len() == n,
                forall|t: int| 0 <= t < k ==> inv@[axes@[t] as int] == t,
            decreases n - k,
        {
            let a = axes[k];
            inv.set(a, k);
            proof {
                assert forall|t: int| 0 <= t < k + 1 implies inv@[axes@[t] as int] == t by {
                    if t < k {
                        assert(axes@[t] != axes@[k as int]);
                    }
                }
            }
            k = k + 1;
        }
        proof {
            assert forall|m: int| 0 <= m < n implies #[trigger] inv@[m] == inv_spec[m] && inv@[m] < n by {
                lemma_inverse_axes(axes@, n as int, m);
                let q = inv_spec[m];
                assert(inv@[axes@[q] as int] == q);
            }
        }
        let mut out: Vec<u8> = Vec::new();
        let mut digits: Vec<usize> = Vec::new();
        let mut k: usize = 0;
        while k < n
            invariant
                k <= n,
                digits@.len() == k,
            decreases n - k,
        {
            digits.push(0);
            k = k + 1;
        }
        let blen = bytes.len();
        let mut f: usize = 0;
        while f < count
            invariant
                blen == bytes@.len(),
                n == shape.len(),
                n == axes@.len(),
                is_axis_permutation(axes@, n as int),
                shape == self.shape@,
                dims_all_positive(shape),
                dims_all_positive(out_shape),
                out_shape == permuted_dims(shape, axes@),
                inv_spec == inverse_axes(axes@),
                count == dims_product(shape),
                count == dims_product(out_shape),
                bytes@.len() == count * es,
                es == tensor_element_size(self.dtype),
                es >= 1,
                out_dims@.len() == n,
                forall|t: int| 0 <= t < n ==> out_dims@[t] as int == out_shape[t] as int,
                inv@.len() == n,
                forall|m: int| 0 <= m < n ==> #[trigger] inv@[m] == inv_spec[m] && inv@[m] < n,
                digits@.len() == n,
                f <= count,
                out@ == transposed_prefix(bytes@, es as int, shape, axes@, f as int),
            decreases count - f,
        {
            let ghost idx = unravel(out_shape, f as int);
            proof {
                lemma_unravel_bounds(out_shape, f as int);
            }
            // Digits of `f` in the output shape, from the last axis to the first.
            let mut rem: usize = f;
            let mut k: usize = n;
            assert(out_shape.subrange(0, n as int) =~= out_shape);
            assert(idx.subrange(0, n as int) =~= idx);
            while k > 0
                invariant
                    k <= n,
                    n == out_shape.len(),
                    idx.len() == n,
                    dims_all_positive(out_shape),
                    out_dims@.len() == n,
                    forall|t: int| 0 <= t < n ==> out_dims@[t] as int == out_shape[t] as int,
                    digits@.len() == n,
                    unravel(out_shape.subrange(0, k as int), rem as int) == idx.subrange(0, k as int),
                    forall|t: int| k <= t < n ==> digits@[t] as int == idx[t],
                decreases k,
            {
                let d = out_dims[k - 1];
                let ghost sub = out_shape.subrange(0, k as int);
                assert(sub.drop_last() =~= out_shape.subrange(0, k - 1));
                assert(sub.last() == out_shape[k - 1]);
                assert(out_shape[k - 1] >= 1);
                let ghost before = unravel(sub, rem as int);
                assert(before == unravel(out_shape.subrange(0, k - 1), rem as int / d as int).push(
                    rem as int % d as int,
                ));
                assert(idx.subrange(0, k as int).drop_last() =~= idx.subrange(0, k - 1));
                assert(idx[k - 1] == idx.subrange(0, k as int).last());
                digits.set(k - 1, rem % d);
                rem = rem / d;
                k = k - 1;
            }
            // The source position, by Horner's rule over the source shape.
            let ghost src_idx = Seq::new(n as nat, |m: int| idx[inv_spec[m]]);
            proof {
                assert forall|m: int| 0 <= m < n implies 0 <= #[trigger] src_idx[m] < shape[m] by {
                    lemma_inverse_axes(axes@, n as int, m);
                    let q = inv_spec[m];
                    assert(out_shape[q] == shape[axes@[q] as int]);
                }
            }
            let mut acc: usize = 0;
            let mut m: usize = 0;
            assert(shape.subrange(0, 0) =~= Seq::<i64>::empty());
            while m < n
                invariant
                    m <= n,
                    n == shape.len(),
                    dims_all_positive(shape),
                    count == dims_product(shape),
                    src_idx.len() == n,
                    forall|t: int| 0 <= t < n ==> 0 <= #[trigger] src_idx[t] < shape[t],
                    forall|t: int| 0 <= t < n ==> digits@[t] as int == idx[t],
                    forall|t: int| 0 <= t < n ==> #[trigger] inv@[t] == inv_spec[t] && inv@[t] < n,
                    inv@.len() == n,
                    digits@.len() == n,
                    src_idx == Seq::new(n as nat, |t: int| idx[inv_spec[t]]),
                    shape == self.shape@,
                    acc as int == ravel(shape.subrange(0, m as int), src_idx.subrange(0, m as int)),
                decreases n - m,
            {
                let ghost pre = shape.subrange(0, m as int);
                let ghost next = shape.subrange(0, m as int + 1);
                assert(next.drop_last() =~= pre);
                assert(src_idx.subrange(0, m as int + 1).drop_last() =~= src_idx.subrange(0, m as int));
                proof {
                    assert(dims_all_positive(pre));
                    lemma_ravel_bound(pre, src_idx.subrange(0, m as int));
                    assert(dims_all_positive(next));
                    lemma_ravel_bound(next, src_idx.subrange(0, m as int + 1));
                    lemma_dims_product_prefix(shape, m as int + 1);
                }
                proof {
                    lemma_dim_at_most_product(shape, m as int);
                }
                let d = self.shape[m] as usize;
                let j = digits[inv[m]];
                assert(j as int == src_idx[m as int]);
                proof {
                    let a = acc as int;
                    let dd = d as int;
                    assert(next.last() == shape[m as int]);
                    assert(src_idx.subrange(0, m as int + 1).last() == src_idx[m as int]);
                    assert(ravel(next, src_idx.subrange(0, m as int + 1)) == a * dd + j);
                    assert(a * dd + j < count);
                    assert(a * dd <= a * dd + j);
                }
                acc = acc * d + j;
                m = m + 1;
            }
            assert(shape.subrange(0, n as int) =~= shape);
            assert(src_idx.subrange(0, n as int) =~= src_idx);
            proof {
                lemma_ravel_bound(shape, src_idx);
                assert(acc as int == transpose_source(shape, axes@, f as int));
                assert((acc + 1) * es <= count * es) by (nonlinear_arith)
                    requires
                        acc < count,
                ;
                assert(acc * es + es <= blen) by (nonlinear_arith)
                    requires
                        (acc + 1) * es <= count * es,
                        blen == count * es,
                ;
            }
            let start = acc * es;
            let mut b: usize = 0;
            let ghost prefix = out@;
            while b < es
                invariant
                    b <= es,
                    blen == bytes@.len(),
                    start + es <= blen,
                    out@ == prefix + bytes@.subrange(start as int, start + b),
                decreases es - b,
            {
                out.push(bytes[start + b]);
                b = b + 1;
                assert(out@ =~= prefix + bytes@.subrange(start as int, start + b));
            }
            f = f + 1;
        }
        let mut shape_out: Vec<i64> = Vec::new();
        let mut k: usize = 0;
        while k < n
            invariant
                k <= n,
                out_dims@.len() == n,
                forall|t: int| 0 <= t < n ==> out_dims@[t] as int == out_shape[t] as int,
                n == out_shape.len(),
                shape_out@ == out_shape.subrange(0, k as int),
            decreases n - k,
        {
            shape_out.push(out_dims[k] as i64);
            k = k + 1;
            assert(shape_out@ =~= out_shape.subrange(0, k as int));
        }
        assert(out_shape.subrange(0, n as int) =~= out_shape);
        Ok(Tensor::from_bytes(self.dtype, shape_out, out.as_slice()))
    }

    /// The number of elements: the product of the positive dimensions.
    pub fn numel(&self) -> (n: usize)
        requires
            positive_product(self.shape@) <= i64::MAX,
            positive_product(self.shape@) <= usize::MAX,
        ensures
            n == positive_product(self.shape@),
    {
        let mut p: i64 = 1;
        let mut i: usize = 0;
        assert(self.shape@.subrange(0, 0) =~= Seq::<i64>::empty());
        while i < self.shape.len()
            invariant
                i <= self.shape@.len(),
                p == positive_product(self.shape@.subrange(0, i as int)),
                positive_product(self.shape@) <= i64::MAX,
            decreases self.shape@.len() - i,
        {
            let ghost next = self.shape@.subrange(0, i as int + 1);
            assert(next.drop_last() =~= self.shape@.subrange(0, i as int));
            proof {
                lemma_positive_product_prefix(self.shape@, i as int + 1);
            }
            let d = self.shape[i];
            assert(positive_product(next) == p * counted_dim(d));
            proof {
                lemma_positive_product_pos(self.shape@.subrange(0, i as int));
            }
            if d > 0 {
                p = p * d;
            }
            i = i + 1;
        }
        assert(self.shape@.subrange(0, self.shape@.len() as int) =~= self.shape@);
        assert(p == positive_product(self.shape@));
        proof {
            lemma_positive_product_pos(self.shape@);
        }
        p as usize
    }

    /// The number of dimensions.
    pub fn ndim(&self) -> (n: usize)
        ensures
            n == self.shape@.len(),
    {
        self.shape.len()
    }
}

} // verus!
