//! The integer decisions of the transform pipelines: new array shapes for
//! squeeze, unsqueeze and reshape, the range of a slice, the origin of a
//! center crop, the sides of a padding, and the label of a class index.
//! The pipelines' arithmetic on pixel and score values is floating point
//! and stays with the service.
use vstd::prelude::*;

verus! {

/// The sizes after removing the listed axes of size one, taking the axes
/// from the last listed to the first; an axis out of range, or whose size
/// is not one, is passed over.
pub open spec fn squeezed_sizes(shape: Seq<usize>, axes: Seq<usize>) -> Seq<usize>
    decreases axes.len(),
{
    if axes.len() == 0 {
        shape
    } else {
        let a = axes.last() as int;
        let next = if a < shape.len() && shape[a] == 1 {
            shape.remove(a)
        } else {
            shape
        };
        squeezed_sizes(next, axes.drop_last())
    }
}

/// The sizes after inserting a size of one at each listed axis, in the
/// order listed; an axis past the end is passed over.
pub open spec fn unsqueezed_sizes(shape: Seq<usize>, axes: Seq<usize>) -> Seq<usize>
    decreases axes.len(),
{
    if axes.len() == 0 {
        shape
    } else {
        let a = axes[0] as int;
        let next = if a <= shape.len() {
            shape.insert(a, 1)
        } else {
            shape
        };
        unsqueezed_sizes(next, axes.drop_first())
    }
}

/// Squeezing one axis removes exactly that size when it is one, the last
/// axis included, and leaves the sizes as they are otherwise.
pub proof fn lemma_squeeze_one_axis(shape: Seq<usize>, a: usize)
    ensures
        a < shape.len() && shape[a as int] == 1 ==> squeezed_sizes(shape, seq![a]) == shape.remove(a as int),
        !(a < shape.len() && shape[a as int] == 1) ==> squeezed_sizes(shape, seq![a]) == shape,
{
    reveal_with_fuel(squeezed_sizes, 2);
    assert(seq![a].last() == a);
    assert(seq![a].drop_last() =~= Seq::<usize>::empty());
}

/// Squeezing several axes squeezes the last listed first: the rest are
/// squeezed from what squeezing the last one leaves.
pub proof fn lemma_squeeze_last_axis_first(shape: Seq<usize>, axes: Seq<usize>, a: usize)
    ensures
        squeezed_sizes(shape, axes.push(a)) == squeezed_sizes(squeezed_sizes(shape, seq![a]), axes),
{
    lemma_squeeze_one_axis(shape, a);
    assert(axes.push(a).last() == a);
    assert(axes.push(a).drop_last() =~= axes);
}

proof fn lemma_unsqueezed_push(shape: Seq<usize>, axes: Seq<usize>, a: usize)
    ensures
        unsqueezed_sizes(shape, axes.push(a)) == (if a <= unsqueezed_sizes(shape, axes).len() {
            unsqueezed_sizes(shape, axes).insert(a as int, 1)
        } else {
            unsqueezed_sizes(shape, axes)
        }),
    decreases axes.len(),
{
    if axes.len() == 0 {
        assert(axes.push(a).drop_first() =~= Seq::<usize>::empty());
        assert(axes.push(a)[0] == a);
        let next = if a <= shape.len() { shape.insert(a as int, 1) } else { shape };
        assert(unsqueezed_sizes(next, Seq::<usize>::empty()) == next);
        assert(unsqueezed_sizes(shape, axes.push(a)) == unsqueezed_sizes(next, axes.push(a).drop_first()));
        assert(unsqueezed_sizes(shape, axes) == shape);
    } else {
        let x = axes[0] as int;
        let next = if x <= shape.len() { shape.insert(x, 1) } else { shape };
        assert(axes.push(a).drop_first() =~= axes.drop_first().push(a));
        assert(axes.push(a)[0] == axes[0]);
        lemma_unsqueezed_push(next, axes.drop_first(), a);
        assert(unsqueezed_sizes(shape, axes.push(a)) == unsqueezed_sizes(next, axes.push(a).drop_first()));
        assert(unsqueezed_sizes(shape, axes) == unsqueezed_sizes(next, axes.drop_first()));
    }
}

/// Inserting sizes of one at the listed axes, each at most the length
/// reached when it is inserted, and then squeezing the same axes gives back
/// the sizes; each insertion adds one size.
pub proof fn lemma_unsqueeze_then_squeeze_sizes(shape: Seq<usize>, axes: Seq<usize>)
    requires
        forall|i: int| 0 <= i < axes.len() ==> #[trigger] axes[i] <= shape.len() + i,
    ensures
        unsqueezed_sizes(shape, axes).len() == shape.len() + axes.len(),
        squeezed_sizes(unsqueezed_sizes(shape, axes), axes) == shape,
    decreases axes.len(),
{
    if axes.len() > 0 {
        let pre = axes.drop_last();
        let a = axes.last();
        assert forall|i: int| 0 <= i < pre.len() implies #[trigger] pre[i] <= shape.len() + i by {
            assert(pre[i] == axes[i]);
        }
        lemma_unsqueeze_then_squeeze_sizes(shape, pre);
        assert(pre.push(a) =~= axes);
        lemma_unsqueezed_push(shape, pre, a);
        let u = unsqueezed_sizes(shape, pre);
        let v = u.insert(a as int, 1);
        lemma_squeeze_last_axis_first(v, pre, a);
        lemma_squeeze_one_axis(v, a);
        assert(v.remove(a as int) =~= u);
    }
}

/// The sizes of a requested shape: an unknown (negative) dimension is one.
pub open spec fn reshaped_sizes(shape: Seq<i64>) -> Seq<usize> {
    shape.map_values(|d: i64| if d < 0 { 1usize } else { d as usize })
}

/// The sizes of an array after a squeeze.
pub fn squeeze_dims(shape: &[usize], axes: &[usize]) -> (r: Vec<usize>)
    ensures
        r@ == squeezed_sizes(shape@, axes@),
{
    let mut dims: Vec<usize> = Vec::new();
    let mut i: usize = 0;
    while i < shape.len()
        invariant
            i <= shape@.len(),
            dims@ == shape@.subrange(0, i as int),
        decreases shape@.len() - i,
    {
        dims.push(shape[i]);
        i = i + 1;
    }
    assert(shape@.subrange(0, shape@.len() as int) == shape@);
    let mut k: usize = axes.len();
    assert(axes@.subrange(0, k as int) =~= axes@);
    while k > 0
        invariant
            k <= axes@.len(),
            squeezed_sizes(dims@, axes@.subrange(0, k as int)) == squeezed_sizes(shape@, axes@),
        decreases k,
    {
        let a = axes[k - 1];
        if a < dims.len() && dims[a] == 1 {
            dims.remove(a);
        }
        let ghost sub = axes@.subrange(0, k as int);
        assert(sub.drop_last() =~= axes@.subrange(0, k - 1));
        assert(sub.last() == a);
        k = k - 1;
    }
    assert(axes@.subrange(0, 0) =~= Seq::<usize>::empty());
    dims
}

/// The sizes of an array after an unsqueeze.
pub fn unsqueeze_dims(shape: &[usize], axes: &[usize]) -> (r: Vec<usize>)
    ensures
        r@ == unsqueezed_sizes(shape@, axes@),
{
    let mut dims: Vec<usize> = Vec::new();
    let mut i: usize = 0;
    while i < shape.len()
        invariant
            i <= shape@.len(),
            dims@ == shape@.subrange(0, i as int),
        decreases shape@.len() - i,
    {
        dims.push(shape[i]);
        i = i + 1;
    }
    assert(shape@.subrange(0, shape@.len() as int) == shape@);
    let mut k: usize = 0;
    assert(axes@.subrange(0, axes@.len() as int) =~= axes@);
    while k < axes.len()
        invariant
            k <= axes@.len(),
            unsqueezed_sizes(dims@, axes@.subrange(k as int, axes@.len() as int)) == unsqueezed_sizes(shape@, axes@),
        decreases axes@.len() - k,
    {
        let a = axes[k];
        if a <= dims.len() {
            dims.insert(a, 1);
        }
        let ghost sub = axes@.subrange(k as int, axes@.len() as int);
        assert(sub.drop_first() =~= axes@.subrange(k + 1, axes@.len() as int));
        assert(sub[0] == a);
        k = k + 1;
    }
    assert(axes@.subrange(axes@.len() as int, axes@.len() as int) =~= Seq::<usize>::empty());
    dims
}

/// The sizes of a requested shape.
pub fn reshape_sizes(shape: &[i64]) -> (r: Vec<usize>)
    ensures
        r@ == reshaped_sizes(shape@),
{
    let mut dims: Vec<usize> = Vec::new();
    let mut i: usize = 0;
    while i < shape.len()
        invariant
            i <= shape@.len(),
            dims@ == reshaped_sizes(shape@.subrange(0, i as int)),
        decreases shape@.len() - i,
    {
        let d = shape[i];
        dims.push(if d < 0 { 1 } else { d as usize });
        proof {
            assert(shape@.subrange(0, i + 1) == shape@.subrange(0, i as int).push(d));
        }
        i = i + 1;
        assert(dims@ =~= reshaped_sizes(shape@.subrange(0, i as int)));
    }
    assert(shape@.subrange(0, shape@.len() as int) == shape@);
    dims
}

/// The end of a slice: zero stands for the end of the data.
pub open spec fn slice_end(len: nat, end: nat) -> nat {
    if end == 0 { len } else { end }
}

/// The positions `[start, end)` a slice keeps of `len` values; an end of zero
/// means the end of the data. The range must lie within the data.
pub fn slice_range(len: usize, start: usize, end: usize) -> (r: (usize, usize))
    requires
        start <= slice_end(len as nat, end as nat) <= len,
    ensures
        r == (start, slice_end(len as nat, end as nat) as usize),
{
    let end_idx = if end == 0 { len } else { end };
    (start, end_idx)
}

/// The top-left corner of a centered crop of `w` by `h` from an image of
/// `img_w` by `img_h`: half the excess on each axis, none when the crop is
/// larger.
pub fn center_crop_origin(img_w: u32, img_h: u32, w: u32, h: u32) -> (r: (u32, u32))
    ensures
        r.0 == (if img_w > w { (img_w - w) / 2 } else { 0 }),
        r.1 == (if img_h > h { (img_h - h) / 2 } else { 0 }),
{
    let x = if img_w > w { (img_w - w) / 2 } else { 0 };
    let y = if img_h > h { (img_h - h) / 2 } else { 0 };
    (x, y)
}

/// The left, top, right and bottom padding of a padding list: right and
/// bottom default to left and top.
pub fn pad_extents(padding: &[u32]) -> (r: (u32, u32, u32, u32))
    requires
        padding@.len() >= 2,
    ensures
        r.0 == padding@[0],
        r.1 == padding@[1],
        r.2 == (if padding@.len() > 2 { padding@[2] } else { padding@[0] }),
        r.3 == (if padding@.len() > 3 { padding@[3] } else { padding@[1] }),
{
    let right = if padding.len() > 2 { padding[2] } else { padding[0] };
    let bottom = if padding.len() > 3 { padding[3] } else { padding[1] };
    (padding[0], padding[1], right, bottom)
}

/// The label of a class index: the mapping's entry, or empty past its end.
pub fn label_for(labels: &Vec<String>, index: usize) -> (r: String)
    ensures
        index < labels@.len() ==> r@ == labels@[index as int]@,
        index >= labels@.len() ==> r@.len() == 0,
{
    if index < labels.len() {
        labels[index].clone()
    } else {
        String::new()
    }
}

} // verus!
