//! The small inline lists a document is built from: path segments, register
//! indices and struct fields. Each keeps its items in a `smallvec::SmallVec`;
//! what a list holds is named by a spec function, and every operation the
//! parser uses says what it does to that sequence.

use vstd::prelude::*;

verus! {

/// The segments of a path, such as `foo`, `bar` in `foo::bar`.
#[verifier::external_body]
pub struct PathSegments<'a> {
    inner: smallvec::SmallVec<[&'a str; 8]>,
}

/// The text of each segment, in order.
pub uninterp spec fn path_segment_items(v: PathSegments) -> Seq<Seq<char>>;

/// An empty list: `smallvec::SmallVec::new`.
#[verifier::external_body]
fn path_segments_new<'a>() -> (r: PathSegments<'a>)
    ensures
        path_segment_items(r) == Seq::<Seq<char>>::empty(),
{
    PathSegments { inner: smallvec::SmallVec::new() }
}

/// Appends a segment at the end: `smallvec::SmallVec::push`, which panics
/// only when the doubled capacity would overflow.
#[verifier::external_body]
fn path_segments_push<'a>(v: &mut PathSegments<'a>, e: &'a str)
    requires
        path_segment_items(*old(v)).len() <= usize::MAX / 2,
    ensures
        path_segment_items(*final(v)) == path_segment_items(*old(v)).push(e@),
{
    v.inner.push(e)
}

/// The segments, in order: `smallvec::SmallVec::as_slice`. A slice spans at
/// most `isize::MAX` bytes and a `&str` takes at least eight, so there are
/// at most `usize::MAX / 16` of them.
#[verifier::external_body]
fn path_segments_slice<'b, 'a>(v: &'b PathSegments<'a>) -> (r: &'b [&'a str])
    ensures
        r@.len() == path_segment_items(*v).len(),
        forall|k: int| 0 <= k < r@.len() ==> (#[trigger] r@[k])@ == path_segment_items(*v)[k],
        r@.len() <= usize::MAX / 16,
{
    v.inner.as_slice()
}

impl<'a> PathSegments<'a> {
    /// An empty list.
    pub fn new() -> (r: Self)
        ensures
            path_segment_items(r) == Seq::<Seq<char>>::empty(),
    {
        path_segments_new()
    }

    /// Appends a segment at the end.
    pub fn push(&mut self, e: &'a str)
        requires
            path_segment_items(*old(self)).len() <= usize::MAX / 2,
        ensures
            path_segment_items(*final(self)) == path_segment_items(*old(self)).push(e@),
    {
        path_segments_push(self, e)
    }

    /// The segments, in order.
    pub fn as_slice<'b>(&'b self) -> (r: &'b [&'a str])
        ensures
            r@.len() == path_segment_items(*self).len(),
            forall|k: int| 0 <= k < r@.len() ==> (#[trigger] r@[k])@ == path_segment_items(*self)[k],
            r@.len() <= usize::MAX / 16,
    {
        path_segments_slice(self)
    }

    /// Appends every segment of `other`, in order.
    pub fn extend_from(&mut self, other: &PathSegments<'a>)
        requires
            path_segment_items(*old(self)).len() <= usize::MAX / 4,
        ensures
            path_segment_items(*final(self)) == path_segment_items(*old(self)) + path_segment_items(*other),
    {
        let items = path_segments_slice(other);
        let mut i: usize = 0;
        while i < items.len()
            invariant
                i <= items@.len() == path_segment_items(*other).len(),
                forall|k: int| 0 <= k < items@.len() ==> (#[trigger] items@[k])@ == path_segment_items(*other)[k],
                path_segment_items(*old(self)).len() <= usize::MAX / 4,
                items@.len() <= usize::MAX / 16,
                path_segment_items(*self) == path_segment_items(*old(self)) + path_segment_items(*other).take(i as int),
            decreases items@.len() - i,
        {
            path_segments_push(self, items[i]);
            i += 1;
            assert(path_segment_items(*self) =~= path_segment_items(*old(self)) + path_segment_items(*other).take(i as int));
        }
        assert(path_segment_items(*other).take(i as int) =~= path_segment_items(*other));
    }
}

impl<'a> Clone for PathSegments<'a> {
    /// A list with the same segments.
    fn clone(&self) -> (r: Self)
        ensures
            path_segment_items(r) == path_segment_items(*self),
    {
        let mut out = path_segments_new();
        out.extend_from(self);
        assert(Seq::<Seq<char>>::empty() + path_segment_items(*self) =~= path_segment_items(*self));
        out
    }
}

/// The register indices of a tuple's or a list's elements.
#[verifier::external_body]
pub struct IndexList {
    inner: smallvec::SmallVec<[usize; 8]>,
}

/// The indices, in order.
pub uninterp spec fn index_items(v: IndexList) -> Seq<usize>;

/// An empty list: `smallvec::SmallVec::new`.
#[verifier::external_body]
fn index_list_new() -> (r: IndexList)
    ensures
        index_items(r) == Seq::<usize>::empty(),
{
    IndexList { inner: smallvec::SmallVec::new() }
}

/// Appends an index at the end: `smallvec::SmallVec::push`, which panics
/// only when the doubled capacity would overflow.
#[verifier::external_body]
fn index_list_push(v: &mut IndexList, e: usize)
    requires
        index_items(*old(v)).len() <= usize::MAX / 2,
    ensures
        index_items(*final(v)) == index_items(*old(v)).push(e),
{
    v.inner.push(e)
}

/// The indices, in order: `smallvec::SmallVec::as_slice`. A slice spans at
/// most `isize::MAX` bytes and an index takes more than two, so there are
/// fewer than `usize::MAX / 2` of them.
#[verifier::external_body]
fn index_list_slice(v: &IndexList) -> (r: &[usize])
    ensures
        r@ == index_items(*v),
        r@.len() <= usize::MAX / 2,
{
    v.inner.as_slice()
}

impl IndexList {
    /// An empty list.
    pub fn new() -> (r: Self)
        ensures
            index_items(r) == Seq::<usize>::empty(),
    {
        index_list_new()
    }

    /// Appends an index at the end.
    pub fn push(&mut self, e: usize)
        requires
            index_items(*old(self)).len() <= usize::MAX / 2,
        ensures
            index_items(*final(self)) == index_items(*old(self)).push(e),
    {
        index_list_push(self, e)
    }

    /// The indices, in order.
    pub fn as_slice(&self) -> (r: &[usize])
        ensures
            r@ == index_items(*self),
            r@.len() <= usize::MAX / 2,
    {
        index_list_slice(self)
    }
}

impl Clone for IndexList {
    /// A list with the same indices.
    fn clone(&self) -> (r: Self)
        ensures
            index_items(r) == index_items(*self),
    {
        let items = index_list_slice(self);
        let mut out = index_list_new();
        let mut i: usize = 0;
        while i < items.len()
            invariant
                i <= items@.len() <= usize::MAX / 2,
                index_items(out) == items@.take(i as int),
            decreases items@.len() - i,
        {
            index_list_push(&mut out, items[i]);
            i += 1;
            assert(index_items(out) =~= items@.take(i as int));
        }
        assert(items@.take(i as int) =~= items@);
        out
    }
}

/// The fields of a struct expression: each name with the register index of
/// its value.
#[verifier::external_body]
pub struct FieldList<'a> {
    inner: smallvec::SmallVec<[(&'a str, usize); 8]>,
}

/// Each field's name and register index, in order.
pub uninterp spec fn field_items(v: FieldList) -> Seq<(Seq<char>, usize)>;

/// An empty list: `smallvec::SmallVec::new`.
#[verifier::external_body]
fn field_list_new<'a>() -> (r: FieldList<'a>)
    ensures
        field_items(r) == Seq::<(Seq<char>, usize)>::empty(),
{
    FieldList { inner: smallvec::SmallVec::new() }
}

/// Appends a field at the end: `smallvec::SmallVec::push`, which panics
/// only when the doubled capacity would overflow.
#[verifier::external_body]
fn field_list_push<'a>(v: &mut FieldList<'a>, name: &'a str, index: usize)
    requires
        field_items(*old(v)).len() <= usize::MAX / 2,
    ensures
        field_items(*final(v)) == field_items(*old(v)).push((name@, index)),
{
    v.inner.push((name, index))
}

/// The fields, in order: `smallvec::SmallVec::as_slice`. A slice spans at
/// most `isize::MAX` bytes and a field takes more than two, so there are
/// fewer than `usize::MAX / 2` of them.
#[verifier::external_body]
fn field_list_slice<'b, 'a>(v: &'b FieldList<'a>) -> (r: &'b [(&'a str, usize)])
    ensures
        r@.len() == field_items(*v).len(),
        forall|k: int| 0 <= k < r@.len() ==> (#[trigger] r@[k]).0@ == field_items(*v)[k].0
            && r@[k].1 == field_items(*v)[k].1,
        r@.len() <= usize::MAX / 2,
{
    v.inner.as_slice()
}

impl<'a> FieldList<'a> {
    /// An empty list.
    pub fn new() -> (r: Self)
        ensures
            field_items(r) == Seq::<(Seq<char>, usize)>::empty(),
    {
        field_list_new()
    }

    /// Appends a field at the end.
    pub fn push(&mut self, name: &'a str, index: usize)
        requires
            field_items(*old(self)).len() <= usize::MAX / 2,
        ensures
            field_items(*final(self)) == field_items(*old(self)).push((name@, index)),
    {
        field_list_push(self, name, index)
    }

    /// The fields, in order.
    pub fn as_slice<'b>(&'b self) -> (r: &'b [(&'a str, usize)])
        ensures
            r@.len() == field_items(*self).len(),
            forall|k: int| 0 <= k < r@.len() ==> (#[trigger] r@[k]).0@ == field_items(*self)[k].0
                && r@[k].1 == field_items(*self)[k].1,
            r@.len() <= usize::MAX / 2,
    {
        field_list_slice(self)
    }
}

impl<'a> Clone for FieldList<'a> {
    /// A list with the same fields.
    fn clone(&self) -> (r: Self)
        ensures
            field_items(r) == field_items(*self),
    {
        let items = field_list_slice(self);
        let mut out = field_list_new();
        let mut i: usize = 0;
        while i < items.len()
            invariant
                i <= items@.len() == field_items(*self).len(),
                items@.len() <= usize::MAX / 2,
                forall|k: int| 0 <= k < items@.len() ==> (#[trigger] items@[k]).0@ == field_items(*self)[k].0
                    && items@[k].1 == field_items(*self)[k].1,
                field_items(out) == field_items(*self).take(i as int),
            decreases items@.len() - i,
        {
            let (name, index) = items[i];
            field_list_push(&mut out, name, index);
            i += 1;
            assert(field_items(out) =~= field_items(*self).take(i as int));
        }
        assert(field_items(*self).take(i as int) =~= field_items(*self));
        out
    }
}

} // verus!
