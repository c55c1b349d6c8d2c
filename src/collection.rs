//! An ordered, never-empty sequence of transforms forming one IFS.
use vstd::prelude::*;
use barnsley::transform::Transform;

verus! {

/// A delete that targets a missing index, or the only remaining transform.
#[derive(Debug, Clone, Copy, PartialEq, Eq, Structural)]
pub struct InvalidIndex;

/// The index of a transform identifies it across frames and keyframes, so the
/// order of insertion is kept. A collection always holds at least one transform.
pub struct TransformCollection {
    transforms: Vec<Transform>,
}

impl View for TransformCollection {
    type V = Seq<Transform>;

    closed spec fn view(&self) -> Seq<Transform> {
        self.transforms@
    }
}

/// Whether `delete(index)` succeeds on a collection with contents `s`.
pub open spec fn deletable(s: Seq<Transform>, index: int) -> bool {
    0 <= index < s.len() && s.len() > 1
}

/// `delete(index)` took a collection with contents `before` to `after`, with
/// result `r`.
pub open spec fn deleted(before: Seq<Transform>, after: Seq<Transform>, index: int, r: Result<(), InvalidIndex>) -> bool {
    &&& r is Ok <==> deletable(before, index)
    &&& r is Ok ==> after == before.remove(index)
    &&& r is Err ==> after == before
}

/// A copy of `v`, element by element.
pub fn copy_transforms(v: &Vec<Transform>) -> (r: Vec<Transform>)
    ensures
        r@ == v@,
{
    let mut r: Vec<Transform> = Vec::with_capacity(v.len());
    let mut i: usize = 0;
    while i < v.len()
        invariant
            i <= v.len(),
            r@ == v@.subrange(0, i as int),
        decreases v.len() - i,
    {
        let t: Transform = v[i];
        r.push(t);
        i = i + 1;
    }
    assert(r@ == v@.subrange(0, v.len() as int));
    r
}

impl TransformCollection {
    pub open spec fn wf(&self) -> bool {
        self@.len() >= 1
    }

    /// A collection holding `first` alone.
    pub fn new(first: Transform) -> (r: TransformCollection)
        ensures
            r.wf(),
            r@ == seq![first],
    {
        let mut transforms: Vec<Transform> = Vec::new();
        transforms.push(first);
        TransformCollection { transforms }
    }

    /// A collection with the contents of `transforms`, or `None` where that
    /// is empty.
    pub fn from_vec(transforms: Vec<Transform>) -> (r: Option<TransformCollection>)
        ensures
            transforms@.len() == 0 <==> r is None,
            r matches Some(c) ==> c.wf() && c@ == transforms@,
    {
        if transforms.len() == 0 {
            None
        } else {
            Some(TransformCollection { transforms })
        }
    }

    pub fn len(&self) -> (r: usize)
        ensures
            r == self@.len(),
    {
        self.transforms.len()
    }

    pub fn get(&self, index: usize) -> (r: Transform)
        requires
            index < self@.len(),
        ensures
            r == self@[index as int],
    {
        self.transforms[index]
    }

    /// The transforms, in order.
    pub fn transforms(&self) -> (r: &Vec<Transform>)
        ensures
            r@ == self@,
    {
        &self.transforms
    }

    /// A copy of this collection.
    pub fn duplicate(&self) -> (r: TransformCollection)
        ensures
            r@ == self@,
    {
        TransformCollection { transforms: copy_transforms(&self.transforms) }
    }

    /// Appends `t`; always succeeds.
    pub fn add(&mut self, t: Transform)
        requires
            old(self).wf(),
        ensures
            final(self).wf(),
            final(self)@ == old(self)@.push(t),
    {
        self.transforms.push(t);
    }

    /// Removes the transform at `index`, shifting the later ones down by one.
    /// Fails, changing nothing, where `index` is out of bounds or the
    /// collection holds one transform only.
    pub fn delete(&mut self, index: usize) -> (r: Result<(), InvalidIndex>)
        requires
            old(self).wf(),
        ensures
            final(self).wf(),
            deleted(old(self)@, final(self)@, index as int, r),
    {
        if index < self.transforms.len() && self.transforms.len() > 1 {
            self.transforms.remove(index);
            Ok(())
        } else {
            Err(InvalidIndex)
        }
    }

    /// Replaces the transform at `index` by `t`.
    pub fn set(&mut self, index: usize, t: Transform)
        requires
            old(self).wf(),
            index < old(self)@.len(),
        ensures
            final(self).wf(),
            final(self)@ == old(self)@.update(index as int, t),
    {
        self.transforms.set(index, t);
    }
}

/// Deleting from a collection that holds a single transform fails with
/// `InvalidIndex`, whatever the index, and leaves the collection as it was.
pub proof fn lemma_sole_transform_not_deletable(
    before: Seq<Transform>,
    after: Seq<Transform>,
    index: int,
    r: Result<(), InvalidIndex>,
)
    requires
        before.len() == 1,
        deleted(before, after, index, r),
    ensures
        r is Err,
        after == before,
{
}

/// Appending a transform and then deleting the last index succeeds and gives
/// back the collection as it was, in content and order.
pub proof fn lemma_add_then_delete_last(
    before: Seq<Transform>,
    t: Transform,
    after: Seq<Transform>,
    r: Result<(), InvalidIndex>,
)
    requires
        before.len() >= 1,
        deleted(before.push(t), after, before.len() as int, r),
    ensures
        r is Ok,
        after == before,
{
    assert(before.push(t).remove(before.len() as int) =~= before);
}

} // verus!
