//! Keyframes: transform collections that are kept index-aligned, so that the
//! transform at index `i` of one keyframe corresponds to the one at index `i`
//! of every other keyframe.
use vstd::prelude::*;
use barnsley::transform::Transform;
use crate::collection::{TransformCollection, InvalidIndex, deletable, copy_transforms};
use crate::transforms::{transform_name, kind_name, random_of_kind};

verus! {

/// A set of keyframes whose lengths or kinds do not line up.
#[derive(Debug, Clone, Copy, PartialEq, Eq, Structural)]
pub struct Misaligned;

/// Whether `a` and `b` have the same length and, index by index, the same kinds.
pub open spec fn same_shape(a: Seq<Transform>, b: Seq<Transform>) -> bool {
    &&& a.len() == b.len()
    &&& forall|j: int| 0 <= j < a.len() ==> #[trigger] transform_name(a[j]) == transform_name(b[j])
}

/// Whether keyframes `ks` are aligned: at least one keyframe, none empty, and
/// every keyframe of the same shape as the first.
pub open spec fn aligned(ks: Seq<Seq<Transform>>) -> bool {
    &&& ks.len() >= 1
    &&& ks[0].len() >= 1
    &&& forall|k: int| 0 <= k < ks.len() ==> #[trigger] same_shape(ks[k], ks[0])
}

/// The keyframes `ks` with `t` appended to each.
pub open spec fn push_to_all(ks: Seq<Seq<Transform>>, t: Transform) -> Seq<Seq<Transform>> {
    Seq::new(ks.len(), |k: int| ks[k].push(t))
}

/// The keyframes `ks` with index `j` removed from each.
pub open spec fn remove_from_all(ks: Seq<Seq<Transform>>, j: int) -> Seq<Seq<Transform>> {
    Seq::new(ks.len(), |k: int| ks[k].remove(j))
}

/// The keyframes after a reload: the first becomes `first`; each other one
/// becomes `target`, or `first` too where there is no target.
pub open spec fn reloaded(
    count: nat,
    first: Seq<Transform>,
    target: Option<Seq<Transform>>,
) -> Seq<Seq<Transform>> {
    Seq::new(
        count,
        |k: int|
            if k == 0 {
                first
            } else {
                match target {
                    Some(t) => t,
                    None => first,
                }
            },
    )
}

/// Why an edit of one transform in place was refused.
#[derive(Debug, Clone, Copy, PartialEq, Eq, Structural)]
pub enum EditError {
    /// No such keyframe, or no such index in it.
    OutOfRange,
    /// The new transform is of another kind than the one it would replace.
    KindMismatch,
}

/// Whether `a` and `b` have the same kinds, index by index.
fn shapes_match(a: &Vec<Transform>, b: &Vec<Transform>) -> (r: bool)
    ensures
        r == same_shape(a@, b@),
{
    if a.len() != b.len() {
        return false;
    }
    let mut j: usize = 0;
    while j < a.len()
        invariant
            a@.len() == b@.len(),
            j <= a.len(),
            forall|i: int| 0 <= i < j ==> #[trigger] transform_name(a@[i]) == transform_name(b@[i]),
        decreases a.len() - j,
    {
        let na = kind_name(&a[j]);
        let nb = kind_name(&b[j]);
        if na != nb {
            return false;
        }
        j = j + 1;
    }
    true
}

/// An ordered list of keyframes with the step counts between consecutive ones.
/// It is the only mutator of the collections' structure, so the keyframes stay
/// aligned at all times.
pub struct KeyframeCoordinator {
    keyframes: Vec<TransformCollection>,
    step_counts: Vec<usize>,
}

impl View for KeyframeCoordinator {
    type V = Seq<Seq<Transform>>;

    closed spec fn view(&self) -> Seq<Seq<Transform>> {
        Seq::new(self.keyframes@.len(), |k: int| self.keyframes@[k]@)
    }
}

impl KeyframeCoordinator {
    /// The number of frames animated between consecutive keyframes.
    pub closed spec fn steps(&self) -> Seq<usize> {
        self.step_counts@
    }

    pub open spec fn wf(&self) -> bool {
        &&& aligned(self@)
        &&& self.steps().len() + 1 == self@.len()
    }

    /// The length that all keyframes share.
    pub open spec fn shared_len(&self) -> nat {
        self@[0].len()
    }

    /// Keyframes from `keyframes` and `step_counts`; fails where the
    /// keyframes are not aligned, or where there is not one step count
    /// fewer than keyframes.
    pub fn new(keyframes: Vec<TransformCollection>, step_counts: Vec<usize>) -> (r: Result<
        KeyframeCoordinator,
        Misaligned,
    >)
        ensures
            r is Ok <==> (aligned(Seq::new(keyframes@.len(), |k: int| keyframes@[k]@))
                && step_counts@.len() + 1 == keyframes@.len()),
            r matches Ok(c) ==> c.wf() && c@ == Seq::new(keyframes@.len(), |k: int| keyframes@[k]@)
                && c.steps() == step_counts@,
    {
        let ghost ks = Seq::new(keyframes@.len(), |k: int| keyframes@[k]@);
        if keyframes.len() == 0 || step_counts.len() != keyframes.len() - 1 {
            return Err(Misaligned);
        }
        if keyframes[0].len() == 0 {
            return Err(Misaligned);
        }
        let mut k: usize = 0;
        while k < keyframes.len()
            invariant
                k <= keyframes@.len(),
                ks == Seq::new(keyframes@.len(), |k: int| keyframes@[k]@),
                ks.len() >= 1,
                forall|i: int| 0 <= i < k ==> #[trigger] same_shape(ks[i], ks[0]),
            decreases keyframes.len() - k,
        {
            if !shapes_match(keyframes[k].transforms(), keyframes[0].transforms()) {
                assert(!same_shape(ks[k as int], ks[0]));
                return Err(Misaligned);
            }
            k = k + 1;
        }
        let c = KeyframeCoordinator { keyframes, step_counts };
        assert(c@ =~= ks);
        Ok(c)
    }

    /// Two keyframes, `start` and `end`, two frames apart; fails where they
    /// are not aligned.
    pub fn pair(start: TransformCollection, end: TransformCollection) -> (r: Result<
        KeyframeCoordinator,
        Misaligned,
    >)
        ensures
            r is Ok <==> aligned(seq![start@, end@]),
            r matches Ok(c) ==> c.wf() && c@ == seq![start@, end@] && c.steps() == seq![2usize],
    {
        let ghost want = seq![start@, end@];
        let keyframes = vec![start, end];
        let step_counts = vec![2usize];
        assert(Seq::new(keyframes@.len(), |k: int| keyframes@[k]@) =~= want);
        assert(step_counts@ =~= seq![2usize]);
        KeyframeCoordinator::new(keyframes, step_counts)
    }

    /// The length that all keyframes share.
    pub fn len(&self) -> (r: usize)
        requires
            self.wf(),
        ensures
            r == self.shared_len(),
    {
        self.keyframes[0].len()
    }

    /// The number of keyframes.
    pub fn keyframe_count(&self) -> (r: usize)
        ensures
            r == self@.len(),
    {
        self.keyframes.len()
    }

    /// Keyframe `k`.
    pub fn keyframe(&self, k: usize) -> (r: &TransformCollection)
        requires
            k < self@.len(),
        ensures
            r@ == self@[k as int],
    {
        &self.keyframes[k]
    }

    /// The step counts between consecutive keyframes.
    pub fn step_counts(&self) -> (r: &Vec<usize>)
        ensures
            r@ == self.steps(),
    {
        &self.step_counts
    }

    /// Appends `t` to every keyframe; always succeeds.
    pub fn add_to_all(&mut self, t: Transform)
        requires
            old(self).wf(),
        ensures
            final(self).wf(),
            final(self)@ == push_to_all(old(self)@, t),
            final(self).steps() == old(self).steps(),
    {
        let ghost ks = self@;
        let mut k: usize = 0;
        while k < self.keyframes.len()
            invariant
                k <= self@.len(),
                self@.len() == ks.len(),
                aligned(ks),
                self.step_counts == old(self).step_counts,
                self.keyframes@.len() == ks.len(),
                forall|i: int| 0 <= i < k ==> #[trigger] self.keyframes@[i]@ == ks[i].push(t),
                forall|i: int| k <= i < ks.len() ==> #[trigger] self.keyframes@[i]@ == ks[i],
            decreases ks.len() - k,
        {
            assert(same_shape(ks[k as int], ks[0]));
            let mut c = self.keyframes[k].duplicate();
            c.add(t);
            self.keyframes.set(k, c);
            k = k + 1;
        }
        assert(self@ =~= push_to_all(ks, t));
        assert forall|i: int| 0 <= i < self@.len() implies #[trigger] same_shape(self@[i], ks[0].push(t)) by {
            lemma_same_shape_edits(ks[i], ks[0], t, 0);
        }
        proof {
            lemma_aligned_by_reference(self@, ks[0].push(t));
        }
    }

    /// Removes index `index` from every keyframe. Fails with `InvalidIndex`,
    /// changing nothing, where the index is out of bounds or the keyframes
    /// hold a single transform each.
    pub fn delete_from_all(&mut self, index: usize) -> (r: Result<(), InvalidIndex>)
        requires
            old(self).wf(),
        ensures
            final(self).wf(),
            r is Ok <==> deletable(old(self)@[0], index as int),
            r is Ok ==> final(self)@ == remove_from_all(old(self)@, index as int),
            r is Err ==> final(self)@ == old(self)@,
            final(self).steps() == old(self).steps(),
    {
        let ghost ks = self@;
        let n = self.keyframes[0].len();
        if !(index < n && n > 1) {
            return Err(InvalidIndex);
        }
        let mut k: usize = 0;
        while k < self.keyframes.len()
            invariant
                k <= self@.len(),
                self@.len() == ks.len(),
                self.keyframes@.len() == ks.len(),
                aligned(ks),
                deletable(ks[0], index as int),
                self.step_counts == old(self).step_counts,
                forall|i: int| 0 <= i < k ==> #[trigger] self.keyframes@[i]@ == ks[i].remove(index as int),
                forall|i: int| k <= i < ks.len() ==> #[trigger] self.keyframes@[i]@ == ks[i],
            decreases ks.len() - k,
        {
            assert(same_shape(ks[k as int], ks[0]));
            let mut c = self.keyframes[k].duplicate();
            let _ = c.delete(index);
            self.keyframes.set(k, c);
            k = k + 1;
        }
        assert(self@ =~= remove_from_all(ks, index as int));
        assert forall|i: int| 0 <= i < self@.len() implies #[trigger] same_shape(self@[i], ks[0].remove(index as int)) by {
            lemma_same_shape_edits(ks[i], ks[0], ks[0][0], index as int);
        }
        proof {
            lemma_aligned_by_reference(self@, ks[0].remove(index as int));
        }
        Ok(())
    }

    /// Replaces keyframe `k` by `fresh`, which must have the shape of the
    /// keyframe it replaces. Fails, changing nothing, where there is no
    /// keyframe `k` or the shapes differ.
    pub fn set_keyframe(&mut self, k: usize, fresh: Vec<Transform>) -> (r: Result<(), Misaligned>)
        requires
            old(self).wf(),
        ensures
            final(self).wf(),
            final(self).steps() == old(self).steps(),
            r is Ok <==> (k < old(self)@.len() && same_shape(fresh@, old(self)@[k as int])),
            r is Ok ==> final(self)@ == old(self)@.update(k as int, fresh@),
            r is Err ==> *final(self) == *old(self),
    {
        let ghost ks = self@;
        if k >= self.keyframes.len() {
            return Err(Misaligned);
        }
        if !shapes_match(&fresh, self.keyframes[k].transforms()) {
            return Err(Misaligned);
        }
        assert(same_shape(ks[k as int], ks[0]));
        match TransformCollection::from_vec(fresh) {
            Some(c) => {
                self.keyframes.set(k, c);
            },
            None => {},
        }
        assert(self@ =~= ks.update(k as int, fresh@));
        assert forall|i: int| 0 <= i < self@.len() implies #[trigger] same_shape(self@[i], ks[0]) by {
            assert(same_shape(ks[i], ks[0]));
            if i == k {
                lemma_same_shape_trans(fresh@, ks[k as int], ks[0]);
            }
        }
        proof {
            lemma_aligned_by_reference(self@, ks[0]);
        }
        Ok(())
    }

    /// Replaces every transform of keyframe `k` by a fresh one of the same
    /// kind with randomly drawn parameters, and returns the drawn transforms.
    /// The other keyframes stay as they were.
    pub fn randomize_keyframe(&mut self, k: usize) -> (drawn: Vec<Transform>)
        requires
            old(self).wf(),
            k < old(self)@.len(),
        ensures
            final(self).wf(),
            final(self).steps() == old(self).steps(),
            same_shape(drawn@, old(self)@[k as int]),
            final(self)@ == old(self)@.update(k as int, drawn@),
    {
        let ghost ks = self@;
        let n = self.keyframes[k].len();
        let mut fresh: Vec<Transform> = Vec::with_capacity(n);
        let mut j: usize = 0;
        while j < n
            invariant
                j <= n,
                k < ks.len(),
                n == ks[k as int].len(),
                self@ == ks,
                self.keyframes@.len() == ks.len(),
                self.keyframes@[k as int]@ == ks[k as int],
                fresh@.len() == j,
                forall|i: int| 0 <= i < j ==> #[trigger] transform_name(fresh@[i]) == transform_name(ks[k as int][i]),
            decreases n - j,
        {
            let name = kind_name(&self.keyframes[k].get(j));
            let t = random_of_kind(&name);
            fresh.push(t);
            j = j + 1;
        }
        let drawn = copy_transforms(&fresh);
        let _ = self.set_keyframe(k, fresh);
        drawn
    }

    /// Replaces transform `j` of keyframe `k` by `t`, which must be of the
    /// same kind as the transform it replaces.
    pub fn set_transform(&mut self, k: usize, j: usize, t: Transform) -> (r: Result<(), EditError>)
        requires
            old(self).wf(),
        ensures
            final(self).wf(),
            final(self).steps() == old(self).steps(),
            r == (if !(k < old(self)@.len() && j < old(self).shared_len()) {
                Err(EditError::OutOfRange)
            } else if transform_name(t) != transform_name(old(self)@[k as int][j as int]) {
                Err(EditError::KindMismatch)
            } else {
                Ok::<(), EditError>(())
            }),
            r is Ok ==> final(self)@ == old(self)@.update(k as int, old(self)@[k as int].update(j as int, t)),
            r is Err ==> final(self)@ == old(self)@,
    {
        let ghost ks = self@;
        if !(k < self.keyframes.len() && j < self.keyframes[0].len()) {
            return Err(EditError::OutOfRange);
        }
        assert(same_shape(ks[k as int], ks[0]));
        let current = self.keyframes[k].get(j);
        let new_name = kind_name(&t);
        let old_name = kind_name(&current);
        if new_name != old_name {
            return Err(EditError::KindMismatch);
        }
        let mut c = self.keyframes[k].duplicate();
        c.set(j, t);
        self.keyframes.set(k, c);
        assert(self@ =~= ks.update(k as int, ks[k as int].update(j as int, t)));
        assert forall|i: int| 0 <= i < self@.len() implies #[trigger] same_shape(self@[i], ks[0]) by {
            assert(same_shape(ks[i], ks[0]));
            if i == k {
                assert(same_shape(ks[k as int].update(j as int, t), ks[k as int]));
                lemma_same_shape_trans(ks[k as int].update(j as int, t), ks[k as int], ks[0]);
            }
        }
        proof {
            lemma_aligned_by_reference(self@, ks[0]);
        }
        Ok(())
    }

    /// Replaces all keyframes at once: the first becomes `first`, and every
    /// other one becomes `target`, or `first` where there is no target. Fails,
    /// changing nothing, where `first` is empty or `target` is not of the
    /// same shape as `first`.
    pub fn replace_keyframes(
        &mut self,
        first: &TransformCollection,
        target: Option<&TransformCollection>,
    ) -> (r: Result<(), Misaligned>)
        requires
            old(self).wf(),
        ensures
            final(self).wf(),
            final(self).steps() == old(self).steps(),
            r is Ok <==> (first@.len() >= 1 && match target {
                Some(t) => same_shape(t@, first@),
                None => true,
            }),
            r is Ok ==> final(self)@ == reloaded(
                old(self)@.len(),
                first@,
                match target {
                    Some(t) => Some(t@),
                    None => None,
                },
            ),
            r is Err ==> *final(self) == *old(self),
    {
        if first.len() == 0 {
            return Err(Misaligned);
        }
        let others: &TransformCollection = match target {
            Some(t) => {
                if !shapes_match(t.transforms(), first.transforms()) {
                    return Err(Misaligned);
                }
                t
            },
            None => first,
        };
        let ghost want = reloaded(
            old(self)@.len(),
            first@,
            match target {
                Some(t) => Some(t@),
                None => None,
            },
        );
        let count = self.keyframes.len();
        let mut fresh: Vec<TransformCollection> = Vec::with_capacity(count);
        let mut k: usize = 0;
        while k < count
            invariant
                k <= count,
                count == old(self)@.len(),
                want.len() == count,
                forall|i: int| 0 <= i < count ==> #[trigger] want[i] == (if i == 0 {
                    first@
                } else {
                    others@
                }),
                fresh@.len() == k,
                forall|i: int| 0 <= i < k ==> #[trigger] fresh@[i]@ == want[i],
            decreases count - k,
        {
            if k == 0 {
                fresh.push(first.duplicate());
            } else {
                fresh.push(others.duplicate());
            }
            k = k + 1;
        }
        self.keyframes = fresh;
        assert(self@ =~= want);
        assert forall|i: int| 0 <= i < self@.len() implies #[trigger] same_shape(self@[i], first@) by {
            if i == 0 {
                lemma_same_shape_refl(first@);
            } else if target is None {
                lemma_same_shape_refl(first@);
            }
        }
        proof {
            lemma_aligned_by_reference(self@, first@);
        }
        Ok(())
    }
}

/// Starting from aligned keyframes of `L` transforms each, where each state
/// is the previous one with one transform appended to all keyframes, every
/// keyframe of the last state holds `L + N` transforms after `N` such steps.
pub proof fn lemma_add_to_all_repeated(states: Seq<Seq<Seq<Transform>>>, added: Seq<Transform>)
    requires
        states.len() == added.len() + 1,
        aligned(states[0]),
        forall|n: int| 0 <= n < added.len() ==> #[trigger] states[n + 1] == push_to_all(states[n], added[n]),
    ensures
        states.last().len() == states[0].len(),
        forall|k: int| 0 <= k < states.last().len() ==> #[trigger] states.last()[k].len() == states[0][0].len() + added.len(),
    decreases added.len(),
{
    if added.len() > 0 {
        let n = added.len() - 1;
        let prefix = states.drop_last();
        assert forall|m: int| 0 <= m < added.drop_last().len() implies #[trigger] prefix[m + 1] == push_to_all(prefix[m], added.drop_last()[m]) by {
            assert(states[m + 1] == push_to_all(states[m], added[m]));
        }
        lemma_add_to_all_repeated(prefix, added.drop_last());
        assert(states[n + 1] == push_to_all(states[n], added[n]));
        assert(prefix.last() == states[n]);
        assert forall|k: int| 0 <= k < states.last().len() implies #[trigger] states.last()[k].len() == states[0][0].len() + added.len() by {
            assert(states.last()[k] == states[n][k].push(added[n]));
        }
    } else {
        assert(same_shape(states[0][0], states[0][0]));
        assert forall|k: int| 0 <= k < states.last().len() implies #[trigger] states.last()[k].len() == states[0][0].len() + added.len() by {
            assert(same_shape(states[0][k], states[0][0]));
        }
    }
}

/// Appending one transform to both, or removing one index from both, keeps
/// two sequences of the same shape.
pub proof fn lemma_same_shape_edits(a: Seq<Transform>, b: Seq<Transform>, t: Transform, i: int)
    requires
        same_shape(a, b),
    ensures
        same_shape(a.push(t), b.push(t)),
        0 <= i < a.len() ==> same_shape(a.remove(i), b.remove(i)),
{
    assert forall|j: int| 0 <= j < a.push(t).len() implies #[trigger] transform_name(a.push(t)[j])
        == transform_name(b.push(t)[j]) by {
        if j < a.len() {
            assert(transform_name(a[j]) == transform_name(b[j]));
        }
    }
    if 0 <= i < a.len() {
        assert forall|j: int| 0 <= j < a.remove(i).len() implies #[trigger] transform_name(a.remove(i)[j])
            == transform_name(b.remove(i)[j]) by {
            if j < i {
                assert(transform_name(a[j]) == transform_name(b[j]));
            } else {
                assert(transform_name(a[j + 1]) == transform_name(b[j + 1]));
            }
        }
    }
}

/// Every sequence has its own shape.
pub proof fn lemma_same_shape_refl(a: Seq<Transform>)
    ensures
        same_shape(a, a),
{
}

/// Having the same shape is symmetric and transitive.
pub proof fn lemma_same_shape_trans(a: Seq<Transform>, b: Seq<Transform>, c: Seq<Transform>)
    requires
        same_shape(a, b),
        same_shape(b, c),
    ensures
        same_shape(a, c),
        same_shape(b, a),
{
    assert forall|j: int| 0 <= j < a.len() implies #[trigger] transform_name(a[j]) == transform_name(c[j]) by {
        assert(transform_name(a[j]) == transform_name(b[j]));
        assert(transform_name(b[j]) == transform_name(c[j]));
    }
    assert forall|j: int| 0 <= j < b.len() implies #[trigger] transform_name(b[j]) == transform_name(a[j]) by {
        assert(transform_name(a[j]) == transform_name(b[j]));
    }
}

/// Keyframes that all have the shape of one non-empty sequence are aligned.
pub proof fn lemma_aligned_by_reference(ks: Seq<Seq<Transform>>, s: Seq<Transform>)
    requires
        ks.len() >= 1,
        s.len() >= 1,
        forall|k: int| 0 <= k < ks.len() ==> #[trigger] same_shape(ks[k], s),
    ensures
        aligned(ks),
{
    assert(same_shape(ks[0], s));
    assert forall|k: int| 0 <= k < ks.len() implies #[trigger] same_shape(ks[k], ks[0]) by {
        assert(same_shape(ks[k], s));
        lemma_same_shape_trans(ks[0], s, s);
        lemma_same_shape_trans(s, ks[0], ks[0]);
        lemma_same_shape_trans(ks[k], s, ks[0]);
    }
}

} // verus!
