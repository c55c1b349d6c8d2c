//! Per-tick dirty state: the "changed" and "delete me" signals that the
//! transform edit widgets report during one tick, folded into two flags.
use vstd::prelude::*;
use barnsley::transform::Transform;

verus! {

/// What the edit widget of one transform reported during a tick: whether a
/// parameter changed, whether its delete button was pressed, and the
/// transform as it stands after the edit.
#[derive(Clone, Copy)]
pub struct WidgetReport {
    pub changed: bool,
    pub delete_requested: bool,
    pub value: Transform,
}

/// Whether the cached raster is stale, and which transform, if any, is to be
/// deleted at the end of the tick.
#[derive(Debug, Clone, Copy, PartialEq, Eq, Structural)]
pub struct DirtyFlags {
    pub needs_render: bool,
    pub delete_pending: Option<usize>,
}

/// Whether some report in `rs` says that its transform changed.
pub open spec fn any_changed(rs: Seq<WidgetReport>) -> bool {
    exists|j: int| 0 <= j < rs.len() && (#[trigger] rs[j]).changed
}

/// The index of the last report in `rs` that asks for a delete, or `prior`
/// where none does: the last request in traversal order wins.
pub open spec fn last_delete(rs: Seq<WidgetReport>, prior: Option<usize>) -> Option<usize>
    decreases rs.len(),
{
    if rs.len() == 0 {
        prior
    } else if rs.last().delete_requested {
        Some((rs.len() - 1) as usize)
    } else {
        last_delete(rs.drop_last(), prior)
    }
}

/// The flags after folding the reports `rs` into `f`.
pub open spec fn absorbed(f: DirtyFlags, rs: Seq<WidgetReport>) -> DirtyFlags {
    DirtyFlags {
        needs_render: f.needs_render || any_changed(rs),
        delete_pending: last_delete(rs, f.delete_pending),
    }
}

impl DirtyFlags {
    /// Nothing to render, nothing to delete.
    pub fn clean() -> (r: DirtyFlags)
        ensures
            r == (DirtyFlags { needs_render: false, delete_pending: None }),
    {
        DirtyFlags { needs_render: false, delete_pending: None }
    }

    /// Folds the reports of one traversal of the edit widgets, in traversal
    /// order, into the flags: `needs_render` by logical or, `delete_pending`
    /// by the last request.
    pub fn absorb(&mut self, reports: &Vec<WidgetReport>)
        ensures
            *final(self) == absorbed(*old(self), reports@),
    {
        let ghost start = *self;
        let mut j: usize = 0;
        while j < reports.len()
            invariant
                j <= reports@.len(),
                *self == absorbed(start, reports@.subrange(0, j as int)),
            decreases reports.len() - j,
        {
            let ghost before = reports@.subrange(0, j as int);
            let ghost after = reports@.subrange(0, j + 1);
            assert(after.drop_last() =~= before);
            assert(after.last() == reports@[j as int]);
            if reports[j].changed {
                self.needs_render = true;
                assert(after[j as int].changed);
            } else {
                proof {
                    if any_changed(after) {
                        let w = choose|w: int| 0 <= w < after.len() && (#[trigger] after[w]).changed;
                        assert(before[w].changed);
                    }
                }
            }
            proof {
                if any_changed(before) {
                    let w = choose|w: int| 0 <= w < before.len() && (#[trigger] before[w]).changed;
                    assert(after[w].changed);
                }
            }
            if reports[j].delete_requested {
                self.delete_pending = Some(j);
            }
            j = j + 1;
        }
        assert(reports@.subrange(0, reports@.len() as int) =~= reports@);
    }
}

} // verus!
