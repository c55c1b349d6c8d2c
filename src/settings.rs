//! Render settings, the edits that the settings sliders make to them, and the
//! downsampling factor used when a raster is turned into pixels.
use vstd::prelude::*;

verus! {

/// Size of the raster and effort of the evaluation.
#[derive(Debug, Clone, Copy, PartialEq, Eq, Structural)]
pub struct RenderSettings {
    pub width: usize,
    pub height: usize,
    pub num_points: usize,
    pub num_iterations: usize,
}

/// One change made with a settings slider: the setting and its new value.
#[derive(Debug, Clone, Copy, PartialEq, Eq, Structural)]
pub enum SliderChange {
    Width(usize),
    Height(usize),
    Points(usize),
    Iterations(usize),
}

/// The settings `s` after the change `c`.
pub open spec fn slid(s: RenderSettings, c: SliderChange) -> RenderSettings {
    match c {
        SliderChange::Width(v) => RenderSettings { width: v, ..s },
        SliderChange::Height(v) => RenderSettings { height: v, ..s },
        SliderChange::Points(v) => RenderSettings { num_points: v, ..s },
        SliderChange::Iterations(v) => RenderSettings { num_iterations: v, ..s },
    }
}

/// The settings `s` after the changes `cs`, in order.
pub open spec fn slid_all(s: RenderSettings, cs: Seq<SliderChange>) -> RenderSettings
    decreases cs.len(),
{
    if cs.len() == 0 {
        s
    } else {
        slid(slid_all(s, cs.drop_last()), cs.last())
    }
}

impl RenderSettings {
    /// The settings an editor starts with: a 1024 by 1024 raster, 1000 points
    /// of 1000 iterations each.
    pub fn initial() -> (r: RenderSettings)
        ensures
            r == (RenderSettings { width: 1024, height: 1024, num_points: 1000, num_iterations: 1000 }),
    {
        RenderSettings { width: 1024, height: 1024, num_points: 1000, num_iterations: 1000 }
    }

    /// The settings after the change `c`.
    pub fn apply(&mut self, c: SliderChange)
        ensures
            *final(self) == slid(*old(self), c),
    {
        match c {
            SliderChange::Width(v) => self.width = v,
            SliderChange::Height(v) => self.height = v,
            SliderChange::Points(v) => self.num_points = v,
            SliderChange::Iterations(v) => self.num_iterations = v,
        }
    }

    /// The settings after the changes `cs`, in order.
    pub fn apply_all(&mut self, cs: &Vec<SliderChange>)
        ensures
            *final(self) == slid_all(*old(self), cs@),
    {
        let ghost start = *self;
        let mut i: usize = 0;
        while i < cs.len()
            invariant
                i <= cs@.len(),
                *self == slid_all(start, cs@.subrange(0, i as int)),
            decreases cs.len() - i,
        {
            assert(cs@.subrange(0, i + 1).drop_last() =~= cs@.subrange(0, i as int));
            self.apply(cs[i]);
            i = i + 1;
        }
        assert(cs@.subrange(0, cs@.len() as int) =~= cs@);
    }
}

/// The downsampling factor: the number of evaluated points per pixel,
/// rounded down, and at least one.
pub open spec fn scale_of(width: int, height: int, num_points: int, num_iterations: int) -> int {
    let q = (num_points * num_iterations) / (width * height);
    if q < 1 {
        1
    } else {
        q
    }
}

/// `max(1, floor(num_points * num_iterations / (width * height)))`, the same
/// for the preview and for an exported file.
pub fn save_scale(width: usize, height: usize, num_points: usize, num_iterations: usize) -> (r: usize)
    requires
        width >= 1,
        height >= 1,
        scale_of(width as int, height as int, num_points as int, num_iterations as int) <= usize::MAX,
    ensures
        r == scale_of(width as int, height as int, num_points as int, num_iterations as int),
{
    let w = width as u128;
    let h = height as u128;
    let p = num_points as u128;
    let n = num_iterations as u128;
    assert(w * h <= 0xffff_ffff_ffff_ffffu128 * 0xffff_ffff_ffff_ffffu128) by (nonlinear_arith)
        requires
            w <= 0xffff_ffff_ffff_ffffu128,
            h <= 0xffff_ffff_ffff_ffffu128,
    ;
    assert(p * n <= 0xffff_ffff_ffff_ffffu128 * 0xffff_ffff_ffff_ffffu128) by (nonlinear_arith)
        requires
            p <= 0xffff_ffff_ffff_ffffu128,
            n <= 0xffff_ffff_ffff_ffffu128,
    ;
    assert(w * h >= 1) by (nonlinear_arith)
        requires
            w >= 1,
            h >= 1,
    ;
    let area = w * h;
    let points = p * n;
    let q = points / area;
    if q < 1 {
        1
    } else {
        q as usize
    }
}

} // verus!
