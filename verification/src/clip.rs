//! Clipping a glyph quad to a section's bounding box.
//!
//! A glyph is drawn as a screen rectangle together with a texture (uv)
//! rectangle; the two are related by a common parameterization, so when a
//! screen edge is pulled in to a bound, the uv edge on the same side moves by
//! the same fraction of its extent.  Only an edge that strictly exceeds its
//! bound clips; an edge that exactly touches the bound is left alone.  A quad
//! whose clamped screen rectangle is empty on either axis is dropped.

use vstd::prelude::*;
use vstd::arithmetic::div_mod::{
    lemma_div_is_ordered, lemma_div_multiples_vanish, lemma_div_pos_is_pos,
    lemma_fundamental_div_mod, lemma_mod_bound,
};
use vstd::arithmetic::mul::{lemma_mul_inequality, lemma_mul_upper_bound};
use vstd::math::{max, min};

verus! {

/// Largest coordinate magnitude the clipper accepts.  It keeps every
/// intermediate product of the proportional rescale within `u64`.
pub const COORD_LIMIT: i64 = 0x2000_0000;

/// An axis-aligned rectangle in fixed-point coordinates.
#[derive(Clone, Copy, Debug, PartialEq, Eq, Structural)]
pub struct Rect {
    pub min_x: i64,
    pub min_y: i64,
    pub max_x: i64,
    pub max_y: i64,
}

impl Rect {
    /// A well-formed rectangle: min does not exceed max on either axis.
    pub open spec fn wf(self) -> bool {
        self.min_x <= self.max_x && self.min_y <= self.max_y
    }

    /// Non-degenerate: positive extent on both axes.
    pub open spec fn proper(self) -> bool {
        self.min_x < self.max_x && self.min_y < self.max_y
    }

    /// Every coordinate within the clipper's fixed-point range.
    pub open spec fn bounded(self) -> bool {
        &&& -COORD_LIMIT <= self.min_x && self.min_x <= COORD_LIMIT
        &&& -COORD_LIMIT <= self.max_x && self.max_x <= COORD_LIMIT
        &&& -COORD_LIMIT <= self.min_y && self.min_y <= COORD_LIMIT
        &&& -COORD_LIMIT <= self.max_y && self.max_y <= COORD_LIMIT
    }

    /// `self` lies inside `b`; touching edges count as inside.
    pub open spec fn inside(self, b: Rect) -> bool {
        &&& b.min_x <= self.min_x && self.max_x <= b.max_x
        &&& b.min_y <= self.min_y && self.max_y <= b.max_y
    }
}

/// The uv span kept when a screen interval of extent `full` shrinks to
/// extent `kept`: `extent * kept / full`, rounding toward zero.
pub open spec fn scaled_extent(extent: int, kept: int, full: int) -> int {
    extent * kept / full
}

/// The clipped low screen edge on one axis: clamped up to its bound.
pub open spec fn clipped_lo(lo: int, blo: int) -> int {
    max(lo, blo)
}

/// The clipped high screen edge on one axis: clamped down to its bound.
pub open spec fn clipped_hi(hi: int, bhi: int) -> int {
    min(hi, bhi)
}

/// Whether a quad survives clipping: its clamped screen rectangle keeps a
/// positive extent on both axes.
pub open spec fn survives(screen: Rect, bounds: Rect) -> bool {
    &&& clipped_lo(screen.min_x as int, bounds.min_x as int)
        < clipped_hi(screen.max_x as int, bounds.max_x as int)
    &&& clipped_lo(screen.min_y as int, bounds.min_y as int)
        < clipped_hi(screen.max_y as int, bounds.max_y as int)
}

/// The high uv edge after clipping one axis: rescaled proportionally when
/// the high screen edge strictly exceeds its bound, otherwise untouched.
pub open spec fn uv_hi_clipped(lo: int, hi: int, ulo: int, uhi: int, bhi: int) -> int {
    if hi > bhi {
        ulo + scaled_extent(uhi - ulo, bhi - lo, hi - lo)
    } else {
        uhi
    }
}

/// The low uv edge after clipping one axis.  The high side clips first: the
/// uv edge farthest from a clipped side is the one preserved, so the low
/// rescale measures from the (possibly already rescaled) high uv edge.
pub open spec fn uv_lo_clipped(lo: int, hi: int, ulo: int, uhi: int, blo: int, bhi: int) -> int {
    let hi1 = clipped_hi(hi, bhi);
    let uhi1 = uv_hi_clipped(lo, hi, ulo, uhi, bhi);
    if lo < blo {
        uhi1 - scaled_extent(uhi1 - ulo, hi1 - blo, hi1 - lo)
    } else {
        ulo
    }
}

/// A proportional rescale keeps a nonnegative extent within the original.
proof fn lemma_scaled_extent_bounds(extent: int, kept: int, full: int)
    requires
        0 <= extent,
        0 <= kept,
        kept <= full,
        0 < full,
    ensures
        0 <= scaled_extent(extent, kept, full),
        scaled_extent(extent, kept, full) <= extent,
{
    lemma_div_pos_is_pos(extent * kept, full);
    lemma_mul_inequality(kept, full, extent);
    lemma_div_is_ordered(extent * kept, extent * full, full);
    lemma_div_multiples_vanish(extent, full);
}

/// The proportional rescale is exact up to the rounding of one integer
/// division: the rescaled extent, brought back over the full screen
/// extent, falls short of `extent * kept` by less than one `full`.  In
/// other words, `scaled_extent(extent, kept, full)` is within one unit
/// below the exact ratio `extent * kept / full`.
pub proof fn lemma_scaled_extent_error(extent: int, kept: int, full: int)
    requires
        0 <= extent,
        0 <= kept,
        kept <= full,
        0 < full,
    ensures
        full * scaled_extent(extent, kept, full) <= extent * kept,
        extent * kept < full * (scaled_extent(extent, kept, full) + 1),
{
    lemma_fundamental_div_mod(extent * kept, full);
    lemma_mod_bound(extent * kept, full);
    assert(full * (scaled_extent(extent, kept, full) + 1) == full * scaled_extent(
        extent,
        kept,
        full,
    ) + full) by (nonlinear_arith);
}

/// Clip one axis: `lo..hi` is the screen interval, `ulo..uhi` the uv
/// interval, `blo..bhi` the bound.  Returns the clipped
/// `(lo, hi, ulo, uhi)`, or `None` when the clamped interval is empty.
fn clip_axis_run(lo: i64, hi: i64, ulo: i64, uhi: i64, blo: i64, bhi: i64) -> (r: Option<(
    i64,
    i64,
    i64,
    i64,
)>)
    requires
        -COORD_LIMIT <= lo,
        lo <= hi,
        hi <= COORD_LIMIT,
        -COORD_LIMIT <= ulo,
        ulo <= uhi,
        uhi <= COORD_LIMIT,
    ensures
        r is Some <==> clipped_lo(lo as int, blo as int) < clipped_hi(hi as int, bhi as int),
        (r matches Some(t) ==> {
            &&& t.0 == clipped_lo(lo as int, blo as int)
            &&& t.1 == clipped_hi(hi as int, bhi as int)
            &&& t.2 == uv_lo_clipped(lo as int, hi as int, ulo as int, uhi as int, blo as int, bhi as int)
            &&& t.3 == uv_hi_clipped(lo as int, hi as int, ulo as int, uhi as int, bhi as int)
            &&& ulo <= t.2 && t.2 <= t.3 && t.3 <= uhi
        }),
{
    let mut hi1: i64 = hi;
    let mut uhi1: i64 = uhi;
    if hi > bhi {
        if bhi <= lo {
            return None;
        }
        let full: u64 = (hi - lo) as u64;
        let kept: u64 = (bhi - lo) as u64;
        let extent: u64 = (uhi - ulo) as u64;
        proof {
            lemma_mul_upper_bound(extent as int, 2 * COORD_LIMIT as int, kept as int, 2 * COORD_LIMIT as int);
            lemma_scaled_extent_bounds(extent as int, kept as int, full as int);
        }
        let scaled: u64 = extent * kept / full;
        hi1 = bhi;
        uhi1 = ulo + (scaled as i64);
    }
    let mut lo1: i64 = lo;
    let mut ulo1: i64 = ulo;
    if lo < blo {
        if blo >= hi1 {
            return None;
        }
        let full2: u64 = (hi1 - lo) as u64;
        let kept2: u64 = (hi1 - blo) as u64;
        let extent2: u64 = (uhi1 - ulo) as u64;
        proof {
            lemma_mul_upper_bound(extent2 as int, 2 * COORD_LIMIT as int, kept2 as int, 2 * COORD_LIMIT as int);
            lemma_scaled_extent_bounds(extent2 as int, kept2 as int, full2 as int);
        }
        let scaled2: u64 = extent2 * kept2 / full2;
        lo1 = blo;
        ulo1 = uhi1 - (scaled2 as i64);
    }
    if lo1 >= hi1 {
        return None;
    }
    Some((lo1, hi1, ulo1, uhi1))
}

/// Clip a glyph quad to a bounding box.
///
/// Each screen edge that strictly exceeds the corresponding edge of
/// `bounds` is clamped to it, and the uv edge on the same side is rescaled
/// so that the uv extent shrinks by the same proportion as the screen
/// extent.  An edge that exactly touches its bound is not clipped.  Returns
/// `None` exactly when the clamped screen rectangle is degenerate on some
/// axis; otherwise the clipped quad, with the screen rectangle inside
/// `bounds` and the uv rectangle inside the original `uv`.  A quad already
/// inside `bounds` comes back unchanged.
pub fn clip(screen: Rect, uv: Rect, bounds: Rect) -> (r: Option<(Rect, Rect)>)
    requires
        screen.wf(),
        uv.wf(),
        screen.bounded(),
        uv.bounded(),
    ensures
        r is Some <==> survives(screen, bounds),
        (r matches Some(p) ==> {
            &&& p.0.proper()
            &&& p.0.inside(bounds)
            &&& p.1.wf()
            &&& p.1.inside(uv)
            &&& p.0.min_x == clipped_lo(screen.min_x as int, bounds.min_x as int)
            &&& p.0.max_x == clipped_hi(screen.max_x as int, bounds.max_x as int)
            &&& p.0.min_y == clipped_lo(screen.min_y as int, bounds.min_y as int)
            &&& p.0.max_y == clipped_hi(screen.max_y as int, bounds.max_y as int)
            &&& p.1.min_x == uv_lo_clipped(
                screen.min_x as int,
                screen.max_x as int,
                uv.min_x as int,
                uv.max_x as int,
                bounds.min_x as int,
                bounds.max_x as int,
            )
            &&& p.1.max_x == uv_hi_clipped(
                screen.min_x as int,
                screen.max_x as int,
                uv.min_x as int,
                uv.max_x as int,
                bounds.max_x as int,
            )
            &&& p.1.min_y == uv_lo_clipped(
                screen.min_y as int,
                screen.max_y as int,
                uv.min_y as int,
                uv.max_y as int,
                bounds.min_y as int,
                bounds.max_y as int,
            )
            &&& p.1.max_y == uv_hi_clipped(
                screen.min_y as int,
                screen.max_y as int,
                uv.min_y as int,
                uv.max_y as int,
                bounds.max_y as int,
            )
        }),
        screen.inside(bounds) && screen.proper() ==> (r matches Some(p) && p.0 == screen && p.1
            == uv),
{
    let cx = clip_axis_run(screen.min_x, screen.max_x, uv.min_x, uv.max_x, bounds.min_x, bounds.max_x);
    let cy = clip_axis_run(screen.min_y, screen.max_y, uv.min_y, uv.max_y, bounds.min_y, bounds.max_y);
    match (cx, cy) {
        (Some(x), Some(y)) => {
            let s = Rect { min_x: x.0, min_y: y.0, max_x: x.1, max_y: y.1 };
            let u = Rect { min_x: x.2, min_y: y.2, max_x: x.3, max_y: y.3 };
            Some((s, u))
        },
        _ => None,
    }
}

/// Clipper identity: a non-degenerate quad already inside the bounds
/// survives and every clipped edge, screen and uv alike, is unchanged.
pub proof fn lemma_clip_identity(screen: Rect, uv: Rect, bounds: Rect)
    requires
        screen.wf(),
        screen.proper(),
        screen.inside(bounds),
    ensures
        survives(screen, bounds),
        clipped_lo(screen.min_x as int, bounds.min_x as int) == screen.min_x,
        clipped_hi(screen.max_x as int, bounds.max_x as int) == screen.max_x,
        clipped_lo(screen.min_y as int, bounds.min_y as int) == screen.min_y,
        clipped_hi(screen.max_y as int, bounds.max_y as int) == screen.max_y,
        uv_lo_clipped(
            screen.min_x as int,
            screen.max_x as int,
            uv.min_x as int,
            uv.max_x as int,
            bounds.min_x as int,
            bounds.max_x as int,
        ) == uv.min_x,
        uv_hi_clipped(
            screen.min_x as int,
            screen.max_x as int,
            uv.min_x as int,
            uv.max_x as int,
            bounds.max_x as int,
        ) == uv.max_x,
        uv_lo_clipped(
            screen.min_y as int,
            screen.max_y as int,
            uv.min_y as int,
            uv.max_y as int,
            bounds.min_y as int,
            bounds.max_y as int,
        ) == uv.min_y,
        uv_hi_clipped(
            screen.min_y as int,
            screen.max_y as int,
            uv.min_y as int,
            uv.max_y as int,
            bounds.max_y as int,
        ) == uv.max_y,
{
}

/// Touching is not clipping: edges that exactly meet their bound leave the
/// quad unchanged, exactly as any quad inside the bounds.
pub proof fn lemma_clip_touching_edge(screen: Rect, uv: Rect, bounds: Rect)
    requires
        screen.wf(),
        screen.proper(),
        screen.inside(bounds),
        screen.max_x == bounds.max_x || screen.min_x == bounds.min_x || screen.max_y
            == bounds.max_y || screen.min_y == bounds.min_y,
    ensures
        survives(screen, bounds),
        clipped_lo(screen.min_x as int, bounds.min_x as int) == screen.min_x,
        clipped_hi(screen.max_x as int, bounds.max_x as int) == screen.max_x,
        clipped_lo(screen.min_y as int, bounds.min_y as int) == screen.min_y,
        clipped_hi(screen.max_y as int, bounds.max_y as int) == screen.max_y,
        uv_lo_clipped(
            screen.min_x as int,
            screen.max_x as int,
            uv.min_x as int,
            uv.max_x as int,
            bounds.min_x as int,
            bounds.max_x as int,
        ) == uv.min_x,
        uv_hi_clipped(
            screen.min_x as int,
            screen.max_x as int,
            uv.min_x as int,
            uv.max_x as int,
            bounds.max_x as int,
        ) == uv.max_x,
        uv_lo_clipped(
            screen.min_y as int,
            screen.max_y as int,
            uv.min_y as int,
            uv.max_y as int,
            bounds.min_y as int,
            bounds.max_y as int,
        ) == uv.min_y,
        uv_hi_clipped(
            screen.min_y as int,
            screen.max_y as int,
            uv.min_y as int,
            uv.max_y as int,
            bounds.max_y as int,
        ) == uv.max_y,
{
    lemma_clip_identity(screen, uv, bounds);
}

/// The clipped uv interval of one axis stays within the original uv
/// interval whenever the clipped screen interval is non-degenerate.
pub proof fn lemma_uv_clipped_within(lo: int, hi: int, ulo: int, uhi: int, blo: int, bhi: int)
    requires
        lo <= hi,
        ulo <= uhi,
        clipped_lo(lo, blo) < clipped_hi(hi, bhi),
    ensures
        ulo <= uv_lo_clipped(lo, hi, ulo, uhi, blo, bhi),
        uv_lo_clipped(lo, hi, ulo, uhi, blo, bhi) <= uv_hi_clipped(lo, hi, ulo, uhi, bhi),
        uv_hi_clipped(lo, hi, ulo, uhi, bhi) <= uhi,
{
    let hi1 = clipped_hi(hi, bhi);
    let uhi1 = uv_hi_clipped(lo, hi, ulo, uhi, bhi);
    if hi > bhi {
        lemma_scaled_extent_bounds(uhi - ulo, bhi - lo, hi - lo);
    }
    if lo < blo {
        lemma_scaled_extent_bounds(uhi1 - ulo, hi1 - blo, hi1 - lo);
    }
}

/// Proportionality, high side: when only the high edge of an axis clips,
/// the clipped uv extent is the uv extent scaled by the ratio of the
/// clipped screen extent to the original screen extent.
pub proof fn lemma_clip_proportional_hi(lo: int, hi: int, ulo: int, uhi: int, blo: int, bhi: int)
    requires
        lo < hi,
        ulo <= uhi,
        blo <= lo,
        lo < bhi,
        bhi < hi,
    ensures
        uv_hi_clipped(lo, hi, ulo, uhi, bhi) - uv_lo_clipped(lo, hi, ulo, uhi, blo, bhi)
            == scaled_extent(uhi - ulo, clipped_hi(hi, bhi) - lo, hi - lo),
{
}

/// Proportionality, low side: when only the low edge of an axis clips, the
/// clipped uv extent is the uv extent scaled by the ratio of the clipped
/// screen extent to the original screen extent.
pub proof fn lemma_clip_proportional_lo(lo: int, hi: int, ulo: int, uhi: int, blo: int, bhi: int)
    requires
        lo < hi,
        ulo <= uhi,
        hi <= bhi,
        lo < blo,
        blo < hi,
    ensures
        uv_hi_clipped(lo, hi, ulo, uhi, bhi) - uv_lo_clipped(lo, hi, ulo, uhi, blo, bhi)
            == scaled_extent(uhi - ulo, hi - clipped_lo(lo, blo), hi - lo),
{
}

} // verus!
