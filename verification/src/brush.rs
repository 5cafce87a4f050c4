//! The section queue and the update-cycle processor.
//!
//! Callers queue text sections; an external layout engine shapes them and
//! answers with raster-copy instructions plus one of three outcomes: new
//! geometry (`Draw`), no geometry change (`Unchanged`), or a request to grow
//! the atlas (`NeedsResize`).  The processor applies the copies to the
//! atlas, clips every draw instruction to its section's bounds, and keeps
//! the vertex list of the most recent drawing cycle.

use vstd::prelude::*;
use crate::atlas::{written, Atlas};
use crate::clip::{clip, clipped_hi, clipped_lo, survives, uv_hi_clipped, uv_lo_clipped, Rect, COORD_LIMIT};

verus! {

/// An RGBA color carried through the pipeline untouched, one channel per
/// 32-bit word; callers typically store raw float bits here.
#[derive(Clone, Copy, Debug, PartialEq, Eq, Structural)]
pub struct Color {
    pub r: u32,
    pub g: u32,
    pub b: u32,
    pub a: u32,
}

/// One glyph quad of the current cycle: a screen rectangle, the matching
/// atlas uv rectangle, and the section's color.
#[derive(Clone, Copy, Debug, PartialEq, Eq, Structural)]
pub struct Vertex {
    pub screen: Rect,
    pub uv: Rect,
    pub color: Color,
}

/// A raster-copy instruction from the layout engine: a `w * h` coverage
/// block destined for atlas position `(x, y)`.
pub struct CopyBlock {
    pub x: u32,
    pub y: u32,
    pub w: u32,
    pub h: u32,
    pub data: Vec<u8>,
}

/// A draw instruction from the layout engine: an unclipped glyph quad and
/// the section bounds to clip it against.
#[derive(Clone, Copy, Debug, PartialEq, Eq, Structural)]
pub struct DrawQuad {
    pub screen: Rect,
    pub uv: Rect,
    pub bounds: Rect,
    pub color: Color,
}

/// What the layout engine reported for one update cycle.
pub enum LayoutOutcome {
    /// New geometry: the clipped draw instructions replace the vertex list.
    Draw(Vec<DrawQuad>),
    /// Only atlas contents changed; the previous vertex list stands.
    Unchanged,
    /// The atlas cannot hold the queued glyphs: grow it to the suggested
    /// dimensions and run another cycle.
    NeedsResize(u32, u32),
}

/// One queued text section, in plain values: fixed-point coordinates, raw
/// color bits, and the id of a registered font.
pub struct QueuedSection {
    pub text: String,
    pub pos_x: i64,
    pub pos_y: i64,
    pub bound_x: i64,
    pub bound_y: i64,
    pub scale_x: i64,
    pub scale_y: i64,
    pub color: Color,
    pub font_id: u32,
}

impl CopyBlock {
    /// The copy lies within an atlas of the given dimensions and carries
    /// exactly one byte per texel.
    pub open spec fn fits(self, width: int, height: int) -> bool {
        &&& self.x + self.w <= width
        &&& self.y + self.h <= height
        &&& self.data@.len() == self.w * self.h
    }
}

impl DrawQuad {
    /// Both rectangles are well-formed and within the clipper's range.
    pub open spec fn wf(self) -> bool {
        &&& self.screen.wf()
        &&& self.uv.wf()
        &&& self.screen.bounded()
        &&& self.uv.bounded()
    }
}

/// The atlas buffer after applying a sequence of raster copies in order;
/// a copy that does not fit the dimensions is rejected and changes nothing.
pub open spec fn atlas_after_copies(
    p: Seq<u8>,
    width: int,
    height: int,
    blocks: Seq<CopyBlock>,
) -> Seq<u8>
    decreases blocks.len(),
{
    if blocks.len() == 0 {
        p
    } else {
        let prev = atlas_after_copies(p, width, height, blocks.drop_last());
        let c = blocks.last();
        if c.fits(width, height) {
            written(prev, width, c.x as int, c.y as int, c.w as int, c.h as int, c.data@)
        } else {
            prev
        }
    }
}

/// Whether any copy of the sequence fits the given atlas dimensions (and
/// so marks the atlas dirty when applied).
pub open spec fn any_copy_fits(blocks: Seq<CopyBlock>, width: int, height: int) -> bool {
    exists|i: int| 0 <= i < blocks.len() && blocks[i].fits(width, height)
}

/// The vertex a surviving draw instruction contributes: its quad clipped
/// to its bounds.
pub open spec fn clipped_vertex(d: DrawQuad) -> Vertex {
    Vertex {
        screen: Rect {
            min_x: clipped_lo(d.screen.min_x as int, d.bounds.min_x as int) as i64,
            min_y: clipped_lo(d.screen.min_y as int, d.bounds.min_y as int) as i64,
            max_x: clipped_hi(d.screen.max_x as int, d.bounds.max_x as int) as i64,
            max_y: clipped_hi(d.screen.max_y as int, d.bounds.max_y as int) as i64,
        },
        uv: Rect {
            min_x: uv_lo_clipped(
                d.screen.min_x as int,
                d.screen.max_x as int,
                d.uv.min_x as int,
                d.uv.max_x as int,
                d.bounds.min_x as int,
                d.bounds.max_x as int,
            ) as i64,
            min_y: uv_lo_clipped(
                d.screen.min_y as int,
                d.screen.max_y as int,
                d.uv.min_y as int,
                d.uv.max_y as int,
                d.bounds.min_y as int,
                d.bounds.max_y as int,
            ) as i64,
            max_x: uv_hi_clipped(
                d.screen.min_x as int,
                d.screen.max_x as int,
                d.uv.min_x as int,
                d.uv.max_x as int,
                d.bounds.max_x as int,
            ) as i64,
            max_y: uv_hi_clipped(
                d.screen.min_y as int,
                d.screen.max_y as int,
                d.uv.min_y as int,
                d.uv.max_y as int,
                d.bounds.max_y as int,
            ) as i64,
        },
        color: d.color,
    }
}

/// The vertex list a drawing cycle produces: every well-formed draw
/// instruction that survives clipping, in engine order; degenerate or
/// malformed instructions are dropped silently.
pub open spec fn clipped_quads(ds: Seq<DrawQuad>) -> Seq<Vertex>
    decreases ds.len(),
{
    if ds.len() == 0 {
        Seq::<Vertex>::empty()
    } else {
        let rest = clipped_quads(ds.drop_last());
        let d = ds.last();
        if d.wf() && survives(d.screen, d.bounds) {
            rest.push(clipped_vertex(d))
        } else {
            rest
        }
    }
}

/// Every well-formed draw instruction that survives clipping contributes a
/// non-degenerate vertex: its screen rectangle lies inside the
/// instruction's bounds, and its uv rectangle inside the instruction's uv.
pub proof fn lemma_clipped_vertex_sound(d: DrawQuad)
    requires
        d.wf(),
        survives(d.screen, d.bounds),
    ensures
        clipped_vertex(d).screen.proper(),
        clipped_vertex(d).screen.inside(d.bounds),
        clipped_vertex(d).uv.wf(),
        clipped_vertex(d).uv.inside(d.uv),
{
    crate::clip::lemma_uv_clipped_within(
        d.screen.min_x as int,
        d.screen.max_x as int,
        d.uv.min_x as int,
        d.uv.max_x as int,
        d.bounds.min_x as int,
        d.bounds.max_x as int,
    );
    crate::clip::lemma_uv_clipped_within(
        d.screen.min_y as int,
        d.screen.max_y as int,
        d.uv.min_y as int,
        d.uv.max_y as int,
        d.bounds.min_y as int,
        d.bounds.max_y as int,
    );
}

/// A drawing cycle emits at most one vertex per draw instruction.
pub proof fn lemma_clipped_quads_len(ds: Seq<DrawQuad>)
    ensures
        clipped_quads(ds).len() <= ds.len(),
    decreases ds.len(),
{
    if ds.len() > 0 {
        lemma_clipped_quads_len(ds.drop_last());
    }
}

/// Whether a rectangle passes the clipper's input checks.
fn rect_ok(r: &Rect) -> (b: bool)
    ensures
        b == (r.wf() && r.bounded()),
{
    r.min_x <= r.max_x && r.min_y <= r.max_y && -COORD_LIMIT <= r.min_x && r.max_x <= COORD_LIMIT
        && -COORD_LIMIT <= r.min_y && r.max_y <= COORD_LIMIT
}

/// Clip a cycle's draw instructions into its vertex list.
#[verifier::loop_isolation(false)]
fn clip_quads(draws: &Vec<DrawQuad>) -> (verts: Vec<Vertex>)
    ensures
        verts@ == clipped_quads(draws@),
{
    let mut verts: Vec<Vertex> = Vec::new();
    let mut idx: usize = 0;
    while idx < draws.len()
        invariant
            idx <= draws@.len(),
            verts@ == clipped_quads(draws@.take(idx as int)),
        decreases draws@.len() - idx,
    {
        let d = &draws[idx];
        if rect_ok(&d.screen) && rect_ok(&d.uv) {
            match clip(d.screen, d.uv, d.bounds) {
                Some(p) => {
                    verts.push(Vertex { screen: p.0, uv: p.1, color: d.color });
                },
                None => {},
            }
        }
        proof {
            assert(draws@.take(idx as int + 1).drop_last() =~= draws@.take(idx as int));
            assert(draws@.take(idx as int + 1).last() == draws@[idx as int]);
        }
        idx = idx + 1;
    }
    proof {
        assert(draws@.take(draws@.len() as int) =~= draws@);
    }
    verts
}

/// The shared text brush: one atlas, the queue of pending sections, the
/// vertex list of the most recent drawing cycle, and the font registry.
pub struct TextBrush {
    atlas: Atlas,
    vertices: Vec<Vertex>,
    queue: Vec<QueuedSection>,
    font_count: u32,
}

impl TextBrush {
    /// The atlas the brush owns.
    pub closed spec fn spec_atlas(self) -> Atlas {
        self.atlas
    }

    /// Atlas texel columns.
    pub open spec fn spec_width(self) -> u32 {
        self.spec_atlas().spec_width()
    }

    /// Atlas texel rows.
    pub open spec fn spec_height(self) -> u32 {
        self.spec_atlas().spec_height()
    }

    /// The atlas coverage bytes.
    pub open spec fn spec_pixels(self) -> Seq<u8> {
        self.spec_atlas().spec_pixels()
    }

    /// Whether the atlas changed since the last read-and-clear.
    pub open spec fn spec_dirty(self) -> bool {
        self.spec_atlas().spec_dirty()
    }

    /// The vertex list of the most recent drawing cycle.
    pub closed spec fn spec_vertices(self) -> Seq<Vertex> {
        self.vertices@
    }

    /// The sections queued since the last update.
    pub closed spec fn spec_queue(self) -> Seq<QueuedSection> {
        self.queue@
    }

    /// How many fonts were registered; ids `0 .. font_count` are taken.
    pub closed spec fn spec_font_count(self) -> u32 {
        self.font_count
    }

    pub open spec fn wf(self) -> bool {
        self.spec_atlas().wf()
    }

    /// A fresh brush: an empty atlas of the given dimensions, no pending
    /// sections, no vertices, no fonts.
    pub fn new(width: u32, height: u32) -> (b: TextBrush)
        requires
            width * height <= usize::MAX,
        ensures
            b.wf(),
            b.spec_width() == width,
            b.spec_height() == height,
            b.spec_pixels().len() == width * height,
            forall|k: int| 0 <= k < b.spec_pixels().len() ==> b.spec_pixels()[k] == 0u8,
            !b.spec_dirty(),
            b.spec_vertices().len() == 0,
            b.spec_queue().len() == 0,
            b.spec_font_count() == 0,
    {
        TextBrush {
            atlas: Atlas::new(width, height),
            vertices: Vec::new(),
            queue: Vec::new(),
            font_count: 0,
        }
    }

    /// Register one more font and return its id.  Ids are assigned in
    /// registration order starting at 0 and never reused.
    pub fn register_font(&mut self) -> (id: u32)
        requires
            old(self).spec_font_count() < u32::MAX,
        ensures
            id == old(self).spec_font_count(),
            final(self).spec_font_count() == old(self).spec_font_count() + 1,
            final(self).spec_atlas() == old(self).spec_atlas(),
            final(self).spec_vertices() == old(self).spec_vertices(),
            final(self).spec_queue() == old(self).spec_queue(),
    {
        let id = self.font_count;
        self.font_count = self.font_count + 1;
        id
    }

    /// Queue one section for the next update cycle.
    pub fn queue_section(&mut self, section: QueuedSection)
        ensures
            final(self).spec_queue() == old(self).spec_queue().push(section),
            final(self).spec_atlas() == old(self).spec_atlas(),
            final(self).spec_vertices() == old(self).spec_vertices(),
            final(self).spec_font_count() == old(self).spec_font_count(),
    {
        self.queue.push(section);
    }

    /// Drain the pending sections to hand them to the layout engine; the
    /// queue is cleared, so a section shows for one cycle only unless the
    /// caller queues it again.
    pub fn take_queue(&mut self) -> (sections: Vec<QueuedSection>)
        ensures
            sections@ == old(self).spec_queue(),
            final(self).spec_queue().len() == 0,
            final(self).spec_atlas() == old(self).spec_atlas(),
            final(self).spec_vertices() == old(self).spec_vertices(),
            final(self).spec_font_count() == old(self).spec_font_count(),
    {
        let mut sections: Vec<QueuedSection> = Vec::new();
        core::mem::swap(&mut sections, &mut self.queue);
        sections
    }

    /// Apply one cycle's raster copies in order; a copy that does not fit
    /// the atlas is rejected whole.
    #[verifier::loop_isolation(false)]
    fn apply_copies(&mut self, copies: &Vec<CopyBlock>)
        requires
            old(self).wf(),
        ensures
            final(self).wf(),
            final(self).spec_width() == old(self).spec_width(),
            final(self).spec_height() == old(self).spec_height(),
            final(self).spec_pixels() == atlas_after_copies(
                old(self).spec_pixels(),
                old(self).spec_width() as int,
                old(self).spec_height() as int,
                copies@,
            ),
            final(self).spec_dirty() == (old(self).spec_dirty() || any_copy_fits(
                copies@,
                old(self).spec_width() as int,
                old(self).spec_height() as int,
            )),
            final(self).spec_vertices() == old(self).spec_vertices(),
            final(self).spec_queue() == old(self).spec_queue(),
            final(self).spec_font_count() == old(self).spec_font_count(),
    {
        let ghost p0 = self.atlas.spec_pixels();
        let ghost wd = self.atlas.spec_width() as int;
        let ghost hd = self.atlas.spec_height() as int;
        let ghost dirty0 = self.atlas.spec_dirty();
        let mut idx: usize = 0;
        while idx < copies.len()
            invariant
                idx <= copies@.len(),
                self.atlas.wf(),
                self.atlas.spec_width() as int == wd,
                self.atlas.spec_height() as int == hd,
                self.atlas.spec_pixels() == atlas_after_copies(
                    p0,
                    wd,
                    hd,
                    copies@.take(idx as int),
                ),
                self.atlas.spec_dirty() == (dirty0 || any_copy_fits(
                    copies@.take(idx as int),
                    wd,
                    hd,
                )),
                self.vertices == old(self).vertices,
                self.queue == old(self).queue,
                self.font_count == old(self).spec_font_count(),
            decreases copies@.len() - idx,
        {
            let c = &copies[idx];
            let applied = self.atlas.try_write_block(c.x, c.y, c.w, c.h, &c.data);
            proof {
                let pre = copies@.take(idx as int);
                let post = copies@.take(idx as int + 1);
                assert(post.drop_last() =~= pre);
                assert(post.last() == copies@[idx as int]);
                if applied {
                    assert(post[idx as int].fits(wd, hd));
                    assert(any_copy_fits(post, wd, hd));
                } else {
                    assert(any_copy_fits(post, wd, hd) == any_copy_fits(pre, wd, hd)) by {
                        if any_copy_fits(post, wd, hd) {
                            let i = choose|i: int|
                                0 <= i < post.len() && post[i].fits(wd, hd);
                            assert(i != idx);
                            assert(pre[i].fits(wd, hd));
                            assert(any_copy_fits(pre, wd, hd));
                        }
                        if any_copy_fits(pre, wd, hd) {
                            let i = choose|i: int| 0 <= i < pre.len() && pre[i].fits(wd, hd);
                            assert(post[i].fits(wd, hd));
                            assert(any_copy_fits(post, wd, hd));
                        }
                    }
                }
            }
            idx = idx + 1;
        }
        proof {
            assert(copies@.take(copies@.len() as int) =~= copies@);
        }
    }

    /// Run one processor cycle on the engine's answer.
    ///
    /// On `NeedsResize` the atlas is rebuilt empty at the suggested
    /// dimensions and the vertex list is left untouched: the engine retains
    /// the pending work and the caller runs another cycle.  Otherwise the
    /// raster copies are applied in order, and on `Draw` the clipped quads
    /// replace the vertex list wholesale, while `Unchanged` keeps it.  A
    /// cycle with no copies and an `Unchanged` outcome changes nothing.
    pub fn update(&mut self, copies: &Vec<CopyBlock>, outcome: LayoutOutcome)
        requires
            old(self).wf(),
            outcome matches LayoutOutcome::NeedsResize(w, h) ==> w * h <= usize::MAX,
        ensures
            final(self).wf(),
            final(self).spec_queue() == old(self).spec_queue(),
            final(self).spec_font_count() == old(self).spec_font_count(),
            outcome matches LayoutOutcome::NeedsResize(w, h) ==> {
                &&& final(self).spec_width() == w
                &&& final(self).spec_height() == h
                &&& final(self).spec_pixels().len() == w * h
                &&& forall|k: int|
                    0 <= k < final(self).spec_pixels().len() ==> final(self).spec_pixels()[k]
                        == 0u8
                &&& final(self).spec_dirty()
                &&& final(self).spec_vertices() == old(self).spec_vertices()
            },
            !(outcome is NeedsResize) ==> {
                &&& final(self).spec_width() == old(self).spec_width()
                &&& final(self).spec_height() == old(self).spec_height()
                &&& final(self).spec_pixels() == atlas_after_copies(
                    old(self).spec_pixels(),
                    old(self).spec_width() as int,
                    old(self).spec_height() as int,
                    copies@,
                )
                &&& final(self).spec_dirty() == (old(self).spec_dirty() || any_copy_fits(
                    copies@,
                    old(self).spec_width() as int,
                    old(self).spec_height() as int,
                ))
            },
            outcome is Unchanged ==> final(self).spec_vertices() == old(self).spec_vertices(),
            outcome matches LayoutOutcome::Draw(draws) ==> final(self).spec_vertices()
                == clipped_quads(draws@),
            copies@.len() == 0 && outcome is Unchanged ==> {
                &&& final(self).spec_pixels() == old(self).spec_pixels()
                &&& final(self).spec_dirty() == old(self).spec_dirty()
                &&& final(self).spec_vertices() == old(self).spec_vertices()
            },
    {
        match outcome {
            LayoutOutcome::NeedsResize(w, h) => {
                self.atlas.resize(w, h);
            },
            LayoutOutcome::Unchanged => {
                self.apply_copies(copies);
            },
            LayoutOutcome::Draw(draws) => {
                self.apply_copies(copies);
                self.vertices = clip_quads(&draws);
            },
        }
    }

    /// Current atlas dimensions, `(width, height)`.
    pub fn texture_dimensions(&self) -> (r: (u32, u32))
        ensures
            r.0 == self.spec_width(),
            r.1 == self.spec_height(),
    {
        self.atlas.dimensions()
    }

    /// Borrow the atlas coverage bytes.
    pub fn texture_data(&self) -> (r: &Vec<u8>)
        ensures
            r@ == self.spec_pixels(),
    {
        self.atlas.pixel_data()
    }

    /// Report whether the atlas changed since the last call, clearing the
    /// flag; the texels themselves are untouched.
    pub fn read_and_clear_dirty(&mut self) -> (was_dirty: bool)
        ensures
            was_dirty == old(self).spec_dirty(),
            !final(self).spec_dirty(),
            final(self).spec_width() == old(self).spec_width(),
            final(self).spec_height() == old(self).spec_height(),
            final(self).spec_pixels() == old(self).spec_pixels(),
            final(self).spec_vertices() == old(self).spec_vertices(),
            final(self).spec_queue() == old(self).spec_queue(),
            final(self).spec_font_count() == old(self).spec_font_count(),
    {
        self.atlas.read_and_clear_dirty()
    }

    /// Borrow the vertex list of the most recent drawing cycle.
    pub fn vertices(&self) -> (r: &Vec<Vertex>)
        ensures
            r@ == self.spec_vertices(),
    {
        &self.vertices
    }

    /// How many fonts are registered.
    pub fn font_count(&self) -> (n: u32)
        ensures
            n == self.spec_font_count(),
    {
        self.font_count
    }

    /// How many sections are pending for the next cycle.
    pub fn queued_count(&self) -> (n: usize)
        ensures
            n == self.spec_queue().len(),
    {
        self.queue.len()
    }
}

} // verus!
