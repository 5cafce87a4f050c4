//! The CPU-side glyph coverage atlas.
//!
//! A `width * height` buffer of coverage bytes (one byte per texel, row
//! major, the atlas width as stride), plus a dirty flag.  The flag is set by
//! every mutation and cleared only by the read-and-clear operation, so a
//! consumer sees `true` exactly once per batch of mutations.

use vstd::prelude::*;
use vstd::arithmetic::div_mod::{
    lemma_fundamental_div_mod, lemma_fundamental_div_mod_converse_div,
    lemma_fundamental_div_mod_converse_mod,
};
use vstd::arithmetic::mul::{lemma_mul_inequality, lemma_mul_upper_bound};

verus! {

/// Whether flat index `k` of a row-major buffer with stride `width` lies in
/// the block of size `w * h` whose top-left texel is `(x, y)`.
pub open spec fn in_block(k: int, width: int, x: int, y: int, w: int, h: int) -> bool {
    let row = k / width;
    let col = k % width;
    y <= row && row < y + h && x <= col && col < x + w
}

/// The offset within a `w`-wide block's data of the texel that flat index
/// `k` of the atlas buffer names.
pub open spec fn block_index(k: int, width: int, x: int, y: int, w: int) -> int {
    (k / width - y) * w + (k % width - x)
}

/// The atlas buffer after copying block `d` of size `w * h` to `(x, y)`:
/// texels inside the block take the block's bytes, all others keep theirs.
pub open spec fn written(
    p: Seq<u8>,
    width: int,
    x: int,
    y: int,
    w: int,
    h: int,
    d: Seq<u8>,
) -> Seq<u8> {
    Seq::new(p.len(), |k: int| if in_block(k, width, x, y, w, h) {
        d[block_index(k, width, x, y, w)]
    } else {
        p[k]
    })
}

/// The part of a block already copied after `j` full rows and `i` texels of
/// row `j`.
spec fn covered(k: int, width: int, x: int, y: int, w: int, j: int, i: int) -> bool {
    let row = k / width;
    let col = k % width;
    (y <= row && row < y + j && x <= col && col < x + w) || (row == y + j && x <= col && col < x
        + i)
}

/// The glyph coverage atlas.
pub struct Atlas {
    width: u32,
    height: u32,
    pixels: Vec<u8>,
    dirty: bool,
}

impl Atlas {
    /// Texel columns.
    pub closed spec fn spec_width(self) -> u32 {
        self.width
    }

    /// Texel rows.
    pub closed spec fn spec_height(self) -> u32 {
        self.height
    }

    /// The coverage bytes, row major with the width as stride.
    pub closed spec fn spec_pixels(self) -> Seq<u8> {
        self.pixels@
    }

    /// Whether any texel changed since the last read-and-clear.
    pub closed spec fn spec_dirty(self) -> bool {
        self.dirty
    }

    /// The buffer holds exactly one byte per texel.
    pub open spec fn wf(self) -> bool {
        self.spec_pixels().len() == self.spec_width() * self.spec_height()
    }

    /// A fresh atlas: all texels empty, not dirty.
    pub fn new(width: u32, height: u32) -> (a: Atlas)
        requires
            width * height <= usize::MAX,
        ensures
            a.wf(),
            a.spec_width() == width,
            a.spec_height() == height,
            a.spec_pixels().len() == width * height,
            forall|k: int| 0 <= k < a.spec_pixels().len() ==> a.spec_pixels()[k] == 0u8,
            !a.spec_dirty(),
    {
        let len: usize = (width as usize) * (height as usize);
        Atlas { width, height, pixels: zero_buffer(len), dirty: false }
    }

    /// Current dimensions, `(width, height)`.
    pub fn dimensions(&self) -> (r: (u32, u32))
        ensures
            r.0 == self.spec_width(),
            r.1 == self.spec_height(),
    {
        (self.width, self.height)
    }

    /// Borrow the coverage bytes.
    pub fn pixel_data(&self) -> (r: &Vec<u8>)
        ensures
            r@ == self.spec_pixels(),
    {
        &self.pixels
    }

    /// Copy a `w * h` coverage block to `(x, y)`, row by row with the atlas
    /// width as stride, and mark the atlas dirty.  The destination must lie
    /// within the atlas; no texel outside the block changes.
    #[verifier::loop_isolation(false)]
    pub fn write_block(&mut self, x: u32, y: u32, w: u32, h: u32, data: &Vec<u8>)
        requires
            old(self).wf(),
            x + w <= old(self).spec_width(),
            y + h <= old(self).spec_height(),
            data@.len() == w * h,
        ensures
            final(self).wf(),
            final(self).spec_width() == old(self).spec_width(),
            final(self).spec_height() == old(self).spec_height(),
            final(self).spec_dirty(),
            final(self).spec_pixels() == written(
                old(self).spec_pixels(),
                old(self).spec_width() as int,
                x as int,
                y as int,
                w as int,
                h as int,
                data@,
            ),
            forall|k: int|
                0 <= k < final(self).spec_pixels().len() && !in_block(
                    k,
                    old(self).spec_width() as int,
                    x as int,
                    y as int,
                    w as int,
                    h as int,
                ) ==> final(self).spec_pixels()[k] == old(self).spec_pixels()[k],
    {
        let ghost p0 = self.pixels@;
        let ghost wd = self.width as int;
        self.dirty = true;
        let mut j: u32 = 0;
        while j < h
            invariant
                j <= h,
                self.width == old(self).spec_width(),
                self.height == old(self).spec_height(),
                self.dirty,
                self.pixels@.len() == p0.len(),
                forall|k: int|
                    0 <= k < p0.len() ==> self.pixels@[k] == (if covered(
                        k,
                        wd,
                        x as int,
                        y as int,
                        w as int,
                        j as int,
                        0,
                    ) {
                        data@[block_index(k, wd, x as int, y as int, w as int)]
                    } else {
                        p0[k]
                    }),
            decreases h - j,
        {
            let mut i: u32 = 0;
            while i < w
                invariant
                    j < h,
                    i <= w,
                    self.width == old(self).spec_width(),
                    self.height == old(self).spec_height(),
                    self.dirty,
                    self.pixels@.len() == p0.len(),
                    forall|k: int|
                        0 <= k < p0.len() ==> self.pixels@[k] == (if covered(
                            k,
                            wd,
                            x as int,
                            y as int,
                            w as int,
                            j as int,
                            i as int,
                        ) {
                            data@[block_index(k, wd, x as int, y as int, w as int)]
                        } else {
                            p0[k]
                        }),
                decreases w - i,
            {
                // The exec length calls put the usize bound on each buffer
                // size in scope for the index computations below.
                let _buffer_len = self.pixels.len();
                let _data_len = data.len();
                proof {
                    lemma_mul_inequality(y as int + j as int, self.height as int - 1, wd);
                    lemma_mul_inequality(j as int, h as int - 1, w as int);
                    assert((self.height as int - 1) * wd == self.height as int * wd - wd)
                        by (nonlinear_arith);
                    assert((h as int - 1) * (w as int) == h as int * w as int - w as int)
                        by (nonlinear_arith);
                    assert((h as int) * (w as int) == (w as int) * (h as int)) by (nonlinear_arith);
                    assert((j as int) * (w as int) + (i as int) < (w as int) * (h as int));
                }
                let idx: usize = (x as usize + i as usize) + (y as usize + j as usize) * (
                self.width as usize);
                let didx: usize = (j as usize) * (w as usize) + (i as usize);
                proof {
                    lemma_fundamental_div_mod_converse_div(
                        idx as int,
                        wd,
                        y as int + j as int,
                        x as int + i as int,
                    );
                    lemma_fundamental_div_mod_converse_mod(
                        idx as int,
                        wd,
                        y as int + j as int,
                        x as int + i as int,
                    );
                }
                let v = data[didx];
                self.pixels.set(idx, v);
                proof {
                    assert forall|k: int| 0 <= k < p0.len() && k != idx as int implies covered(
                        k,
                        wd,
                        x as int,
                        y as int,
                        w as int,
                        j as int,
                        i as int + 1,
                    ) == covered(k, wd, x as int, y as int, w as int, j as int, i as int) by {
                        lemma_fundamental_div_mod(k, wd);
                        if k / wd == y as int + j as int && k % wd == x as int + i as int {
                            assert(k == wd * (k / wd) + (k % wd));
                            assert(wd * (y as int + j as int) == (y as int + j as int) * wd)
                                by (nonlinear_arith);
                            assert(k == idx as int);
                        }
                    }
                }
                i = i + 1;
            }
            j = j + 1;
        }
        proof {
            assert(self.pixels@ =~= written(
                p0,
                wd,
                x as int,
                y as int,
                w as int,
                h as int,
                data@,
            ));
        }
    }

    /// Copy a block only if it lies within the atlas and carries exactly
    /// one byte per texel, and report whether it was applied.  A copy that
    /// does not fit is rejected whole: no texel changes and the dirty flag
    /// keeps its value, so a bad instruction can never write outside the
    /// atlas.
    pub fn try_write_block(&mut self, x: u32, y: u32, w: u32, h: u32, data: &Vec<u8>) -> (applied:
        bool)
        requires
            old(self).wf(),
        ensures
            final(self).wf(),
            final(self).spec_width() == old(self).spec_width(),
            final(self).spec_height() == old(self).spec_height(),
            applied == (x + w <= old(self).spec_width() && y + h <= old(self).spec_height()
                && data@.len() == w * h),
            applied ==> final(self).spec_pixels() == written(
                old(self).spec_pixels(),
                old(self).spec_width() as int,
                x as int,
                y as int,
                w as int,
                h as int,
                data@,
            ) && final(self).spec_dirty(),
            !applied ==> final(self).spec_pixels() == old(self).spec_pixels()
                && final(self).spec_dirty() == old(self).spec_dirty(),
    {
        let dest_ok = (x as u64 + w as u64 <= self.width as u64) && (y as u64 + h as u64
            <= self.height as u64);
        proof {
            lemma_mul_upper_bound(w as int, u32::MAX as int, h as int, u32::MAX as int);
        }
        let len_ok = (data.len() as u64) == (w as u64) * (h as u64);
        if dest_ok && len_ok {
            self.write_block(x, y, w, h, data);
            true
        } else {
            false
        }
    }

    /// Throw the old contents away and start over with empty texels at the
    /// new dimensions; the atlas becomes dirty.
    pub fn resize(&mut self, new_width: u32, new_height: u32)
        requires
            new_width * new_height <= usize::MAX,
        ensures
            final(self).wf(),
            final(self).spec_width() == new_width,
            final(self).spec_height() == new_height,
            final(self).spec_pixels().len() == new_width * new_height,
            forall|k: int|
                0 <= k < final(self).spec_pixels().len() ==> final(self).spec_pixels()[k] == 0u8,
            final(self).spec_dirty(),
    {
        let len: usize = (new_width as usize) * (new_height as usize);
        self.width = new_width;
        self.height = new_height;
        self.pixels = zero_buffer(len);
        self.dirty = true;
    }

    /// Report whether any texel changed since the last call, and clear the
    /// flag; the pixel data itself is untouched.
    pub fn read_and_clear_dirty(&mut self) -> (was_dirty: bool)
        ensures
            was_dirty == old(self).spec_dirty(),
            !final(self).spec_dirty(),
            final(self).spec_width() == old(self).spec_width(),
            final(self).spec_height() == old(self).spec_height(),
            final(self).spec_pixels() == old(self).spec_pixels(),
    {
        let was = self.dirty;
        self.dirty = false;
        was
    }
}

/// A buffer of `len` empty coverage bytes.
fn zero_buffer(len: usize) -> (v: Vec<u8>)
    ensures
        v@.len() == len,
        forall|k: int| 0 <= k < len ==> v@[k] == 0u8,
{
    let mut v: Vec<u8> = Vec::new();
    let mut n: usize = 0;
    while n < len
        invariant
            n <= len,
            v@.len() == n,
            forall|k: int| 0 <= k < n ==> v@[k] == 0u8,
        decreases len - n,
    {
        v.push(0u8);
        n = n + 1;
    }
    v
}

} // verus!
