//! The monochrome display surface: a width-by-height grid of single-bit
//! pixels stored row-major, with per-pixel XOR toggling and collision
//! reporting. The host owns the surface and renders it; the interpreter only
//! clears and flips pixels.

use vstd::prelude::*;

verus! {

/// A pixel toggled: on becomes off, off becomes on.
pub open spec fn flip01(p: u8) -> u8 {
    if p == 0 {
        1
    } else {
        0
    }
}

/// Bit `c` (counting from the left, `0` through `7`) of a sprite row byte.
pub open spec fn sprite_bit(b: u8, c: int) -> u8 {
    (b >> ((7 - c) as u8)) & 1
}

/// Whether grid cell `(px, py)` lies under a sprite of `nrows` rows drawn
/// with its top-left corner at `(x0, y0)` on a `w` by `h` grid. Rows and
/// columns that would run off the grid edge are clipped, not wrapped.
pub open spec fn draw_covered(
    w: int,
    h: int,
    x0: int,
    y0: int,
    nrows: int,
    px: int,
    py: int,
) -> bool {
    &&& y0 <= py < y0 + nrows
    &&& py < h
    &&& x0 <= px < x0 + 8
    &&& px < w
}

/// The surface after XOR-drawing `sprite` (one byte per row, already clipped
/// to the rows that fit below `y0`) at `(x0, y0)`: each set sprite bit
/// toggles the pixel under it; everything else is untouched.
pub open spec fn draw_surface(
    pre: Seq<u8>,
    sprite: Seq<u8>,
    w: int,
    h: int,
    x0: int,
    y0: int,
) -> Seq<u8> {
    Seq::new(
        pre.len(),
        |k: int|
            {
                let px = k % w;
                let py = k / w;
                if draw_covered(w, h, x0, y0, sprite.len() as int, px, py) && sprite_bit(
                    sprite[py - y0],
                    px - x0,
                ) == 1 {
                    flip01(pre[k])
                } else {
                    pre[k]
                }
            },
    )
}

/// Whether XOR-drawing `sprite` at `(x0, y0)` turns any pixel off: a set
/// sprite bit lands on a pixel that is already on.
pub open spec fn draw_collision(
    pre: Seq<u8>,
    sprite: Seq<u8>,
    w: int,
    h: int,
    x0: int,
    y0: int,
) -> bool {
    exists|py: int, px: int|
        draw_covered(w, h, x0, y0, sprite.len() as int, px, py) && sprite_bit(
            sprite[py - y0],
            px - x0,
        ) == 1 && pre[px + py * w] == 1
}

/// Whether `sprite` has any visible (set) bit once clipped to the columns
/// that fit right of `x0` on a grid `w` wide.
pub open spec fn sprite_visible(sprite: Seq<u8>, w: int, x0: int) -> bool {
    exists|r: int, c: int|
        0 <= r < sprite.len() && 0 <= c < 8 && x0 + c < w && sprite_bit(sprite[r], c) == 1
}

/// A row-major cell index decomposes back into its column and row.
pub proof fn lemma_rowmajor(px: int, py: int, w: int)
    requires
        0 <= px < w,
        0 <= py,
    ensures
        (px + py * w) % w == px,
        (px + py * w) / w == py,
        px + py * w >= 0,
{
    assert((px + py * w) % w == px && (px + py * w) / w == py && px + py * w >= 0)
        by (nonlinear_arith)
        requires
            0 <= px < w,
            0 <= py,
    ;
}

/// A cell inside the grid has its row-major index inside the surface.
pub proof fn lemma_rowmajor_bound(px: int, py: int, w: int, h: int)
    requires
        0 <= px < w,
        0 <= py < h,
    ensures
        0 <= px + py * w < w * h,
{
    assert(0 <= px + py * w < w * h) by (nonlinear_arith)
        requires
            0 <= px < w,
            0 <= py < h,
    ;
}

/// XOR self-cancellation: drawing the same sprite at the same spot twice
/// restores every pixel the pair of draws touched, so the surface comes back
/// to exactly what it was.
pub proof fn lemma_draw_twice_cancels(
    pre: Seq<u8>,
    sprite: Seq<u8>,
    w: int,
    h: int,
    x0: int,
    y0: int,
)
    requires
        w >= 1,
        h >= 1,
        pre.len() == w * h,
        forall|k: int| 0 <= k < pre.len() ==> pre[k] == 0 || pre[k] == 1,
    ensures
        draw_surface(draw_surface(pre, sprite, w, h, x0, y0), sprite, w, h, x0, y0) == pre,
{
    let s1 = draw_surface(pre, sprite, w, h, x0, y0);
    let s2 = draw_surface(s1, sprite, w, h, x0, y0);
    assert forall|k: int| 0 <= k < pre.len() implies s2[k] == pre[k] by {
        let px = k % w;
        let py = k / w;
        if draw_covered(w, h, x0, y0, sprite.len() as int, px, py) && sprite_bit(
            sprite[py - y0],
            px - x0,
        ) == 1 {
            assert(s1[k] == flip01(pre[k]));
            assert(s2[k] == flip01(s1[k]));
        }
    }
    assert(s2 =~= pre);
}

/// On a blank surface, the second of two identical draws reports a collision
/// exactly when the sprite has any visible set bit: the first draw lit those
/// bits, and the second turns every one of them off again.
pub proof fn lemma_draw_twice_collision(
    pre: Seq<u8>,
    sprite: Seq<u8>,
    w: int,
    h: int,
    x0: int,
    y0: int,
)
    requires
        w >= 1,
        h >= 1,
        0 <= x0 < w,
        0 <= y0,
        y0 + sprite.len() <= h,
        pre.len() == w * h,
        forall|k: int| 0 <= k < pre.len() ==> pre[k] == 0,
    ensures
        draw_collision(draw_surface(pre, sprite, w, h, x0, y0), sprite, w, h, x0, y0)
            == sprite_visible(sprite, w, x0),
{
    let s1 = draw_surface(pre, sprite, w, h, x0, y0);
    let n = sprite.len() as int;
    if sprite_visible(sprite, w, x0) {
        let (r, c): (int, int) = choose|r: int, c: int|
            0 <= r < sprite.len() && 0 <= c < 8 && x0 + c < w && sprite_bit(sprite[r], c) == 1;
        let px = x0 + c;
        let py = y0 + r;
        lemma_rowmajor(px, py, w);
        lemma_rowmajor_bound(px, py, w, h);
        assert(draw_covered(w, h, x0, y0, n, px, py));
        assert(s1[px + py * w] == flip01(pre[px + py * w]));
        assert(s1[px + py * w] == 1);
        assert(draw_collision(s1, sprite, w, h, x0, y0));
    }
    if draw_collision(s1, sprite, w, h, x0, y0) {
        let (py, px): (int, int) = choose|py: int, px: int|
            draw_covered(w, h, x0, y0, n, px, py) && sprite_bit(sprite[py - y0], px - x0) == 1
                && s1[px + py * w] == 1;
        let r = py - y0;
        let c = px - x0;
        assert(0 <= r < sprite.len() && 0 <= c < 8 && x0 + c < w && sprite_bit(sprite[r], c)
            == 1);
        assert(sprite_visible(sprite, w, x0));
    }
}

pub struct Display {
    width: u16,
    height: u16,
    surface: Vec<u8>,
}

impl Display {
    /// The grid width in pixels.
    pub closed spec fn spec_width(self) -> u16 {
        self.width
    }

    /// The grid height in pixels.
    pub closed spec fn spec_height(self) -> u16 {
        self.height
    }

    /// The pixels, row-major: index `x + y * width`.
    pub closed spec fn spec_surface(self) -> Seq<u8> {
        self.surface@
    }

    /// The pixel at `(x, y)`.
    pub open spec fn spec_pixel(self, x: int, y: int) -> u8 {
        self.spec_surface()[x + y * self.spec_width()]
    }

    /// A non-degenerate grid whose surface holds one byte per cell, every
    /// one of them `0` or `1`.
    pub open spec fn wf(self) -> bool {
        &&& self.spec_width() >= 1
        &&& self.spec_height() >= 1
        &&& self.spec_surface().len() == self.spec_width() * self.spec_height()
        &&& forall|k: int|
            0 <= k < self.spec_surface().len() ==> self.spec_surface()[k] == 0
                || self.spec_surface()[k] == 1
    }

    /// A surface of the given size with every pixel off.
    pub fn new(width: u16, height: u16) -> (r: Display)
        requires
            width >= 1,
            height >= 1,
            width * height <= usize::MAX,
        ensures
            r.wf(),
            r.spec_width() == width,
            r.spec_height() == height,
            forall|k: int| 0 <= k < r.spec_surface().len() ==> r.spec_surface()[k] == 0,
    {
        let len: usize = (width as usize) * (height as usize);
        Display { width, height, surface: vec![0u8; len] }
    }

    /// Turn every pixel off.
    pub fn clear(&mut self)
        requires
            old(self).wf(),
        ensures
            final(self).wf(),
            final(self).spec_width() == old(self).spec_width(),
            final(self).spec_height() == old(self).spec_height(),
            final(self).spec_surface().len() == old(self).spec_surface().len(),
            forall|k: int|
                0 <= k < final(self).spec_surface().len() ==> final(self).spec_surface()[k] == 0,
    {
        let len = self.surface.len();
        let mut i: usize = 0;
        while i < len
            invariant
                self.surface@.len() == len,
                self.width == old(self).width,
                self.height == old(self).height,
                i <= len,
                forall|k: int| 0 <= k < i ==> self.surface@[k] == 0,
                forall|k: int|
                    0 <= k < len ==> self.surface@[k] == 0 || self.surface@[k] == 1,
            decreases len - i,
        {
            self.surface[i] = 0;
            i = i + 1;
        }
    }

    /// Toggle the pixel at `(x, y)`. Returns whether the pixel is now on;
    /// `false` means it was just turned off, which the interpreter reports
    /// as a sprite collision.
    pub fn flip_pixel(&mut self, x: usize, y: usize) -> (r: bool)
        requires
            old(self).wf(),
            x < old(self).spec_width(),
            y < old(self).spec_height(),
        ensures
            final(self).wf(),
            final(self).spec_width() == old(self).spec_width(),
            final(self).spec_height() == old(self).spec_height(),
            final(self).spec_surface() == old(self).spec_surface().update(
                x + y * old(self).spec_width(),
                flip01(old(self).spec_pixel(x as int, y as int)),
            ),
            r == (final(self).spec_pixel(x as int, y as int) == 1),
    {
        let len = self.surface.len();
        proof {
            lemma_rowmajor_bound(x as int, y as int, self.spec_width() as int,
                self.spec_height() as int);
        }
        let idx: usize = x + y * (self.width as usize);
        if self.surface[idx] == 1 {
            self.surface[idx] = 0;
            return false;
        }

        self.surface[idx] = 1;

        true
    }

    /// Whether the pixel at `(x, y)` is on. The host's renderer reads the
    /// surface through this.
    pub fn is_pixel_on(&self, x: usize, y: usize) -> (r: bool)
        requires
            self.wf(),
            x < self.spec_width(),
            y < self.spec_height(),
        ensures
            r == (self.spec_pixel(x as int, y as int) == 1),
    {
        let len = self.surface.len();
        proof {
            lemma_rowmajor_bound(x as int, y as int, self.spec_width() as int,
                self.spec_height() as int);
        }
        self.surface[x + y * (self.width as usize)] == 1
    }

    pub fn width(&self) -> (r: u16)
        ensures
            r == self.spec_width(),
    {
        self.width
    }

    pub fn height(&self) -> (r: u16)
        ensures
            r == self.spec_height(),
    {
        self.height
    }
}

} // verus!
