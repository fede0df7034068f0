//! The pixel canvas: a rectangular RGBA grid with alpha blending and
//! background-pixel queries. An ant may only walk on cells that still hold
//! the original background color, so the canvas keeps its dimensions and
//! background fixed and mutates pixels only through `blend_pixel`.

use vstd::prelude::*;

verus! {

/// An RGBA pixel, eight bits per channel.
#[derive(Clone, Copy, PartialEq, Eq, Structural, Debug)]
pub struct Rgba {
    pub r: u8,
    pub g: u8,
    pub b: u8,
    pub a: u8,
}

/// Errors of the canvas: construction with negative dimensions, and a blend
/// aimed outside the grid.
#[derive(Clone, Copy, PartialEq, Eq, Structural, Debug)]
pub enum CanvasError {
    InvalidDimensions,
    OutOfBounds,
}

/// The choice of complement term in the "over" compositing: the weight the
/// destination keeps against a source of alpha `a`. Which term applies is an
/// explicit configuration choice, fixed per canvas at construction.
#[derive(Clone, Copy, PartialEq, Eq, Structural, Debug)]
pub enum BlendComplement {
    /// The exact complement: the destination weighted by `255 - alpha`.
    Exact,
    /// A complement biased slightly above one: the destination weighted by
    /// `263 - alpha`, which brightens repeated blends and relies on the clamp
    /// at the channel maximum.
    Biased,
}

/// The destination's weight on the 0..=255 scale under the chosen complement.
pub open spec fn complement_weight(mode: BlendComplement, sa: int) -> int {
    match mode {
        BlendComplement::Exact => 255 - sa,
        BlendComplement::Biased => 263 - sa,
    }
}

/// One alpha-composited channel: the source weighted by its alpha, the
/// destination by the chosen complement, on the 0..=255 scale, the result
/// clamped to the channel maximum. (Under the exact complement the clamp
/// never binds.)
pub open spec fn blend_channel_spec(mode: BlendComplement, sa: int, sc: int, dc: int) -> int {
    let v = (sa * sc + complement_weight(mode, sa) * dc) / 255;
    if v > 255 {
        255
    } else {
        v
    }
}

/// The composite of `src` on `dst`, channel by channel. The alpha channel is
/// folded with the same weights as the color channels.
pub open spec fn blend_over_spec(mode: BlendComplement, src: Rgba, dst: Rgba) -> Rgba {
    Rgba {
        r: blend_channel_spec(mode, src.a as int, src.r as int, dst.r as int) as u8,
        g: blend_channel_spec(mode, src.a as int, src.g as int, dst.g as int) as u8,
        b: blend_channel_spec(mode, src.a as int, src.b as int, dst.b as int) as u8,
        a: blend_channel_spec(mode, src.a as int, src.a as int, dst.a as int) as u8,
    }
}

proof fn lemma_blend_channel_bounds(mode: BlendComplement, sa: int, sc: int, dc: int)
    requires
        0 <= sa <= 255,
        0 <= sc <= 255,
        0 <= dc <= 255,
    ensures
        0 <= sa * sc <= 255 * 255,
        0 <= complement_weight(mode, sa) * dc <= 263 * 255,
        0 <= blend_channel_spec(mode, sa, sc, dc) <= 255,
{
    assert(0 <= sa * sc <= 255 * 255 && 0 <= (255 - sa) * dc <= 263 * 255 && 0 <= (263 - sa) * dc
        <= 263 * 255) by (nonlinear_arith)
        requires
            0 <= sa <= 255,
            0 <= sc <= 255,
            0 <= dc <= 255,
    ;
}

/// Composites `src` over `dst` under the chosen complement.
pub fn blend_over(mode: BlendComplement, src: Rgba, dst: Rgba) -> (r: Rgba)
    ensures
        r == blend_over_spec(mode, src, dst),
{
    Rgba {
        r: blend_channel(mode, src.a, src.r, dst.r),
        g: blend_channel(mode, src.a, src.g, dst.g),
        b: blend_channel(mode, src.a, src.b, dst.b),
        a: blend_channel(mode, src.a, src.a, dst.a),
    }
}

fn blend_channel(mode: BlendComplement, sa: u8, sc: u8, dc: u8) -> (r: u8)
    ensures
        r as int == blend_channel_spec(mode, sa as int, sc as int, dc as int),
{
    proof {
        lemma_blend_channel_bounds(mode, sa as int, sc as int, dc as int);
    }
    let w: u32 = match mode {
        BlendComplement::Exact => 255 - sa as u32,
        BlendComplement::Biased => 263 - sa as u32,
    };
    let v: u32 = ((sa as u32) * (sc as u32) + w * (dc as u32)) / 255;
    if v > 255 {
        255
    } else {
        v as u8
    }
}

/// The mathematical model of a canvas: dimensions, the fixed background
/// color, and the pixel grid in row-major order.
#[verifier::ext_equal]
pub struct CanvasView {
    pub width: int,
    pub height: int,
    pub background: Rgba,
    pub complement: BlendComplement,
    pub pixels: Seq<Rgba>,
}

impl CanvasView {
    pub open spec fn wf(self) -> bool {
        0 <= self.width && 0 <= self.height && self.pixels.len() == self.width * self.height
    }

    pub open spec fn in_bounds(self, x: int, y: int) -> bool {
        0 <= x < self.width && 0 <= y < self.height
    }

    pub open spec fn index_of(self, x: int, y: int) -> int {
        y * self.width + x
    }

    pub open spec fn pixel_at(self, x: int, y: int) -> Rgba {
        self.pixels[self.index_of(x, y)]
    }

    /// True iff (x, y) is inside the grid and still bit-equal to the
    /// background color; every out-of-bounds cell counts as non-background.
    pub open spec fn is_background(self, x: int, y: int) -> bool {
        self.in_bounds(x, y) && self.pixel_at(x, y) == self.background
    }

    /// The canvas after compositing `color` over the pixel at (x, y), under
    /// the canvas's own complement choice.
    pub open spec fn blend(self, x: int, y: int, color: Rgba) -> CanvasView {
        CanvasView {
            pixels: self.pixels.update(
                self.index_of(x, y),
                blend_over_spec(self.complement, color, self.pixel_at(x, y)),
            ),
            ..self
        }
    }

    /// The cell `k` steps from (x0, y0) along (dx, dy) is background.
    pub open spec fn step_cell_background(
        self,
        x0: int,
        y0: int,
        dx: int,
        dy: int,
        k: int,
    ) -> bool {
        self.is_background(x0 + k * dx, y0 + k * dy)
    }

    /// Some cell within `padding` steps ahead of (x0, y0) along (dx, dy) is
    /// not background (out-of-bounds cells block as well). The cell (x0, y0)
    /// itself is not examined.
    pub open spec fn path_blocked(self, x0: int, y0: int, dx: int, dy: int, padding: int) -> bool {
        exists|k: int| 1 <= k <= padding && !self.step_cell_background(x0, y0, dx, dy, k)
    }

    pub proof fn lemma_index_in_range(self, x: int, y: int)
        requires
            self.wf(),
            self.in_bounds(x, y),
        ensures
            0 <= self.index_of(x, y) < self.pixels.len(),
    {
        assert(0 <= y * self.width + x < self.width * self.height) by (nonlinear_arith)
            requires
                0 <= x < self.width,
                0 <= y < self.height,
        ;
    }

    pub proof fn lemma_index_injective(self, x1: int, y1: int, x2: int, y2: int)
        requires
            self.wf(),
            self.in_bounds(x1, y1),
            self.in_bounds(x2, y2),
            self.index_of(x1, y1) == self.index_of(x2, y2),
        ensures
            x1 == x2 && y1 == y2,
    {
        assert(y1 * self.width + x1 == y2 * self.width + x2 ==> x1 == x2 && y1 == y2)
            by (nonlinear_arith)
            requires
                0 <= x1 < self.width,
                0 <= x2 < self.width,
                0 <= y1 < self.height,
                0 <= y2 < self.height,
        ;
    }
}

/// Law of the background test: a blend whose composite differs from the
/// background color makes its target pixel non-background, and any blend
/// leaves the background test of every other cell exactly as it was.
/// Together with a fresh canvas being background everywhere, `is_background`
/// is true precisely for the cells such blends have never touched.
pub proof fn lemma_blend_background(c: CanvasView, x: int, y: int, color: Rgba)
    requires
        c.wf(),
        c.in_bounds(x, y),
        blend_over_spec(c.complement, color, c.pixel_at(x, y)) != c.background,
    ensures
        !c.blend(x, y, color).is_background(x, y),
        forall|i: int, j: int|
            !(i == x && j == y) ==> c.blend(x, y, color).is_background(i, j) == c.is_background(
                i,
                j,
            ),
{
    c.lemma_index_in_range(x, y);
    let c2 = c.blend(x, y, color);
    assert(c2.pixel_at(x, y) == blend_over_spec(c.complement, color, c.pixel_at(x, y)));
    assert forall|i: int, j: int| !(i == x && j == y) implies c2.is_background(i, j)
        == c.is_background(i, j) by {
        if c.in_bounds(i, j) {
            c.lemma_index_in_range(i, j);
            if c.index_of(i, j) == c.index_of(x, y) {
                c.lemma_index_injective(i, j, x, y);
            }
        }
    }
}

/// The canvas after a sequence of blends, each an (x, y, color) triple,
/// applied in order.
pub open spec fn after_blends(c: CanvasView, blends: Seq<(int, int, Rgba)>) -> CanvasView
    decreases blends.len(),
{
    if blends.len() == 0 {
        c
    } else {
        after_blends(c, blends.drop_last()).blend(
            blends.last().0,
            blends.last().1,
            blends.last().2,
        )
    }
}

/// Blending never changes the canvas's shape or its background color.
pub proof fn lemma_after_blends_shape(c: CanvasView, blends: Seq<(int, int, Rgba)>)
    requires
        c.wf(),
        forall|k: int|
            0 <= k < blends.len() ==> c.in_bounds((#[trigger] blends[k]).0, blends[k].1),
    ensures
        after_blends(c, blends).wf(),
        after_blends(c, blends).width == c.width,
        after_blends(c, blends).height == c.height,
        after_blends(c, blends).background == c.background,
        after_blends(c, blends).complement == c.complement,
    decreases blends.len(),
{
    if blends.len() > 0 {
        lemma_after_blends_shape(c, blends.drop_last());
        let c1 = after_blends(c, blends.drop_last());
        c1.lemma_index_in_range(blends.last().0, blends.last().1);
    }
}

/// Law of background tracking, in full: starting from a canvas with the
/// exact complement that is background everywhere, after any sequence of
/// in-bounds blends of opaque colors that differ from the background,
/// `is_background` holds at exactly the in-bounds cells that no blend ever
/// touched.
pub proof fn lemma_background_tracks_blends(
    c: CanvasView,
    blends: Seq<(int, int, Rgba)>,
    x: int,
    y: int,
)
    requires
        c.wf(),
        c.complement == BlendComplement::Exact,
        forall|i: int, j: int| c.in_bounds(i, j) ==> c.is_background(i, j),
        forall|k: int|
            0 <= k < blends.len() ==> c.in_bounds((#[trigger] blends[k]).0, blends[k].1)
                && blends[k].2.a == 255 && blends[k].2 != c.background,
        c.in_bounds(x, y),
    ensures
        after_blends(c, blends).is_background(x, y) <==> (forall|k: int|
            0 <= k < blends.len() ==> !((#[trigger] blends[k]).0 == x && blends[k].1 == y)),
    decreases blends.len(),
{
    if blends.len() > 0 {
        let prefix = blends.drop_last();
        lemma_background_tracks_blends(c, prefix, x, y);
        lemma_after_blends_shape(c, prefix);
        let c1 = after_blends(c, prefix);
        let last = blends.last();
        lemma_opaque_blend(last.2, c1.pixel_at(last.0, last.1));
        lemma_blend_background(c1, last.0, last.1, last.2);
        if last.0 == x && last.1 == y {
            assert(!after_blends(c, blends).is_background(x, y));
        } else {
            assert(after_blends(c, blends).is_background(x, y) == c1.is_background(x, y));
            assert(forall|k: int| 0 <= k < prefix.len() ==> prefix[k] == blends[k]);
        }
    }
}

/// Under the exact complement, an opaque source replaces the destination
/// outright.
pub proof fn lemma_opaque_blend(src: Rgba, dst: Rgba)
    requires
        src.a == 255,
    ensures
        blend_over_spec(BlendComplement::Exact, src, dst) == src,
{
    let mode = BlendComplement::Exact;
    assert(blend_channel_spec(mode, 255, src.r as int, dst.r as int) == src.r as int);
    assert(blend_channel_spec(mode, 255, src.g as int, dst.g as int) == src.g as int);
    assert(blend_channel_spec(mode, 255, src.b as int, dst.b as int) == src.b as int);
    assert(blend_channel_spec(mode, 255, src.a as int, dst.a as int) == src.a as int);
}

/// The pixel grid. Dimensions, background color and the complement choice
/// never change after construction; only `blend_pixel` writes to the pixels.
pub struct Canvas {
    pub width: i32,
    pub height: i32,
    pub background: Rgba,
    pub complement: BlendComplement,
    pub pixels: Vec<Rgba>,
}

impl View for Canvas {
    type V = CanvasView;

    open spec fn view(&self) -> CanvasView {
        CanvasView {
            width: self.width as int,
            height: self.height as int,
            background: self.background,
            complement: self.complement,
            pixels: self.pixels@,
        }
    }
}

impl Canvas {
    /// Row-major index of an in-bounds coordinate.
    fn pix_index(&self, x: i32, y: i32) -> (idx: usize)
        requires
            self@.wf(),
            self@.in_bounds(x as int, y as int),
        ensures
            idx == self@.index_of(x as int, y as int),
            idx < self.pixels@.len(),
    {
        proof {
            self@.lemma_index_in_range(x as int, y as int);
        }
        let n: usize = self.pixels.len();
        (y as usize) * (self.width as usize) + (x as usize)
    }

    /// A canvas of `width` x `height` pixels, all set to `background`, with
    /// the chosen compositing complement. Rejects negative dimensions with
    /// `InvalidDimensions`.
    pub fn new(width: i32, height: i32, background: Rgba, complement: BlendComplement) -> (r:
        Result<Canvas, CanvasError>)
        requires
            width >= 0 && height >= 0 ==> width * height <= usize::MAX,
        ensures
            width < 0 || height < 0 ==> r == Err::<Canvas, CanvasError>(
                CanvasError::InvalidDimensions,
            ),
            width >= 0 && height >= 0 ==> (r matches Ok(c) && c@.wf() && c@.width == width
                && c@.height == height && c@.background == background && c@.complement
                == complement && (forall|i: int|
                0 <= i < c@.pixels.len() ==> c@.pixels[i] == background) && forall|x: int, y: int|
                c@.in_bounds(x, y) ==> c@.is_background(x, y)),
    {
        if width < 0 || height < 0 {
            return Err(CanvasError::InvalidDimensions);
        }
        let n: usize = (width as usize) * (height as usize);
        let mut pixels: Vec<Rgba> = Vec::new();
        let mut i: usize = 0;
        while i < n
            invariant
                i <= n,
                pixels@.len() == i,
                forall|j: int| 0 <= j < i ==> pixels@[j] == background,
            decreases n - i,
        {
            pixels.push(background);
            i = i + 1;
        }
        let c = Canvas { width, height, background, complement, pixels };
        proof {
            assert forall|x: int, y: int| c@.in_bounds(x, y) implies c@.is_background(x, y) by {
                c@.lemma_index_in_range(x, y);
            }
        }
        Ok(c)
    }

    /// True iff (x, y) lies inside [0, width) x [0, height).
    pub fn in_bounds(&self, x: i32, y: i32) -> (r: bool)
        ensures
            r == self@.in_bounds(x as int, y as int),
    {
        0 <= x && x < self.width && 0 <= y && y < self.height
    }

    /// Alpha-composites `color` over the pixel at (x, y). An out-of-bounds
    /// coordinate is rejected with `OutOfBounds` before any mutation, so the
    /// grid is never corrupted.
    pub fn blend_pixel(&mut self, x: i32, y: i32, color: Rgba) -> (r: Result<(), CanvasError>)
        requires
            old(self)@.wf(),
        ensures
            final(self)@.wf(),
            final(self)@.width == old(self)@.width,
            final(self)@.height == old(self)@.height,
            final(self)@.background == old(self)@.background,
            final(self)@.complement == old(self)@.complement,
            old(self)@.in_bounds(x as int, y as int) ==> r == Ok::<(), CanvasError>(())
                && final(self)@ == old(self)@.blend(x as int, y as int, color),
            !old(self)@.in_bounds(x as int, y as int) ==> r == Err::<(), CanvasError>(
                CanvasError::OutOfBounds,
            ) && *final(self) == *old(self),
    {
        if !self.in_bounds(x, y) {
            return Err(CanvasError::OutOfBounds);
        }
        let idx = self.pix_index(x, y);
        let dst = self.pixels[idx];
        self.pixels[idx] = blend_over(self.complement, color, dst);
        Ok(())
    }

    /// True iff (x, y) is in bounds and its pixel is still bit-equal to the
    /// background color; any out-of-bounds coordinate is non-traversable.
    pub fn is_background(&self, x: i32, y: i32) -> (r: bool)
        requires
            self@.wf(),
        ensures
            r == self@.is_background(x as int, y as int),
    {
        if !self.in_bounds(x, y) {
            return false;
        }
        let idx = self.pix_index(x, y);
        self.pixels[idx] == self.background
    }

    /// Walks `padding` cells from (x0, y0) along (dx, dy) and reports whether
    /// any visited cell blocks the path: not background, or out of bounds.
    pub fn path_blocked(&self, x0: i32, y0: i32, dx: i32, dy: i32, padding: i32) -> (r: bool)
        requires
            self@.wf(),
            self@.in_bounds(x0 as int, y0 as int),
            -1 <= dx <= 1,
            -1 <= dy <= 1,
            padding >= 0,
        ensures
            r == self@.path_blocked(x0 as int, y0 as int, dx as int, dy as int, padding as int),
    {
        let mut x = x0;
        let mut y = y0;
        let mut k: i32 = 0;
        while k < padding
            invariant
                self@.wf(),
                self@.in_bounds(x0 as int, y0 as int),
                -1 <= dx <= 1,
                -1 <= dy <= 1,
                0 <= k <= padding,
                x == x0 + k * dx,
                y == y0 + k * dy,
                self@.in_bounds(x as int, y as int),
                forall|j: int|
                    1 <= j <= k ==> self@.step_cell_background(
                        x0 as int,
                        y0 as int,
                        dx as int,
                        dy as int,
                        j,
                    ),
            decreases padding - k,
        {
            proof {
                assert((k as int + 1) * (dx as int) == k as int * dx as int + dx as int)
                    by (nonlinear_arith);
                assert((k as int + 1) * (dy as int) == k as int * dy as int + dy as int)
                    by (nonlinear_arith);
            }
            let xn = x + dx;
            let yn = y + dy;
            k = k + 1;
            if !self.is_background(xn, yn) {
                assert(!self@.step_cell_background(
                    x0 as int,
                    y0 as int,
                    dx as int,
                    dy as int,
                    k as int,
                ));
                return true;
            }
            x = xn;
            y = yn;
            assert(self@.step_cell_background(x0 as int, y0 as int, dx as int, dy as int, k as int));
        }
        false
    }

    /// The pixel at (x, y), or `None` out of bounds.
    pub fn pixel(&self, x: i32, y: i32) -> (r: Option<Rgba>)
        requires
            self@.wf(),
        ensures
            self@.in_bounds(x as int, y as int) ==> r == Some(self@.pixel_at(x as int, y as int)),
            !self@.in_bounds(x as int, y as int) ==> r is None,
    {
        if !self.in_bounds(x, y) {
            return None;
        }
        let idx = self.pix_index(x, y);
        Some(self.pixels[idx])
    }

    /// The whole grid as row-major RGBA bytes, four per pixel — the layout
    /// raster encoders take. `None` only when four bytes per pixel cannot be
    /// counted in a machine word.
    pub fn to_rgba_bytes(&self) -> (r: Option<Vec<u8>>)
        requires
            self@.wf(),
        ensures
            4 * self@.pixels.len() <= usize::MAX ==> (r matches Some(b) && b@.len() == 4
                * self@.pixels.len() && forall|i: int|
                0 <= i < self@.pixels.len() ==> b@[4 * i] == (#[trigger] self@.pixels[i]).r && b@[4
                    * i + 1] == self@.pixels[i].g && b@[4 * i + 2] == self@.pixels[i].b && b@[4 * i
                    + 3] == self@.pixels[i].a),
            4 * self@.pixels.len() > usize::MAX ==> r is None,
    {
        let n = self.pixels.len();
        if n > usize::MAX / 4 {
            return None;
        }
        let mut bytes: Vec<u8> = Vec::new();
        let mut i: usize = 0;
        while i < n
            invariant
                i <= n,
                n == self@.pixels.len(),
                4 * n <= usize::MAX,
                bytes@.len() == 4 * i,
                forall|j: int|
                    0 <= j < i ==> bytes@[4 * j] == (#[trigger] self@.pixels[j]).r && bytes@[4 * j
                        + 1] == self@.pixels[j].g && bytes@[4 * j + 2] == self@.pixels[j].b
                        && bytes@[4 * j + 3] == self@.pixels[j].a,
            decreases n - i,
        {
            let p = self.pixels[i];
            bytes.push(p.r);
            bytes.push(p.g);
            bytes.push(p.b);
            bytes.push(p.a);
            i = i + 1;
        }
        Some(bytes)
    }
}

} // verus!
