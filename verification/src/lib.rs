//! An in-memory frame buffer for driving small displays.
//!
//! Client code draws into RAM through coordinate-addressed operations and
//! then flushes the whole picture to the display hardware in one transfer,
//! which avoids the flicker of piecemeal partial updates.
//!
//! The buffer is generic over a storage backend: a plain contiguous block of
//! pixel values for the common case, or a proxy that corrects the byte order
//! of every element in flight so that the memory can be handed verbatim to a
//! DMA engine feeding a peripheral of foreign endianness.

pub mod backends;
pub mod geometry;
pub mod pixelcolor;

use vstd::prelude::*;

use crate::backends::{DMACapableFrameBufferBackend, FrameBufferBackend};
use crate::geometry::{Pixel, Point};
use crate::pixelcolor::PixelColor;

verus! {

/// Row-major bound: an in-range coordinate pair names a cell below
/// `width * height`.
proof fn lemma_row_major_bound(x: int, y: int, w: int, h: int)
    requires
        0 <= x < w,
        0 <= y < h,
    ensures
        0 <= y * w + x < w * h,
{
    assert(0 <= y * w + x < w * h) by (nonlinear_arith)
        requires
            0 <= x < w && 0 <= y < h,
    ;
}

/// Row-major indexing is reversible: dividing the linear index by the width
/// recovers the row, the remainder recovers the column.
proof fn lemma_row_major_decomposition(x: int, y: int, w: int)
    requires
        0 <= x < w,
        0 <= y,
    ensures
        (y * w + x) / w == y,
        (y * w + x) % w == x,
{
    vstd::arithmetic::div_mod::lemma_fundamental_div_mod_converse(y * w + x, w, y, x);
}

/// Splitting a linear index below `width * height` gives an in-range
/// coordinate pair that maps back to the index.
proof fn lemma_row_major_split(i: int, w: int, h: int)
    requires
        0 < w,
        0 <= i < w * h,
    ensures
        0 <= i / w < h,
        0 <= i % w < w,
        (i / w) * w + (i % w) == i,
{
    vstd::arithmetic::div_mod::lemma_fundamental_div_mod(i, w);
    vstd::arithmetic::div_mod::lemma_mod_bound(i, w);
    vstd::arithmetic::mul::lemma_mul_is_commutative(w, h);
    vstd::arithmetic::mul::lemma_mul_is_commutative(w, i / w);
    if i / w < 0 {
        vstd::arithmetic::mul::lemma_mul_inequality(i / w, -1, w);
        assert(false);
    }
    if i / w >= h {
        vstd::arithmetic::mul::lemma_mul_inequality(h, i / w, w);
        assert(false);
    }
}

/// Distinct in-range coordinate pairs name distinct cells.
proof fn lemma_row_major_injective(w: int, x1: int, y1: int, x2: int, y2: int)
    requires
        0 <= x1 < w,
        0 <= x2 < w,
        0 <= y1,
        0 <= y2,
        y1 * w + x1 == y2 * w + x2,
    ensures
        x1 == x2,
        y1 == y2,
{
    lemma_row_major_decomposition(x1, y1, w);
    lemma_row_major_decomposition(x2, y2, w);
}

/// Whether `p` lies on a `w` by `h` surface.
pub open spec fn spec_in_range(p: Point, w: int, h: int) -> bool {
    0 <= p.x < w && 0 <= p.y < h
}

/// One pixel of a draw stream applied to the row-major contents `s`: an
/// in-range pixel updates its cell, an out-of-range one is dropped.
pub open spec fn spec_draw_pixel<C>(s: Seq<C>, w: int, h: int, px: Pixel<C>) -> Seq<C> {
    if spec_in_range(px.0, w, h) {
        s.update((px.0.y as int) * w + (px.0.x as int), px.1)
    } else {
        s
    }
}

/// A whole draw stream applied to the row-major contents `s`, in order.
pub open spec fn spec_draw<C>(s: Seq<C>, w: int, h: int, ps: Seq<Pixel<C>>) -> Seq<C>
    decreases ps.len(),
{
    if ps.len() == 0 {
        s
    } else {
        spec_draw_pixel(spec_draw(s, w, h, ps.drop_last()), w, h, ps.last())
    }
}

/// Drawing never changes the number of cells.
pub proof fn lemma_draw_len<C>(s: Seq<C>, w: int, h: int, ps: Seq<Pixel<C>>)
    requires
        s.len() == w * h,
    ensures
        spec_draw(s, w, h, ps).len() == s.len(),
    decreases ps.len(),
{
    if ps.len() > 0 {
        lemma_draw_len(s, w, h, ps.drop_last());
        let q = ps.last();
        if spec_in_range(q.0, w, h) {
            lemma_row_major_bound(q.0.x as int, q.0.y as int, w, h);
        }
    }
}

/// Clipping leaves neighbors alone: a cell that no pixel of the stream
/// targets keeps its old color. Out-of-range pixels target no cell at all,
/// so a stream that wanders off the surface disturbs nothing else.
pub proof fn lemma_draw_untouched<C>(s: Seq<C>, w: int, h: int, ps: Seq<Pixel<C>>, x: int, y: int)
    requires
        s.len() == w * h,
        0 <= x < w,
        0 <= y < h,
        forall|k: int| 0 <= k < ps.len() ==> !(ps[k].0.x == x && ps[k].0.y == y),
    ensures
        spec_draw(s, w, h, ps)[y * w + x] == s[y * w + x],
    decreases ps.len(),
{
    lemma_row_major_bound(x, y, w, h);
    if ps.len() > 0 {
        let rest = ps.drop_last();
        let q = ps.last();
        assert(forall|k: int| 0 <= k < rest.len() ==> !(rest[k].0.x == x && rest[k].0.y == y));
        lemma_draw_untouched(s, w, h, rest, x, y);
        lemma_draw_len(s, w, h, rest);
        if spec_in_range(q.0, w, h) {
            lemma_row_major_bound(q.0.x as int, q.0.y as int, w, h);
            assert(!(q.0.x == x && q.0.y == y));
            if (q.0.y as int) * w + (q.0.x as int) == y * w + x {
                lemma_row_major_injective(w, q.0.x as int, q.0.y as int, x, y);
                assert(false);
            }
        }
    }
}

/// In-range pixels of a stream do land: if pixel `k` is in range and no
/// later pixel of the stream targets the same point, the drawn contents
/// hold its color at that point.
pub proof fn lemma_draw_applied<C>(s: Seq<C>, w: int, h: int, ps: Seq<Pixel<C>>, k: int)
    requires
        s.len() == w * h,
        0 <= k < ps.len(),
        spec_in_range(ps[k].0, w, h),
        forall|j: int| k < j < ps.len() ==> ps[j].0 != ps[k].0,
    ensures
        spec_draw(s, w, h, ps)[(ps[k].0.y as int) * w + (ps[k].0.x as int)] == ps[k].1,
    decreases ps.len(),
{
    let p = ps[k].0;
    lemma_row_major_bound(p.x as int, p.y as int, w, h);
    let rest = ps.drop_last();
    let q = ps.last();
    lemma_draw_len(s, w, h, rest);
    if k == ps.len() - 1 {
    } else {
        assert(rest[k] == ps[k]);
        lemma_draw_applied(s, w, h, rest, k);
        assert(q.0 != p);
        if spec_in_range(q.0, w, h) {
            lemma_row_major_bound(q.0.x as int, q.0.y as int, w, h);
            if (q.0.y as int) * w + (q.0.x as int) == (p.y as int) * w + (p.x as int) {
                lemma_row_major_injective(w, q.0.x as int, q.0.y as int, p.x as int, p.y as int);
                assert(false);
            }
        }
    }
}

/// The number of cells of `s` holding exactly the color `c`.
pub open spec fn color_count<C>(s: Seq<C>, c: C) -> nat
    decreases s.len(),
{
    if s.len() == 0 {
        0
    } else {
        color_count(s.drop_last(), c) + (if s.last() == c {
            1nat
        } else {
            0nat
        })
    }
}

/// A uniformly filled sequence holds no other color at all.
pub proof fn lemma_uniform_count<C>(s: Seq<C>, fill: C, other: C)
    requires
        forall|i: int| 0 <= i < s.len() ==> s[i] == fill,
        other != fill,
    ensures
        color_count(s, other) == 0,
    decreases s.len(),
{
    if s.len() > 0 {
        lemma_uniform_count(s.drop_last(), fill, other);
    }
}

/// A frame buffer: a `width` by `height` drawing surface over a storage
/// backend, addressed by points with `0 <= x < width` and `0 <= y < height`.
/// The cell for `(x, y)` is the backend element at index `y * width + x`
/// (row-major).
///
/// The backend must hold exactly `width * height` elements; construction
/// checks this, and no operation disturbs it.
#[verifier::reject_recursive_types(C)]
pub struct FrameBuf<C: PixelColor, B: FrameBufferBackend<Color = C>> {
    /// The storage backend holding one element per pixel.
    pub data: B,
    /// The width of the surface, in pixels.
    pub width: usize,
    /// The height of the surface, in pixels.
    pub height: usize,
}

impl<C: PixelColor, B: FrameBufferBackend<Color = C>> FrameBuf<C, B> {
    /// The size invariant: the backend holds one element per pixel, and the
    /// dimensions are addressable by `i32` point coordinates.
    pub open spec fn well_formed(&self) -> bool {
        &&& self.data.contents().len() == self.width * self.height
        &&& self.width * self.height <= usize::MAX
        &&& self.width <= i32::MAX as usize
        &&& self.height <= i32::MAX as usize
    }

    /// The linear storage index of the in-range point `(x, y)`.
    pub open spec fn spec_index_of(&self, x: int, y: int) -> int {
        y * (self.width as int) + x
    }

    /// The color of the cell at the in-range point `(x, y)`.
    pub open spec fn color_at(&self, x: int, y: int) -> C {
        self.data.contents()[self.spec_index_of(x, y)]
    }

    /// Builds a frame buffer of `width` by `height` pixels over `data`.
    ///
    /// The backend must already hold exactly `width * height` elements;
    /// `try_new` checks the same conditions at run time instead.
    pub fn new(data: B, width: usize, height: usize) -> (fb: FrameBuf<C, B>)
        requires
            data.contents().len() == width * height,
            width * height <= usize::MAX,
            width <= i32::MAX as usize,
            height <= i32::MAX as usize,
        ensures
            fb.data == data,
            fb.width == width,
            fb.height == height,
            fb.well_formed(),
    {
        FrameBuf { data, width, height }
    }

    /// Builds a frame buffer of `width` by `height` pixels over `data`, or
    /// returns `None` when the backend's element count is not exactly
    /// `width * height` (or a dimension exceeds the `i32` coordinate range):
    /// an inconsistently sized buffer cannot exist.
    pub fn try_new(data: B, width: usize, height: usize) -> (r: Option<FrameBuf<C, B>>)
        ensures
            match r {
                Some(fb) => {
                    &&& fb.data == data
                    &&& fb.width == width
                    &&& fb.height == height
                    &&& fb.well_formed()
                },
                None => !(data.contents().len() == width * height && width <= i32::MAX as usize
                    && height <= i32::MAX as usize),
            },
    {
        let n = data.nr_elements();
        if width > (i32::MAX as usize) || height > (i32::MAX as usize) {
            return None;
        }
        match width.checked_mul(height) {
            Some(expected) => {
                if n == expected {
                    Some(FrameBuf { data, width, height })
                } else {
                    None
                }
            },
            None => None,
        }
    }

    /// The width of the surface, in pixels.
    pub fn width(&self) -> (w: usize)
        ensures
            w == self.width,
    {
        self.width
    }

    /// The height of the surface, in pixels.
    pub fn height(&self) -> (h: usize)
        ensures
            h == self.height,
    {
        self.height
    }

    /// The dimensions of the surface, reported to a drawing library so it
    /// can lay out and clip before ever writing a pixel.
    pub fn size(&self) -> (s: (usize, usize))
        ensures
            s.0 == self.width,
            s.1 == self.height,
    {
        (self.width, self.height)
    }

    /// Reports whether dimensions and backend agree. Construction through
    /// `new` or `try_new` establishes this and every operation preserves it,
    /// so unverified callers can re-check before operations that assume it.
    pub fn is_well_formed(&self) -> (r: bool)
        ensures
            r == self.well_formed(),
    {
        let n = self.data.nr_elements();
        if self.width > (i32::MAX as usize) || self.height > (i32::MAX as usize) {
            return false;
        }
        match self.width.checked_mul(self.height) {
            Some(expected) => n == expected,
            None => false,
        }
    }

    /// Sets the pixel at the in-range point `p` to `color`.
    ///
    /// This path does not clip: the point is a precondition. Streams that
    /// may carry out-of-range points go through `draw_iter`, which drops
    /// them.
    pub fn set_color_at(&mut self, p: Point, color: C)
        requires
            old(self).well_formed(),
            0 <= p.x < old(self).width,
            0 <= p.y < old(self).height,
        ensures
            final(self).width == old(self).width,
            final(self).height == old(self).height,
            final(self).well_formed(),
            final(self).data.contents() == old(self).data.contents().update(
                old(self).spec_index_of(p.x as int, p.y as int),
                color,
            ),
    {
        proof {
            lemma_row_major_bound(p.x as int, p.y as int, self.width as int, self.height as int);
        }
        let index: usize = (p.y as usize) * self.width + (p.x as usize);
        self.data.set(index, color);
    }

    /// Returns the color of the pixel at the in-range point `p`.
    pub fn get_color_at(&self, p: Point) -> (color: C)
        requires
            self.well_formed(),
            0 <= p.x < self.width,
            0 <= p.y < self.height,
        ensures
            color == self.color_at(p.x as int, p.y as int),
    {
        proof {
            lemma_row_major_bound(p.x as int, p.y as int, self.width as int, self.height as int);
        }
        let index: usize = (p.y as usize) * self.width + (p.x as usize);
        self.data.get(index)
    }

    /// Sets every pixel to `color`: equivalent to feeding every coordinate
    /// through `draw_iter`, in one pass over the backend.
    pub fn clear(&mut self, color: C)
        ensures
            final(self).width == old(self).width,
            final(self).height == old(self).height,
            old(self).well_formed() ==> final(self).well_formed(),
            final(self).data.contents() == Seq::new(
                old(self).data.contents().len(),
                |i: int| color,
            ),
    {
        let n = self.data.nr_elements();
        let mut i: usize = 0;
        while i < n
            invariant
                self.width == old(self).width,
                self.height == old(self).height,
                n == self.data.contents().len(),
                i <= n,
                forall|j: int| 0 <= j < i ==> self.data.contents()[j] == color,
            decreases n - i,
        {
            self.data.set(i, color);
            i += 1;
        }
        proof {
            assert(self.data.contents() =~= Seq::new(
                old(self).data.contents().len(),
                |i: int| color,
            ));
        }
    }

    /// Sets every pixel to the color type's default (all-off) value.
    pub fn clear_black(&mut self)
        ensures
            final(self).width == old(self).width,
            final(self).height == old(self).height,
            old(self).well_formed() ==> final(self).well_formed(),
            final(self).data.contents() == Seq::new(
                old(self).data.contents().len(),
                |i: int| C::spec_default(),
            ),
    {
        let black = C::default_color();
        self.clear(black);
    }

    /// Draws a finite stream of pixels: every in-range pixel is written in
    /// stream order, and out-of-range pixels are silently dropped (clipped),
    /// never an error.
    pub fn draw_iter(&mut self, pixels: &Vec<Pixel<C>>)
        requires
            old(self).well_formed(),
        ensures
            final(self).width == old(self).width,
            final(self).height == old(self).height,
            final(self).well_formed(),
            final(self).data.contents() == spec_draw(
                old(self).data.contents(),
                old(self).width as int,
                old(self).height as int,
                pixels@,
            ),
    {
        let w = self.width;
        let h = self.height;
        let mut k: usize = 0;
        while k < pixels.len()
            invariant
                self.width == old(self).width,
                self.height == old(self).height,
                w == self.width,
                h == self.height,
                self.well_formed(),
                k <= pixels@.len(),
                self.data.contents() == spec_draw(
                    old(self).data.contents(),
                    w as int,
                    h as int,
                    pixels@.take(k as int),
                ),
            decreases pixels@.len() - k,
        {
            let px = pixels[k];
            let p = px.0;
            proof {
                assert(pixels@.take(k as int + 1).drop_last() =~= pixels@.take(k as int));
                assert(pixels@.take(k as int + 1).last() == pixels@[k as int]);
            }
            if p.x >= 0 && p.y >= 0 && (p.x as usize) < w && (p.y as usize) < h {
                proof {
                    lemma_row_major_bound(p.x as int, p.y as int, w as int, h as int);
                }
                let index: usize = (p.y as usize) * w + (p.x as usize);
                self.data.set(index, px.1);
            }
            k += 1;
        }
        proof {
            assert(pixels@.take(pixels@.len() as int) =~= pixels@);
        }
    }

    /// Begins a fresh row-major pass over the buffer's pixels, as flushed to
    /// a display: each call starts again from the first pixel.
    pub fn into_iter<'a>(&'a self) -> (it: FrameBufIntoIterator<'a, C, B>)
        ensures
            it.fbuf == self,
            it.index == 0,
    {
        FrameBufIntoIterator { fbuf: self, index: 0 }
    }

    /// The row-major pixel pass of the buffer: pair `i` carries the point
    /// `(i % width, i / width)` and the buffer's color at that cell.
    pub open spec fn pixel_sequence(&self) -> Seq<Pixel<C>> {
        Seq::new(
            self.data.contents().len(),
            |i: int| Pixel(
                Point {
                    x: (i % (self.width as int)) as i32,
                    y: (i / (self.width as int)) as i32,
                },
                self.data.contents()[i],
            ),
        )
    }
}

impl<C: PixelColor, B: DMACapableFrameBufferBackend<Color = C>> FrameBuf<C, B> {
    /// The raw element range of a DMA-capable backend, for a transfer engine
    /// to read: `width * height` contiguous elements, exactly as they sit in
    /// memory. The caller must not mutate the buffer while a transfer over
    /// the range is outstanding, and must not read past its end.
    pub fn raw_data(&self) -> (s: &[C])
        ensures
            s@ == self.data.raw_storage(),
            s@.len() == self.data.contents().len(),
    {
        self.data.data()
    }
}

/// Iteration state of one row-major pass over a frame buffer's pixels,
/// commonly used to push the finished picture into a hardware display.
#[verifier::reject_recursive_types(C)]
pub struct FrameBufIntoIterator<'a, C: PixelColor, B: FrameBufferBackend<Color = C>> {
    /// The buffer being read.
    pub fbuf: &'a FrameBuf<C, B>,
    /// The linear index of the next pixel to yield.
    pub index: usize,
}

impl<'a, C: PixelColor, B: FrameBufferBackend<Color = C>> FrameBufIntoIterator<'a, C, B> {
    /// Yields the next (point, color) pair of the pass, `x` varying fastest,
    /// or `None` once all `width * height` pixels have been yielded.
    pub fn next(&mut self) -> (r: Option<Pixel<C>>)
        requires
            old(self).fbuf.well_formed(),
        ensures
            final(self).fbuf == old(self).fbuf,
            old(self).index < old(self).fbuf.data.contents().len() ==> {
                &&& r == Some(old(self).fbuf.pixel_sequence()[old(self).index as int])
                &&& final(self).index == old(self).index + 1
            },
            old(self).index >= old(self).fbuf.data.contents().len() ==> {
                &&& r == None::<Pixel<C>>
                &&& final(self).index == old(self).index
            },
    {
        let total = self.fbuf.data.nr_elements();
        if self.index >= total {
            return None;
        }
        proof {
            assert(self.fbuf.width as int > 0) by {
                if self.fbuf.width as int == 0 {
                    assert(self.fbuf.data.contents().len() == 0);
                }
            }
            lemma_row_major_split(
                self.index as int,
                self.fbuf.width as int,
                self.fbuf.height as int,
            );
        }
        let y = self.index / self.fbuf.width;
        let x = self.index - y * self.fbuf.width;
        let color = self.fbuf.data.get(self.index);
        self.index = self.index + 1;
        Some(Pixel(Point { x: x as i32, y: y as i32 }, color))
    }
}

/// Row-major completeness of the pixel pass: one full pass yields exactly
/// `width * height` pairs; the pair at position `y * width + x` carries the
/// point `(x, y)` with the buffer's color there; and no two positions carry
/// the same point, so every in-range point appears exactly once.
pub proof fn lemma_pixel_sequence_row_major<C: PixelColor, B: FrameBufferBackend<Color = C>>(
    fb: FrameBuf<C, B>,
)
    requires
        fb.well_formed(),
    ensures
        fb.pixel_sequence().len() == fb.width * fb.height,
        forall|x: int, y: int|
            0 <= x < fb.width && 0 <= y < fb.height ==> #[trigger] fb.pixel_sequence()[y * (
            fb.width as int) + x] == Pixel(
                Point { x: x as i32, y: y as i32 },
                fb.color_at(x, y),
            ),
        forall|i: int, j: int|
            0 <= i < j < fb.pixel_sequence().len() ==> (#[trigger] fb.pixel_sequence()[i]).0 != (
            #[trigger] fb.pixel_sequence()[j]).0,
{
    let w = fb.width as int;
    let h = fb.height as int;
    assert forall|x: int, y: int| 0 <= x < w && 0 <= y < h implies #[trigger] fb.pixel_sequence()[y
        * w + x] == Pixel(Point { x: x as i32, y: y as i32 }, fb.color_at(x, y)) by {
        lemma_row_major_bound(x, y, w, h);
        lemma_row_major_decomposition(x, y, w);
    }
    assert forall|i: int, j: int| 0 <= i < j < fb.pixel_sequence().len() implies (
    #[trigger] fb.pixel_sequence()[i]).0 != (#[trigger] fb.pixel_sequence()[j]).0 by {
        assert(w > 0) by {
            if w == 0 {
                assert(fb.data.contents().len() == 0);
            }
        }
        lemma_row_major_split(i, w, h);
        lemma_row_major_split(j, w, h);
        if fb.pixel_sequence()[i].0 == fb.pixel_sequence()[j].0 {
            assert(i % w == j % w && i / w == j / w);
            assert(false);
        }
    }
}

/// Clear semantics: after every cell is filled with `x`, reading any
/// in-range point gives `x`, and the count of cells holding any other color
/// is zero.
pub proof fn lemma_clear_semantics<C: PixelColor, B: FrameBufferBackend<Color = C>>(
    fb: FrameBuf<C, B>,
    x: C,
    other: C,
    px: int,
    py: int,
)
    requires
        fb.well_formed(),
        fb.data.contents() == Seq::new(fb.data.contents().len(), |i: int| x),
        0 <= px < fb.width,
        0 <= py < fb.height,
        other != x,
    ensures
        fb.color_at(px, py) == x,
        color_count(fb.data.contents(), other) == 0,
{
    lemma_row_major_bound(px, py, fb.width as int, fb.height as int);
    lemma_uniform_count(fb.data.contents(), x, other);
}

} // verus!
