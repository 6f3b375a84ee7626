//! Storage backends for a frame buffer.
//!
//! In the basic scenario a backend is just a contiguous block of pixel
//! values. A proxy backend can instead manipulate the data on the fly; the
//! one provided here corrects the byte order of every element so that the
//! underlying memory can be handed verbatim to a peripheral of foreign
//! endianness.

use vstd::prelude::*;

use crate::pixelcolor::{PixelColor, RawU16Color};

verus! {

/// The capability every storage provider under a frame buffer must offer:
/// indexed get and set of a pixel value, and a count of stored elements.
///
/// `contents` is the logical sequence of colors the backend holds. `set` and
/// `get` are specified against it, so a buffer on top never needs to know
/// whether the backend transforms values on their way to memory. Indices are
/// preconditions, not checked at runtime: the buffer on top guarantees them
/// by construction-time size matching plus coordinate clipping.
pub trait FrameBufferBackend: Sized {
    /// The pixel color type this backend stores.
    type Color: PixelColor;

    /// The logical sequence of colors held, by linear index.
    spec fn contents(&self) -> Seq<Self::Color>;

    /// Sets the element at `index` to `color`.
    fn set(&mut self, index: usize, color: Self::Color)
        requires
            index < old(self).contents().len(),
        ensures
            final(self).contents() == old(self).contents().update(index as int, color),
    ;

    /// Returns the color of the element at `index`.
    fn get(&self, index: usize) -> (color: Self::Color)
        requires
            index < self.contents().len(),
        ensures
            color == self.contents()[index as int],
    ;

    /// The number of elements stored. Stable over the backend's lifetime.
    fn nr_elements(&self) -> (n: usize)
        ensures
            n == self.contents().len(),
    ;
}

/// The refinement that marks a backend whose storage is one contiguous
/// block, safe to hand to a transfer (DMA) engine.
///
/// `raw_storage` is the sequence of elements physically in memory — for a
/// transforming backend it differs, element for element, from `contents` —
/// and `data` exposes that block as one slice. A caller that starts an
/// asynchronous transfer over the block must not mutate the buffer while
/// the transfer is outstanding; that obligation is documented, not enforced
/// at runtime.
pub trait DMACapableFrameBufferBackend: FrameBufferBackend {
    /// The sequence of elements exactly as they sit in memory.
    spec fn raw_storage(&self) -> Seq<Self::Color>;

    /// The contiguous storage block, first element first.
    fn data(&self) -> (s: &[Self::Color])
        ensures
            s@ == self.raw_storage(),
            self.raw_storage().len() == self.contents().len(),
    ;
}

/// The direct-memory backend: a caller-supplied contiguous block of pixel
/// values, get and set passing straight through with no transformation.
impl<C: PixelColor> FrameBufferBackend for Vec<C> {
    type Color = C;

    open spec fn contents(&self) -> Seq<C> {
        self@
    }

    fn set(&mut self, index: usize, color: C) {
        self[index] = color;
    }

    fn get(&self, index: usize) -> (color: C) {
        self[index]
    }

    fn nr_elements(&self) -> (n: usize) {
        self.len()
    }
}

/// A contiguous block of plain pixel values holds in memory exactly what it
/// holds logically, so it qualifies for DMA as it is.
impl<C: PixelColor> DMACapableFrameBufferBackend for Vec<C> {
    open spec fn raw_storage(&self) -> Seq<C> {
        self@
    }

    fn data(&self) -> (s: &[C]) {
        self.as_slice()
    }
}

/// The fixed-size direct backend: a stack-allocated array of pixel values,
/// for buffers whose dimensions are known at compile time. Like the
/// `Vec`-backed variant, get and set pass straight through.
impl<C: PixelColor, const N: usize> FrameBufferBackend for [C; N] {
    type Color = C;

    open spec fn contents(&self) -> Seq<C> {
        self@
    }

    fn set(&mut self, index: usize, color: C) {
        vstd::array::ArrayAdditionalExecFns::set(self, index, color);
    }

    fn get(&self, index: usize) -> (color: C) {
        self[index]
    }

    fn nr_elements(&self) -> (n: usize) {
        N
    }
}

/// A fixed-size array is one contiguous block of plain pixel values, so it
/// qualifies for DMA as it is.
impl<C: PixelColor, const N: usize> DMACapableFrameBufferBackend for [C; N] {
    open spec fn raw_storage(&self) -> Seq<C> {
        self@
    }

    fn data(&self) -> (s: &[C]) {
        self.as_slice()
    }
}

/// How the bytes of each stored element relate to the host's memory order.
#[derive(Clone, Copy, PartialEq, Eq, Structural, Debug)]
pub enum EndianCorrection {
    ToLittleEndian,
    ToBigEndian,
}

/// The byte a 16-bit storage word places first (at the lower address) in
/// memory on this little-endian host: its low-order byte.
pub open spec fn first_byte(raw: u16) -> u16 {
    raw % 256
}

/// The byte a 16-bit storage word places second in memory on this
/// little-endian host: its high-order byte.
pub open spec fn second_byte(raw: u16) -> u16 {
    raw / 256
}

/// The storage word with its two bytes exchanged.
pub open spec fn spec_swapped(raw: u16) -> u16 {
    (first_byte(raw) * 256 + second_byte(raw)) as u16
}

/// Exchanging the bytes of a word moves each of its two bytes to the other
/// position.
pub proof fn lemma_swapped_bytes(raw: u16)
    ensures
        first_byte(spec_swapped(raw)) == second_byte(raw),
        second_byte(spec_swapped(raw)) == first_byte(raw),
{
    let lo = first_byte(raw) as int;
    let hi = second_byte(raw) as int;
    assert(0 <= lo < 256 && 0 <= hi < 256);
    assert(lo * 256 + hi < 65536);
    assert((lo * 256 + hi) % 256 == hi && (lo * 256 + hi) / 256 == lo) by (nonlinear_arith)
        requires
            0 <= lo < 256 && 0 <= hi < 256,
    ;
}

/// Exchanging the two bytes of a word twice restores the word.
pub proof fn lemma_swapped_involutive(raw: u16)
    ensures
        spec_swapped(spec_swapped(raw)) == raw,
{
    lemma_swapped_bytes(raw);
    assert(second_byte(raw) * 256 + first_byte(raw) == raw) by (nonlinear_arith)
        requires
            first_byte(raw) == raw % 256 && second_byte(raw) == raw / 256,
    ;
}

/// The stored word that realizes `endian` for the logical word `raw` — and,
/// because exchanging bytes twice restores the word, equally the logical
/// word recovered from the stored word `raw`.
///
/// On this little-endian host a word already sits in memory low byte first,
/// so a `ToLittleEndian` target stores the word as it is, and a
/// `ToBigEndian` target stores it with its two bytes exchanged.
pub open spec fn spec_corrected(endian: EndianCorrection, raw: u16) -> u16 {
    match endian {
        EndianCorrection::ToBigEndian => spec_swapped(raw),
        EndianCorrection::ToLittleEndian => raw,
    }
}

/// Correcting a word twice toward the same target restores the word.
pub proof fn lemma_corrected_involutive(endian: EndianCorrection, raw: u16)
    ensures
        spec_corrected(endian, spec_corrected(endian, raw)) == raw,
{
    match endian {
        EndianCorrection::ToBigEndian => lemma_swapped_involutive(raw),
        EndianCorrection::ToLittleEndian => {},
    }
}

/// Byte-order effect of the correction, stated over the bytes in memory:
/// with a big-endian target the stored element puts the logical high byte
/// first and the logical low byte second; with a little-endian target it
/// keeps the logical word, low byte first.
pub proof fn lemma_wire_byte_order(endian: EndianCorrection, raw: u16)
    ensures
        endian == EndianCorrection::ToBigEndian ==> first_byte(spec_corrected(endian, raw))
            == second_byte(raw) && second_byte(spec_corrected(endian, raw)) == first_byte(raw),
        endian == EndianCorrection::ToLittleEndian ==> spec_corrected(endian, raw) == raw,
{
    match endian {
        EndianCorrection::ToBigEndian => lemma_swapped_bytes(raw),
        EndianCorrection::ToLittleEndian => {},
    }
}

/// Returns `raw` with its two bytes exchanged.
pub fn swap_bytes(raw: u16) -> (r: u16)
    ensures
        r == spec_swapped(raw),
{
    let lo: u16 = raw % 256;
    let hi: u16 = raw / 256;
    lo * 256 + hi
}

/// The element stored for the logical color `c` under `endian` — equally,
/// the logical color read back from the stored element `c`.
pub open spec fn corrected_color<C: RawU16Color>(endian: EndianCorrection, c: C) -> C {
    C::spec_from_raw(spec_corrected(endian, c.raw()))
}

/// The per-element transform is its own inverse, so reading back a stored
/// element returns exactly the color that was set.
pub proof fn lemma_corrected_color_involutive<C: RawU16Color>(endian: EndianCorrection, c: C)
    ensures
        corrected_color(endian, corrected_color(endian, c)) == c,
{
    C::lemma_from_raw_roundtrip(spec_corrected(endian, c.raw()));
    lemma_corrected_involutive(endian, c.raw());
    C::lemma_raw_roundtrip(c);
}

/// A backend that changes the underlying byte order: on every write the
/// element is stored with its two storage bytes arranged for the configured
/// target, and on every read the same exchange recovers the logical value.
///
/// Useful when the buffer's memory is handed by DMA to a peripheral whose
/// endianness differs from the host's: callers of `set` and `get` always
/// see logical host-order color values, while the bytes physically in
/// memory are in wire order.
pub struct EndianCorrectedBuffer<C: RawU16Color> {
    /// The wrapped contiguous block, holding elements in wire order.
    pub data: Vec<C>,
    /// The byte order the stored elements realize. Fixed at construction.
    pub endian: EndianCorrection,
}

impl<C: RawU16Color> EndianCorrectedBuffer<C> {
    /// Wraps `data` as an endian-corrected backend targeting `endian`.
    pub fn new(data: Vec<C>, endian: EndianCorrection) -> (b: EndianCorrectedBuffer<C>)
        ensures
            b.data == data,
            b.endian == endian,
    {
        EndianCorrectedBuffer { data, endian }
    }
}

impl<C: RawU16Color> FrameBufferBackend for EndianCorrectedBuffer<C> {
    type Color = C;

    open spec fn contents(&self) -> Seq<C> {
        Seq::new(self.data@.len(), |i: int| corrected_color(self.endian, self.data@[i]))
    }

    fn set(&mut self, index: usize, color: C)
        ensures
            final(self).endian == old(self).endian,
            final(self).data@ == old(self).data@.update(
                index as int,
                corrected_color(old(self).endian, color),
            ),
    {
        let raw = color.into_storage();
        let stored = match self.endian {
            EndianCorrection::ToBigEndian => swap_bytes(raw),
            EndianCorrection::ToLittleEndian => raw,
        };
        let element = C::from_storage(stored);
        self.data[index] = element;
        proof {
            C::lemma_from_raw_roundtrip(stored);
            lemma_corrected_involutive(self.endian, raw);
            C::lemma_raw_roundtrip(color);
            assert(corrected_color(self.endian, element) == color);
            assert forall|i: int| 0 <= i < self.data@.len() implies self.contents()[i]
                == old(self).contents().update(index as int, color)[i] by {
            }
            assert(self.contents() =~= old(self).contents().update(index as int, color));
        }
    }

    fn get(&self, index: usize) -> (color: C) {
        let stored = self.data[index];
        let raw = stored.into_storage();
        let corrected = match self.endian {
            EndianCorrection::ToBigEndian => swap_bytes(raw),
            EndianCorrection::ToLittleEndian => raw,
        };
        C::from_storage(corrected)
    }

    fn nr_elements(&self) -> (n: usize) {
        self.data.len()
    }
}

/// The wrapped block stays contiguous — only the logical value of each
/// element differs from what sits in memory — so the backend still
/// qualifies for DMA.
impl<C: RawU16Color> DMACapableFrameBufferBackend for EndianCorrectedBuffer<C> {
    open spec fn raw_storage(&self) -> Seq<C> {
        self.data@
    }

    fn data(&self) -> (s: &[C]) {
        self.data.as_slice()
    }
}

/// Round trip through any backend: after a set of `color` at `index`, a get
/// at `index` returns `color`. `set`'s contract pins the new contents and
/// `get`'s contract reads them, so the two compose to the identity whatever
/// transform the backend applies on the way to memory.
pub proof fn lemma_set_then_get<B: FrameBufferBackend>(pre: B, post: B, index: int, color: B::Color)
    requires
        0 <= index < pre.contents().len(),
        post.contents() == pre.contents().update(index, color),
    ensures
        post.contents()[index] == color,
{
}

/// What physically sits in memory under an endian-corrected backend: the
/// storage word of every element is the endian-corrected encoding of the
/// element's logical color.
pub proof fn lemma_stored_raw<C: RawU16Color>(b: &EndianCorrectedBuffer<C>, index: int)
    requires
        0 <= index < b.data@.len(),
    ensures
        b.data@[index].raw() == spec_corrected(b.endian, b.contents()[index].raw()),
{
    C::lemma_from_raw_roundtrip(spec_corrected(b.endian, b.data@[index].raw()));
    lemma_corrected_involutive(b.endian, b.data@[index].raw());
}

} // verus!

