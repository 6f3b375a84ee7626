//! Color types a frame buffer can store.

use vstd::prelude::*;

verus! {

/// A pixel color value.
///
/// Colors are small `Copy` values. Every color type designates one value as
/// its default (all-off) fill, used when a buffer is blanked.
pub trait PixelColor: Sized + Copy {
    /// The default (all-off) value of this color type.
    spec fn spec_default() -> Self;

    /// Returns the default (all-off) color value.
    fn default_color() -> (c: Self)
        ensures
            c == Self::spec_default(),
    ;
}

/// A color whose storage representation is exactly one 16-bit word.
///
/// `raw` and `spec_from_raw` must be mutually inverse, so the type is in
/// bijection with `u16`; the two proof obligations state this. Only such
/// colors can sit behind an endian-correcting backend, whose transform
/// reorders the two storage bytes of each element.
pub trait RawU16Color: PixelColor {
    /// The 16-bit storage word of this color value.
    spec fn raw(self) -> u16;

    /// The color a given 16-bit storage word stands for.
    spec fn spec_from_raw(raw: u16) -> Self;

    /// Decoding the storage word of a color gives the color back.
    proof fn lemma_raw_roundtrip(c: Self)
        ensures
            Self::spec_from_raw(c.raw()) == c,
    ;

    /// Encoding the color a storage word stands for gives the word back.
    proof fn lemma_from_raw_roundtrip(raw: u16)
        ensures
            Self::spec_from_raw(raw).raw() == raw,
    ;

    /// Returns the 16-bit storage word of this color.
    fn into_storage(self) -> (r: u16)
        ensures
            r == self.raw(),
    ;

    /// Rebuilds the color whose storage word is `raw`.
    fn from_storage(raw: u16) -> (c: Self)
        ensures
            c == Self::spec_from_raw(raw),
    ;
}

/// A 16-bit color in the 5-6-5 red/green/blue layout, held as its packed
/// storage word.
#[derive(Clone, Copy, PartialEq, Eq, Structural, Debug, Hash)]
pub struct Rgb565(pub u16);

impl Rgb565 {
    /// Black: all channels zero.
    pub fn black() -> (c: Rgb565)
        ensures
            c.0 == 0x0000,
    {
        Rgb565(0x0000)
    }

    /// White: all channels at full scale.
    pub fn white() -> (c: Rgb565)
        ensures
            c.0 == 0xFFFF,
    {
        Rgb565(0xFFFF)
    }

    /// Pure red: the five high bits set.
    pub fn red() -> (c: Rgb565)
        ensures
            c.0 == 0xF800,
    {
        Rgb565(0xF800)
    }

    /// Pure green: the six middle bits set.
    pub fn green() -> (c: Rgb565)
        ensures
            c.0 == 0x07E0,
    {
        Rgb565(0x07E0)
    }

    /// Pure blue: the five low bits set.
    pub fn blue() -> (c: Rgb565)
        ensures
            c.0 == 0x001F,
    {
        Rgb565(0x001F)
    }
}

impl PixelColor for Rgb565 {
    open spec fn spec_default() -> Rgb565 {
        Rgb565(0x0000)
    }

    fn default_color() -> (c: Rgb565)
    {
        Rgb565(0x0000)
    }
}

impl RawU16Color for Rgb565 {
    open spec fn raw(self) -> u16 {
        self.0
    }

    open spec fn spec_from_raw(raw: u16) -> Rgb565 {
        Rgb565(raw)
    }

    proof fn lemma_raw_roundtrip(c: Rgb565) {
    }

    proof fn lemma_from_raw_roundtrip(raw: u16) {
    }

    fn into_storage(self) -> (r: u16)
    {
        self.0
    }

    fn from_storage(raw: u16) -> (c: Rgb565)
    {
        Rgb565(raw)
    }
}

/// A monochrome color: a pixel is either off or on.
#[derive(Clone, Copy, PartialEq, Eq, Structural, Debug, Hash)]
pub enum BinaryColor {
    Off,
    On,
}

impl PixelColor for BinaryColor {
    open spec fn spec_default() -> BinaryColor {
        BinaryColor::Off
    }

    fn default_color() -> (c: BinaryColor)
    {
        BinaryColor::Off
    }
}

} // verus!
