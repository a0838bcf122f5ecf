//! Staging of the images uploaded into VRAM.
use vstd::prelude::*;

verus! {

/// A pixel converted from the console's MRGB 1555 layout (mask bit on
/// top) to the host texture's layout (mask bit at the bottom, then red,
/// green and blue)
pub open spec fn shuffle_spec(color: u16) -> u16 {
    let alpha = color >> 15u16;
    let r = (color >> 10u16) & 0x1f;
    let g = (color >> 5u16) & 0x1f;
    let b = color & 0x1f;
    alpha | (r << 1u16) | (g << 6u16) | (b << 11u16)
}

/// Bit `i` of `x`
pub open spec fn bit16(x: u16, i: u16) -> nat {
    ((x >> i) & 1u16) as nat
}

/// Number of set bits of `x`
pub open spec fn count_ones16(x: u16) -> nat {
    bit16(x, 0) + bit16(x, 1) + bit16(x, 2) + bit16(x, 3) + bit16(x, 4) + bit16(x, 5) + bit16(x, 6)
        + bit16(x, 7) + bit16(x, 8) + bit16(x, 9) + bit16(x, 10) + bit16(x, 11) + bit16(x, 12)
        + bit16(x, 13) + bit16(x, 14) + bit16(x, 15)
}

/// Convert a pixel from MRGB 1555 to the host's layout, which puts the
/// color components the other way around
pub fn shuffle_components(color: u16) -> (r: u16)
    ensures
        r == shuffle_spec(color),
{
    let alpha = color >> 15u16;
    let r = (color >> 10u16) & 0x1f;
    let g = (color >> 5u16) & 0x1f;
    let b = color & 0x1f;
    alpha | (r << 1u16) | (g << 6u16) | (b << 11u16)
}

/// The shuffle moves each channel whole and keeps the number of set
/// bits: the mask bit lands on bit 0, red on bits 1-5, green on bits
/// 6-10 and blue on bits 11-15.
pub proof fn lemma_shuffle_channels(color: u16)
    ensures
        shuffle_spec(color) & 1 == color >> 15u16,
        (shuffle_spec(color) >> 1u16) & 0x1f == (color >> 10u16) & 0x1f,
        (shuffle_spec(color) >> 6u16) & 0x1f == (color >> 5u16) & 0x1f,
        (shuffle_spec(color) >> 11u16) & 0x1f == color & 0x1f,
        count_ones16(shuffle_spec(color)) == count_ones16(color),
{
    let s = shuffle_spec(color);
    assert(s & 1 == color >> 15u16 && (s >> 1u16) & 0x1f == (color >> 10u16) & 0x1f && (s
        >> 6u16) & 0x1f == (color >> 5u16) & 0x1f && (s >> 11u16) & 0x1f == color & 0x1f)
        by (bit_vector)
        requires
            s == shuffle_spec(color),
    ;
    assert(((s >> 0u16) & 1u16) == ((color >> 15u16) & 1u16) && ((s >> 1u16) & 1u16) == ((color
        >> 10u16) & 1u16) && ((s >> 2u16) & 1u16) == ((color >> 11u16) & 1u16) && ((s >> 3u16)
        & 1u16) == ((color >> 12u16) & 1u16) && ((s >> 4u16) & 1u16) == ((color >> 13u16) & 1u16)
        && ((s >> 5u16) & 1u16) == ((color >> 14u16) & 1u16) && ((s >> 6u16) & 1u16) == ((color
        >> 5u16) & 1u16) && ((s >> 7u16) & 1u16) == ((color >> 6u16) & 1u16) && ((s >> 8u16)
        & 1u16) == ((color >> 7u16) & 1u16) && ((s >> 9u16) & 1u16) == ((color >> 8u16) & 1u16)
        && ((s >> 10u16) & 1u16) == ((color >> 9u16) & 1u16) && ((s >> 11u16) & 1u16) == ((color
        >> 0u16) & 1u16) && ((s >> 12u16) & 1u16) == ((color >> 1u16) & 1u16) && ((s >> 13u16)
        & 1u16) == ((color >> 2u16) & 1u16) && ((s >> 14u16) & 1u16) == ((color >> 3u16) & 1u16)
        && ((s >> 15u16) & 1u16) == ((color >> 4u16) & 1u16)) by (bit_vector)
        requires
            s == shuffle_spec(color),
    ;
}

/// Buffer used to store images while they're loaded into the GPU
/// word-by-word through GP0
pub struct LoadBuffer {
    /// Buffer containing the individual pixels, top-left to
    /// bottom-right
    buf: Vec<u16>,
    /// Width in pixels
    width: u16,
    /// Height
    height: u16,
    /// Coordinate of the top-left corner of target
    /// location in VRAM
    top_left: (u16, u16),
}

impl LoadBuffer {
    /// Pixels received so far, already shuffled
    pub closed spec fn pixels(&self) -> Seq<u16> {
        self.buf@
    }

    pub closed spec fn width_spec(&self) -> u16 {
        self.width
    }

    pub closed spec fn height_spec(&self) -> u16 {
        self.height
    }

    pub closed spec fn top_left_spec(&self) -> (u16, u16) {
        self.top_left
    }

    pub fn new(x: u16, y: u16, width: u16, height: u16) -> (r: LoadBuffer)
        ensures
            r.pixels() == Seq::<u16>::empty(),
            r.width_spec() == width,
            r.height_spec() == height,
            r.top_left_spec() == (x, y),
    {
        assert((width as u32) * (height as u32) <= 0xfffe_0001) by (nonlinear_arith);
        let size = (width as u32) * (height as u32);
        // Round capacity up to the next even value since we always
        // upload two pixels at a time
        let size = size + size % 2;
        LoadBuffer { buf: Vec::with_capacity(size as usize), width: width, height: height, top_left: (x, y) }
    }

    /// Build an empty LoadBuffer expecting no data
    pub fn null() -> (r: LoadBuffer)
        ensures
            r.pixels() == Seq::<u16>::empty(),
            r.width_spec() == 0,
            r.height_spec() == 0,
            r.top_left_spec() == (0u16, 0u16),
    {
        LoadBuffer { buf: Vec::new(), width: 0, height: 0, top_left: (0, 0) }
    }

    pub fn width(&self) -> (r: u16)
        ensures
            r == self.width_spec(),
    {
        self.width
    }

    pub fn height(&self) -> (r: u16)
        ensures
            r == self.height_spec(),
    {
        self.height
    }

    pub fn top_left(&self) -> (r: (u16, u16))
        ensures
            r == self.top_left_spec(),
    {
        self.top_left
    }

    /// Called a when a new word is received in GP0. Extract the two
    /// pixels, low halfword first, and store them in the buffer
    pub fn push_word(&mut self, word: u32)
        ensures
            final(self).pixels() == old(self).pixels().push(shuffle_spec(word as u16)).push(
                shuffle_spec((word >> 16u32) as u16),
            ),
            final(self).width_spec() == old(self).width_spec(),
            final(self).height_spec() == old(self).height_spec(),
            final(self).top_left_spec() == old(self).top_left_spec(),
    {
        let low = shuffle_components(word as u16);
        let high = shuffle_components((word >> 16u32) as u16);
        self.buf.push(low);
        self.buf.push(high);
    }

    /// The image's pixels, without the padding pixel that the last
    /// word may have added when `width * height` is odd
    pub fn into_pixels(self) -> (r: Vec<u16>)
        ensures
            r@ == (if self.pixels().len() > self.width_spec() * self.height_spec() {
                self.pixels().subrange(0, self.width_spec() * self.height_spec())
            } else {
                self.pixels()
            }),
    {
        let mut data = self.buf;
        assert((self.width as u32) * (self.height as u32) <= 0xfffe_0001) by (nonlinear_arith);
        let size = (self.width as u32) * (self.height as u32);
        data.truncate(size as usize);
        data
    }
}

} // verus!
