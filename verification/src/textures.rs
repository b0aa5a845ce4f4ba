use vstd::prelude::*;

verus! {

/// A pixel: red, green, blue and alpha channels.
#[derive(Clone, Copy, Debug, PartialEq, Eq, Structural)]
pub struct RGBA(pub u8, pub u8, pub u8, pub u8);

impl RGBA {
    pub fn new(r: u8, g: u8, b: u8, a: u8) -> (color: Self)
        ensures
            color == RGBA(r, g, b, a),
    {
        RGBA(r, g, b, a)
    }

    /// The pixel packed as 0xAABBGGRR with the alpha channel forced opaque.
    pub fn full(&self) -> (packed: u32)
        ensures
            packed == 0xFF00_0000 + self.2 as int * 0x1_0000 + self.1 as int * 0x100 + self.0 as int,
    {
        let r = self.r() as u32;
        let g = self.g() as u32;
        let b = self.b() as u32;
        let packed = 0xFF000000u32 | (b << 16u32) | (g << 8u32) | r;
        assert(packed == 0xFF00_0000 + b * 0x1_0000 + g * 0x100 + r) by (bit_vector)
            requires
                packed == 0xFF000000u32 | (b << 16u32) | (g << 8u32) | r,
                r < 256,
                g < 256,
                b < 256,
        ;
        packed
    }

    pub fn r(&self) -> (red: u8)
        ensures
            red == self.0,
    {
        self.0
    }

    pub fn g(&self) -> (green: u8)
        ensures
            green == self.1,
    {
        self.1
    }

    pub fn b(&self) -> (blue: u8)
        ensures
            blue == self.2,
    {
        self.2
    }
}

/// A `WIDTH` x `HEIGHT` image of pixels, stored row by row.
#[derive(Clone, Debug)]
pub struct Texture<const WIDTH: usize, const HEIGHT: usize> {
    pub data: [[RGBA; WIDTH]; HEIGHT],
}

impl<const WIDTH: usize, const HEIGHT: usize> Texture<WIDTH, HEIGHT> {
    /// Bytes per row: four bytes per pixel.
    pub fn pitch(&self) -> (bytes: usize)
        requires
            WIDTH * 4 <= usize::MAX,
        ensures
            bytes == WIDTH * 4,
    {
        WIDTH * 4
    }

    pub fn width(&self) -> (width: usize)
        ensures
            width == WIDTH,
    {
        WIDTH
    }

    pub fn height(&self) -> (height: usize)
        ensures
            height == HEIGHT,
    {
        HEIGHT
    }
}

/// Dimensions of a texture type.
pub trait TextureInfo {
    fn texture_height() -> (height: usize);

    fn texture_width() -> (width: usize);
}

impl<const WIDTH: usize, const HEIGHT: usize> TextureInfo for Texture<WIDTH, HEIGHT> {
    fn texture_height() -> (height: usize)
        ensures
            height == HEIGHT,
    {
        HEIGHT
    }

    fn texture_width() -> (width: usize)
        ensures
            width == WIDTH,
    {
        WIDTH
    }
}

} // verus!
