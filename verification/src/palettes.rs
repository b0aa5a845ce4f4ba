use vstd::prelude::*;

use crate::textures::RGBA;

verus! {

/// The four shades of the DMG screen.
#[derive(Debug, Copy, Clone, PartialEq, Eq, Structural)]
pub enum GameboyColorShade {
    White,
    LightGray,
    DarkGray,
    Black,
}

pub open spec fn shade_of(bits: u8) -> GameboyColorShade {
    if bits == 0 {
        GameboyColorShade::White
    } else if bits == 1 {
        GameboyColorShade::LightGray
    } else if bits == 2 {
        GameboyColorShade::DarkGray
    } else {
        GameboyColorShade::Black
    }
}

impl GameboyColorShade {
    pub fn new(bits: u8) -> (shade: Self)
        requires
            bits < 4,
        ensures
            shade == shade_of(bits),
    {
        if bits == 0 {
            GameboyColorShade::White
        } else if bits == 1 {
            GameboyColorShade::LightGray
        } else if bits == 2 {
            GameboyColorShade::DarkGray
        } else {
            GameboyColorShade::Black
        }
    }
}

/// The RGBA colour shown for each DMG shade.
pub open spec fn shade_color(shade: GameboyColorShade) -> RGBA {
    match shade {
        GameboyColorShade::White => RGBA(0xE0, 0xF8, 0xD0, 0xFF),
        GameboyColorShade::LightGray => RGBA(0x88, 0xC0, 0x70, 0xFF),
        GameboyColorShade::DarkGray => RGBA(0x34, 0x68, 0x56, 0xFF),
        GameboyColorShade::Black => RGBA(0x08, 0x18, 0x20, 0xFF),
    }
}

/// The colour of the lightest DMG shade.
pub fn rgba_white() -> (color: RGBA)
    ensures
        color == shade_color(GameboyColorShade::White),
{
    RGBA(0xE0, 0xF8, 0xD0, 0xFF)
}

pub fn map_to_actual_color(shade: GameboyColorShade) -> (color: RGBA)
    ensures
        color == shade_color(shade),
{
    match shade {
        GameboyColorShade::White => RGBA(0xE0, 0xF8, 0xD0, 0xFF),
        GameboyColorShade::LightGray => RGBA(0x88, 0xC0, 0x70, 0xFF),
        GameboyColorShade::DarkGray => RGBA(0x34, 0x68, 0x56, 0xFF),
        GameboyColorShade::Black => RGBA(0x08, 0x18, 0x20, 0xFF),
    }
}

/// Scale a 5-bit channel to 8 bits by repeating its top bits.
pub open spec fn expand_channel(c: int) -> int {
    c * 8 + c / 4
}

/// The colour at `index` of a CGB palette specification: two little-endian
/// bytes `XBBBBBGG GGGRRRRR` per colour, scaled from RGB555 to RGB888.
pub open spec fn cgb_color(spec: Seq<u8>, index: int) -> RGBA {
    let byte1 = spec[index * 2] as int;
    let byte2 = spec[index * 2 + 1] as int;
    let r = byte1 % 32;
    let g = (byte2 % 4) * 8 + byte1 / 32;
    let b = (byte2 / 4) % 32;
    RGBA(expand_channel(r) as u8, expand_channel(g) as u8, expand_channel(b) as u8, 0xFF)
}

/// Scale a 5-bit channel to 8 bits.
fn expand(c: u8) -> (e: u8)
    requires
        c < 32,
    ensures
        e == expand_channel(c as int),
{
    let e = (c << 3u8) | (c >> 2u8);
    assert(e == c * 8 + c / 4) by (bit_vector)
        requires
            e == (c << 3u8) | (c >> 2u8),
            c < 32,
    ;
    e
}

pub fn extract_actual_color_from_spec(spec: &[u8; 8], index: usize) -> (color: RGBA)
    requires
        index < 4,
    ensures
        color == cgb_color(spec@, index as int),
{
    let color_byte_1 = spec[index * 2];
    let color_byte_2 = spec[index * 2 + 1];

    // GGGRRRRR             |  XBBBBBGG
    // Color 1              |  Color 2
    // Red and Lower Green  |  Upper Green and Blue
    let r = color_byte_1 & 0b11111;
    let g = ((color_byte_2 & 0b11) << 3u8) | ((color_byte_1 & 0b11100000) >> 5u8);
    let b = (color_byte_2 & 0b01111100) >> 2u8;
    assert(r == color_byte_1 % 32) by (bit_vector)
        requires
            r == color_byte_1 & 0b11111,
    ;
    assert(g == (color_byte_2 % 4) * 8 + color_byte_1 / 32 && g < 32) by (bit_vector)
        requires
            g == ((color_byte_2 & 0b11) << 3u8) | ((color_byte_1 & 0b11100000) >> 5u8),
    ;
    assert(b == (color_byte_2 / 4) % 32) by (bit_vector)
        requires
            b == (color_byte_2 & 0b01111100) >> 2u8,
    ;

    // RGB555 to RGB888
    RGBA::new(expand(r), expand(g), expand(b), 0xFF)
}

/// A DMG greyscale palette register or a CGB colour palette specification.
#[derive(Debug, Copy, Clone)]
pub enum Palette {
    DmgGreyscale(u8),
    CgbColor([u8; 8]),
}

/// The colour at `index` (0-3) of a palette.
pub open spec fn palette_color(palette: Palette, index: int) -> RGBA {
    match palette {
        Palette::DmgGreyscale(value) => shade_color(
            shade_of(((value as int / vstd::arithmetic::power2::pow2((2 * index) as nat) as int)
                % 4) as u8),
        ),
        Palette::CgbColor(spec) => cgb_color(spec@, index),
    }
}

impl Palette {
    pub fn new_greyscale(value: u8) -> (palette: Self)
        ensures
            palette == Palette::DmgGreyscale(value),
    {
        Palette::DmgGreyscale(value)
    }

    pub fn new_color(values: &[u8]) -> (palette: Self)
        requires
            values@.len() == 8,
        ensures
            palette matches Palette::CgbColor(spec) && spec@ == values@,
    {
        let palette = [
            values[0],
            values[1],
            values[2],
            values[3],
            values[4],
            values[5],
            values[6],
            values[7],
        ];
        assert(palette@ =~= values@);
        Palette::CgbColor(palette)
    }

    pub fn actual_color_from_index(&self, index: u8) -> (color: RGBA)
        requires
            index < 4,
        ensures
            color == palette_color(*self, index as int),
    {
        if index == 0 {
            self.color0()
        } else if index == 1 {
            self.color1()
        } else if index == 2 {
            self.color2()
        } else {
            self.color3()
        }
    }

    pub fn color0(&self) -> (color: RGBA)
        ensures
            color == palette_color(*self, 0),
    {
        proof {
            vstd::arithmetic::power2::lemma2_to64();
        }
        match self {
            Palette::DmgGreyscale(value) => {
                let v = *value;
                assert(v & 0x03 == v % 4) by {
                    crate::bits::lemma_u8_bits(v);
                }
                assert(v as int / vstd::arithmetic::power2::pow2(0) as int == v);
                map_to_actual_color(GameboyColorShade::new(v & 0x03))
            },
            Palette::CgbColor(spec) => extract_actual_color_from_spec(spec, 0),
        }
    }

    pub fn color1(&self) -> (color: RGBA)
        ensures
            color == palette_color(*self, 1),
    {
        proof {
            vstd::arithmetic::power2::lemma2_to64();
        }
        match self {
            Palette::DmgGreyscale(value) => {
                let v = *value;
                assert((v & 0x0C) >> 2u8 == (v / 4) % 4) by {
                    crate::bits::lemma_u8_bits(v);
                }
                map_to_actual_color(GameboyColorShade::new((v & 0x0C) >> 2u8))
            },
            Palette::CgbColor(spec) => extract_actual_color_from_spec(spec, 1),
        }
    }

    pub fn color2(&self) -> (color: RGBA)
        ensures
            color == palette_color(*self, 2),
    {
        proof {
            vstd::arithmetic::power2::lemma2_to64();
        }
        match self {
            Palette::DmgGreyscale(value) => {
                let v = *value;
                assert((v & 0x30) >> 4u8 == (v / 16) % 4) by {
                    crate::bits::lemma_u8_bits(v);
                }
                map_to_actual_color(GameboyColorShade::new((v & 0x30) >> 4u8))
            },
            Palette::CgbColor(spec) => extract_actual_color_from_spec(spec, 2),
        }
    }

    pub fn color3(&self) -> (color: RGBA)
        ensures
            color == palette_color(*self, 3),
    {
        proof {
            vstd::arithmetic::power2::lemma2_to64();
        }
        match self {
            Palette::DmgGreyscale(value) => {
                let v = *value;
                assert((v & 0xC0) >> 6u8 == (v / 64) % 4) by {
                    crate::bits::lemma_u8_bits(v);
                }
                map_to_actual_color(GameboyColorShade::new((v & 0xC0) >> 6u8))
            },
            Palette::CgbColor(spec) => extract_actual_color_from_spec(spec, 3),
        }
    }
}

} // verus!
