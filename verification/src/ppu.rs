use vstd::prelude::*;

use crate::interrupts::{interrupt_mask, InterruptHandler, InterruptType};
use crate::palettes::{cgb_color, palette_color, rgba_white, shade_color, GameboyColorShade, Palette};
use crate::textures::RGBA;
use crate::utils::{bit_set, bit_value, Byte, Cycles, Word};

verus! {

pub const VRAM_START: Word = 0x8000;

pub const VRAM_END: Word = 0x9FFF;

pub const VRAM_BANK_SIZE: usize = 0x2000;

pub const OAM_START: Word = 0xFE00;

pub const OAM_END: Word = 0xFE9F;

pub const OAM_SIZE: usize = 0xA0;

pub const PPU_REGISTERS_START: Word = 0xFF40;

pub const PPU_REGISTERS_END: Word = 0xFF4B;

pub const LCDC_ADDRESS: Word = 0xFF40;

pub const STAT_ADDRESS: Word = 0xFF41;

pub const SCY_ADDRESS: Word = 0xFF42;

pub const SCX_ADDRESS: Word = 0xFF43;

pub const LY_ADDRESS: Word = 0xFF44;

pub const LYC_ADDRESS: Word = 0xFF45;

pub const OAM_DMA_ADDRESS: Word = 0xFF46;

pub const BGP_ADDRESS: Word = 0xFF47;

pub const OBP0_ADDRESS: Word = 0xFF48;

pub const OBP1_ADDRESS: Word = 0xFF49;

pub const WY_ADDRESS: Word = 0xFF4A;

pub const WX_ADDRESS: Word = 0xFF4B;

pub const VRAM_BANK_ADDRESS: Word = 0xFF4F;

pub const PALETTE_START: Word = 0xFF68;

pub const PALETTE_END: Word = 0xFF6B;

pub const BCPS_ADDRESS: Word = 0xFF68;

pub const BCPD_ADDRESS: Word = 0xFF69;

pub const OCPS_ADDRESS: Word = 0xFF6A;

pub const OCPD_ADDRESS: Word = 0xFF6B;

pub const DOTS_PER_TICK: Cycles = 4;

pub const OAM_DMA_CYCLES: Cycles = 160;

pub const BG_MAP_SIZE: usize = 256;

pub const TILE_WIDTH_PX: usize = 8;

pub const TILE_HEIGHT_PX: usize = 8;

pub const TILES_PER_LINE: usize = 32;

/// Each tile is 16 bytes
pub const SIZEOF_TILE: usize = 16;

pub const OAM_SEARCH_DOTS: u64 = 80;

pub const RENDERING_DOTS: u64 = 168;

pub const HBLANK_DOTS: u64 = 208;

pub const SCANLINE_DOTS: u64 = 456;

pub const LCD_WIDTH: u32 = 160;

pub const LCD_HEIGHT: u32 = 144;

pub const VBLANK_SCANLINES: u32 = 10;

pub const TOTAL_SCANLINES: u32 = 154;

pub const COLOR_PALETTE_SIZE: usize = 64;

/// Bytes of the RGBA framebuffer.
pub const FRAMEBUFFER_SIZE: usize = 92160;

/// Bytes of one framebuffer row.
pub const ROW_BYTES: usize = 640;

/// The two tile maps.
#[derive(Debug, Copy, Clone, PartialEq, Eq, Structural)]
pub enum TilemapBase {
    Base1,
    Base2,
}

impl TilemapBase {
    pub fn address(&self) -> (address: u16)
        ensures
            address == tilemap_address(*self),
    {
        match self {
            TilemapBase::Base1 => 0x9800,
            TilemapBase::Base2 => 0x9C00,
        }
    }
}

pub open spec fn tilemap_address(base: TilemapBase) -> u16 {
    match base {
        TilemapBase::Base1 => 0x9800,
        TilemapBase::Base2 => 0x9C00,
    }
}

/// The two ways tile numbers address tile data.
#[derive(Debug, Copy, Clone, PartialEq, Eq, Structural)]
pub enum TiledataAddressingMode {
    Signed,
    Unsigned,
}

impl TiledataAddressingMode {
    pub fn address(&self) -> (address: u16)
        ensures
            address == tiledata_address(*self),
    {
        match self {
            TiledataAddressingMode::Signed => 0x8800,
            TiledataAddressingMode::Unsigned => 0x8000,
        }
    }
}

pub open spec fn tiledata_address(mode: TiledataAddressingMode) -> u16 {
    match mode {
        TiledataAddressingMode::Signed => 0x8800,
        TiledataAddressingMode::Unsigned => 0x8000,
    }
}

/// Offset of a tile's data from the tile data base.
pub open spec fn tile_data_offset(mode: TiledataAddressingMode, tile_id: u8) -> int {
    match mode {
        TiledataAddressingMode::Signed => ((tile_id as int + 128) % 256) * 16,
        TiledataAddressingMode::Unsigned => tile_id as int * 16,
    }
}

#[derive(Debug, Clone, Copy, PartialEq, Eq, Structural)]
pub enum SpriteHeight {
    Short,
    Tall,
}

impl SpriteHeight {
    pub fn pixels(&self) -> (height: u8)
        ensures
            height == sprite_pixels(*self),
    {
        match self {
            SpriteHeight::Short => 8,
            SpriteHeight::Tall => 16,
        }
    }
}

pub open spec fn sprite_pixels(height: SpriteHeight) -> u8 {
    match height {
        SpriteHeight::Short => 8,
        SpriteHeight::Tall => 16,
    }
}

/// Index of a VRAM byte in the two-bank VRAM array.
pub open spec fn vram_offset(address: int, bank: int) -> int {
    VRAM_BANK_SIZE * bank + (address - VRAM_START)
}

pub fn vram_index(address: Word, bank: usize) -> (index: usize)
    requires
        VRAM_START <= address <= VRAM_END,
        bank <= 1,
    ensures
        index == vram_offset(address as int, bank as int),
        index < 2 * VRAM_BANK_SIZE,
{
    VRAM_BANK_SIZE * bank + (address - VRAM_START) as usize
}

// OAM Sprites
#[derive(Debug, Clone, Copy, PartialEq, Eq, Structural)]
pub struct Sprite {
    pub y: Byte,
    pub x: Byte,
    pub tile_index: Byte,
    pub attrs: Byte,
}

#[derive(Debug, Clone, Copy, PartialEq, Eq, Structural)]
pub enum ObjectPalette {
    Obp0,
    Obp1,
    ColorPalette(Byte),
}

impl Sprite {
    pub fn new(y: Byte, x: Byte, tile_index: Byte, attrs: Byte) -> (sprite: Self)
        ensures
            sprite == (Sprite { y, x, tile_index, attrs }),
    {
        Self { y, x, tile_index, attrs }
    }

    pub fn bg_window_over_sprite(&self) -> (over: bool)
        ensures
            over == (self.attrs & 0x80 != 0),
    {
        self.attrs & 0x80 != 0
    }

    pub fn flip_y(&self) -> (flip: bool)
        ensures
            flip == (self.attrs & 0x40 != 0),
    {
        self.attrs & 0x40 != 0
    }

    pub fn flip_x(&self) -> (flip: bool)
        ensures
            flip == (self.attrs & 0x20 != 0),
    {
        self.attrs & 0x20 != 0
    }

    pub fn vram_bank(&self) -> (bank: usize)
        ensures
            bank == (self.attrs / 8) % 2,
    {
        let a = self.attrs;
        assert((a & 0x8) >> 3u8 == (a / 8) % 2) by {
            crate::bits::lemma_u8_bits(a);
        }
        ((a & 0x8) >> 3u8) as usize
    }

    /// The CGB object palette number (attribute bits 2-0).
    pub fn palette(&self) -> (palette: ObjectPalette)
        ensures
            palette == ObjectPalette::ColorPalette(self.attrs % 8),
    {
        let a = self.attrs;
        assert(a & 0b111 == a % 8) by {
            crate::bits::lemma_u8_bits(a);
        }
        ObjectPalette::ColorPalette(a & 0b111)
    }
}

/// The LCD control register.
#[derive(Debug, Copy, Clone)]
pub struct Lcdc(pub Byte);

pub open spec fn spec_window_tilemap(lcdc: u8) -> TilemapBase {
    if lcdc & 0x40 == 0 { TilemapBase::Base1 } else { TilemapBase::Base2 }
}

pub open spec fn spec_tiledata_mode(lcdc: u8) -> TiledataAddressingMode {
    if lcdc & 0x10 == 0 {
        TiledataAddressingMode::Signed
    } else {
        TiledataAddressingMode::Unsigned
    }
}

pub open spec fn spec_bg_tilemap(lcdc: u8) -> TilemapBase {
    if lcdc & 0x08 == 0 { TilemapBase::Base1 } else { TilemapBase::Base2 }
}

pub open spec fn spec_sprite_height(lcdc: u8) -> SpriteHeight {
    if lcdc & 0x04 == 0 { SpriteHeight::Short } else { SpriteHeight::Tall }
}

impl Lcdc {
    pub fn lcd_enabled(&self) -> (enabled: bool)
        ensures
            enabled == (self.0 & 0x80 != 0),
    {
        (self.0 & 0x80) != 0x00
    }

    pub fn window_tilemap_area(&self) -> (base: TilemapBase)
        ensures
            base == spec_window_tilemap(self.0),
    {
        if self.0 & 0x40 == 0x00 {
            TilemapBase::Base1
        } else {
            TilemapBase::Base2
        }
    }

    pub fn window_enabled(&self) -> (enabled: bool)
        ensures
            enabled == (self.0 & 0x20 != 0),
    {
        (self.0 & 0x20) != 0x00
    }

    pub fn bg_and_window_tiledata_area(&self) -> (mode: TiledataAddressingMode)
        ensures
            mode == spec_tiledata_mode(self.0),
    {
        if self.0 & 0x10 == 0x00 {
            TiledataAddressingMode::Signed
        } else {
            TiledataAddressingMode::Unsigned
        }
    }

    pub fn bg_tilemap_area(&self) -> (base: TilemapBase)
        ensures
            base == spec_bg_tilemap(self.0),
    {
        if self.0 & 0x08 == 0x00 {
            TilemapBase::Base1
        } else {
            TilemapBase::Base2
        }
    }

    pub fn sprite_height(&self) -> (height: SpriteHeight)
        ensures
            height == spec_sprite_height(self.0),
    {
        if self.0 & 0x04 == 0x00 {
            SpriteHeight::Short
        } else {
            SpriteHeight::Tall
        }
    }

    pub fn sprites_enabled(&self) -> (enabled: bool)
        ensures
            enabled == (self.0 & 0x02 != 0),
    {
        self.0 & 0x02 != 0x00
    }

    pub fn bg_and_window_enabled(&self) -> (enabled: bool)
        ensures
            enabled == (self.0 & 0x01 != 0),
    {
        self.0 & 0x01 != 0x00
    }
}

/// Sources of the STAT interrupt.
#[derive(Debug, Copy, Clone, PartialEq, Eq, Structural)]
pub enum LcdStatSource {
    LycLyEqual,
    Mode2Oam,
    Mode1Vblank,
    Mode0Hblank,
}

pub open spec fn stat_source_mask(source: LcdStatSource) -> u8 {
    match source {
        LcdStatSource::LycLyEqual => 0x40,
        LcdStatSource::Mode2Oam => 0x20,
        LcdStatSource::Mode1Vblank => 0x10,
        LcdStatSource::Mode0Hblank => 0x08,
    }
}

impl LcdStatSource {
    pub fn mask(&self) -> (bit: u8)
        ensures
            bit == stat_source_mask(*self),
    {
        match self {
            LcdStatSource::LycLyEqual => 0x40,
            LcdStatSource::Mode2Oam => 0x20,
            LcdStatSource::Mode1Vblank => 0x10,
            LcdStatSource::Mode0Hblank => 0x08,
        }
    }
}

/// The four PPU modes.
#[derive(Debug, Copy, Clone, Eq, PartialEq, Structural)]
pub enum LcdStatus {
    Hblank,
    Vblank,
    OamSearch,
    Rendering,
}

pub open spec fn status_bits(mode: LcdStatus) -> u8 {
    match mode {
        LcdStatus::Hblank => 0,
        LcdStatus::Vblank => 1,
        LcdStatus::OamSearch => 2,
        LcdStatus::Rendering => 3,
    }
}

pub open spec fn spec_mode(stat: u8) -> LcdStatus {
    if stat % 4 == 0 {
        LcdStatus::Hblank
    } else if stat % 4 == 1 {
        LcdStatus::Vblank
    } else if stat % 4 == 2 {
        LcdStatus::OamSearch
    } else {
        LcdStatus::Rendering
    }
}

pub open spec fn spec_set_mode(stat: u8, mode: LcdStatus) -> u8 {
    ((stat as int / 4) * 4 + status_bits(mode)) as u8
}

pub open spec fn spec_set_ly_lyc(stat: u8, set: bool) -> u8 {
    if set {
        stat | 0x04
    } else {
        stat & !0x04u8
    }
}

/// Whether the STAT interrupt line is high.
pub open spec fn spec_stat_irq(stat: u8) -> bool {
    (stat & 0x40 != 0 && stat & 0x04 != 0) || match spec_mode(stat) {
        LcdStatus::Hblank => stat & 0x08 != 0,
        LcdStatus::Vblank => stat & 0x10 != 0,
        LcdStatus::OamSearch => stat & 0x20 != 0,
        LcdStatus::Rendering => false,
    }
}

/// The LCD status register.
#[derive(Debug, Copy, Clone)]
pub struct LcdStat(pub Byte);

impl LcdStat {
    pub fn mode(&self) -> (mode: LcdStatus)
        ensures
            mode == spec_mode(self.0),
    {
        let s = self.0;
        assert(s & 0x03 == s % 4) by {
            crate::bits::lemma_u8_bits(s);
        }
        let m = s & 0x03;
        if m == 0 {
            LcdStatus::Hblank
        } else if m == 1 {
            LcdStatus::Vblank
        } else if m == 2 {
            LcdStatus::OamSearch
        } else {
            LcdStatus::Rendering
        }
    }

    pub fn set_mode(&mut self, mode: LcdStatus)
        ensures
            final(self).0 == spec_set_mode(old(self).0, mode),
    {
        let s = self.0;
        let bits: u8 = match mode {
            LcdStatus::Hblank => 0,
            LcdStatus::Vblank => 1,
            LcdStatus::OamSearch => 2,
            LcdStatus::Rendering => 3,
        };
        let r = (s & !0x03u8) | bits;
        assert(r == (s as int / 4) * 4 + bits) by (bit_vector)
            requires
                r == (s & !0x03u8) | bits,
                bits < 4,
        ;
        self.0 = r;
    }

    pub fn is_stat_interrupt_source_enabled(&self, source: LcdStatSource) -> (enabled: bool)
        ensures
            enabled == (self.0 & stat_source_mask(source) != 0),
    {
        self.0 & source.mask() != 0
    }

    pub fn lyc_ly_equal(&self) -> (equal: bool)
        ensures
            equal == (self.0 & 0x04 != 0),
    {
        self.0 & 0x04 != 0
    }

    pub fn set_ly_lyc_state(&mut self, set: bool)
        ensures
            final(self).0 == spec_set_ly_lyc(old(self).0, set),
    {
        if set {
            self.0 = self.0 | 0x04;
        } else {
            self.0 = self.0 & !0x04u8;
        }
    }

    pub fn is_stat_irq_asserted(&self) -> (asserted: bool)
        ensures
            asserted == spec_stat_irq(self.0),
    {
        if self.is_stat_interrupt_source_enabled(LcdStatSource::LycLyEqual) && self.lyc_ly_equal() {
            return true;
        }
        match self.mode() {
            LcdStatus::Hblank => self.is_stat_interrupt_source_enabled(LcdStatSource::Mode0Hblank),
            LcdStatus::Vblank => self.is_stat_interrupt_source_enabled(LcdStatSource::Mode1Vblank),
            LcdStatus::OamSearch => self.is_stat_interrupt_source_enabled(LcdStatSource::Mode2Oam),
            LcdStatus::Rendering => false,
        }
    }
}

/// The abstract state of the PPU: every register and memory as values.
#[verifier::ext_equal]
pub struct PpuView {
    pub vram: Seq<u8>,
    pub vram_bank: usize,
    pub oam: Seq<u8>,
    pub lcdc: u8,
    pub stat: u8,
    pub scy: u8,
    pub scx: u8,
    pub ly: u8,
    pub lyc: u8,
    pub wy: u8,
    pub wx: u8,
    pub bcps: u8,
    pub ocps: u8,
    pub bg_palettes: Seq<u8>,
    pub obj_palettes: Seq<u8>,
    pub dots_in_line: u64,
    pub window_internal_counter: Option<u8>,
    pub bgp: u8,
    pub obp0: u8,
    pub obp1: u8,
    pub framebuffer: Seq<u8>,
}

/// The picture processing unit: VRAM, OAM, LCD registers, CGB palettes and
/// the RGBA framebuffer it renders into, one scanline at a time.
pub struct Ppu {
    pub vram: Vec<Byte>,
    pub vram_bank: usize,
    pub oam: Vec<Byte>,
    pub lcdc: Lcdc,
    pub stat: LcdStat,
    pub scy: Byte,
    pub scx: Byte,
    pub ly: Byte,
    pub lyc: Byte,
    pub wy: Byte,
    pub wx: Byte,
    // CGB palette registers and data
    pub bcps: Byte,
    pub ocps: Byte,
    pub color_bg_palettes: Vec<Byte>,
    pub color_obj_palettes: Vec<Byte>,
    pub dots_in_line: u64,
    pub window_internal_counter: Option<Byte>,
    pub bgp: Byte,
    pub obp0: Byte,
    pub obp1: Byte,
    pub framebuffer: Vec<Byte>,
}

impl View for Ppu {
    type V = PpuView;

    open spec fn view(&self) -> PpuView {
        PpuView {
            vram: self.vram@,
            vram_bank: self.vram_bank,
            oam: self.oam@,
            lcdc: self.lcdc.0,
            stat: self.stat.0,
            scy: self.scy,
            scx: self.scx,
            ly: self.ly,
            lyc: self.lyc,
            wy: self.wy,
            wx: self.wx,
            bcps: self.bcps,
            ocps: self.ocps,
            bg_palettes: self.color_bg_palettes@,
            obj_palettes: self.color_obj_palettes@,
            dots_in_line: self.dots_in_line,
            window_internal_counter: self.window_internal_counter,
            bgp: self.bgp,
            obp0: self.obp0,
            obp1: self.obp1,
            framebuffer: self.framebuffer@,
        }
    }
}

/// Sizes of the memories and the fixed bits of the bank and palette index
/// registers.
pub open spec fn ppu_layout(v: PpuView) -> bool {
    &&& v.vram.len() == 2 * VRAM_BANK_SIZE
    &&& v.oam.len() == OAM_SIZE
    &&& v.bg_palettes.len() == COLOR_PALETTE_SIZE
    &&& v.obj_palettes.len() == COLOR_PALETTE_SIZE
    &&& v.framebuffer.len() == FRAMEBUFFER_SIZE
    &&& (v.vram_bank == 0xFE || v.vram_bank == 0xFF)
    &&& v.bcps & 0x40 == 0
    &&& v.ocps & 0x40 == 0
}

pub open spec fn counter_at_most(counter: Option<u8>, bound: int) -> bool {
    match counter {
        Some(x) => x as int <= bound,
        None => true,
    }
}

/// How far into the current scanline and frame the PPU can be in each mode.
pub open spec fn ppu_timing(v: PpuView) -> bool {
    let mode = spec_mode(v.stat);
    &&& v.ly <= 153
    &&& mode == LcdStatus::OamSearch ==> v.dots_in_line < OAM_SEARCH_DOTS && v.ly < 144
        && counter_at_most(v.window_internal_counter, v.ly as int)
    &&& mode == LcdStatus::Rendering ==> OAM_SEARCH_DOTS <= v.dots_in_line < RENDERING_DOTS && v.ly
        < 144 && counter_at_most(v.window_internal_counter, v.ly as int)
    &&& mode == LcdStatus::Hblank ==> RENDERING_DOTS <= v.dots_in_line < SCANLINE_DOTS && v.ly < 144
        && counter_at_most(v.window_internal_counter, v.ly as int + 1)
    &&& mode == LcdStatus::Vblank ==> v.dots_in_line < SCANLINE_DOTS && (v.ly >= 144 || v.ly == 0)
        && v.window_internal_counter is None && (v.ly == 153 ==> v.dots_in_line < 8) && (v.ly == 0
        ==> v.dots_in_line >= 8)
}

pub open spec fn ppu_wf(v: PpuView) -> bool {
    ppu_layout(v) && ppu_timing(v)
}

/// The value a read of `address` returns.
pub open spec fn ppu_read(v: PpuView, address: u16) -> u8 {
    if VRAM_START <= address <= VRAM_END {
        v.vram[vram_offset(address as int, (v.vram_bank % 2) as int)]
    } else if OAM_START <= address <= OAM_END {
        v.oam[address - OAM_START]
    } else if address == LCDC_ADDRESS {
        v.lcdc
    } else if address == STAT_ADDRESS {
        v.stat
    } else if address == SCY_ADDRESS {
        v.scy
    } else if address == SCX_ADDRESS {
        v.scx
    } else if address == LY_ADDRESS {
        v.ly
    } else if address == LYC_ADDRESS {
        v.lyc
    } else if address == BGP_ADDRESS {
        v.bgp
    } else if address == OBP0_ADDRESS {
        v.obp0
    } else if address == OBP1_ADDRESS {
        v.obp1
    } else if address == WY_ADDRESS {
        v.wy
    } else if address == WX_ADDRESS {
        v.wx
    } else if address == VRAM_BANK_ADDRESS {
        v.vram_bank as u8
    } else if address == BCPS_ADDRESS {
        v.bcps
    } else if address == BCPD_ADDRESS {
        v.bg_palettes[v.bcps as int % 32]
    } else if address == OCPS_ADDRESS {
        v.ocps
    } else if address == OCPD_ADDRESS {
        v.obj_palettes[v.ocps as int % 32]
    } else {
        0xFF
    }
}

/// A palette index register after a data write: auto-incremented within the
/// 32 entries when bit 7 is set.
pub open spec fn advanced_palette_index(index: u8) -> u8 {
    if index & 0x80 != 0 {
        (((index as int + 1) % 256) as u8) & 0x9F
    } else {
        index
    }
}

/// The state after a write of `data` to `address`.
pub open spec fn ppu_write(v: PpuView, address: u16, data: u8) -> PpuView {
    if VRAM_START <= address <= VRAM_END {
        PpuView {
            vram: v.vram.update(vram_offset(address as int, (v.vram_bank % 2) as int), data),
            ..v
        }
    } else if OAM_START <= address <= OAM_END {
        PpuView { oam: v.oam.update(address - OAM_START, data), ..v }
    } else if address == LCDC_ADDRESS {
        PpuView { lcdc: data, ..v }
    } else if address == STAT_ADDRESS {
        // Ignore bit 7 as it is not used and don't set status or lyc=ly on write
        PpuView { stat: ((data & 0x78) | (v.stat & 0x7)) & 0x7F, ..v }
    } else if address == SCY_ADDRESS {
        PpuView { scy: data, ..v }
    } else if address == SCX_ADDRESS {
        PpuView { scx: data, ..v }
    } else if address == LYC_ADDRESS {
        PpuView { lyc: data, stat: spec_set_ly_lyc(v.stat, v.ly == data), ..v }
    } else if address == BGP_ADDRESS {
        PpuView { bgp: data, ..v }
    } else if address == OBP0_ADDRESS {
        PpuView { obp0: data, ..v }
    } else if address == OBP1_ADDRESS {
        PpuView { obp1: data, ..v }
    } else if address == WY_ADDRESS {
        PpuView { wy: data, ..v }
    } else if address == WX_ADDRESS {
        PpuView { wx: data, ..v }
    } else if address == VRAM_BANK_ADDRESS {
        PpuView { vram_bank: if data % 2 == 0 { 0xFEusize } else { 0xFFusize }, ..v }
    } else if address == BCPS_ADDRESS {
        // Ignore bit 6
        PpuView { bcps: data & 0xBF, ..v }
    } else if address == BCPD_ADDRESS {
        PpuView {
            bg_palettes: v.bg_palettes.update(v.bcps as int % 32, data),
            bcps: advanced_palette_index(v.bcps),
            ..v
        }
    } else if address == OCPS_ADDRESS {
        PpuView { ocps: data & 0xBF, ..v }
    } else if address == OCPD_ADDRESS {
        PpuView {
            obj_palettes: v.obj_palettes.update(v.ocps as int % 32, data),
            ocps: advanced_palette_index(v.ocps),
            ..v
        }
    } else {
        v
    }
}

/// Channel `k` (0 = red .. 3 = alpha) of a colour.
pub open spec fn rgba_byte(c: RGBA, k: int) -> u8 {
    if k == 0 {
        c.0
    } else if k == 1 {
        c.1
    } else if k == 2 {
        c.2
    } else {
        c.3
    }
}

/// The framebuffer with the pixels `from..to` of scanline `row` given the
/// colour `color(x)` (`None` keeps the pixel). Pixels past the end of the
/// framebuffer are not written.
pub open spec fn paint(fb: Seq<u8>, row: int, from: int, to: int, color: spec_fn(int) -> Option<RGBA>) -> Seq<u8> {
    Seq::new(
        fb.len(),
        |i: int|
            {
                let rel = i - row * ROW_BYTES;
                if from * 4 <= rel < to * 4 {
                    match color(rel / 4) {
                        Some(c) => rgba_byte(c, rel % 4),
                        None => fb[i],
                    }
                } else {
                    fb[i]
                }
            },
    )
}

/// The colour index (0-3) of pixel `bit` of a tile row given by its two bytes.
pub open spec fn color_id(low: u8, high: u8, bit: int) -> u8 {
    ((if bit_set(high, bit) { 2int } else { 0int }) + (if bit_set(low, bit) { 1int } else { 0int })) as u8
}

/// The colour of background pixel `screen_x` on the current scanline.
pub open spec fn bg_color(v: PpuView, screen_x: int) -> RGBA {
    let screen_y = v.ly as int;
    let bg_map_x = (screen_x + v.scx) % 256;
    let bg_map_y = (screen_y + v.scy) % 256;
    let tile_index = (bg_map_y / 8) * 32 + bg_map_x / 8;
    let tile_index_address = tilemap_address(spec_bg_tilemap(v.lcdc)) + tile_index;
    let tile_id = v.vram[vram_offset(tile_index_address, 0)];
    let tile_attr = v.vram[vram_offset(tile_index_address, 1)];
    let bank = (tile_attr as int / 8) % 2;
    let tile_pixel_y = if tile_attr & 0x40 != 0 { 7 - bg_map_y % 8 } else { bg_map_y % 8 };
    let tile_pixel_x = if tile_attr & 0x20 != 0 { 7 - bg_map_x % 8 } else { bg_map_x % 8 };
    let palette_number = tile_attr as int % 8;
    let mode = spec_tiledata_mode(v.lcdc);
    let line_address = tiledata_address(mode) + tile_data_offset(mode, tile_id) + tile_pixel_y * 2;
    let low = v.vram[vram_offset(line_address, bank)];
    let high = v.vram[vram_offset(line_address + 1, bank)];
    cgb_color(
        v.bg_palettes.subrange(palette_number * 8, palette_number * 8 + 8),
        color_id(low, high, 7 - tile_pixel_x) as int,
    )
}

/// The colour of window pixel (`window_x`, `window_y`).
pub open spec fn window_color(v: PpuView, window_x: int, window_y: int) -> RGBA {
    let tile_index = (window_y / 8) * 32 + window_x / 8;
    let tile_index_address = tilemap_address(spec_window_tilemap(v.lcdc)) + tile_index;
    let tile_id = v.vram[vram_offset(tile_index_address, 0)];
    let mode = spec_tiledata_mode(v.lcdc);
    let line_address = tiledata_address(mode) + tile_data_offset(mode, tile_id) + (window_y % 8) * 2;
    let low = v.vram[vram_offset(line_address, 0)];
    let high = v.vram[vram_offset(line_address + 1, 0)];
    palette_color(Palette::DmgGreyscale(v.bgp), color_id(low, high, 7 - window_x % 8) as int)
}

/// The background colour of each pixel of the current scanline.
/// The colour of pixel (`map_x`, `map_y`) of the 256x256 background map: the
/// tile of the 32x32 tile map that holds it, read with its CGB attributes
/// (VRAM bank, palette, flips).
pub open spec fn bg_map_color(v: PpuView, map_x: int, map_y: int) -> RGBA {
    let tile_address = tilemap_address(spec_bg_tilemap(v.lcdc)) + (map_y / 8) * 32 + map_x / 8;
    let tile_id = v.vram[vram_offset(tile_address, 0)];
    let attrs = v.vram[vram_offset(tile_address, 1)];
    let row = if attrs & 0x40 != 0 { 7 - map_y % 8 } else { map_y % 8 };
    let column = if attrs & 0x20 != 0 { 7 - map_x % 8 } else { map_x % 8 };
    let mode = spec_tiledata_mode(v.lcdc);
    let line_address = tiledata_address(mode) + tile_data_offset(mode, tile_id) + row * 2;
    let bank = (attrs as int / 8) % 2;
    let palette = attrs as int % 8;
    cgb_color(
        v.bg_palettes.subrange(palette * 8, palette * 8 + 8),
        color_id(v.vram[vram_offset(line_address, bank)], v.vram[vram_offset(line_address + 1, bank)], 7 - column) as int,
    )
}

/// The background scrolls: screen pixel `x` of line LY shows the background
/// map's pixel at ((x + SCX) mod 256, (LY + SCY) mod 256). So two states that
/// agree but for LY, SCX and SCY show the same background pixel wherever the
/// scrolled map coordinates agree.
pub proof fn lemma_background_scrolls(v: PpuView, x: int, w: PpuView, y: int)
    ensures
        bg_color(v, x) == bg_map_color(v, (x + v.scx) % 256, (v.ly + v.scy) % 256),
        w == (PpuView { ly: w.ly, scx: w.scx, scy: w.scy, ..v }) && (x + v.scx) % 256 == (y + w.scx)
            % 256 && (v.ly + v.scy) % 256 == (w.ly + w.scy) % 256 ==> bg_color(v, x) == bg_color(w, y),
{
}

pub open spec fn bg_paint(v: PpuView) -> spec_fn(int) -> Option<RGBA> {
    |x: int| Some(bg_color(v, x))
}

/// The current scanline with the background drawn.
pub open spec fn render_background(v: PpuView) -> PpuView {
    PpuView {
        framebuffer: paint(v.framebuffer, v.ly as int, 0, 160, bg_paint(v)),
        ..v
    }
}

/// The window colour of each screen pixel of the current scanline.
pub open spec fn window_paint(v: PpuView, window_x_start: int, screen_x_start: int, window_y: int) -> spec_fn(int) -> Option<RGBA> {
    |x: int| Some(window_color(v, window_x_start + (x - screen_x_start), window_y))
}

/// The window line drawn on this scanline, counting up the internal window
/// line counter.
pub open spec fn render_window(v: PpuView) -> PpuView {
    if v.ly < v.wy || v.wx as int >= 167 {
        v
    } else {
        let window_y = match v.window_internal_counter {
            Some(x) => x as int,
            None => 0,
        };
        let window_x_start = if v.wx < 7 { 7 - v.wx } else { 0 };
        let screen_x_start = if v.wx >= 7 { v.wx - 7 } else { 0 };
        PpuView {
            window_internal_counter: Some((window_y + 1) as u8),
            framebuffer: paint(
                v.framebuffer,
                v.ly as int,
                screen_x_start,
                160,
                window_paint(v, window_x_start, screen_x_start, window_y),
            ),
            ..v
        }
    }
}

/// OAM entry `index` as a sprite.
pub open spec fn oam_sprite(oam: Seq<u8>, index: int) -> Sprite {
    Sprite {
        y: oam[4 * index],
        x: oam[4 * index + 1],
        tile_index: oam[4 * index + 2],
        attrs: oam[4 * index + 3],
    }
}

/// Whether a sprite at vertical position `y` covers scanline `ly`.
pub open spec fn sprite_on_line(y: u8, height: u8, ly: u8) -> bool {
    let start = if y >= 16 { y - 16 } else { 0 };
    let end = if y + height >= 16 { y + height - 16 } else { 0 };
    start <= ly && ly < end
}

/// The indices of the sprites among the first `n` OAM entries that cover the
/// current scanline, in OAM order.
pub open spec fn sprites_on_line_among(v: PpuView, n: int) -> Seq<int>
    decreases n,
{
    if n <= 0 {
        Seq::empty()
    } else {
        let earlier = sprites_on_line_among(v, n - 1);
        if sprite_on_line(v.oam[4 * (n - 1)], sprite_pixels(spec_sprite_height(v.lcdc)), v.ly) {
            earlier.push(n - 1)
        } else {
            earlier
        }
    }
}

/// The first ten sprites of OAM that cover the current scanline.
pub open spec fn line_sprite_indices(v: PpuView) -> Seq<int> {
    let all = sprites_on_line_among(v, 40);
    if all.len() > 10 {
        all.take(10)
    } else {
        all
    }
}

/// Whether the 4 bytes of pixel `x` of scanline `row` show the lightest shade.
pub open spec fn pixel_is_white(fb: Seq<u8>, row: int, x: int) -> bool {
    let base = row * ROW_BYTES + x * 4;
    let w = shade_color(GameboyColorShade::White);
    base + 4 <= fb.len() && fb[base] == w.0 && fb[base + 1] == w.1 && fb[base + 2] == w.2 && fb[base
        + 3] == w.3
}

/// The first visible column, the last visible column and the first screen
/// column of a sprite at horizontal position `x`.
pub open spec fn sprite_columns(x: u8) -> (int, int, int) {
    if x < 8 {
        (8 - x, 7, 0)
    } else if x > 160 {
        // The sprite is partially hidden on the right: its columns end at
        // screen column 159
        (0, 167 - x, x - 8)
    } else {
        (0, 7, x - 8)
    }
}

/// The framebuffer with one sprite drawn on the current scanline.
pub open spec fn draw_sprite(fb: Seq<u8>, v: PpuView, sprite: Sprite) -> Seq<u8> {
    if sprite.x == 0 || sprite.x >= 168 {
        fb
    } else {
        let height = spec_sprite_height(v.lcdc);
        let tile = match height {
            SpriteHeight::Short => sprite.tile_index as int,
            SpriteHeight::Tall => (sprite.tile_index as int / 2) * 2,
        };
        let tile_address = tile * 16 + 0x8000;
        let offset_ly = v.ly + 16;
        let line = if sprite.attrs & 0x40 != 0 {
            sprite_pixels(height) - (offset_ly - sprite.y) - 1
        } else {
            offset_ly - sprite.y
        };
        let line_address = tile_address + line * 2;
        let palette_number = sprite.attrs as int % 8;
        let bank = (sprite.attrs as int / 8) % 2;
        let low = v.vram[vram_offset(line_address, bank)];
        let high = v.vram[vram_offset(line_address + 1, bank)];
        let palette = v.obj_palettes.subrange(palette_number * 8, palette_number * 8 + 8);
        let (column_start, column_end, screen_x_start) = sprite_columns(sprite.x);
        let columns = column_end - column_start + 1;
        paint(
            fb,
            v.ly as int,
            screen_x_start,
            screen_x_start + columns,
            sprite_paint(fb, v.ly as int, sprite.attrs, low, high, palette, column_start, screen_x_start),
        )
    }
}

/// The colour a sprite gives screen pixel `x` of scanline `row`, if any.
pub open spec fn sprite_paint(
    fb: Seq<u8>,
    row: int,
    attrs: u8,
    low: u8,
    high: u8,
    palette: Seq<u8>,
    column_start: int,
    screen_x_start: int,
) -> spec_fn(int) -> Option<RGBA> {
    |x: int|
        {
            let i = x - screen_x_start;
            let bit = if attrs & 0x20 != 0 {
                column_start + i
            } else {
                7 - (column_start + i)
            };
            let id = color_id(low, high, bit);
            // Color ID 00 is transparent for sprites
            if id != 0 && (attrs & 0x80 == 0 || pixel_is_white(fb, row, x)) {
                Some(cgb_color(palette, id as int))
            } else {
                None
            }
        }
}

/// The framebuffer with `sprites` drawn last to first, so that earlier sprites
/// end up on top.
pub open spec fn draw_sprites(fb: Seq<u8>, v: PpuView, sprites: Seq<Sprite>) -> Seq<u8>
    decreases sprites.len(),
{
    if sprites.len() == 0 {
        fb
    } else {
        draw_sprite(draw_sprites(fb, v, sprites.drop_first()), v, sprites[0])
    }
}

pub open spec fn line_sprites(v: PpuView) -> Seq<Sprite> {
    line_sprite_indices(v).map_values(|i: int| oam_sprite(v.oam, i))
}

/// The current scanline with the sprites drawn.
pub open spec fn render_sprites(v: PpuView) -> PpuView {
    PpuView { framebuffer: draw_sprites(v.framebuffer, v, line_sprites(v)), ..v }
}

/// The current scanline rendered: background, then window, then sprites, as
/// far as LCDC enables them.
pub open spec fn render_line(v: PpuView) -> PpuView {
    if v.lcdc & 0x80 == 0 {
        v
    } else {
        let v1 = render_background(v);
        let v2 = if v.lcdc & 0x20 != 0 { render_window(v1) } else { v1 };
        if v.lcdc & 0x02 != 0 { render_sprites(v2) } else { v2 }
    }
}

/// The interrupt flag after a STAT change: a rising edge of the STAT line
/// requests the LCD STAT interrupt.
pub open spec fn stat_edge(flag: u8, old_stat: u8, new_stat: u8) -> u8 {
    if !spec_stat_irq(old_stat) && spec_stat_irq(new_stat) {
        flag | interrupt_mask(InterruptType::LcdStat)
    } else {
        flag
    }
}

/// One dot (t-cycle) of the PPU: the state and the interrupt flag after it.
pub open spec fn ppu_dot(v: PpuView, flag: u8) -> (PpuView, u8) {
    let v = PpuView { dots_in_line: (v.dots_in_line + 1) as u64, ..v };
    let mode = spec_mode(v.stat);
    if mode == LcdStatus::OamSearch && v.dots_in_line == OAM_SEARCH_DOTS {
        let stat = spec_set_mode(v.stat, LcdStatus::Rendering);
        (PpuView { stat, ..v }, stat_edge(flag, v.stat, stat))
    } else if mode == LcdStatus::Rendering && v.dots_in_line == RENDERING_DOTS {
        let r = render_line(v);
        let stat = spec_set_mode(r.stat, LcdStatus::Hblank);
        (PpuView { stat, ..r }, stat_edge(flag, r.stat, stat))
    } else if mode == LcdStatus::Hblank && v.dots_in_line == SCANLINE_DOTS {
        let ly = (v.ly + 1) as u8;
        let old_stat = v.stat;
        let entering_vblank = ly == LCD_HEIGHT;
        let flag1 = if entering_vblank {
            let f = if !spec_stat_irq(old_stat) && old_stat & stat_source_mask(
                LcdStatSource::Mode1Vblank,
            ) != 0 {
                flag | interrupt_mask(InterruptType::LcdStat)
            } else {
                flag
            };
            f | interrupt_mask(InterruptType::Vblank)
        } else {
            flag
        };
        let counter = if entering_vblank { None } else { v.window_internal_counter };
        let stat1 = spec_set_mode(
            old_stat,
            if entering_vblank { LcdStatus::Vblank } else { LcdStatus::OamSearch },
        );
        let flag2 = stat_edge(flag1, old_stat, stat1);
        // The LY-LYC compare interrupt is actually delayed by 1 CPU cycle
        let stat2 = spec_set_ly_lyc(stat1, ly == v.lyc);
        let flag3 = stat_edge(flag2, stat1, stat2);
        (
            PpuView { ly, dots_in_line: 0, window_internal_counter: counter, stat: stat2, ..v },
            flag3,
        )
    } else if mode == LcdStatus::Vblank && v.ly == 153 && v.dots_in_line == 8 {
        let stat = spec_set_ly_lyc(v.stat, 0 == v.lyc);
        (PpuView { ly: 0, stat, ..v }, stat_edge(flag, v.stat, stat))
    } else if mode == LcdStatus::Vblank && v.ly == 0 && v.dots_in_line == SCANLINE_DOTS {
        let stat1 = spec_set_mode(v.stat, LcdStatus::OamSearch);
        let stat2 = spec_set_ly_lyc(stat1, v.ly == v.lyc);
        (PpuView { stat: stat2, dots_in_line: 0, ..v }, stat_edge(flag, v.stat, stat2))
    } else if mode == LcdStatus::Vblank && v.dots_in_line == SCANLINE_DOTS {
        let ly = (v.ly + 1) as u8;
        let stat = spec_set_ly_lyc(v.stat, ly == v.lyc);
        (PpuView { ly, dots_in_line: 0, stat, ..v }, stat_edge(flag, v.stat, stat))
    } else {
        (v, flag)
    }
}

/// `n` dots of the PPU.
pub open spec fn ppu_dots(v: PpuView, flag: u8, n: nat) -> (PpuView, u8)
    decreases n,
{
    if n == 0 {
        (v, flag)
    } else {
        let (v1, f1) = ppu_dots(v, flag, (n - 1) as nat);
        ppu_dot(v1, f1)
    }
}

/// Setting or clearing the LY=LYC bit, or writing STAT, keeps the mode bits;
/// setting the mode yields that mode.
pub proof fn lemma_stat_bits(stat: u8, data: u8, set: bool, mode: LcdStatus)
    ensures
        spec_mode(spec_set_ly_lyc(stat, set)) == spec_mode(stat),
        spec_mode(((data & 0x78) | (stat & 0x7)) & 0x7F) == spec_mode(stat),
        spec_mode(spec_set_mode(stat, mode)) == mode,
        spec_set_mode(stat, mode) & 0x78 == stat & 0x78,
{
    assert((stat | 0x04) % 4 == stat % 4) by {
        crate::bits::lemma_u8_bits(stat);
    }
    assert((stat & !0x04u8) % 4 == stat % 4) by {
        crate::bits::lemma_u8_bits(stat);
    }
    assert((((data & 0x78) | (stat & 0x7)) & 0x7F) % 4 == stat % 4) by {
        crate::bits::lemma_u8_pair_bits(stat, data);
    }
    let b = status_bits(mode);
    let r = spec_set_mode(stat, mode);
    assert(r == (stat & !0x03u8) | b) by (bit_vector)
        requires
            r == ((stat as int / 4) * 4 + b) as u8,
            b < 4,
    ;
    assert(r & 0x78 == stat & 0x78) by (bit_vector)
        requires
            r == (stat & !0x03u8) | b,
            b < 4,
    ;
}

/// Writing the four channels of pixel `x` of scanline `row` extends a painted
/// run by one pixel.
pub proof fn lemma_paint_step(
    fb0: Seq<u8>,
    fb: Seq<u8>,
    row: int,
    from: int,
    x: int,
    color: spec_fn(int) -> Option<RGBA>,
)
    requires
        fb == paint(fb0, row, from, x, color),
        0 <= from <= x,
        0 <= row,
        fb0.len() % 4 == 0,
    ensures
        ({
            let base = row * ROW_BYTES + x * 4;
            paint(fb0, row, from, x + 1, color) == if base + 4 <= fb0.len() {
                match color(x) {
                    Some(c) => fb.update(base, c.0).update(base + 1, c.1).update(base + 2, c.2).update(
                        base + 3,
                        c.3,
                    ),
                    None => fb,
                }
            } else {
                fb
            }
        }),
{
    let base = row * ROW_BYTES + x * 4;
    let next = paint(fb0, row, from, x + 1, color);
    if base + 4 <= fb0.len() {
        match color(x) {
            Some(c) => {
                let upd = fb.update(base, c.0).update(base + 1, c.1).update(base + 2, c.2).update(
                    base + 3,
                    c.3,
                );
                assert forall|i: int| 0 <= i < fb0.len() implies next[i] == upd[i] by {
                    let rel = i - row * ROW_BYTES;
                    if base <= i < base + 4 {
                        assert(rel / 4 == x);
                        assert(rel % 4 == i - base);
                    }
                }
                assert(next =~= upd);
            },
            None => {
                assert forall|i: int| 0 <= i < fb0.len() implies next[i] == fb[i] by {
                    let rel = i - row * ROW_BYTES;
                    if base <= i < base + 4 {
                        assert(rel / 4 == x);
                    }
                }
                assert(next =~= fb);
            },
        }
    } else {
        assert forall|i: int| 0 <= i < fb0.len() implies next[i] == fb[i] by {
            let rel = i - row * ROW_BYTES;
            if from * 4 <= rel < (x + 1) * 4 {
                assert(rel < x * 4) by {
                    assert(i < fb0.len());
                    assert(fb0.len() % 4 == 0);
                }
            }
        }
        assert(next =~= fb);
    }
}

/// Painting an empty run leaves the framebuffer as it is.
pub proof fn lemma_paint_empty(fb: Seq<u8>, row: int, x: int, color: spec_fn(int) -> Option<RGBA>)
    ensures
        paint(fb, row, x, x, color) == fb,
{
    assert(paint(fb, row, x, x, color) =~= fb);
}

/// Write one RGBA pixel at byte `index` of the framebuffer.
fn put_pixel(framebuffer: &mut Vec<u8>, index: usize, color: RGBA)
    requires
        index + 4 <= old(framebuffer)@.len(),
        index + 4 <= old(framebuffer).len(),
    ensures
        final(framebuffer)@ == old(framebuffer)@.update(index as int, color.0).update(
            index + 1,
            color.1,
        ).update(index + 2, color.2).update(index + 3, color.3),
{
    framebuffer.set(index, color.0);
    framebuffer.set(index + 1, color.1);
    framebuffer.set(index + 2, color.2);
    framebuffer.set(index + 3, color.3);
}

/// The colour index of a tile pixel from the two bytes of its row.
fn tile_color_id(low: u8, high: u8, bit: u8) -> (id: u8)
    requires
        bit < 8,
    ensures
        id == color_id(low, high, bit as int),
        id < 4,
{
    let h = bit_value(high, bit);
    let l = bit_value(low, bit);
    assert(h <= 1 && l <= 1 ==> (h << 1u8) | l == h * 2 + l) by (bit_vector);
    (h << 1u8) | l
}

impl Ppu {
    pub fn new() -> (ppu: Self)
        ensures
            ppu_wf(ppu@),
            ppu@.vram == Seq::new(2 * VRAM_BANK_SIZE as nat, |i: int| 0xFFu8),
            ppu@.oam == Seq::new(OAM_SIZE as nat, |i: int| 0xFFu8),
            ppu@.framebuffer == Seq::new(FRAMEBUFFER_SIZE as nat, |i: int| 0u8),
            ppu@.bg_palettes == Seq::new(COLOR_PALETTE_SIZE as nat, |i: int| 0xFFu8),
            ppu@.obj_palettes == Seq::new(COLOR_PALETTE_SIZE as nat, |i: int| 0xFFu8),
            ppu@.vram_bank == 0xFE,
            ppu@.lcdc == 0,
            ppu@.stat == status_bits(LcdStatus::OamSearch),
            ppu@.ly == 0,
            ppu@.lyc == 0,
            ppu@.scx == 0 && ppu@.scy == 0 && ppu@.wx == 0 && ppu@.wy == 0,
            ppu@.bgp == 0 && ppu@.obp0 == 0 && ppu@.obp1 == 0,
            ppu@.bcps == 0 && ppu@.ocps == 0,
            ppu@.dots_in_line == 0,
            ppu@.window_internal_counter is None,
    {
        let vram = vec![0xFFu8; 2 * VRAM_BANK_SIZE];
        // Bank 0. All other bits are 1
        let vram_bank = 0xFE;
        let oam = vec![0xFFu8; OAM_SIZE];
        let lcdc = Lcdc(0);
        let mut stat = LcdStat(0);
        stat.set_mode(LcdStatus::OamSearch);
        // We are using a RGBA format pixel buffer
        let framebuffer = vec![0x00u8; FRAMEBUFFER_SIZE];
        let ppu = Ppu {
            vram,
            vram_bank,
            oam,
            lcdc,
            stat,
            dots_in_line: 0,
            scy: 0x00,
            scx: 0x00,
            ly: 0x00,
            lyc: 0x00,
            wy: 0x00,
            wx: 0x00,
            window_internal_counter: None,
            bgp: 0x00,
            obp0: 0x00,
            obp1: 0x00,
            bcps: 0x00,
            ocps: 0x00,
            color_bg_palettes: vec![0xFFu8; COLOR_PALETTE_SIZE],
            color_obj_palettes: vec![0xFFu8; COLOR_PALETTE_SIZE],
            framebuffer,
        };
        assert(ppu@.vram =~= Seq::new(2 * VRAM_BANK_SIZE as nat, |i: int| 0xFFu8));
        assert(ppu@.oam =~= Seq::new(OAM_SIZE as nat, |i: int| 0xFFu8));
        assert(ppu@.framebuffer =~= Seq::new(FRAMEBUFFER_SIZE as nat, |i: int| 0u8));
        assert(ppu@.bg_palettes =~= Seq::new(COLOR_PALETTE_SIZE as nat, |i: int| 0xFFu8));
        assert(ppu@.obj_palettes =~= Seq::new(COLOR_PALETTE_SIZE as nat, |i: int| 0xFFu8));
        assert(0u8 & 0x40 == 0) by (bit_vector);
        ppu
    }

    /// Copy the rendered RGBA frame into `buffer`.
    pub fn copy_framebuffer_to_draw_target(&self, buffer: &mut [Byte])
        requires
            ppu_layout(self@),
            old(buffer)@.len() == FRAMEBUFFER_SIZE,
        ensures
            final(buffer)@ == self@.framebuffer,
    {
        let mut i: usize = 0;
        while i < FRAMEBUFFER_SIZE
            invariant
                0 <= i <= FRAMEBUFFER_SIZE,
                ppu_layout(self@),
                buffer@.len() == FRAMEBUFFER_SIZE,
                forall|j: int| 0 <= j < i ==> buffer@[j] == self@.framebuffer[j],
            decreases FRAMEBUFFER_SIZE - i,
        {
            buffer[i] = self.framebuffer[i];
            i = i + 1;
        }
        assert(buffer@ =~= self@.framebuffer);
    }

    pub fn bcp_read(&self) -> (data: Byte)
        requires
            ppu_layout(self@),
        ensures
            data == self@.bg_palettes[self.bcps as int % 32],
    {
        let b = self.bcps;
        assert(b & 0x1F == b % 32) by {
            crate::bits::lemma_u8_bits(b);
        }
        self.color_bg_palettes[(b & 0x1F) as usize]
    }

    pub fn bcp_write(&mut self, data: Byte)
        requires
            ppu_layout(old(self)@),
        ensures
            final(self)@ == ppu_write(old(self)@, BCPD_ADDRESS, data),
            ppu_layout(final(self)@),
    {
        let b = self.bcps;
        assert(b & 0x1F == b % 32) by {
            crate::bits::lemma_u8_bits(b);
        }
        self.color_bg_palettes.set((b & 0x1F) as usize, data);
        if b & 0x80 != 0 {
            assert(b & 0x40 == 0 ==> b < 0xFF) by {
                crate::bits::lemma_u8_bits(b);
            }
            let inc = b + 1;
            let n = inc & 0x9F;
            assert(n & 0x40 == 0) by (bit_vector)
                requires
                    n == inc & 0x9F,
            ;
            self.bcps = n;
        }
    }

    pub fn ocp_read(&self) -> (data: Byte)
        requires
            ppu_layout(self@),
        ensures
            data == self@.obj_palettes[self.ocps as int % 32],
    {
        let o = self.ocps;
        assert(o & 0x1F == o % 32) by {
            crate::bits::lemma_u8_bits(o);
        }
        self.color_obj_palettes[(o & 0x1F) as usize]
    }

    pub fn ocp_write(&mut self, data: Byte)
        requires
            ppu_layout(old(self)@),
        ensures
            final(self)@ == ppu_write(old(self)@, OCPD_ADDRESS, data),
            ppu_layout(final(self)@),
    {
        let o = self.ocps;
        assert(o & 0x1F == o % 32) by {
            crate::bits::lemma_u8_bits(o);
        }
        self.color_obj_palettes.set((o & 0x1F) as usize, data);
        if o & 0x80 != 0 {
            assert(o & 0x40 == 0 ==> o < 0xFF) by {
                crate::bits::lemma_u8_bits(o);
            }
            let inc = o + 1;
            let n = inc & 0x9F;
            assert(n & 0x40 == 0) by (bit_vector)
                requires
                    n == inc & 0x9F,
            ;
            self.ocps = n;
        }
    }

    pub fn read(&self, address: Word) -> (data: Byte)
        requires
            ppu_layout(self@),
        ensures
            data == ppu_read(self@, address),
    {
        if VRAM_START <= address && address <= VRAM_END {
            // VRAM and OAM stay readable in every mode: the CPU is not locked out during rendering.
            let bank = self.vram_bank;
            assert(bank & 0b1 == bank % 2) by {
                crate::bits::lemma_usize_low_bit(bank);
            }
            self.vram[vram_index(address, bank & 0b1)]
        } else if OAM_START <= address && address <= OAM_END {
            self.oam[(address - OAM_START) as usize]
        } else if address == LCDC_ADDRESS {
            self.lcdc.0
        } else if address == STAT_ADDRESS {
            self.stat.0
        } else if address == SCY_ADDRESS {
            self.scy
        } else if address == SCX_ADDRESS {
            self.scx
        } else if address == LY_ADDRESS {
            self.ly
        } else if address == LYC_ADDRESS {
            self.lyc
        } else if address == BGP_ADDRESS {
            self.bgp
        } else if address == OBP0_ADDRESS {
            self.obp0
        } else if address == OBP1_ADDRESS {
            self.obp1
        } else if address == WY_ADDRESS {
            self.wy
        } else if address == WX_ADDRESS {
            self.wx
        } else if address == VRAM_BANK_ADDRESS {
            self.vram_bank as Byte
        } else if address == BCPS_ADDRESS {
            self.bcps
        } else if address == BCPD_ADDRESS {
            self.bcp_read()
        } else if address == OCPS_ADDRESS {
            self.ocps
        } else if address == OCPD_ADDRESS {
            self.ocp_read()
        } else {
            0xFF
        }
    }

    pub fn write(&mut self, address: Word, data: Byte)
        requires
            ppu_wf(old(self)@),
        ensures
            final(self)@ == ppu_write(old(self)@, address, data),
            ppu_wf(final(self)@),
    {
        let ghost v0 = self@;
        if VRAM_START <= address && address <= VRAM_END {
            let bank = self.vram_bank;
            assert(bank & 0b1 == bank % 2) by {
                crate::bits::lemma_usize_low_bit(bank);
            }
            self.vram.set(vram_index(address, bank & 0b1), data);
        } else if OAM_START <= address && address <= OAM_END {
            self.oam.set((address - OAM_START) as usize, data);
        } else if address == LCDC_ADDRESS {
            self.lcdc.0 = data;
        } else if address == STAT_ADDRESS {
            // Ignore bit 7 as it is not used and don't set status or lyc=ly on write
            proof {
                lemma_stat_bits(v0.stat, data, false, LcdStatus::Hblank);
            }
            self.stat.0 = ((data & 0x78) | (self.stat.0 & 0x7)) & 0x7F;
        } else if address == SCY_ADDRESS {
            self.scy = data;
        } else if address == SCX_ADDRESS {
            self.scx = data;
        } else if address == LY_ADDRESS {
        } else if address == LYC_ADDRESS {
            proof {
                lemma_stat_bits(v0.stat, data, v0.ly == data, LcdStatus::Hblank);
            }
            self.lyc = data;
            let equal = self.ly == self.lyc;
            self.stat.set_ly_lyc_state(equal);
        } else if address == BGP_ADDRESS {
            self.bgp = data;
        } else if address == OBP0_ADDRESS {
            self.obp0 = data;
        } else if address == OBP1_ADDRESS {
            self.obp1 = data;
        } else if address == WY_ADDRESS {
            self.wy = data;
        } else if address == WX_ADDRESS {
            self.wx = data;
        } else if address == VRAM_BANK_ADDRESS {
            assert((0xFE | (data as usize & 0b1)) == if data % 2 == 0 { 0xFEusize } else { 0xFFusize })
                by (bit_vector);
            self.vram_bank = 0xFE | (data as usize & 0b1);
        } else if address == BCPS_ADDRESS {
            // Ignore bit 6
            assert(data & !(0x1u8 << 6u8) == data & 0xBF) by {
                crate::bits::lemma_u8_bits(data);
            }
            assert((data & 0xBF) & 0x40 == 0) by {
                crate::bits::lemma_u8_bits(data);
            }
            self.bcps = data & !(0x1u8 << 6u8);
        } else if address == BCPD_ADDRESS {
            self.bcp_write(data);
        } else if address == OCPS_ADDRESS {
            assert(data & !(0x1u8 << 6u8) == data & 0xBF) by {
                crate::bits::lemma_u8_bits(data);
            }
            assert((data & 0xBF) & 0x40 == 0) by {
                crate::bits::lemma_u8_bits(data);
            }
            self.ocps = data & !(0x1u8 << 6u8);
        } else if address == OCPD_ADDRESS {
            self.ocp_write(data);
        }
    }
}

impl Ppu {
    /// The colour of background pixel `screen_x` on the current scanline.
    fn background_pixel(&self, screen_x: usize) -> (color: RGBA)
        requires
            ppu_layout(self@),
            screen_x < 160,
        ensures
            color == bg_color(self@, screen_x as int),
    {
        let mode = self.lcdc.bg_and_window_tiledata_area();
        let tileset_address = mode.address() as usize;
        let tilemap_address = self.lcdc.bg_tilemap_area().address() as usize;
        let screen_y = self.ly as usize;
        // Displace the coordinate in the background map by the position of the viewport that is
        // shown on the screen and wrap around the BG map if it overflows the BG map
        let bg_map_x = (screen_x + self.scx as usize) % BG_MAP_SIZE;
        let bg_map_y = (screen_y + self.scy as usize) % BG_MAP_SIZE;
        let tile_x = bg_map_x / TILE_WIDTH_PX;
        let tile_y = bg_map_y / TILE_HEIGHT_PX;
        let tile_index = tile_y * TILES_PER_LINE + tile_x;
        let tile_index_address = tilemap_address + tile_index;
        let tile_id = self.vram[vram_index(tile_index_address as Word, 0)];
        let tile_attr = self.vram[vram_index(tile_index_address as Word, 1)];
        // Of the BG tile attributes only the VRAM bank and the palette are used.
        assert((tile_attr & 8) >> 3u8 == (tile_attr / 8) % 2) by {
            crate::bits::lemma_u8_bits(tile_attr);
        }
        let tile_data_vram_bank = ((tile_attr & 8) >> 3u8) as usize;
        // Vertical flip
        let tile_pixel_y = if (tile_attr & 0x40) != 0 {
            TILE_HEIGHT_PX - (bg_map_y % TILE_HEIGHT_PX) - 1
        } else {
            bg_map_y % TILE_HEIGHT_PX
        };
        // Horizontal flip
        let tile_pixel_x = if (tile_attr & 0x20) != 0 {
            TILE_WIDTH_PX - (bg_map_x % TILE_WIDTH_PX) - 1
        } else {
            bg_map_x % TILE_WIDTH_PX
        };
        assert(tile_attr & 0b111 == tile_attr % 8) by {
            crate::bits::lemma_u8_bits(tile_attr);
        }
        let bg_palette_number = (tile_attr & 0b111) as usize;
        let palette_spec = &self.color_bg_palettes.as_slice()[(bg_palette_number * 8)..((
        bg_palette_number + 1) * 8)];
        let palette = Palette::new_color(palette_spec);
        let tiledata_mem_offset = match mode {
            TiledataAddressingMode::Signed => ((tile_id as usize + 128) % 256) * SIZEOF_TILE,
            TiledataAddressingMode::Unsigned => tile_id as usize * SIZEOF_TILE,
        };
        let tiledata_line_offset = tile_pixel_y * 2;
        let tile_line_data_start_address = tileset_address + tiledata_mem_offset
            + tiledata_line_offset;
        let pixel_1 = self.vram[vram_index(tile_line_data_start_address as Word, tile_data_vram_bank)];
        let pixel_2 = self.vram[vram_index(
            (tile_line_data_start_address + 1) as Word,
            tile_data_vram_bank,
        )];
        let color_id = tile_color_id(pixel_1, pixel_2, (7 - tile_pixel_x) as u8);
        palette.actual_color_from_index(color_id)
    }

    /// Draw the background on the current scanline.
    fn render_background_line(&mut self)
        requires
            ppu_layout(old(self)@),
            old(self).ly < 144,
        ensures
            final(self)@ == render_background(old(self)@),
    {
        let ghost v0 = self@;
        let ghost color = bg_paint(v0);
        let screen_y = self.ly as usize;
        let row_first_index = screen_y * ROW_BYTES;
        proof {
            lemma_paint_empty(v0.framebuffer, screen_y as int, 0, color);
        }
        let mut screen_x: usize = 0;
        while screen_x < 160
            invariant
                screen_x <= 160,
                screen_y == v0.ly,
                screen_y < 144,
                color == bg_paint(v0),
                row_first_index == screen_y * ROW_BYTES,
                ppu_layout(v0),
                self@ == (PpuView { framebuffer: self@.framebuffer, ..v0 }),
                self@.framebuffer == paint(v0.framebuffer, screen_y as int, 0, screen_x as int, color),
            decreases 160 - screen_x,
        {
            let c = self.background_pixel(screen_x);
            proof {
                assert(c == bg_color(v0, screen_x as int));
                assert(color(screen_x as int) == Some(c));
                assert(row_first_index + screen_x * 4 + 4 <= FRAMEBUFFER_SIZE) by (nonlinear_arith)
                    requires
                        row_first_index == screen_y * ROW_BYTES,
                        screen_y < 144,
                        screen_x < 160,
                ;
                lemma_paint_step(
                    v0.framebuffer,
                    self@.framebuffer,
                    screen_y as int,
                    0,
                    screen_x as int,
                    color,
                );
            }
            put_pixel(&mut self.framebuffer, row_first_index + screen_x * 4, c);
            screen_x = screen_x + 1;
        }
        assert(self@ =~= render_background(v0));
    }

    /// The colour of window pixel (`window_x`, `window_y`).
    fn window_pixel(&self, window_x: usize, window_y: usize) -> (color: RGBA)
        requires
            ppu_layout(self@),
            window_x < 256,
            window_y < 256,
        ensures
            color == window_color(self@, window_x as int, window_y as int),
    {
        let palette = Palette::new_greyscale(self.bgp);
        let mode = self.lcdc.bg_and_window_tiledata_area();
        let tileset_address = mode.address() as usize;
        let tilemap_address = self.lcdc.window_tilemap_area().address() as usize;
        let tile_x = window_x / TILE_WIDTH_PX;
        let tile_y = window_y / TILE_HEIGHT_PX;
        let tile_pixel_x = window_x % TILE_WIDTH_PX;
        let tile_pixel_y = window_y % TILE_HEIGHT_PX;
        let tile_index = tile_y * TILES_PER_LINE + tile_x;
        let tile_index_address = tilemap_address + tile_index;
        let tile_id = self.vram[vram_index(tile_index_address as Word, 0)];
        let tiledata_mem_offset = match mode {
            TiledataAddressingMode::Signed => ((tile_id as usize + 128) % 256) * SIZEOF_TILE,
            TiledataAddressingMode::Unsigned => tile_id as usize * SIZEOF_TILE,
        };
        let tiledata_line_offset = tile_pixel_y * 2;
        let tile_line_data_start_address = tileset_address + tiledata_mem_offset
            + tiledata_line_offset;
        let pixel_1 = self.vram[vram_index(tile_line_data_start_address as Word, 0)];
        let pixel_2 = self.vram[vram_index((tile_line_data_start_address + 1) as Word, 0)];
        let color_id = tile_color_id(pixel_1, pixel_2, (7 - tile_pixel_x) as u8);
        palette.actual_color_from_index(color_id)
    }
}

impl Ppu {
    /// Draw the window on the current scanline.
    fn render_window_line(&mut self)
        requires
            ppu_layout(old(self)@),
            old(self).ly < 144,
            counter_at_most(old(self).window_internal_counter, old(self).ly as int),
        ensures
            final(self)@ == render_window(old(self)@),
    {
        let ghost v0 = self@;
        // The first row of the window has not been reached yet or the window is placed to the
        // extreme right outside the screen
        if self.ly < self.wy || self.wx as u32 >= LCD_WIDTH + 7 {
            return ;
        }
        // This is the value of the internal Window counter in the Game boy hardware for this LY
        let window_y = match self.window_internal_counter {
            Some(x) => {
                self.window_internal_counter = Some(x + 1);
                x
            },
            None => {
                self.window_internal_counter = Some(1);
                0
            },
        } as usize;
        let window_x_start = if self.wx < 7 {
            7 - self.wx
        } else {
            0x00
        } as usize;
        let screen_x_start = if self.wx >= 7 {
            self.wx - 7
        } else {
            0
        } as usize;
        let ghost v1 = self@;
        let ghost color = window_paint(v0, window_x_start as int, screen_x_start as int, window_y as int);
        let screen_y = self.ly as usize;
        let row_first_index = screen_y * ROW_BYTES;
        proof {
            lemma_paint_empty(v0.framebuffer, screen_y as int, screen_x_start as int, color);
        }
        let mut screen_x: usize = screen_x_start;
        while screen_x < 160
            invariant
                screen_x_start <= screen_x <= 160,
                screen_x_start < 160,
                window_x_start <= 7,
                window_y < 256,
                screen_y == v0.ly,
                screen_y < 144,
                color == window_paint(v0, window_x_start as int, screen_x_start as int, window_y as int),
                row_first_index == screen_y * ROW_BYTES,
                ppu_layout(v0),
                v1 == (PpuView { window_internal_counter: v1.window_internal_counter, ..v0 }),
                self@ == (PpuView { framebuffer: self@.framebuffer, ..v1 }),
                self@.framebuffer == paint(
                    v0.framebuffer,
                    screen_y as int,
                    screen_x_start as int,
                    screen_x as int,
                    color,
                ),
            decreases 160 - screen_x,
        {
            let window_x = window_x_start + (screen_x - screen_x_start);
            let c = self.window_pixel(window_x, window_y);
            proof {
                assert(c == window_color(v0, window_x as int, window_y as int));
                assert(color(screen_x as int) == Some(c));
                assert(row_first_index + screen_x * 4 + 4 <= FRAMEBUFFER_SIZE) by (nonlinear_arith)
                    requires
                        row_first_index == screen_y * ROW_BYTES,
                        screen_y < 144,
                        screen_x < 160,
                ;
                lemma_paint_step(
                    v0.framebuffer,
                    self@.framebuffer,
                    screen_y as int,
                    screen_x_start as int,
                    screen_x as int,
                    color,
                );
            }
            put_pixel(&mut self.framebuffer, row_first_index + screen_x * 4, c);
            screen_x = screen_x + 1;
        }
        assert(self@ =~= render_window(v0));
    }
}

/// Every sprite the scan selects is an OAM entry that covers the scanline.
pub proof fn lemma_line_sprites_cover_line(v: PpuView, n: int)
    requires
        0 <= n <= 40,
    ensures
        forall|k: int|
            0 <= k < sprites_on_line_among(v, n).len() ==> {
                let i = #[trigger] sprites_on_line_among(v, n)[k];
                &&& 0 <= i < n
                &&& sprite_on_line(v.oam[4 * i], sprite_pixels(spec_sprite_height(v.lcdc)), v.ly)
            },
        sprites_on_line_among(v, n).len() <= n,
    decreases n,
{
    if n > 0 {
        lemma_line_sprites_cover_line(v, n - 1);
    }
}

impl Ppu {
    /// The OAM indices of the first ten sprites that cover the current scanline.
    fn sprites_on_ly(&self) -> (sprites: Vec<usize>)
        requires
            ppu_layout(self@),
        ensures
            sprites@.len() == line_sprite_indices(self@).len(),
            forall|k: int| 0 <= k < sprites@.len() ==> sprites@[k] as int == line_sprite_indices(self@)[k],
            sprites@.len() <= 10,
    {
        let mut sprites: Vec<usize> = Vec::with_capacity(10);
        let sprite_height = self.lcdc.sprite_height().pixels();
        let ghost v = self@;
        let mut i: usize = 0;
        // When scanning the OAM the PPU selects only the first 10 sprites which fall on the current
        // scanline
        while i < 40
            invariant
                i <= 40,
                v == self@,
                ppu_layout(v),
                sprite_height == sprite_pixels(spec_sprite_height(v.lcdc)),
                sprites@.len() == sprites_on_line_among(v, i as int).len(),
                forall|k: int|
                    0 <= k < sprites@.len() ==> sprites@[k] as int == sprites_on_line_among(
                        v,
                        i as int,
                    )[k],
            decreases 40 - i,
        {
            proof {
                lemma_line_sprites_cover_line(v, i as int);
            }
            let y = self.oam[4 * i];
            let screen_y_start = y.saturating_sub(16);
            // The end is computed without wrapping around
            let screen_y_end = (y as u16 + sprite_height as u16).saturating_sub(16);
            // We don't check if the sprite is hidden below the frame because this function should
            // not be called for those values of LY at all
            if screen_y_start <= self.ly && (self.ly as u16) < screen_y_end {
                sprites.push(i);
            }
            i = i + 1;
        }
        proof {
            lemma_line_sprites_cover_line(v, 40);
        }
        // The GameBoy LCD can only show 10 sprites per scanline
        sprites.truncate(10);
        sprites
    }

    /// The first ten sprites that cover the current scanline, in OAM order.
    fn get_sprites_on_ly(&self) -> (sprites: Vec<Sprite>)
        requires
            ppu_layout(self@),
        ensures
            sprites@ == line_sprites(self@),
    {
        let mut sprites: Vec<Sprite> = Vec::with_capacity(10);
        let sprite_indices = self.sprites_on_ly();
        let ghost v = self@;
        proof {
            lemma_line_sprites_cover_line(v, 40);
        }
        let mut k: usize = 0;
        while k < sprite_indices.len()
            invariant
                k <= sprite_indices@.len(),
                v == self@,
                ppu_layout(v),
                sprite_indices@.len() == line_sprite_indices(v).len(),
                sprite_indices@.len() <= 10,
                forall|j: int|
                    0 <= j < sprite_indices@.len() ==> sprite_indices@[j] as int == line_sprite_indices(
                        v,
                    )[j],
                forall|j: int|
                    0 <= j < sprites_on_line_among(v, 40).len() ==> 0
                        <= #[trigger] sprites_on_line_among(v, 40)[j] < 40,
                sprites@ =~= line_sprites(v).subrange(0, k as int),
            decreases sprite_indices@.len() - k,
        {
            let index = sprite_indices[k];
            assert(line_sprite_indices(v)[k as int] == sprites_on_line_among(v, 40)[k as int]);
            let sprite_address = index * 4;
            let sprite = Sprite::new(
                self.oam[sprite_address],
                self.oam[sprite_address + 1],
                self.oam[sprite_address + 2],
                self.oam[sprite_address + 3],
            );
            sprites.push(sprite);
            k = k + 1;
        }
        // No sort by the X coordinate: the DMG rule (lower X drawn over) is not applied, only the
        // CGB rule, where OAM order alone decides.
        sprites
    }
}

/// Pixels not yet painted by a run still hold their original bytes.
pub proof fn lemma_paint_untouched(
    fb0: Seq<u8>,
    row: int,
    from: int,
    x: int,
    color: spec_fn(int) -> Option<RGBA>,
    i: int,
)
    requires
        0 <= i < fb0.len(),
        i - row * ROW_BYTES >= x * 4 || i - row * ROW_BYTES < from * 4,
    ensures
        paint(fb0, row, from, x, color)[i] == fb0[i],
{
}

/// A sprite at horizontal position `x` (1 to 167) covers screen columns
/// `max(x - 8, 0)` to `min(x - 1, 159)`, and reads the tile columns that
/// line up with them.
pub proof fn lemma_sprite_columns_on_screen(x: u8)
    requires
        0 < x < 168,
    ensures
        ({
            let (column_start, column_end, screen_x_start) = sprite_columns(x);
            &&& 0 <= column_start <= column_end <= 7
            &&& screen_x_start == if x < 8 { 0 } else { x - 8 }
            &&& screen_x_start + (column_end - column_start) == if x > 160 { 159 } else { x - 1 }
            &&& screen_x_start - column_start == x - 8
        }),
{
}

/// Drawing a sprite changes no byte outside the current scanline.
pub proof fn lemma_draw_sprite_stays_on_line(fb: Seq<u8>, v: PpuView, sprite: Sprite, i: int)
    requires
        0 <= i < fb.len(),
        i < v.ly * ROW_BYTES || (v.ly + 1) * ROW_BYTES <= i,
    ensures
        draw_sprite(fb, v, sprite)[i] == fb[i],
{
    if !(sprite.x == 0 || sprite.x >= 168) {
        lemma_sprite_columns_on_screen(sprite.x);
    }
}

/// Drawing a list of sprites changes no byte outside the current scanline.
pub proof fn lemma_draw_sprites_stay_on_line(fb: Seq<u8>, v: PpuView, sprites: Seq<Sprite>, i: int)
    requires
        0 <= i < fb.len(),
        i < v.ly * ROW_BYTES || (v.ly + 1) * ROW_BYTES <= i,
    ensures
        draw_sprites(fb, v, sprites)[i] == fb[i],
    decreases sprites.len(),
{
    if sprites.len() > 0 {
        lemma_draw_sprites_stay_on_line(fb, v, sprites.drop_first(), i);
        lemma_draw_sprites_len(fb, v, sprites.drop_first());
        lemma_draw_sprite_stays_on_line(draw_sprites(fb, v, sprites.drop_first()), v, sprites[0], i);
    }
}

/// Drawing sprites keeps the size of the framebuffer.
pub proof fn lemma_draw_sprites_len(fb: Seq<u8>, v: PpuView, sprites: Seq<Sprite>)
    ensures
        draw_sprites(fb, v, sprites).len() == fb.len(),
    decreases sprites.len(),
{
    if sprites.len() > 0 {
        lemma_draw_sprites_len(fb, v, sprites.drop_first());
    }
}

/// Drawing the sprites of a list from the back: one more sprite at the front.
pub proof fn lemma_draw_sprites_step(fb: Seq<u8>, v: PpuView, sprites: Seq<Sprite>, k: int)
    requires
        0 < k <= sprites.len(),
    ensures
        draw_sprites(fb, v, sprites.subrange(k - 1, sprites.len() as int)) == draw_sprite(
            draw_sprites(fb, v, sprites.subrange(k, sprites.len() as int)),
            v,
            sprites[k - 1],
        ),
{
    assert(sprites.subrange(k - 1, sprites.len() as int).drop_first() =~= sprites.subrange(
        k,
        sprites.len() as int,
    ));
}

impl Ppu {
    /// Draw one sprite that covers the current scanline.
    fn draw_sprite(&mut self, sprite: Sprite)
        requires
            ppu_layout(old(self)@),
            old(self).ly < 144,
            sprite_on_line(sprite.y, sprite_pixels(spec_sprite_height(old(self).lcdc.0)), old(self).ly),
        ensures
            final(self)@ == (PpuView {
                framebuffer: draw_sprite(old(self)@.framebuffer, old(self)@, sprite),
                ..old(self)@
            }),
    {
        let ghost v0 = self@;
        // Sprite is hidden beyond the screen
        if sprite.x == 0 || sprite.x >= 168 {
            assert(self@ =~= (PpuView { framebuffer: draw_sprite(v0.framebuffer, v0, sprite), ..v0 }));
            return ;
        }
        let height = self.lcdc.sprite_height();
        let sprite_height = height.pixels();
        // Sprites always use the 0x8000 unsigned addressing mode
        let tile = match height {
            SpriteHeight::Short => sprite.tile_index,
            // Bit-0 of tile-index should be ignored for tall sprites
            SpriteHeight::Tall => sprite.tile_index & 0xFE,
        };
        let t = sprite.tile_index;
        assert(t & 0xFE == (t / 2) * 2) by {
            crate::bits::lemma_u8_bits(t);
        }
        let sprite_tile_address = tile as Word * SIZEOF_TILE as Word + 0x8000;
        // We offset LY by 16 to ease the following calculations and prevent overflow checks
        let offset_ly = self.ly + 16;
        let sprite_line_offset = if sprite.flip_y() {
            sprite_height - (offset_ly - sprite.y) - 1
        } else {
            offset_ly - sprite.y
        };
        let tile_line_data_start_address = sprite_tile_address + (sprite_line_offset as Word * 2);
        let obj_palette_number = match sprite.palette() {
            ObjectPalette::ColorPalette(value) => value as usize,
            _ => 0x0,
        };
        let palette_spec = &self.color_obj_palettes.as_slice()[(obj_palette_number * 8)..((
        obj_palette_number + 1) * 8)];
        let palette = Palette::new_color(palette_spec);
        let bank = sprite.vram_bank();
        let pixel_1 = self.vram[vram_index(tile_line_data_start_address, bank)];
        let pixel_2 = self.vram[vram_index(tile_line_data_start_address + 1, bank)];
        // The sprite is partially hidden on the left
        let (visible_column_start, visible_column_end, screen_x_start) = if sprite.x < 8 {
            (8 - sprite.x, 7u8, 0u8)
        } else if sprite.x > 160 {
            // The sprite is partially hidden on the right
            (0u8, 167 - sprite.x, sprite.x - 8)
        } else {
            // The sprite is entirely visible
            (0u8, 7u8, sprite.x - 8)
        };
        let columns_visible = visible_column_end - visible_column_start + 1;
        let ghost color = sprite_paint(
            v0.framebuffer,
            v0.ly as int,
            sprite.attrs,
            pixel_1,
            pixel_2,
            palette_spec@,
            visible_column_start as int,
            screen_x_start as int,
        );
        let screen_y = self.ly as usize;
        let row_first_index = screen_y * ROW_BYTES;
        let white = rgba_white();
        proof {
            lemma_paint_empty(v0.framebuffer, screen_y as int, screen_x_start as int, color);
        }
        let mut i: u8 = 0;
        while i < columns_visible
            invariant
                i <= columns_visible,
                columns_visible <= 8,
                visible_column_start + columns_visible <= 8,
                screen_x_start as int + columns_visible <= 160,
                screen_y == v0.ly,
                screen_y < 144,
                row_first_index == screen_y * ROW_BYTES,
                white == shade_color(GameboyColorShade::White),
                palette matches Palette::CgbColor(spec) && spec@ == palette_spec@,
                color == sprite_paint(
                    v0.framebuffer,
                    v0.ly as int,
                    sprite.attrs,
                    pixel_1,
                    pixel_2,
                    palette_spec@,
                    visible_column_start as int,
                    screen_x_start as int,
                ),
                ppu_layout(v0),
                self@ == (PpuView { framebuffer: self@.framebuffer, ..v0 }),
                self@.framebuffer == paint(
                    v0.framebuffer,
                    screen_y as int,
                    screen_x_start as int,
                    screen_x_start + i,
                    color,
                ),
            decreases columns_visible - i,
        {
            let x = screen_x_start as usize + i as usize;
            let index = row_first_index + x * 4;
            let ghost fb = self@.framebuffer;
            proof {
                lemma_paint_step(
                    v0.framebuffer,
                    fb,
                    screen_y as int,
                    screen_x_start as int,
                    x as int,
                    color,
                );
                assert(row_first_index + x * 4 + 4 <= FRAMEBUFFER_SIZE) by (nonlinear_arith)
                    requires
                        row_first_index == screen_y * ROW_BYTES,
                        screen_y < 144,
                        x < 160,
                ;
            }
            proof {
                let ghost base = index as int;
                lemma_paint_untouched(v0.framebuffer, screen_y as int, screen_x_start as int, x as int, color, base);
                lemma_paint_untouched(v0.framebuffer, screen_y as int, screen_x_start as int, x as int, color, base + 1);
                lemma_paint_untouched(v0.framebuffer, screen_y as int, screen_x_start as int, x as int, color, base + 2);
                lemma_paint_untouched(v0.framebuffer, screen_y as int, screen_x_start as int, x as int, color, base + 3);
            }
            let pixel_index = if sprite.flip_x() {
                visible_column_start + i
            } else {
                7 - (visible_column_start + i)
            };
            let color_id = tile_color_id(pixel_1, pixel_2, pixel_index);
            // Color ID 00 is transparent for sprites
            if color_id != 0b00 {
                let is_white = self.framebuffer[index] == white.0 && self.framebuffer[index + 1]
                    == white.1 && self.framebuffer[index + 2] == white.2 && self.framebuffer[index
                    + 3] == white.3;
                if !sprite.bg_window_over_sprite() || is_white {
                    let c = palette.actual_color_from_index(color_id);
                    put_pixel(&mut self.framebuffer, index, c);
                }
            }
            i = i + 1;
        }
        assert(self@ =~= (PpuView { framebuffer: draw_sprite(v0.framebuffer, v0, sprite), ..v0 }));
    }

    /// Draw the sprites of the current scanline, last to first so that the
    /// sprite first in OAM ends up on top.
    fn draw_sprites_on_ly(&mut self)
        requires
            ppu_layout(old(self)@),
            old(self).ly < 144,
        ensures
            final(self)@ == render_sprites(old(self)@),
    {
        let ghost v0 = self@;
        let sprites = self.get_sprites_on_ly();
        proof {
            lemma_line_sprites_cover_line(v0, 40);
        }
        // On the DMG model the sprite priority is determined by two conditions:
        // 1. The smaller the X-coordinate the higher the priority
        // 2. When the X-coordinate is same, the object located first in the
        //    OAM gets priority
        // On CGB, only the second condition is used
        // Drawing in reverse will handle condition 2.
        let n = sprites.len();
        let mut k = n;
        assert(sprites@.subrange(n as int, n as int) =~= Seq::<Sprite>::empty());
        while k > 0
            invariant
                k <= n,
                n == sprites@.len(),
                sprites@ == line_sprites(v0),
                ppu_layout(v0),
                v0.ly < 144,
                forall|j: int|
                    0 <= j < sprites_on_line_among(v0, 40).len() ==> {
                        let i = #[trigger] sprites_on_line_among(v0, 40)[j];
                        &&& 0 <= i < 40
                        &&& sprite_on_line(
                            v0.oam[4 * i],
                            sprite_pixels(spec_sprite_height(v0.lcdc)),
                            v0.ly,
                        )
                    },
                self@ == (PpuView { framebuffer: self@.framebuffer, ..v0 }),
                self@.framebuffer == draw_sprites(v0.framebuffer, v0, sprites@.subrange(k as int, n as int)),
            decreases k,
        {
            k = k - 1;
            let sprite = sprites[k];
            assert(line_sprite_indices(v0)[k as int] == sprites_on_line_among(v0, 40)[k as int]);
            proof {
                lemma_draw_sprites_step(v0.framebuffer, v0, sprites@, k as int + 1);
                lemma_draw_sprites_len(v0.framebuffer, v0, sprites@.subrange(k as int + 1, n as int));
            }
            self.draw_sprite(sprite);
        }
        assert(sprites@.subrange(0, n as int) =~= sprites@);
        assert(self@ =~= render_sprites(v0));
    }

    /// Render the current scanline into the framebuffer.
    fn render_line(&mut self)
        requires
            ppu_layout(old(self)@),
            old(self).ly < 144,
            counter_at_most(old(self).window_internal_counter, old(self).ly as int),
        ensures
            final(self)@ == render_line(old(self)@),
    {
        if !self.lcdc.lcd_enabled() {
            return ;
        }
        self.render_background_line();
        if self.lcdc.window_enabled() {
            self.render_window_line();
        }
        if self.lcdc.sprites_enabled() {
            self.draw_sprites_on_ly();
        }
    }
}

/// Rendering a line keeps the layout, the registers and the timing fields,
/// and counts the window line at most once.
pub proof fn lemma_render_line_frame(v: PpuView)
    requires
        ppu_layout(v),
    ensures
        ppu_layout(render_line(v)),
        render_line(v).stat == v.stat,
        render_line(v).ly == v.ly,
        render_line(v).lyc == v.lyc,
        render_line(v).dots_in_line == v.dots_in_line,
        counter_at_most(v.window_internal_counter, v.ly as int) ==> counter_at_most(
            render_line(v).window_internal_counter,
            v.ly as int + 1,
        ),
{
    let v1 = render_background(v);
    let v2 = if v.lcdc & 0x20 != 0 { render_window(v1) } else { v1 };
    lemma_draw_sprites_len(v2.framebuffer, v2, line_sprites(v2));
}

impl Ppu {
    /// Raise the STAT interrupt on a rising edge of the STAT line.
    fn stat_edge(old_stat: LcdStat, new_stat: LcdStat, interrupts: &mut InterruptHandler)
        ensures
            final(interrupts).interrupt_flag == stat_edge(
                old(interrupts).interrupt_flag,
                old_stat.0,
                new_stat.0,
            ),
            final(interrupts).interrupt_enable == old(interrupts).interrupt_enable,
    {
        if !old_stat.is_stat_irq_asserted() && new_stat.is_stat_irq_asserted() {
            interrupts.request_interrupt(InterruptType::LcdStat);
        }
    }

    /// One dot (t-cycle) of the PPU.
    fn dot(&mut self, interrupts: &mut InterruptHandler)
        requires
            ppu_wf(old(self)@),
        ensures
            (final(self)@, final(interrupts).interrupt_flag) == ppu_dot(
                old(self)@,
                old(interrupts).interrupt_flag,
            ),
            final(interrupts).interrupt_enable == old(interrupts).interrupt_enable,
            ppu_wf(final(self)@),
    {
        let ghost v0 = self@;
        let ghost f0 = interrupts.interrupt_flag;
        self.dots_in_line = self.dots_in_line + 1;
        let ghost v1 = self@;
        let mode = self.stat.mode();
        if mode == LcdStatus::OamSearch && self.dots_in_line == OAM_SEARCH_DOTS {
            let old_stat = self.stat;
            self.stat.set_mode(LcdStatus::Rendering);
            proof {
                lemma_stat_bits(old_stat.0, 0, false, LcdStatus::Rendering);
            }
            Self::stat_edge(old_stat, self.stat, interrupts);
        } else if mode == LcdStatus::Rendering && self.dots_in_line == RENDERING_DOTS {
            proof {
                lemma_render_line_frame(v1);
            }
            self.render_line();
            let old_stat = self.stat;
            self.stat.set_mode(LcdStatus::Hblank);
            proof {
                lemma_stat_bits(old_stat.0, 0, false, LcdStatus::Hblank);
            }
            Self::stat_edge(old_stat, self.stat, interrupts);
        } else if mode == LcdStatus::Hblank && self.dots_in_line == SCANLINE_DOTS {
            self.ly = self.ly + 1;
            self.dots_in_line = 0;
            let old_stat = self.stat;
            let next_mode = if self.ly == LCD_HEIGHT as Byte {
                // Going into VBlank
                self.window_internal_counter = None;
                if !old_stat.is_stat_irq_asserted() && self.stat.is_stat_interrupt_source_enabled(
                    LcdStatSource::Mode1Vblank,
                ) {
                    interrupts.request_interrupt(InterruptType::LcdStat);
                }
                interrupts.request_interrupt(InterruptType::Vblank);
                LcdStatus::Vblank
            } else {
                // Going into another LCD line
                LcdStatus::OamSearch
            };
            self.stat.set_mode(next_mode);
            proof {
                lemma_stat_bits(old_stat.0, 0, false, next_mode);
            }
            Self::stat_edge(old_stat, self.stat, interrupts);
            // The LY-LYC compare interrupt is actually delayed by 1 CPU cycle
            let old_stat = self.stat;
            let equal = self.ly == self.lyc;
            self.stat.set_ly_lyc_state(equal);
            proof {
                lemma_stat_bits(old_stat.0, 0, equal, next_mode);
            }
            Self::stat_edge(old_stat, self.stat, interrupts);
        } else if mode == LcdStatus::Vblank && self.ly == 153 && self.dots_in_line == 8 {
            self.ly = 0;
            let old_stat = self.stat;
            let equal = self.ly == self.lyc;
            self.stat.set_ly_lyc_state(equal);
            proof {
                lemma_stat_bits(old_stat.0, 0, equal, LcdStatus::Vblank);
            }
            Self::stat_edge(old_stat, self.stat, interrupts);
        } else if mode == LcdStatus::Vblank && self.ly == 0 && self.dots_in_line == SCANLINE_DOTS {
            let old_stat = self.stat;
            self.stat.set_mode(LcdStatus::OamSearch);
            self.dots_in_line = 0;
            let mid_stat = self.stat;
            let equal = self.ly == self.lyc;
            self.stat.set_ly_lyc_state(equal);
            proof {
                lemma_stat_bits(old_stat.0, 0, equal, LcdStatus::OamSearch);
                lemma_stat_bits(mid_stat.0, 0, equal, LcdStatus::OamSearch);
            }
            Self::stat_edge(old_stat, self.stat, interrupts);
        } else if mode == LcdStatus::Vblank && self.dots_in_line == SCANLINE_DOTS {
            self.ly = self.ly + 1;
            self.dots_in_line = 0;
            let old_stat = self.stat;
            let equal = self.ly == self.lyc;
            self.stat.set_ly_lyc_state(equal);
            proof {
                lemma_stat_bits(old_stat.0, 0, equal, LcdStatus::Vblank);
            }
            Self::stat_edge(old_stat, self.stat, interrupts);
        }
        assert(self@ =~= ppu_dot(v0, f0).0);
    }

    /// Advance the PPU by one m-cycle: four dots at single speed, two at
    /// double speed (the LCD does not speed up).
    pub fn tick(&mut self, speed_divider: Cycles, interrupts: &mut InterruptHandler)
        requires
            ppu_wf(old(self)@),
            speed_divider > 0,
        ensures
            (final(self)@, final(interrupts).interrupt_flag) == ppu_dots(
                old(self)@,
                old(interrupts).interrupt_flag,
                (DOTS_PER_TICK / speed_divider) as nat,
            ),
            final(interrupts).interrupt_enable == old(interrupts).interrupt_enable,
            ppu_wf(final(self)@),
    {
        // The dot count is divided by the CGB speed divider.
        let cycles_to_tick = DOTS_PER_TICK / speed_divider;
        let ghost v0 = self@;
        let ghost f0 = interrupts.interrupt_flag;
        let mut n: u64 = 0;
        while n < cycles_to_tick
            invariant
                n <= cycles_to_tick,
                ppu_wf(self@),
                (self@, interrupts.interrupt_flag) == ppu_dots(v0, f0, n as nat),
                interrupts.interrupt_enable == old(interrupts).interrupt_enable,
            decreases cycles_to_tick - n,
        {
            self.dot(interrupts);
            n = n + 1;
        }
    }
}

} // verus!
