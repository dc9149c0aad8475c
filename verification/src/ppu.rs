use vstd::prelude::*;
use crate::bits::lemma_byte_facts;
use crate::model::Model;

verus! {

pub const SCREEN_W: usize = 160;

pub const SCREEN_H: usize = 144;

/// Bytes of one RGB888 frame.
pub const FB_SIZE: usize = 69120;

/// Bytes of one frame-buffer line.
pub const LINE_BYTES: usize = 480;

/// Bytes in one VRAM bank; two banks are stored back to back.
pub const VRAM_BANK_SIZE: usize = 0x2000;

pub const VRAM_SIZE: usize = 0x4000;

pub const OAM_SIZE: usize = 0xA0;

/// Bytes of CGB palette memory (8 palettes x 4 colours x 2 bytes).
pub const PALETTE_RAM_SIZE: usize = 64;

/// Sprites a scanline can show.
pub const MAX_SPRITES: usize = 10;

pub const OAM_SCAN_DOTS: u32 = 80;

pub const DRAWING_MIN_DOTS: u32 = 172;

pub const HBLANK_MAX_END: u32 = 456;

#[derive(Debug, Clone, Copy, PartialEq, Eq, Structural)]
pub enum PpuMode {
    HBlank,
    VBlank,
    OamScan,
    Drawing,
}

/// The mode's number as STAT bits 0..1 show it.
pub open spec fn mode_bits_spec(m: PpuMode) -> u8 {
    match m {
        PpuMode::HBlank => 0,
        PpuMode::VBlank => 1,
        PpuMode::OamScan => 2,
        PpuMode::Drawing => 3,
    }
}

fn mode_bits(m: PpuMode) -> (r: u8)
    ensures
        r == mode_bits_spec(m),
{
    match m {
        PpuMode::HBlank => 0,
        PpuMode::VBlank => 1,
        PpuMode::OamScan => 2,
        PpuMode::Drawing => 3,
    }
}

/// One OAM entry.
#[derive(Clone, Copy, PartialEq, Eq, Structural)]
pub struct Sprite {
    pub y: u8,
    pub x: u8,
    pub tile: u8,
    pub flags: u8,
}

impl Sprite {
    pub open spec fn dmg_palette_spec(self) -> bool {
        self.flags & 0x10 != 0
    }

    pub open spec fn vram_bank_spec(self) -> usize {
        ((self.flags >> 3u8) & 1) as usize
    }

    pub open spec fn cgb_palette_spec(self) -> usize {
        (self.flags & 0x07) as usize
    }

    pub open spec fn x_flip_spec(self) -> bool {
        self.flags & 0x20 != 0
    }

    pub open spec fn y_flip_spec(self) -> bool {
        self.flags & 0x40 != 0
    }

    pub open spec fn priority_spec(self) -> bool {
        self.flags & 0x80 != 0
    }

    fn dmg_palette(&self) -> (r: bool)
        ensures
            r == self.dmg_palette_spec(),
    {
        self.flags & 0x10 != 0
    }

    fn vram_bank(&self) -> (r: usize)
        ensures
            r == self.vram_bank_spec(),
            r <= 1,
    {
        proof {
            lemma_byte_facts(self.flags, 0);
        }
        ((self.flags >> 3) & 1) as usize
    }

    fn cgb_palette(&self) -> (r: usize)
        ensures
            r == self.cgb_palette_spec(),
            r <= 7,
    {
        proof {
            lemma_byte_facts(self.flags, 0);
        }
        (self.flags & 0x07) as usize
    }

    fn x_flip(&self) -> (r: bool)
        ensures
            r == self.x_flip_spec(),
    {
        self.flags & 0x20 != 0
    }

    fn y_flip(&self) -> (r: bool)
        ensures
            r == self.y_flip_spec(),
    {
        self.flags & 0x40 != 0
    }

    fn priority(&self) -> (r: bool)
        ensures
            r == self.priority_spec(),
    {
        self.flags & 0x80 != 0
    }
}

/// Pixel processing unit, DMG and CGB: two VRAM banks (the second used on
/// CGB), OAM, the LCD registers, CGB palette memory, the mode state machine
/// and an RGB888 frame buffer.
pub struct Ppu {
    pub model: Model,
    pub vram: Vec<u8>,
    pub vram_bank: usize,
    pub oam: Vec<u8>,
    pub lcdc: u8,
    pub stat: u8,
    pub scy: u8,
    pub scx: u8,
    pub ly: u8,
    pub lyc: u8,
    pub bgp: u8,
    pub obp0: u8,
    pub obp1: u8,
    pub wy: u8,
    pub wx: u8,
    pub bg_palette_ram: Vec<u8>,
    pub obj_palette_ram: Vec<u8>,
    pub bcps: u8,
    pub ocps: u8,
    pub mode: PpuMode,
    pub dot: u32,
    pub window_line: u8,
    pub window_triggered: bool,
    pub framebuffer: Vec<u8>,
    pub scanline_bg_color: Vec<u8>,
    pub scanline_bg_prio: Vec<bool>,
    pub vblank_irq: bool,
    pub stat_irq: bool,
    pub stat_line: bool,
    pub sprite_buffer: Vec<Sprite>,
    /// Set when H-Blank starts (used by HDMA)
    pub hblank_flag: bool,
}

/// Model of the PPU.
#[verifier::ext_equal]
pub ghost struct PpuView {
    pub model: Model,
    pub vram: Seq<u8>,
    pub vram_bank: usize,
    pub oam: Seq<u8>,
    pub lcdc: u8,
    pub stat: u8,
    pub scy: u8,
    pub scx: u8,
    pub ly: u8,
    pub lyc: u8,
    pub bgp: u8,
    pub obp0: u8,
    pub obp1: u8,
    pub wy: u8,
    pub wx: u8,
    pub bg_palette_ram: Seq<u8>,
    pub obj_palette_ram: Seq<u8>,
    pub bcps: u8,
    pub ocps: u8,
    pub mode: PpuMode,
    pub dot: u32,
    pub window_line: u8,
    pub window_triggered: bool,
    pub framebuffer: Seq<u8>,
    pub scanline_bg_color: Seq<u8>,
    pub scanline_bg_prio: Seq<bool>,
    pub vblank_irq: bool,
    pub stat_irq: bool,
    pub stat_line: bool,
    pub sprite_buffer: Seq<Sprite>,
    pub hblank_flag: bool,
}

impl View for Ppu {
    type V = PpuView;

    open spec fn view(&self) -> PpuView {
        PpuView {
            model: self.model,
            vram: self.vram@,
            vram_bank: self.vram_bank,
            oam: self.oam@,
            lcdc: self.lcdc,
            stat: self.stat,
            scy: self.scy,
            scx: self.scx,
            ly: self.ly,
            lyc: self.lyc,
            bgp: self.bgp,
            obp0: self.obp0,
            obp1: self.obp1,
            wy: self.wy,
            wx: self.wx,
            bg_palette_ram: self.bg_palette_ram@,
            obj_palette_ram: self.obj_palette_ram@,
            bcps: self.bcps,
            ocps: self.ocps,
            mode: self.mode,
            dot: self.dot,
            window_line: self.window_line,
            window_triggered: self.window_triggered,
            framebuffer: self.framebuffer@,
            scanline_bg_color: self.scanline_bg_color@,
            scanline_bg_prio: self.scanline_bg_prio@,
            vblank_irq: self.vblank_irq,
            stat_irq: self.stat_irq,
            stat_line: self.stat_line,
            sprite_buffer: self.sprite_buffer@,
            hblank_flag: self.hblank_flag,
        }
    }
}

/// Well-formed PPU state: buffers have their sizes, the line counter stays
/// in 0..=153 (below 144 outside V-Blank), the dot counter below 456.
pub open spec fn ppu_wf(p: PpuView) -> bool {
    &&& p.vram.len() == VRAM_SIZE
    &&& p.oam.len() == OAM_SIZE
    &&& p.bg_palette_ram.len() == PALETTE_RAM_SIZE
    &&& p.obj_palette_ram.len() == PALETTE_RAM_SIZE
    &&& p.framebuffer.len() == FB_SIZE
    &&& p.scanline_bg_color.len() == SCREEN_W
    &&& p.scanline_bg_prio.len() == SCREEN_W
    &&& p.vram_bank <= 1
    &&& p.dot < HBLANK_MAX_END
    &&& p.ly <= 153
    &&& p.mode != PpuMode::VBlank ==> p.ly < 144
}

// ─── Registers and the mode state machine ──────────────────────────────────

pub open spec fn lcd_enabled_spec(p: PpuView) -> bool {
    p.lcdc & 0x80 != 0
}

/// The STAT interrupt line: LY=LYC, OAM-scan, V-Blank and H-Blank sources,
/// each gated by its enable bit.
pub open spec fn stat_condition_spec(p: PpuView) -> bool {
    (p.stat & 0x40 != 0 && p.stat & 0x04 != 0) || (p.stat & 0x20 != 0 && p.mode
        == PpuMode::OamScan) || (p.stat & 0x10 != 0 && p.mode == PpuMode::VBlank) || (p.stat & 0x08
        != 0 && p.mode == PpuMode::HBlank)
}

/// A STAT interrupt is requested on a rising edge of the line.
pub open spec fn update_stat_irq_spec(p: PpuView) -> PpuView {
    let new = stat_condition_spec(p);
    PpuView { stat_irq: p.stat_irq || (new && !p.stat_line), stat_line: new, ..p }
}

pub open spec fn set_mode_spec(p: PpuView, m: PpuMode) -> PpuView {
    update_stat_irq_spec(PpuView { mode: m, stat: (p.stat & 0xFC) | mode_bits_spec(m), ..p })
}

/// STAT bit 2 tracks LY == LYC.
pub open spec fn check_lyc_spec(p: PpuView) -> PpuView {
    update_stat_irq_spec(
        PpuView { stat: if p.ly == p.lyc { p.stat | 0x04 } else { p.stat & !0x04u8 }, ..p },
    )
}

/// What a read of register `addr` gives.
pub open spec fn ppu_read_spec(p: PpuView, addr: u16) -> u8 {
    if addr == 0xFF40 {
        p.lcdc
    } else if addr == 0xFF41 {
        p.stat | 0x80
    } else if addr == 0xFF42 {
        p.scy
    } else if addr == 0xFF43 {
        p.scx
    } else if addr == 0xFF44 {
        p.ly
    } else if addr == 0xFF45 {
        p.lyc
    } else if addr == 0xFF47 {
        p.bgp
    } else if addr == 0xFF48 {
        p.obp0
    } else if addr == 0xFF49 {
        p.obp1
    } else if addr == 0xFF4A {
        p.wy
    } else if addr == 0xFF4B {
        p.wx
    } else if addr == 0xFF4F {
        (p.vram_bank as u8) | 0xFE
    } else if addr == 0xFF68 {
        p.bcps
    } else if addr == 0xFF69 {
        p.bg_palette_ram[(p.bcps & 0x3F) as int]
    } else if addr == 0xFF6A {
        p.ocps
    } else if addr == 0xFF6B {
        p.obj_palette_ram[(p.ocps & 0x3F) as int]
    } else {
        0xFF
    }
}

/// A palette index register after a data write: bit 7 set means
/// auto-increment of the 6-bit index.
pub open spec fn palette_index_after_write(ps: u8) -> u8 {
    if ps & 0x80 != 0 {
        (ps & 0x80) | (ps.wrapping_add(1) & 0x3F)
    } else {
        ps
    }
}

/// The PPU after writing `val` to register `addr`.
///
/// Turning the LCD off resets LY and the dot counter, enters H-Blank and
/// clears the frame buffer to white. LY is read-only; STAT keeps its low
/// three bits. VBK is honoured only on CGB.
pub open spec fn ppu_write_spec(p: PpuView, addr: u16, val: u8) -> PpuView {
    if addr == 0xFF40 {
        let q = PpuView { lcdc: val, ..p };
        if lcd_enabled_spec(p) && !lcd_enabled_spec(q) {
            PpuView {
                ly: 0,
                dot: 0,
                mode: PpuMode::HBlank,
                stat: p.stat & 0xFC,
                framebuffer: Seq::new(FB_SIZE as nat, |i: int| 0xFFu8),
                ..q
            }
        } else {
            q
        }
    } else if addr == 0xFF41 {
        PpuView { stat: (p.stat & 0x07) | (val & 0x78), ..p }
    } else if addr == 0xFF42 {
        PpuView { scy: val, ..p }
    } else if addr == 0xFF43 {
        PpuView { scx: val, ..p }
    } else if addr == 0xFF45 {
        check_lyc_spec(PpuView { lyc: val, ..p })
    } else if addr == 0xFF47 {
        PpuView { bgp: val, ..p }
    } else if addr == 0xFF48 {
        PpuView { obp0: val, ..p }
    } else if addr == 0xFF49 {
        PpuView { obp1: val, ..p }
    } else if addr == 0xFF4A {
        PpuView { wy: val, ..p }
    } else if addr == 0xFF4B {
        PpuView { wx: val, ..p }
    } else if addr == 0xFF4F {
        if p.model == Model::CGB {
            PpuView { vram_bank: (val & 0x01) as usize, ..p }
        } else {
            p
        }
    } else if addr == 0xFF68 {
        PpuView { bcps: val, ..p }
    } else if addr == 0xFF69 {
        PpuView {
            bg_palette_ram: p.bg_palette_ram.update((p.bcps & 0x3F) as int, val),
            bcps: palette_index_after_write(p.bcps),
            ..p
        }
    } else if addr == 0xFF6A {
        PpuView { ocps: val, ..p }
    } else if addr == 0xFF6B {
        PpuView {
            obj_palette_ram: p.obj_palette_ram.update((p.ocps & 0x3F) as int, val),
            ocps: palette_index_after_write(p.ocps),
            ..p
        }
    } else {
        p
    }
}

// ─── Colours ────────────────────────────────────────────────────────────────

/// A 5-bit channel scaled to 8 bits.
pub open spec fn scale5(c: int) -> int {
    c * 8 + c / 4
}

/// An RGB555 colour stored little-endian in (lo, hi), as RGB888.
pub open spec fn rgb555_spec(lo: u8, hi: u8) -> (u8, u8, u8) {
    let v = hi as int * 256 + lo as int;
    (scale5(v % 32) as u8, scale5((v / 32) % 32) as u8, scale5((v / 1024) % 32) as u8)
}

/// The four DMG shades, lightest first.
pub open spec fn dmg_shade_rgb(shade: u8) -> (u8, u8, u8) {
    if shade == 0 {
        (0xE0, 0xF8, 0xD0)
    } else if shade == 1 {
        (0x88, 0xC0, 0x70)
    } else if shade == 2 {
        (0x34, 0x68, 0x56)
    } else {
        (0x08, 0x18, 0x20)
    }
}

/// The shade a DMG palette register gives colour index `idx` (bits 2*idx..).
pub open spec fn dmg_palette_spec(palette: u8, idx: u8) -> (u8, u8, u8) {
    dmg_shade_rgb((palette >> ((idx * 2) as u8)) & 0x03)
}

/// Colour `color` of CGB palette `palette` in palette memory `ram`.
pub open spec fn cgb_color_spec(ram: Seq<u8>, palette: int, color: int) -> (u8, u8, u8) {
    let idx = palette * 8 + color * 2;
    rgb555_spec(ram[idx], ram[idx + 1])
}

proof fn lemma_rgb555(lo: u8, hi: u8)
    by (bit_vector)
    ensures
        ({
            let v: u16 = (lo as u16) | ((hi as u16) << 8u16);
            let c: u8 = (v & 0x1F) as u8;
            (c << 3u8) | (c >> 2u8) == (((hi as u16 * 256 + lo as u16) % 32) * 8 + ((hi as u16 * 256
                + lo as u16) % 32) / 4) as u8
        }),
        ({
            let v: u16 = (lo as u16) | ((hi as u16) << 8u16);
            let c: u8 = ((v >> 5u16) & 0x1F) as u8;
            (c << 3u8) | (c >> 2u8) == ((((hi as u16 * 256 + lo as u16) / 32) % 32) * 8 + (((hi as u16
                * 256 + lo as u16) / 32) % 32) / 4) as u8
        }),
        ({
            let v: u16 = (lo as u16) | ((hi as u16) << 8u16);
            let c: u8 = ((v >> 10u16) & 0x1F) as u8;
            (c << 3u8) | (c >> 2u8) == ((((hi as u16 * 256 + lo as u16) / 1024) % 32) * 8 + (((hi as u16
                * 256 + lo as u16) / 1024) % 32) / 4) as u8
        }),
{
}

/// Decode 15-bit CGB color (RGB555 LE) to RGB888.
pub fn decode_cgb_color(lo: u8, hi: u8) -> (r: (u8, u8, u8))
    ensures
        r == rgb555_spec(lo, hi),
{
    proof {
        lemma_rgb555(lo, hi);
    }
    let rgb15 = (lo as u16) | ((hi as u16) << 8);
    let r5 = (rgb15 & 0x001F) as u8;
    let g5 = ((rgb15 >> 5) & 0x001F) as u8;
    let b5 = ((rgb15 >> 10) & 0x001F) as u8;
    ((r5 << 3) | (r5 >> 2), (g5 << 3) | (g5 >> 2), (b5 << 3) | (b5 >> 2))
}

/// Classic DMG green-tinted palette.
pub fn dmg_palette(palette: u8, idx: u8) -> (r: (u8, u8, u8))
    requires
        idx <= 3,
    ensures
        r == dmg_palette_spec(palette, idx),
{
    let shade = (palette >> (idx * 2)) & 0x03;
    if shade == 0 {
        (0xE0, 0xF8, 0xD0)
    } else if shade == 1 {
        (0x88, 0xC0, 0x70)
    } else if shade == 2 {
        (0x34, 0x68, 0x56)
    } else {
        (0x08, 0x18, 0x20)
    }
}


// ─── Tiles ──────────────────────────────────────────────────────────────────

/// The colour index (0..3) of bit `bit` of a tile row given as (lo, hi).
pub open spec fn color_index_spec(lo: u8, hi: u8, bit: u8) -> u8 {
    (((hi >> bit) & 1) << 1u8) | ((lo >> bit) & 1)
}

/// Offset in a VRAM bank of the 16-byte tile `tile_num`: unsigned from
/// 0x0000, or signed around 0x1000.
pub open spec fn tile_data_addr(tile_num: u8, signed: bool) -> int {
    if signed {
        0x1000 + (tile_num as i8) * 16
    } else {
        tile_num * 16
    }
}

/// A background or window pixel: at (px, py) in the 256x256 tile map that
/// starts at `map_base`, its colour index, its colour, and (CGB) whether the
/// tile's attributes give it priority over sprites.
pub open spec fn tile_pixel_spec(p: PpuView, px: u8, py: u8, map_base: u16, signed: bool) -> (
    u8,
    (u8, u8, u8),
    bool,
) {
    let cgb = p.model == Model::CGB;
    let map_idx = (py / 8) as int * 32 + (px / 8) as int;
    let tile_num = p.vram[map_base + map_idx];
    let attr: u8 = if cgb { p.vram[VRAM_BANK_SIZE + map_base + map_idx] } else { 0 };
    let tile_bank: int = if cgb && attr & 0x08 != 0 { 1 } else { 0 };
    let row: int = if attr & 0x40 != 0 { 7 - (py % 8) } else { (py % 8) as int };
    let base = tile_bank * VRAM_BANK_SIZE + tile_data_addr(tile_num, signed) + row * 2;
    let bit: u8 = if attr & 0x20 != 0 { px % 8 } else { (7 - (px % 8)) as u8 };
    let ci = color_index_spec(p.vram[base], p.vram[base + 1], bit);
    let rgb = if cgb {
        cgb_color_spec(p.bg_palette_ram, (attr & 0x07) as int, ci as int)
    } else {
        dmg_palette_spec(p.bgp, ci)
    };
    (ci, rgb, attr & 0x80 != 0)
}

pub open spec fn bg_map_base(p: PpuView) -> u16 {
    if p.lcdc & 0x08 != 0 { 0x1C00 } else { 0x1800 }
}

pub open spec fn win_map_base(p: PpuView) -> u16 {
    if p.lcdc & 0x40 != 0 { 0x1C00 } else { 0x1800 }
}

/// LCDC bit 4 clear selects signed tile numbers.
pub open spec fn signed_tiles(p: PpuView) -> bool {
    p.lcdc & 0x10 == 0
}

/// The background pixel at screen column `x` of the current line.
pub open spec fn bg_pixel_spec(p: PpuView, x: int) -> (u8, (u8, u8, u8), bool) {
    tile_pixel_spec(
        p,
        (x as u8).wrapping_add(p.scx),
        p.ly.wrapping_add(p.scy),
        bg_map_base(p),
        signed_tiles(p),
    )
}

/// Window X on screen (WX - 7, at least 0).
pub open spec fn win_x(p: PpuView) -> u8 {
    if p.wx >= 7 { (p.wx - 7) as u8 } else { 0 }
}

/// The window is enabled, has started at or above this line and begins on
/// screen.
pub open spec fn win_cond(p: PpuView) -> bool {
    p.lcdc & 0x20 != 0 && p.wy <= p.ly && win_x(p) < 160
}

/// The window is triggered once a line equal to WY is drawn with it on.
pub open spec fn win_triggered_after(p: PpuView) -> bool {
    if win_cond(p) && p.ly == p.wy { true } else { p.window_triggered }
}

pub open spec fn win_draws(p: PpuView) -> bool {
    win_cond(p) && win_triggered_after(p)
}

/// The window pixel at screen column `x`, from the window's own line counter.
pub open spec fn win_pixel_spec(p: PpuView, x: int) -> (u8, (u8, u8, u8), bool) {
    tile_pixel_spec(p, (x - win_x(p)) as u8, p.window_line, win_map_base(p), signed_tiles(p))
}

// ─── Frame buffer ───────────────────────────────────────────────────────────

/// Channel `c` (0 red, 1 green, 2 blue) of a colour.
pub open spec fn rgb_comp(rgb: (u8, u8, u8), c: int) -> u8 {
    if c == 0 {
        rgb.0
    } else if c == 1 {
        rgb.1
    } else {
        rgb.2
    }
}

/// The frame buffer with line `y` painted: column `x` takes colour `f(x)`
/// where that is `Some`, and keeps its colour where it is `None`.
pub open spec fn paint_line(fb: Seq<u8>, y: int, f: spec_fn(int) -> Option<(u8, u8, u8)>) -> Seq<
    u8,
> {
    Seq::new(
        fb.len(),
        |i: int|
            if i / (LINE_BYTES as int) == y {
                match f((i % (LINE_BYTES as int)) / 3) {
                    Some(c) => rgb_comp(c, i % 3),
                    None => fb[i],
                }
            } else {
                fb[i]
            },
    )
}

/// The colour of pixel (x, y) of a frame buffer.
pub open spec fn fb_pixel(fb: Seq<u8>, x: int, y: int) -> (u8, u8, u8) {
    let b = (y * 160 + x) * 3;
    (fb[b], fb[b + 1], fb[b + 2])
}

// ─── Sprites ────────────────────────────────────────────────────────────────

pub open spec fn sprite_height_spec(p: PpuView) -> u8 {
    if p.lcdc & 0x04 != 0 { 16 } else { 8 }
}

/// Whether OAM entry `s` covers line `ly` (X = 0 hides it).
pub open spec fn sprite_on_line(s: Sprite, ly: u8, h: u8) -> bool {
    s.x > 0 && ly as int + 16 >= s.y && (ly as int + 16) < s.y as int + h as int
}

/// OAM entry `i`.
pub open spec fn oam_sprite(oam: Seq<u8>, i: int) -> Sprite {
    Sprite { y: oam[4 * i], x: oam[4 * i + 1], tile: oam[4 * i + 2], flags: oam[4 * i + 3] }
}

/// The sprites among the first `n` OAM entries that cover line `ly`, in OAM
/// order, at most ten.
pub open spec fn selected_sprites(oam: Seq<u8>, ly: u8, h: u8, n: nat) -> Seq<Sprite>
    decreases n,
{
    if n == 0 {
        Seq::empty()
    } else {
        let s = selected_sprites(oam, ly, h, (n - 1) as nat);
        let sp = oam_sprite(oam, n - 1);
        if s.len() < MAX_SPRITES && sprite_on_line(sp, ly, h) {
            s.push(sp)
        } else {
            s
        }
    }
}

pub open spec fn has_x(key: u8) -> spec_fn(Sprite) -> bool {
    |s: Sprite| s.x == key
}

/// The sprites with X below `k`, sorted by X; equal X keep their order.
pub open spec fn sorted_below(s: Seq<Sprite>, k: nat) -> Seq<Sprite>
    decreases k,
{
    if k == 0 {
        Seq::empty()
    } else {
        sorted_below(s, (k - 1) as nat) + s.filter(has_x((k - 1) as u8))
    }
}

/// Stable sort by X.
pub open spec fn sort_by_x_spec(s: Seq<Sprite>) -> Seq<Sprite> {
    sorted_below(s, 256)
}

/// OAM scan: the line's sprites; on DMG ordered by X for priority, on CGB
/// in OAM order.
pub open spec fn oam_scan_spec(p: PpuView) -> PpuView {
    let sel = selected_sprites(p.oam, p.ly, sprite_height_spec(p), 40);
    PpuView { sprite_buffer: if p.model == Model::DMG { sort_by_x_spec(sel) } else { sel }, ..p }
}

/// The tile row (lo, hi) that sprite `s` shows on the current line.
pub open spec fn sprite_row_spec(p: PpuView, s: Sprite) -> (u8, u8) {
    let h = sprite_height_spec(p);
    let row: int = p.ly as int - (s.y as int - 16);
    let tile_row: u8 = if s.y_flip_spec() { (h as int - 1 - row) as u8 } else { row as u8 };
    let tile: u8 = if h == 16 {
        if tile_row < 8 { s.tile & 0xFE } else { s.tile | 0x01 }
    } else {
        s.tile
    };
    let bank: int = if p.model == Model::CGB { s.vram_bank_spec() as int } else { 0 };
    let ta = bank * VRAM_BANK_SIZE + tile * 16 + (tile_row % 8) * 2;
    (p.vram[ta], p.vram[ta + 1])
}

/// What sprite `s` paints at screen column `x` of the current line: nothing
/// off the sprite, for colour 0, or where the background has priority.
pub open spec fn sprite_pixel_spec(p: PpuView, s: Sprite, x: int) -> Option<(u8, u8, u8)> {
    let d = x - (s.x as int - 8);
    if x < 0 || x >= 160 || d < 0 || d >= 8 {
        None
    } else {
        let bit: u8 = if s.x_flip_spec() { d as u8 } else { (7 - d) as u8 };
        let (lo, hi) = sprite_row_spec(p, s);
        let ci = color_index_spec(lo, hi, bit);
        let bgc = p.scanline_bg_color[x];
        let hidden = if p.model == Model::CGB {
            p.lcdc & 0x01 != 0 && ((p.scanline_bg_prio[x] && bgc != 0) || (s.priority_spec() && bgc
                != 0))
        } else {
            s.priority_spec() && bgc != 0
        };
        if ci == 0 || hidden {
            None
        } else if p.model == Model::CGB {
            Some(cgb_color_spec(p.obj_palette_ram, s.cgb_palette_spec() as int, ci as int))
        } else {
            Some(dmg_palette_spec(if s.dmg_palette_spec() { p.obp1 } else { p.obp0 }, ci))
        }
    }
}

/// The first sprite of `s` that paints column `x`: earlier sprites win.
pub open spec fn first_sprite_pixel(p: PpuView, s: Seq<Sprite>, x: int) -> Option<(u8, u8, u8)>
    decreases s.len(),
{
    if s.len() == 0 {
        None
    } else {
        match sprite_pixel_spec(p, s[0], x) {
            Some(c) => Some(c),
            None => first_sprite_pixel(p, s.drop_first(), x),
        }
    }
}

// ─── Scanline rendering ─────────────────────────────────────────────────────

/// The background layer drawn over the whole line.
pub open spec fn render_bg_spec(p: PpuView) -> PpuView {
    let cgb = p.model == Model::CGB;
    PpuView {
        scanline_bg_color: Seq::new(SCREEN_W as nat, |x: int| bg_pixel_spec(p, x).0),
        scanline_bg_prio: Seq::new(
            SCREEN_W as nat,
            |x: int|
                if cgb {
                    bg_pixel_spec(p, x).2
                } else {
                    p.scanline_bg_prio[x]
                },
        ),
        framebuffer: paint_line(p.framebuffer, p.ly as int, |x: int| Some(bg_pixel_spec(p, x).1)),
        ..p
    }
}

/// The window layer drawn from its X position to the right edge, advancing
/// the window's line counter.
pub open spec fn render_window_spec(p: PpuView) -> PpuView {
    let cgb = p.model == Model::CGB;
    let wx = win_x(p) as int;
    if !win_draws(p) {
        PpuView { window_triggered: win_triggered_after(p), ..p }
    } else {
        PpuView {
            window_triggered: true,
            window_line: p.window_line.wrapping_add(1),
            scanline_bg_color: Seq::new(
                SCREEN_W as nat,
                |x: int|
                    if x >= wx {
                        win_pixel_spec(p, x).0
                    } else {
                        p.scanline_bg_color[x]
                    },
            ),
            scanline_bg_prio: Seq::new(
                SCREEN_W as nat,
                |x: int|
                    if cgb && x >= wx {
                        win_pixel_spec(p, x).2
                    } else {
                        p.scanline_bg_prio[x]
                    },
            ),
            framebuffer: paint_line(
                p.framebuffer,
                p.ly as int,
                |x: int|
                    if x >= wx {
                        Some(win_pixel_spec(p, x).1)
                    } else {
                        None
                    },
            ),
            ..p
        }
    }
}

/// The line's sprites drawn over background and window.
pub open spec fn render_sprites_spec(p: PpuView) -> PpuView {
    PpuView {
        framebuffer: paint_line(
            p.framebuffer,
            p.ly as int,
            |x: int| first_sprite_pixel(p, p.sprite_buffer, x),
        ),
        ..p
    }
}

/// A whole scanline: background (always on CGB, where LCDC bit 0 only
/// affects priority), then window, then sprites, each when LCDC enables it.
pub open spec fn render_scanline_spec(p: PpuView) -> PpuView {
    if p.ly >= 144 {
        p
    } else {
        let p0 = PpuView {
            scanline_bg_color: Seq::new(SCREEN_W as nat, |x: int| 0u8),
            scanline_bg_prio: Seq::new(SCREEN_W as nat, |x: int| false),
            ..p
        };
        let p1 = if p.lcdc & 0x01 != 0 || p.model == Model::CGB {
            render_bg_spec(p0)
        } else {
            p0
        };
        let p2 = if p.lcdc & 0x20 != 0 { render_window_spec(p1) } else { p1 };
        if p.lcdc & 0x02 != 0 { render_sprites_spec(p2) } else { p2 }
    }
}

// ─── Dots ───────────────────────────────────────────────────────────────────

/// The end of a line: LY advances and LYC is compared.
pub open spec fn next_line_spec(p: PpuView) -> PpuView {
    check_lyc_spec(PpuView { dot: 0, ly: (p.ly + 1) as u8, ..p })
}

/// One dot of the mode state machine: OAM scan (80 dots, sprites collected
/// on the first), drawing (until dot 252, then the line is rendered and
/// H-Blank starts), H-Blank to dot 456, and ten lines of V-Blank.
pub open spec fn tick_spec(p: PpuView) -> PpuView {
    let p1 = PpuView { dot: (p.dot + 1) as u32, ..p };
    match p.mode {
        PpuMode::OamScan => tick_oam_scan_spec(p1),
        PpuMode::Drawing => tick_drawing_spec(p1),
        PpuMode::HBlank => tick_hblank_spec(p1),
        PpuMode::VBlank => tick_vblank_spec(p1),
    }
}

/// A dot of OAM scan (the dot counter already advanced).
pub open spec fn tick_oam_scan_spec(p1: PpuView) -> PpuView {
    let p2 = if p1.dot == 1 { oam_scan_spec(p1) } else { p1 };
    if p2.dot >= OAM_SCAN_DOTS { set_mode_spec(p2, PpuMode::Drawing) } else { p2 }
}

/// A dot of drawing (the dot counter already advanced).
pub open spec fn tick_drawing_spec(p1: PpuView) -> PpuView {
    if p1.dot >= OAM_SCAN_DOTS + DRAWING_MIN_DOTS {
        let q = set_mode_spec(render_scanline_spec(p1), PpuMode::HBlank);
        PpuView { hblank_flag: true, ..q }
    } else {
        p1
    }
}

/// A dot of H-Blank (the dot counter already advanced).
pub open spec fn tick_hblank_spec(p1: PpuView) -> PpuView {
    if p1.dot >= HBLANK_MAX_END {
        let q = next_line_spec(p1);
        if q.ly >= 144 {
            let r = set_mode_spec(q, PpuMode::VBlank);
            PpuView { vblank_irq: true, window_line: 0, window_triggered: false, ..r }
        } else {
            set_mode_spec(q, PpuMode::OamScan)
        }
    } else {
        p1
    }
}

/// A dot of V-Blank (the dot counter already advanced).
pub open spec fn tick_vblank_spec(p1: PpuView) -> PpuView {
    if p1.dot >= HBLANK_MAX_END {
        let q = next_line_spec(p1);
        if q.ly > 153 {
            set_mode_spec(check_lyc_spec(PpuView { ly: 0, ..q }), PpuMode::OamScan)
        } else {
            q
        }
    } else {
        p1
    }
}

pub open spec fn ticks_spec(p: PpuView, n: nat) -> PpuView
    decreases n,
{
    if n == 0 {
        p
    } else {
        tick_spec(ticks_spec(p, (n - 1) as nat))
    }
}

/// A step of `n` dots; nothing happens while the LCD is off.
pub open spec fn ppu_step_spec(p: PpuView, n: nat) -> PpuView {
    if !lcd_enabled_spec(p) {
        p
    } else {
        ticks_spec(PpuView { hblank_flag: false, ..p }, n)
    }
}


/// The PPU at power-on.
pub open spec fn ppu_new_spec(model: Model) -> PpuView {
    PpuView {
        model,
        vram: Seq::new(VRAM_SIZE as nat, |i: int| 0u8),
        vram_bank: 0,
        oam: Seq::new(OAM_SIZE as nat, |i: int| 0u8),
        lcdc: 0x91,
        stat: 0x85,
        scy: 0,
        scx: 0,
        ly: 0,
        lyc: 0,
        bgp: 0xFC,
        obp0: 0xFF,
        obp1: 0xFF,
        wy: 0,
        wx: 0,
        bg_palette_ram: Seq::new(PALETTE_RAM_SIZE as nat, |i: int| 0xFFu8),
        obj_palette_ram: Seq::new(PALETTE_RAM_SIZE as nat, |i: int| 0xFFu8),
        bcps: 0,
        ocps: 0,
        mode: PpuMode::OamScan,
        dot: 0,
        window_line: 0,
        window_triggered: false,
        framebuffer: Seq::new(FB_SIZE as nat, |i: int| 0xFFu8),
        scanline_bg_color: Seq::new(SCREEN_W as nat, |i: int| 0u8),
        scanline_bg_prio: Seq::new(SCREEN_W as nat, |i: int| false),
        vblank_irq: false,
        stat_irq: false,
        stat_line: false,
        sprite_buffer: Seq::empty(),
        hblank_flag: false,
    }
}

/// Dot-counter bounds per mode, which keep every counter in range.
pub open spec fn ppu_dot_wf(p: PpuView) -> bool {
    &&& p.mode == PpuMode::OamScan ==> p.dot < OAM_SCAN_DOTS
    &&& p.mode == PpuMode::Drawing ==> p.dot < OAM_SCAN_DOTS + DRAWING_MIN_DOTS
}

// ─── Frame-buffer lemmas ────────────────────────────────────────────────────

proof fn lemma_fb_coords(j: int, x: int, y: int)
    requires
        0 <= x < 160,
        0 <= y < 144,
        0 <= j,
    ensures
        (j / 480 == y && (j % 480) / 3 == x) <==> ((y * 160 + x) * 3 <= j < (y * 160 + x) * 3 + 3),
        ((y * 160 + x) * 3 <= j < (y * 160 + x) * 3 + 3) ==> j % 3 == j - (y * 160 + x) * 3,
{
}

/// Painting one more pixel of a line.
proof fn lemma_paint_pixel(
    fb: Seq<u8>,
    y: int,
    f: spec_fn(int) -> Option<(u8, u8, u8)>,
    g: spec_fn(int) -> Option<(u8, u8, u8)>,
    x: int,
    rgb: (u8, u8, u8),
)
    requires
        fb.len() == FB_SIZE,
        0 <= y < 144,
        0 <= x < 160,
        g(x) == Some(rgb),
        forall|i: int| 0 <= i < 160 && i != x ==> #[trigger] g(i) == f(i),
    ensures
        ({
            let b = (y * 160 + x) * 3;
            paint_line(fb, y, f).update(b, rgb.0).update(b + 1, rgb.1).update(b + 2, rgb.2)
                =~= paint_line(fb, y, g)
        }),
{
    let b = (y * 160 + x) * 3;
    assert forall|j: int| 0 <= j < fb.len() implies #[trigger] paint_line(fb, y, f).update(
        b,
        rgb.0,
    ).update(b + 1, rgb.1).update(b + 2, rgb.2)[j] == paint_line(fb, y, g)[j] by {
        lemma_fb_coords(j, x, y);
        let xj = (j % 480) / 3;
        if j / 480 == y {
            assert(0 <= xj < 160);
        }
    }
}

/// Painting with functions that agree on the screen gives the same buffer.
proof fn lemma_paint_ext(
    fb: Seq<u8>,
    y: int,
    f: spec_fn(int) -> Option<(u8, u8, u8)>,
    g: spec_fn(int) -> Option<(u8, u8, u8)>,
)
    requires
        forall|i: int| 0 <= i < 160 ==> #[trigger] g(i) == f(i),
    ensures
        paint_line(fb, y, f) =~= paint_line(fb, y, g),
{
    assert forall|j: int| 0 <= j < fb.len() implies #[trigger] paint_line(fb, y, f)[j]
        == paint_line(fb, y, g)[j] by {
        if j / 480 == y {
            let xj = (j % 480) / 3;
            assert(0 <= xj < 160);
        }
    }
}

/// Painting a line twice: the second painting wins where it paints.
proof fn lemma_paint_twice(
    fb: Seq<u8>,
    y: int,
    f: spec_fn(int) -> Option<(u8, u8, u8)>,
    g: spec_fn(int) -> Option<(u8, u8, u8)>,
    h: spec_fn(int) -> Option<(u8, u8, u8)>,
)
    requires
        forall|i: int|
            0 <= i < 160 ==> #[trigger] h(i) == (match g(i) {
                Some(c) => Some(c),
                None => f(i),
            }),
    ensures
        paint_line(paint_line(fb, y, f), y, g) =~= paint_line(fb, y, h),
{
    assert forall|j: int| 0 <= j < fb.len() implies #[trigger] paint_line(paint_line(fb, y, f), y, g)[j]
        == paint_line(fb, y, h)[j] by {
        if j / 480 == y {
            let xj = (j % 480) / 3;
            assert(0 <= xj < 160);
        }
    }
}

// ─── Sprite selection lemmas ────────────────────────────────────────────────

proof fn lemma_selected_full(oam: Seq<u8>, ly: u8, h: u8, n: nat, m: nat)
    requires
        n <= m,
        selected_sprites(oam, ly, h, n).len() == MAX_SPRITES,
    ensures
        selected_sprites(oam, ly, h, m) == selected_sprites(oam, ly, h, n),
    decreases m - n,
{
    if m > n {
        lemma_selected_full(oam, ly, h, n, (m - 1) as nat);
    }
}

proof fn lemma_selected_len(oam: Seq<u8>, ly: u8, h: u8, n: nat)
    ensures
        selected_sprites(oam, ly, h, n).len() <= MAX_SPRITES,
    decreases n,
{
    if n > 0 {
        lemma_selected_len(oam, ly, h, (n - 1) as nat);
    }
}

impl Ppu {
    pub open spec fn wf(&self) -> bool {
        ppu_wf(self@) && ppu_dot_wf(self@)
    }

    pub fn new(model: Model) -> (p: Self)
        ensures
            p.wf(),
            p@ == ppu_new_spec(model),
    {
        let p = Ppu {
            model,
            vram: vec![0u8; VRAM_SIZE],
            vram_bank: 0,
            oam: vec![0u8; OAM_SIZE],
            lcdc: 0x91,
            stat: 0x85,
            scy: 0,
            scx: 0,
            ly: 0,
            lyc: 0,
            bgp: 0xFC,
            obp0: 0xFF,
            obp1: 0xFF,
            wy: 0,
            wx: 0,
            bg_palette_ram: vec![0xFFu8; PALETTE_RAM_SIZE],
            obj_palette_ram: vec![0xFFu8; PALETTE_RAM_SIZE],
            bcps: 0,
            ocps: 0,
            mode: PpuMode::OamScan,
            dot: 0,
            window_line: 0,
            window_triggered: false,
            framebuffer: vec![0xFFu8; FB_SIZE],
            scanline_bg_color: vec![0u8; SCREEN_W],
            scanline_bg_prio: vec![false; SCREEN_W],
            vblank_irq: false,
            stat_irq: false,
            stat_line: false,
            sprite_buffer: Vec::with_capacity(MAX_SPRITES),
            hblank_flag: false,
        };
        assert(p@ =~= ppu_new_spec(model));
        p
    }

    pub fn lcd_enabled(&self) -> (r: bool)
        ensures
            r == lcd_enabled_spec(self@),
    {
        self.lcdc & 0x80 != 0
    }

    pub fn mode(&self) -> (m: PpuMode)
        ensures
            m == self.mode,
    {
        self.mode
    }

    // ─── Step ───────────────────────────────────────────────────────────────

    pub fn step(&mut self, t_cycles: u8)
        requires
            old(self).wf(),
        ensures
            final(self).wf(),
            final(self)@ == ppu_step_spec(old(self)@, t_cycles as nat),
    {
        if !self.lcd_enabled() {
            return;
        }
        self.hblank_flag = false;
        let ghost start = self@;
        let mut i: u8 = 0;
        while i < t_cycles
            invariant
                i <= t_cycles,
                self.wf(),
                self@ == ticks_spec(start, i as nat),
            decreases t_cycles - i,
        {
            self.tick();
            i = i + 1;
        }
    }

    fn tick(&mut self)
        requires
            old(self).wf(),
        ensures
            final(self).wf(),
            final(self)@ == tick_spec(old(self)@),
    {
        self.dot += 1;
        match self.mode {
            PpuMode::OamScan => self.tick_oam_scan(),
            PpuMode::Drawing => self.tick_drawing(),
            PpuMode::HBlank => self.tick_hblank(),
            PpuMode::VBlank => self.tick_vblank(),
        }
    }

    fn tick_oam_scan(&mut self)
        requires
            ppu_wf(old(self)@),
            old(self).mode == PpuMode::OamScan,
            1 <= old(self).dot <= OAM_SCAN_DOTS,
        ensures
            final(self).wf(),
            final(self)@ == tick_oam_scan_spec(old(self)@),
    {
        if self.dot == 1 {
            self.oam_scan();
        }
        if self.dot >= OAM_SCAN_DOTS {
            self.set_mode(PpuMode::Drawing);
        }
    }

    fn tick_drawing(&mut self)
        requires
            ppu_wf(old(self)@),
            old(self).mode == PpuMode::Drawing,
            1 <= old(self).dot <= OAM_SCAN_DOTS + DRAWING_MIN_DOTS,
        ensures
            final(self).wf(),
            final(self)@ == tick_drawing_spec(old(self)@),
    {
        if self.dot >= OAM_SCAN_DOTS + DRAWING_MIN_DOTS {
            self.render_scanline();
            self.set_mode(PpuMode::HBlank);
            self.hblank_flag = true;
        }
    }

    fn tick_hblank(&mut self)
        requires
            old(self).mode == PpuMode::HBlank,
            1 <= old(self).dot <= HBLANK_MAX_END,
            ({
                let p = old(self)@;
                ppu_wf(PpuView { dot: 0, ..p })
            }),
        ensures
            final(self).wf(),
            final(self)@ == tick_hblank_spec(old(self)@),
    {
        if self.dot >= HBLANK_MAX_END {
            self.dot = 0;
            self.ly += 1;
            self.check_lyc();
            if self.ly >= 144 {
                self.set_mode(PpuMode::VBlank);
                self.vblank_irq = true;
                self.window_line = 0;
                self.window_triggered = false;
            } else {
                self.set_mode(PpuMode::OamScan);
            }
        }
    }

    fn tick_vblank(&mut self)
        requires
            old(self).mode == PpuMode::VBlank,
            1 <= old(self).dot <= HBLANK_MAX_END,
            ({
                let p = old(self)@;
                ppu_wf(PpuView { dot: 0, ..p })
            }),
        ensures
            final(self).wf(),
            final(self)@ == tick_vblank_spec(old(self)@),
    {
        if self.dot >= HBLANK_MAX_END {
            self.dot = 0;
            self.ly += 1;
            self.check_lyc();
            if self.ly > 153 {
                self.ly = 0;
                self.check_lyc();
                self.set_mode(PpuMode::OamScan);
            }
        }
    }

    fn set_mode(&mut self, mode: PpuMode)
        ensures
            final(self)@ == set_mode_spec(old(self)@, mode),
    {
        self.mode = mode;
        self.stat = (self.stat & 0xFC) | mode_bits(mode);
        self.update_stat_irq();
    }

    fn check_lyc(&mut self)
        ensures
            final(self)@ == check_lyc_spec(old(self)@),
    {
        if self.ly == self.lyc {
            self.stat |= 0x04;
        } else {
            self.stat &= !0x04;
        }
        self.update_stat_irq();
    }

    fn update_stat_irq(&mut self)
        ensures
            final(self)@ == update_stat_irq_spec(old(self)@),
    {
        let new = self.stat_condition();
        if new && !self.stat_line {
            self.stat_irq = true;
        }
        self.stat_line = new;
    }

    fn stat_condition(&self) -> (r: bool)
        ensures
            r == stat_condition_spec(self@),
    {
        (self.stat & 0x40 != 0 && self.stat & 0x04 != 0) || (self.stat & 0x20 != 0 && self.mode
            == PpuMode::OamScan) || (self.stat & 0x10 != 0 && self.mode == PpuMode::VBlank) || (
        self.stat & 0x08 != 0 && self.mode == PpuMode::HBlank)
    }

    // ─── OAM Scan ───────────────────────────────────────────────────────────

    fn oam_scan(&mut self)
        requires
            ppu_wf(old(self)@),
        ensures
            ppu_wf(final(self)@),
            final(self)@ == oam_scan_spec(old(self)@),
    {
        let ghost pre = self@;
        self.sprite_buffer.clear();
        let h: u8 = if self.lcdc & 0x04 != 0 { 16 } else { 8 };
        let mut i: usize = 0;
        while i < 40 && self.sprite_buffer.len() < MAX_SPRITES
            invariant
                0 <= i <= 40,
                h == sprite_height_spec(pre),
                self@ == (PpuView { sprite_buffer: self.sprite_buffer@, ..pre }),
                self.sprite_buffer@ == selected_sprites(pre.oam, pre.ly, h, i as nat),
                self.sprite_buffer@.len() <= MAX_SPRITES,
                pre.oam.len() == OAM_SIZE,
            decreases 40 - i,
        {
            let b = i * 4;
            let sy = self.oam[b];
            let sx = self.oam[b + 1];
            let tile = self.oam[b + 2];
            let flags = self.oam[b + 3];
            let ly16 = self.ly as u16 + 16;
            if sx > 0 && ly16 >= sy as u16 && ly16 < sy as u16 + h as u16 {
                self.sprite_buffer.push(Sprite { y: sy, x: sx, tile, flags });
            }
            i += 1;
        }
        proof {
            if i < 40 {
                lemma_selected_full(pre.oam, pre.ly, h, i as nat, 40);
            }
        }
        // DMG: sort by X for priority. CGB: OAM order takes priority.
        if self.model.is_dmg() {
            self.sort_sprites_by_x();
        }
    }

    /// Stable sort of the sprite buffer by X: sprites are taken X value by
    /// X value, in buffer order within each value.
    fn sort_sprites_by_x(&mut self)
        requires
            ppu_wf(old(self)@),
        ensures
            ppu_wf(final(self)@),
            final(self)@ == (PpuView {
                sprite_buffer: sort_by_x_spec(old(self)@.sprite_buffer),
                ..old(self)@
            }),
    {
        let ghost pre = self@;
        let mut sel: Vec<Sprite> = Vec::new();
        std::mem::swap(&mut sel, &mut self.sprite_buffer);
        let mut out: Vec<Sprite> = Vec::new();
        let mut k: u16 = 0;
        while k < 256
            invariant
                k <= 256,
                sel@ == pre.sprite_buffer,
                out@ == sorted_below(sel@, k as nat),
                self@ == (PpuView { sprite_buffer: self.sprite_buffer@, ..pre }),
            decreases 256 - k,
        {
            let mut j: usize = 0;
            while j < sel.len()
                invariant
                    k < 256,
                    j <= sel@.len(),
                    sel@ == pre.sprite_buffer,
                        out@ == sorted_below(sel@, k as nat) + sel@.take(j as int).filter(
                        has_x(k as u8),
                    ),
                    self@ == (PpuView { sprite_buffer: self.sprite_buffer@, ..pre }),
                decreases sel@.len() - j,
            {
                let ghost prev = sel@.take(j as int);
                proof {
                    assert(sel@.take(j + 1) =~= prev.push(sel@[j as int]));
                    prev.lemma_filter_push(sel@[j as int], has_x(k as u8));
                }
                if sel[j].x == k as u8 {
                    out.push(sel[j]);
                }
                assert(out@ =~= sorted_below(sel@, k as nat) + sel@.take(j + 1).filter(
                    has_x(k as u8),
                ));
                j += 1;
            }
            assert(sel@.take(j as int) =~= sel@);
            k += 1;
        }
        self.sprite_buffer = out;
    }
}


/// Whether sprite `s`'s pixel at column `x` is among those with bit index
/// below `b` (pixels are visited by bit index).
pub open spec fn sprite_col_done(s: Sprite, x: int, b: int) -> bool {
    let d = x - (s.x as int - 8);
    0 <= d < 8 && (if s.x_flip_spec() { d } else { 7 - d }) < b
}

impl Ppu {
    // ─── Scanline Render ────────────────────────────────────────────────────

    fn render_scanline(&mut self)
        requires
            ppu_wf(old(self)@),
        ensures
            ppu_wf(final(self)@),
            final(self)@ == render_scanline_spec(old(self)@),
    {
        let ly = self.ly as usize;
        if ly >= SCREEN_H {
            return;
        }
        self.scanline_bg_color = vec![0u8; SCREEN_W];
        self.scanline_bg_prio = vec![false; SCREEN_W];
        proof {
            assert(self.scanline_bg_color@ =~= Seq::new(SCREEN_W as nat, |x: int| 0u8));
            assert(self.scanline_bg_prio@ =~= Seq::new(SCREEN_W as nat, |x: int| false));
        }
        let bg_enabled = self.lcdc & 0x01 != 0;
        let win_enabled = self.lcdc & 0x20 != 0;
        // On CGB, BG/WIN master enable = 0 means BG/WIN always drawn as color 0 (not white)
        if bg_enabled || self.model.is_cgb() {
            self.render_bg(ly);
        }
        if win_enabled {
            self.render_window(ly);
        }
        if self.lcdc & 0x02 != 0 {
            self.render_sprites(ly);
        }
    }

    fn render_bg(&mut self, ly: usize)
        requires
            ppu_wf(old(self)@),
            ly == old(self).ly,
            ly < SCREEN_H,
        ensures
            ppu_wf(final(self)@),
            final(self)@ == render_bg_spec(old(self)@),
    {
        let ghost pre = self@;
        let cgb = self.model.is_cgb();
        let map_base: u16 = if self.lcdc & 0x08 != 0 { 0x1C00 } else { 0x1800 };
        let signed = self.lcdc & 0x10 == 0;
        let y = (ly as u8).wrapping_add(self.scy);
        let mut x: usize = 0;
        while x < SCREEN_W
            invariant
                x <= SCREEN_W,
                ly == pre.ly,
                ly < SCREEN_H,
                ppu_wf(pre),
                cgb == (pre.model == Model::CGB),
                map_base == bg_map_base(pre),
                signed == signed_tiles(pre),
                y == pre.ly.wrapping_add(pre.scy),
                self@ == (PpuView {
                    scanline_bg_color: Seq::new(
                        SCREEN_W as nat,
                        |i: int|
                            if i < x {
                                bg_pixel_spec(pre, i).0
                            } else {
                                pre.scanline_bg_color[i]
                            },
                    ),
                    scanline_bg_prio: Seq::new(
                        SCREEN_W as nat,
                        |i: int|
                            if cgb && i < x {
                                bg_pixel_spec(pre, i).2
                            } else {
                                pre.scanline_bg_prio[i]
                            },
                    ),
                    framebuffer: paint_line(
                        pre.framebuffer,
                        ly as int,
                        |i: int|
                            if i < x {
                                Some(bg_pixel_spec(pre, i).1)
                            } else {
                                None
                            },
                    ),
                    ..pre
                }),
            decreases SCREEN_W - x,
        {
            let px = (x as u8).wrapping_add(self.scx);
            let ghost before = self@;
            let (color_idx, rgb) = self.get_bg_pixel(px, y, map_base, signed, x);
            assert(tile_pixel_spec(before, px, y, map_base, signed) == bg_pixel_spec(pre, x as int));
            self.scanline_bg_color.set(x, color_idx);
            self.set_pixel(x, ly, rgb);
            proof {
                let xi = x as int;
                lemma_paint_pixel(
                    pre.framebuffer,
                    ly as int,
                    |i: int|
                        if i < xi {
                            Some(bg_pixel_spec(pre, i).1)
                        } else {
                            None
                        },
                    |i: int|
                        if i < xi + 1 {
                            Some(bg_pixel_spec(pre, i).1)
                        } else {
                            None
                        },
                    xi,
                    rgb,
                );
                assert(self.scanline_bg_color@ =~= Seq::new(
                    SCREEN_W as nat,
                    |i: int|
                        if i < xi + 1 {
                            bg_pixel_spec(pre, i).0
                        } else {
                            pre.scanline_bg_color[i]
                        },
                ));
                assert(self.scanline_bg_prio@ =~= Seq::new(
                    SCREEN_W as nat,
                    |i: int|
                        if cgb && i < xi + 1 {
                            bg_pixel_spec(pre, i).2
                        } else {
                            pre.scanline_bg_prio[i]
                        },
                ));
            }
            x += 1;
        }
        proof {
            lemma_paint_ext(
                pre.framebuffer,
                ly as int,
                |i: int|
                    if i < 160 {
                        Some(bg_pixel_spec(pre, i).1)
                    } else {
                        None
                    },
                |i: int| Some(bg_pixel_spec(pre, i).1),
            );
            assert(self.scanline_bg_color@ =~= render_bg_spec(pre).scanline_bg_color);
            assert(self.scanline_bg_prio@ =~= render_bg_spec(pre).scanline_bg_prio);
        }
    }

    fn render_window(&mut self, ly: usize)
        requires
            ppu_wf(old(self)@),
            ly == old(self).ly,
            ly < SCREEN_H,
            old(self).lcdc & 0x20 != 0,
        ensures
            ppu_wf(final(self)@),
            final(self)@ == render_window_spec(old(self)@),
    {
        let ghost pre = self@;
        if self.wy > ly as u8 {
            return;
        }
        let wx = self.wx.saturating_sub(7);
        if wx >= 160 {
            return;
        }
        if ly as u8 == self.wy {
            self.window_triggered = true;
        }
        if !self.window_triggered {
            return;
        }
        let ghost pre2 = self@;
        assert(win_x(pre) == wx);
        assert(win_draws(pre));
        let cgb = self.model.is_cgb();
        let map_base: u16 = if self.lcdc & 0x40 != 0 { 0x1C00 } else { 0x1800 };
        let signed = self.lcdc & 0x10 == 0;
        let wy = self.window_line;
        let mut x: usize = wx as usize;
        while x < SCREEN_W
            invariant
                wx as usize <= x <= SCREEN_W,
                wx < 160,
                wx == win_x(pre),
                ly == pre.ly,
                ly < SCREEN_H,
                ppu_wf(pre),
                win_draws(pre),
                pre2 == (PpuView { window_triggered: true, ..pre }),
                cgb == (pre.model == Model::CGB),
                map_base == win_map_base(pre),
                signed == signed_tiles(pre),
                wy == pre.window_line,
                self@ == (PpuView {
                    scanline_bg_color: Seq::new(
                        SCREEN_W as nat,
                        |i: int|
                            if wx <= i < x {
                                win_pixel_spec(pre, i).0
                            } else {
                                pre.scanline_bg_color[i]
                            },
                    ),
                    scanline_bg_prio: Seq::new(
                        SCREEN_W as nat,
                        |i: int|
                            if cgb && wx <= i < x {
                                win_pixel_spec(pre, i).2
                            } else {
                                pre.scanline_bg_prio[i]
                            },
                    ),
                    framebuffer: paint_line(
                        pre.framebuffer,
                        ly as int,
                        |i: int|
                            if wx <= i < x {
                                Some(win_pixel_spec(pre, i).1)
                            } else {
                                None
                            },
                    ),
                    ..pre2
                }),
            decreases SCREEN_W - x,
        {
            let px = (x - wx as usize) as u8;
            let ghost before = self@;
            let (color_idx, rgb) = self.get_bg_pixel(px, wy, map_base, signed, x);
            assert(tile_pixel_spec(before, px, wy, map_base, signed) == win_pixel_spec(
                pre,
                x as int,
            ));
            self.scanline_bg_color.set(x, color_idx);
            self.set_pixel(x, ly, rgb);
            proof {
                let xi = x as int;
                let w = wx as int;
                lemma_paint_pixel(
                    pre.framebuffer,
                    ly as int,
                    |i: int|
                        if w <= i < xi {
                            Some(win_pixel_spec(pre, i).1)
                        } else {
                            None
                        },
                    |i: int|
                        if w <= i < xi + 1 {
                            Some(win_pixel_spec(pre, i).1)
                        } else {
                            None
                        },
                    xi,
                    rgb,
                );
                assert(self.scanline_bg_color@ =~= Seq::new(
                    SCREEN_W as nat,
                    |i: int|
                        if w <= i < xi + 1 {
                            win_pixel_spec(pre, i).0
                        } else {
                            pre.scanline_bg_color[i]
                        },
                ));
                assert(self.scanline_bg_prio@ =~= Seq::new(
                    SCREEN_W as nat,
                    |i: int|
                        if cgb && w <= i < xi + 1 {
                            win_pixel_spec(pre, i).2
                        } else {
                            pre.scanline_bg_prio[i]
                        },
                ));
            }
            x += 1;
        }
        self.window_line = self.window_line.wrapping_add(1);
        proof {
            let w = wx as int;
            lemma_paint_ext(
                pre.framebuffer,
                ly as int,
                |i: int|
                    if w <= i < 160 {
                        Some(win_pixel_spec(pre, i).1)
                    } else {
                        None
                    },
                |i: int|
                    if i >= w {
                        Some(win_pixel_spec(pre, i).1)
                    } else {
                        None
                    },
            );
            assert(self.scanline_bg_color@ =~= render_window_spec(pre).scanline_bg_color);
            assert(self.scanline_bg_prio@ =~= render_window_spec(pre).scanline_bg_prio);
        }
    }

    fn get_bg_pixel(&mut self, px: u8, py: u8, map_base: u16, signed: bool, screen_x: usize) -> (r:
        (u8, (u8, u8, u8)))
        requires
            ppu_wf(old(self)@),
            map_base == 0x1800 || map_base == 0x1C00,
            screen_x < SCREEN_W,
        ensures
            ppu_wf(final(self)@),
            ({
                let t = tile_pixel_spec(old(self)@, px, py, map_base, signed);
                &&& r == (t.0, t.1)
                &&& final(self)@ == (PpuView {
                    scanline_bg_prio: if old(self).model == Model::CGB {
                        old(self)@.scanline_bg_prio.update(screen_x as int, t.2)
                    } else {
                        old(self)@.scanline_bg_prio
                    },
                    ..old(self)@
                })
            }),
    {
        let (color_idx, rgb, bg_prio) = self.tile_pixel(px, py, map_base, signed);
        if self.model.is_cgb() {
            self.scanline_bg_prio.set(screen_x, bg_prio);
        }
        (color_idx, rgb)
    }

    /// Colour index, colour and priority attribute of a tile-map pixel.
    #[verifier::rlimit(30)]
    fn tile_pixel(&self, px: u8, py: u8, map_base: u16, signed: bool) -> (r: (u8, (u8, u8, u8), bool))
        requires
            ppu_wf(self@),
            map_base == 0x1800 || map_base == 0x1C00,
        ensures
            r == tile_pixel_spec(self@, px, py, map_base, signed),
    {
        let tx = (px / 8) as u16;
        let ty = (py / 8) as u16;
        let map_idx = ty * 32 + tx;
        let cgb = self.model.is_cgb();

        // Tile number always from VRAM bank 0
        let tile_num = self.vram[(map_base + map_idx) as usize];

        // CGB: tile attributes from VRAM bank 1
        let attr: u8 = if cgb { self.vram[VRAM_BANK_SIZE + (map_base + map_idx) as usize] } else { 0 };
        proof {
            lemma_byte_facts(attr, 0);
        }
        let cgb_palette = (attr & 0x07) as usize;
        let tile_bank: usize = if cgb && attr & 0x08 != 0 { 1 } else { 0 };
        let h_flip = attr & 0x20 != 0;
        let v_flip = attr & 0x40 != 0;
        let bg_prio = attr & 0x80 != 0;
        let (lo, hi) = self.tile_row(tile_bank, tile_num, signed, if v_flip { 7 - (py % 8) } else { py % 8 });
        let bit: u8 = if h_flip { px % 8 } else { 7 - (px % 8) };
        let color_idx = ((hi >> bit & 1) << 1) | (lo >> bit & 1);
        proof {
            lemma_byte_facts(hi >> bit, lo >> bit);
        }
        let rgb = if cgb {
            self.cgb_bg_color(cgb_palette, color_idx as usize)
        } else {
            dmg_palette(self.bgp, color_idx)
        };
        (color_idx, rgb, bg_prio)
    }

    /// The two bytes of row `row` of a tile in VRAM bank `tile_bank`.
    fn tile_row(&self, tile_bank: usize, tile_num: u8, signed: bool, row: u8) -> (r: (u8, u8))
        requires
            ppu_wf(self@),
            tile_bank <= 1,
            row < 8,
        ensures
            ({
                let base = tile_bank * VRAM_BANK_SIZE + tile_data_addr(tile_num, signed) + row * 2;
                r == (self@.vram[base], self@.vram[base + 1])
            }),
    {
        let tile_addr: u16 = if signed {
            (0x1000i16 + (tile_num as i8 as i16) * 16) as u16
        } else {
            tile_num as u16 * 16
        };
        let line = row as u16 * 2;
        let base = tile_bank * VRAM_BANK_SIZE + (tile_addr + line) as usize;
        (self.vram[base], self.vram[base + 1])
    }

    fn render_sprites(&mut self, ly: usize)
        requires
            ppu_wf(old(self)@),
            ly == old(self).ly,
            ly < SCREEN_H,
        ensures
            ppu_wf(final(self)@),
            final(self)@ == render_sprites_spec(old(self)@),
    {
        let ghost pre = self@;
        let cgb = self.model.is_cgb();
        let h: u8 = if self.lcdc & 0x04 != 0 { 16 } else { 8 };
        let n = self.sprite_buffer.len();
        let mut k = n;
        while k > 0
            invariant
                k <= n,
                n == pre.sprite_buffer.len(),
                ly == pre.ly,
                ly < SCREEN_H,
                ppu_wf(pre),
                cgb == (pre.model == Model::CGB),
                h == sprite_height_spec(pre),
                self@ == (PpuView {
                    framebuffer: paint_line(
                        pre.framebuffer,
                        ly as int,
                        |x: int| first_sprite_pixel(pre, pre.sprite_buffer.subrange(k as int, n as int), x),
                    ),
                    ..pre
                }),
            decreases k,
        {
            k -= 1;
            let sprite = self.sprite_buffer[k];
            let sx: i32 = sprite.x as i32 - 8;
            let sy: i32 = sprite.y as i32 - 16;
            let row: i32 = ly as i32 - sy;
            let tile_row: u8 = if sprite.y_flip() { (h as i32 - 1 - row) as u8 } else { row as u8 };
            let tile: u8 = if h == 16 {
                if tile_row < 8 { sprite.tile & 0xFE } else { sprite.tile | 0x01 }
            } else {
                sprite.tile
            };
            let bank: usize = if cgb { sprite.vram_bank() } else { 0 };
            let tile_line = (tile_row % 8) as u16 * 2;
            let ta = tile as u16 * 16 + tile_line;
            let lo = self.vram[bank * VRAM_BANK_SIZE + ta as usize];
            let hi = self.vram[bank * VRAM_BANK_SIZE + ta as usize + 1];
            assert(sprite_row_spec(pre, sprite) == (lo, hi));
            let ghost fb_k = self.framebuffer@;
            let mut bit_n: u8 = 0;
            while bit_n < 8
                invariant
                    bit_n <= 8,
                    k < n,
                    n == pre.sprite_buffer.len(),
                    sprite == pre.sprite_buffer[k as int],
                    sx == sprite.x as int - 8,
                    (lo, hi) == sprite_row_spec(pre, sprite),
                    ly == pre.ly,
                    ly < SCREEN_H,
                    ppu_wf(pre),
                        cgb == (pre.model == Model::CGB),
                    fb_k.len() == FB_SIZE,
                    self@ == (PpuView {
                        framebuffer: paint_line(
                            fb_k,
                            ly as int,
                            |x: int|
                                if sprite_col_done(sprite, x, bit_n as int) {
                                    sprite_pixel_spec(pre, sprite, x)
                                } else {
                                    None
                                },
                        ),
                        ..pre
                    }),
                decreases 8 - bit_n,
            {
                let screen_x: i32 = sx + if sprite.x_flip() { bit_n as i32 } else { 7 - bit_n as i32 };
                let ghost b = bit_n as int;
                let ghost f = |x: int|
                    if sprite_col_done(sprite, x, b) {
                        sprite_pixel_spec(pre, sprite, x)
                    } else {
                        None
                    };
                let ghost g = |x: int|
                    if sprite_col_done(sprite, x, b + 1) {
                        sprite_pixel_spec(pre, sprite, x)
                    } else {
                        None
                    };
                let mut painted = false;
                if screen_x >= 0 && screen_x < SCREEN_W as i32 {
                    let sx_us = screen_x as usize;
                    let color_idx = ((hi >> bit_n & 1) << 1) | (lo >> bit_n & 1);
                    if color_idx != 0 {
                        let bg_color = self.scanline_bg_color[sx_us];
                        let mut hidden = false;
                        if cgb {
                            // CGB: BG master enable=0 means sprites always on top
                            if self.lcdc & 0x01 != 0 {
                                if self.scanline_bg_prio[sx_us] && bg_color != 0 {
                                    hidden = true;
                                }
                                if sprite.priority() && bg_color != 0 {
                                    hidden = true;
                                }
                            }
                        } else {
                            if sprite.priority() && bg_color != 0 {
                                hidden = true;
                            }
                        }
                        if !hidden {
                            proof {
                                lemma_byte_facts(hi >> bit_n, lo >> bit_n);
                            }
                            let rgb = if cgb {
                                self.cgb_obj_color(sprite.cgb_palette(), color_idx as usize)
                            } else {
                                let pal = if sprite.dmg_palette() { self.obp1 } else { self.obp0 };
                                dmg_palette(pal, color_idx)
                            };
                            assert(sprite_pixel_spec(pre, sprite, screen_x as int) == Some(rgb));
                            self.set_pixel(sx_us, ly, rgb);
                            proof {
                                lemma_paint_pixel(fb_k, ly as int, f, g, screen_x as int, rgb);
                            }
                            painted = true;
                        }
                    }
                }
                proof {
                    if !painted {
                        assert forall|x: int| 0 <= x < 160 implies #[trigger] g(x) == f(x) by {
                            if x == screen_x as int {
                                assert(sprite_pixel_spec(pre, sprite, x) == None::<(u8, u8, u8)>);
                            }
                        }
                        lemma_paint_ext(fb_k, ly as int, f, g);
                    }
                }
                bit_n += 1;
            }
            proof {
                let sub = pre.sprite_buffer.subrange(k as int, n as int);
                let rest = pre.sprite_buffer.subrange(k + 1, n as int);
                assert(sub.drop_first() =~= rest);
                assert(sub[0] == sprite);
                lemma_paint_ext(
                    fb_k,
                    ly as int,
                    |x: int|
                        if sprite_col_done(sprite, x, 8) {
                            sprite_pixel_spec(pre, sprite, x)
                        } else {
                            None
                        },
                    |x: int| sprite_pixel_spec(pre, sprite, x),
                );
                lemma_paint_twice(
                    pre.framebuffer,
                    ly as int,
                    |x: int| first_sprite_pixel(pre, rest, x),
                    |x: int| sprite_pixel_spec(pre, sprite, x),
                    |x: int| first_sprite_pixel(pre, sub, x),
                );
            }
        }
        proof {
            assert(pre.sprite_buffer.subrange(0, n as int) =~= pre.sprite_buffer);
        }
    }

    // ─── CGB Palette helpers ─────────────────────────────────────────────────

    fn cgb_bg_color(&self, palette: usize, color: usize) -> (r: (u8, u8, u8))
        requires
            self.bg_palette_ram@.len() == PALETTE_RAM_SIZE,
            palette <= 7,
            color <= 3,
        ensures
            r == cgb_color_spec(self.bg_palette_ram@, palette as int, color as int),
    {
        let idx = palette * 8 + color * 2;
        decode_cgb_color(self.bg_palette_ram[idx], self.bg_palette_ram[idx + 1])
    }

    fn cgb_obj_color(&self, palette: usize, color: usize) -> (r: (u8, u8, u8))
        requires
            self.obj_palette_ram@.len() == PALETTE_RAM_SIZE,
            palette <= 7,
            color <= 3,
        ensures
            r == cgb_color_spec(self.obj_palette_ram@, palette as int, color as int),
    {
        let idx = palette * 8 + color * 2;
        decode_cgb_color(self.obj_palette_ram[idx], self.obj_palette_ram[idx + 1])
    }

    fn set_pixel(&mut self, x: usize, y: usize, rgb: (u8, u8, u8))
        requires
            old(self).framebuffer@.len() == FB_SIZE,
            x < SCREEN_W,
            y < SCREEN_H,
        ensures
            ({
                let b = (y * 160 + x) * 3;
                final(self)@ == (PpuView {
                    framebuffer: old(self)@.framebuffer.update(b, rgb.0).update(b + 1, rgb.1).update(
                        b + 2,
                        rgb.2,
                    ),
                    ..old(self)@
                })
            }),
    {
        let (r, g, b) = rgb;
        let base = (y * SCREEN_W + x) * 3;
        self.framebuffer.set(base, r);
        self.framebuffer.set(base + 1, g);
        self.framebuffer.set(base + 2, b);
    }

    // ─── Register read/write ─────────────────────────────────────────────────

    pub fn read(&self, addr: u16) -> (r: u8)
        requires
            self.wf(),
        ensures
            r == ppu_read_spec(self@, addr),
    {
        proof {
            lemma_byte_facts(self.bcps, self.ocps);
            lemma_byte_facts(self.ocps, self.bcps);
        }
        if addr == 0xFF40 {
            self.lcdc
        } else if addr == 0xFF41 {
            self.stat | 0x80
        } else if addr == 0xFF42 {
            self.scy
        } else if addr == 0xFF43 {
            self.scx
        } else if addr == 0xFF44 {
            self.ly
        } else if addr == 0xFF45 {
            self.lyc
        } else if addr == 0xFF47 {
            self.bgp
        } else if addr == 0xFF48 {
            self.obp0
        } else if addr == 0xFF49 {
            self.obp1
        } else if addr == 0xFF4A {
            self.wy
        } else if addr == 0xFF4B {
            self.wx
        } else if addr == 0xFF4F {
            self.vram_bank as u8 | 0xFE
        } else if addr == 0xFF68 {
            self.bcps
        } else if addr == 0xFF69 {
            let idx = (self.bcps & 0x3F) as usize;
            self.bg_palette_ram[idx]
        } else if addr == 0xFF6A {
            self.ocps
        } else if addr == 0xFF6B {
            let idx = (self.ocps & 0x3F) as usize;
            self.obj_palette_ram[idx]
        } else {
            0xFF
        }
    }

    #[verifier::rlimit(40)]
    pub fn write(&mut self, addr: u16, val: u8)
        requires
            old(self).wf(),
        ensures
            final(self).wf(),
            final(self)@ == ppu_write_spec(old(self)@, addr, val),
    {
        proof {
            lemma_byte_facts(self.bcps, val);
            lemma_byte_facts(self.ocps, val);
            lemma_byte_facts(val, val);
        }
        if addr == 0xFF40 {
            let was = self.lcd_enabled();
            self.lcdc = val;
            if was && !self.lcd_enabled() {
                self.ly = 0;
                self.dot = 0;
                self.mode = PpuMode::HBlank;
                self.stat = self.stat & 0xFC;
                self.clear_framebuffer();
            }
        } else if addr == 0xFF41 {
            self.stat = (self.stat & 0x07) | (val & 0x78);
        } else if addr == 0xFF42 {
            self.scy = val;
        } else if addr == 0xFF43 {
            self.scx = val;
        } else if addr == 0xFF45 {
            self.lyc = val;
            self.check_lyc();
        } else if addr == 0xFF47 {
            self.bgp = val;
        } else if addr == 0xFF48 {
            self.obp0 = val;
        } else if addr == 0xFF49 {
            self.obp1 = val;
        } else if addr == 0xFF4A {
            self.wy = val;
        } else if addr == 0xFF4B {
            self.wx = val;
        } else if addr == 0xFF4F {
            // CGB VRAM bank
            if self.model.is_cgb() {
                self.vram_bank = (val & 0x01) as usize;
            }
        } else if addr == 0xFF68 {
            self.bcps = val;
        } else if addr == 0xFF69 {
            let idx = (self.bcps & 0x3F) as usize;
            self.bg_palette_ram.set(idx, val);
            if self.bcps & 0x80 != 0 {
                self.bcps = (self.bcps & 0x80) | (self.bcps.wrapping_add(1) & 0x3F);
            }
        } else if addr == 0xFF6A {
            self.ocps = val;
        } else if addr == 0xFF6B {
            let idx = (self.ocps & 0x3F) as usize;
            self.obj_palette_ram.set(idx, val);
            if self.ocps & 0x80 != 0 {
                self.ocps = (self.ocps & 0x80) | (self.ocps.wrapping_add(1) & 0x3F);
            }
        }
    }

    /// Every frame-buffer byte becomes 0xFF (white).
    fn clear_framebuffer(&mut self)
        requires
            old(self).framebuffer@.len() == FB_SIZE,
        ensures
            final(self)@ == (PpuView {
                framebuffer: Seq::new(FB_SIZE as nat, |i: int| 0xFFu8),
                ..old(self)@
            }),
    {
        let ghost pre = self@;
        let mut i: usize = 0;
        while i < FB_SIZE
            invariant
                i <= FB_SIZE,
                pre.framebuffer.len() == FB_SIZE,
                self@ == (PpuView {
                    framebuffer: Seq::new(
                        FB_SIZE as nat,
                        |j: int|
                            if j < i {
                                0xFFu8
                            } else {
                                pre.framebuffer[j]
                            },
                    ),
                    ..pre
                }),
            decreases FB_SIZE - i,
        {
            self.framebuffer.set(i, 0xFF);
            proof {
                let ii = i as int;
                assert(self.framebuffer@ =~= Seq::new(
                    FB_SIZE as nat,
                    |j: int|
                        if j < ii + 1 {
                            0xFFu8
                        } else {
                            pre.framebuffer[j]
                        },
                ));
            }
            i += 1;
        }
        proof {
            assert(self.framebuffer@ =~= Seq::new(FB_SIZE as nat, |i: int| 0xFFu8));
        }
    }
}


// ─── Sprite-count law ───────────────────────────────────────────────────────

pub open spec fn x_below(k: int) -> spec_fn(Sprite) -> bool {
    |s: Sprite| (s.x as int) < k
}

proof fn lemma_filter_split(s: Seq<Sprite>, k: u8)
    ensures
        s.filter(x_below(k + 1)).len() == s.filter(x_below(k as int)).len() + s.filter(has_x(k)).len(),
    decreases s.len(),
{
    if s.len() > 0 {
        let t = s.drop_last();
        let e = s.last();
        assert(s =~= t.push(e));
        lemma_filter_split(t, k);
        t.lemma_filter_push(e, x_below(k + 1));
        t.lemma_filter_push(e, x_below(k as int));
        t.lemma_filter_push(e, has_x(k));
    } else {
        assert(s.filter(x_below(k + 1)) =~= Seq::<Sprite>::empty());
        assert(s.filter(x_below(k as int)) =~= Seq::<Sprite>::empty());
        assert(s.filter(has_x(k)) =~= Seq::<Sprite>::empty());
    }
}

proof fn lemma_filter_all(s: Seq<Sprite>)
    ensures
        s.filter(x_below(256)) == s,
    decreases s.len(),
{
    if s.len() > 0 {
        let t = s.drop_last();
        let e = s.last();
        assert(s =~= t.push(e));
        lemma_filter_all(t);
        t.lemma_filter_push(e, x_below(256));
    } else {
        assert(s.filter(x_below(256)) =~= s);
    }
}

proof fn lemma_sorted_below_len(s: Seq<Sprite>, k: nat)
    requires
        k <= 256,
    ensures
        sorted_below(s, k).len() == s.filter(x_below(k as int)).len(),
    decreases k,
{
    if k == 0 {
        assert(s.filter(x_below(0)).len() == 0) by {
            if s.filter(x_below(0)).len() > 0 {
                s.lemma_filter_pred(x_below(0), 0);
            }
        }
    } else {
        lemma_sorted_below_len(s, (k - 1) as nat);
        lemma_filter_split(s, (k - 1) as u8);
    }
}

/// The stable sort by X keeps every sprite: the sorted buffer is as long as
/// the one it sorts.
pub proof fn lemma_sort_keeps_len(s: Seq<Sprite>)
    ensures
        sort_by_x_spec(s).len() == s.len(),
{
    lemma_sorted_below_len(s, 256);
    lemma_filter_all(s);
}

/// OAM scan collects at most ten sprites for a line.
pub proof fn lemma_oam_scan_at_most_ten(p: PpuView)
    ensures
        oam_scan_spec(p).sprite_buffer.len() <= MAX_SPRITES,
{
    let sel = selected_sprites(p.oam, p.ly, sprite_height_spec(p), 40);
    lemma_selected_len(p.oam, p.ly, sprite_height_spec(p), 40);
    lemma_sort_keeps_len(sel);
}


} // verus!
