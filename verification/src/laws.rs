//! Properties of the machine that relate several operations.
use vstd::prelude::*;
use crate::bits::lemma_byte_facts;
use crate::bus::{
    Bus,
    BusView,
    bus_read16_spec,
    bus_read_spec,
    bus_write16_spec,
    bus_write_spec,
    io_read_spec,
    io_write_spec,
    mem_write_spec,
    WRAM_BANK_SIZE,
    WRAM_SIZE,
    HRAM_SIZE,
    GDMA_NESTING,
};
use crate::cartridge::{
    CartView,
    MbcType,
    cart_read_spec,
    cart_write_spec,
    effective_rom_bank_spec,
    mbc_write_spec,
    ram_offset,
    rom_read_spec,
};
use crate::cpu::{Cpu, pop_spec, push_spec};
use crate::model::Model;
use crate::ppu::{Sprite, OAM_SIZE, VRAM_BANK_SIZE, VRAM_SIZE, PpuView, ppu_read_spec, ppu_write_spec};
use crate::gameboy::gameboy_new_spec;
use crate::joypad::{Button, Joypad, is_action_button, button_mask, joypad_read_spec, press_spec, release_spec};
use crate::timer::{
    Timer,
    ticks_spec,
    timer_enabled_spec,
    timer_read_spec,
    timer_step_spec,
    timer_write_spec,
};
use crate::dma::{
    OamDma,
    oam_dma_start_spec,
    oam_dma_step_spec,
    Hdma,
    HdmaMode, hdma_chunk_spec, hdma_status_spec, hdma_write_spec};
use crate::serial::{SerialView, serial_read_spec, serial_write_spec};
use crate::cartridge::HEADER_CGB;

verus! {

/// Sizes and bank numbers that every bus state has.
pub open spec fn bus_view_wf(b: BusView) -> bool {
    &&& b.ppu.vram.len() == VRAM_SIZE
    &&& b.ppu.oam.len() == OAM_SIZE
    &&& b.ppu.vram_bank <= 1
    &&& b.wram.len() == WRAM_SIZE
    &&& 1 <= b.wram_bank <= 7
    &&& b.hram.len() == HRAM_SIZE
}

/// Addresses backed by RAM the CPU may freely use: VRAM, WRAM and its echo,
/// OAM, HRAM, and the IE register.
pub open spec fn is_ram_addr(a: u16) -> bool {
    ||| 0x8000 <= a <= 0x9FFF
    ||| 0xC000 <= a <= 0xFDFF
    ||| 0xFE00 <= a <= 0xFE9F
    ||| 0xFF80 <= a <= 0xFFFF
}

/// The storage cell behind a RAM address: (region, index). Echo RAM and the
/// banked windows resolve to the same cells as the addresses they mirror.
pub open spec fn ram_cell(b: BusView, a: u16) -> (int, int) {
    if 0x8000 <= a <= 0x9FFF {
        (0, b.ppu.vram_bank * VRAM_BANK_SIZE + (a - 0x8000))
    } else if 0xC000 <= a <= 0xCFFF {
        (1, a - 0xC000)
    } else if 0xD000 <= a <= 0xDFFF {
        (1, b.wram_bank * WRAM_BANK_SIZE + (a - 0xD000))
    } else if 0xE000 <= a <= 0xEFFF {
        (1, a - 0xE000)
    } else if 0xF000 <= a <= 0xFDFF {
        (1, b.wram_bank * WRAM_BANK_SIZE + (a - 0xF000))
    } else if 0xFE00 <= a <= 0xFE9F {
        (2, a - 0xFE00)
    } else if 0xFF80 <= a <= 0xFFFE {
        (3, a - 0xFF80)
    } else {
        (4, 0)
    }
}

/// A bus that satisfies its well-formedness has a well-formed model.
pub proof fn lemma_bus_view_wf(b: Bus)
    requires
        b.wf(),
    ensures
        bus_view_wf(b@),
{
}

/// The bus behaves as memory on its RAM: reading a RAM address after a
/// write to a RAM address gives the written byte when both name the same
/// cell (mirrors included), and what was there before otherwise. Such a
/// write keeps the bus well-formed.
pub proof fn lemma_ram_write_read(b: BusView, a: u16, v: u8, c: u16)
    requires
        bus_view_wf(b),
        is_ram_addr(a),
        is_ram_addr(c),
    ensures
        bus_read_spec(bus_write_spec(b, a, v), c) == (if ram_cell(b, a) == ram_cell(b, c) {
            v
        } else {
            bus_read_spec(b, c)
        }),
        bus_view_wf(bus_write_spec(b, a, v)),
        ram_cell(bus_write_spec(b, a, v), c) == ram_cell(b, c),
{
    reveal(bus_read_spec);
    reveal(bus_write_spec);
    let w = bus_write_spec(b, a, v);
    if a < 0xFF00 {
        assert(w == mem_write_spec(b, a, v));
    } else {
        assert(w == io_write_spec(b, a, v, GDMA_NESTING as nat));
    }
    if c >= 0xFF00 {
        assert(bus_read_spec(w, c) == io_read_spec(w, c));
        assert(bus_read_spec(b, c) == io_read_spec(b, c));
    }
}

/// Reading back a byte written to RAM gives that byte.
pub proof fn lemma_ram_read_after_write(b: BusView, a: u16, v: u8)
    requires
        bus_view_wf(b),
        is_ram_addr(a),
    ensures
        bus_read_spec(bus_write_spec(b, a, v), a) == v,
{
    lemma_ram_write_read(b, a, v, a);
}

/// Echo RAM: a byte written to 0xC000..0xDDFF reads back at the address
/// 0x2000 higher.
pub proof fn lemma_echo_ram(b: BusView, a: u16, v: u8)
    requires
        bus_view_wf(b),
        0xC000 <= a <= 0xDDFF,
    ensures
        bus_read_spec(bus_write_spec(b, a, v), (a + 0x2000) as u16) == v,
{
    lemma_ram_write_read(b, a, v, (a + 0x2000) as u16);
}

/// PUSH then POP: with the two stack bytes in RAM, the popped word is the
/// pushed one and SP is back where it was.
pub proof fn lemma_push_pop(s: Cpu, m: BusView, v: u16)
    requires
        bus_view_wf(m),
        is_ram_addr(s.sp.wrapping_sub(2)),
        is_ram_addr(s.sp.wrapping_sub(1)),
    ensures
        ({
            let (s1, m1) = push_spec(s, m, v);
            let (w, s2) = pop_spec(s1, m1);
            w == v && s2.sp == s.sp
        }),
{
    let sp = s.sp.wrapping_sub(2);
    let hi_addr = sp.wrapping_add(1);
    assert(hi_addr == s.sp.wrapping_sub(1));
    let lo = (v % 256) as u8;
    let hi = (v / 256) as u8;
    let m1 = bus_write_spec(m, sp, lo);
    let m2 = bus_write_spec(m1, hi_addr, hi);
    assert(bus_write16_spec(m, sp, v) == m2);
    lemma_ram_write_read(m, sp, lo, sp);
    lemma_ram_write_read(m1, hi_addr, hi, sp);
    lemma_ram_write_read(m1, hi_addr, hi, hi_addr);
    assert(ram_cell(m1, hi_addr) != ram_cell(m1, sp));
    assert(bus_read16_spec(m2, sp) == (lo as int + 256 * hi as int) as u16);
}

/// Cartridge ROM is read-only and its first bank is fixed: no write
/// changes what 0x0000..0x3FFF reads.
pub proof fn lemma_rom_bank0_fixed(c: CartView, addr: u16, val: u8, a: u16)
    requires
        a <= 0x3FFF,
    ensures
        cart_read_spec(cart_write_spec(c, addr, val), a) == cart_read_spec(c, a),
{
    let m = mbc_write_spec(c, addr, val);
    assert(m.rom == c.rom);
}

/// External RAM, while enabled and not showing a clock register, reads back
/// what was written.
pub proof fn lemma_cart_ram_read_after_write(c: CartView, a: u16, v: u8)
    requires
        0xA000 <= a <= 0xBFFF,
        c.ram_enabled,
        !(c.mbc == MbcType::Mbc3 && c.rtc_selected),
        ram_offset(c, a) < c.ram.len(),
    ensures
        cart_read_spec(cart_write_spec(c, a, v), a) == v,
{
    assert(mbc_write_spec(c, a, v) == c);
}

/// The switchable ROM window never shows bank 0, except on MBC5 where bank
/// 0 can be selected.
pub proof fn lemma_rom_bank_nonzero(c: CartView)
    requires
        c.mbc != MbcType::Mbc5,
        !(c.mbc is Unknown),
    ensures
        effective_rom_bank_spec(c) != 0,
{
}

/// SVBK on CGB: writing a bank number selects it, with 0 selecting bank 1,
/// and SVBK reads the selection back with the unused bits set.
pub proof fn lemma_svbk(b: BusView, v: u8)
    requires
        b.model == Model::CGB,
    ensures
        bus_write_spec(b, 0xFF70, v).wram_bank == (if v & 0x07 == 0 { 1 } else { (v & 0x07) as usize }),
        bus_read_spec(bus_write_spec(b, 0xFF70, v), 0xFF70) == (bus_write_spec(b, 0xFF70, v).wram_bank as u8)
            | 0xF8,
{
    reveal(bus_read_spec);
    reveal(bus_write_spec);
    let w = bus_write_spec(b, 0xFF70, v);
    assert(w == io_write_spec(b, 0xFF70, v, GDMA_NESTING as nat));
    assert(bus_read_spec(w, 0xFF70) == io_read_spec(w, 0xFF70));
}

/// DMG or CGB mode: a cartridge whose header flag (0x0143) is 0x80 or 0xC0
/// runs in CGB mode unless DMG mode is forced; every other cartridge runs in
/// DMG mode.
pub proof fn lemma_model_detection(rom: Seq<u8>, boot: Option<Seq<u8>>, skip_boot: bool, force_dmg: bool)
    requires
        rom.len() > HEADER_CGB,
    ensures
        gameboy_new_spec(rom, boot, skip_boot, force_dmg).model == (if !force_dmg && (rom[HEADER_CGB as int]
            == 0x80 || rom[HEADER_CGB as int] == 0xC0) {
            Model::CGB
        } else {
            Model::DMG
        }),
        gameboy_new_spec(rom, boot, skip_boot, force_dmg).bus.model == gameboy_new_spec(rom, boot, skip_boot, force_dmg).model,
{
}

proof fn lemma_joypad_bits(s: u8, m: u8)
    by (bit_vector)
    requires
        m == 1 || m == 2 || m == 4 || m == 8,
    ensures
        (0xC0u8 | ((s & !m) & 0x0F)) & m == 0,
        (0xC0u8 | ((s | m) & 0x0F)) & m == m,
        (s & !m) & m == 0,
{
}

/// With a button's group selected (and, for an action button, the
/// directions not), P1 shows the button's bit as 0 after pressing it and as
/// 1 after releasing it.
pub proof fn lemma_press_release_visible(j: Joypad, b: Button)
    requires
        b != Button::NoButton,
        is_action_button(b) ==> j.select_action && !j.select_direction,
        !is_action_button(b) ==> j.select_direction,
    ensures
        joypad_read_spec(press_spec(j, b)) & button_mask(b) == 0,
        joypad_read_spec(release_spec(j, b)) & button_mask(b) == button_mask(b),
{
    lemma_joypad_bits(j.action_state, button_mask(b));
    lemma_joypad_bits(j.direction_state, button_mask(b));
}

/// Pressing a button that is up requests the joypad interrupt; pressing one
/// that is already down does not change the request.
pub proof fn lemma_press_interrupt(j: Joypad, b: Button)
    requires
        b != Button::NoButton,
    ensures
        press_spec(press_spec(j, b), b).interrupt_request == press_spec(j, b).interrupt_request,
        !j.interrupt_request ==> (press_spec(j, b).interrupt_request == (if is_action_button(b) {
            j.action_state & button_mask(b) != 0
        } else {
            j.direction_state & button_mask(b) != 0
        })),
{
    lemma_joypad_bits(j.action_state, button_mask(b));
    lemma_joypad_bits(j.direction_state, button_mask(b));
}

/// Any write to DIV resets it: DIV then reads 0. Clearing the counter is a
/// falling edge of the bit TAC selects when that bit was high, so with the
/// timer enabled it advances TIMA.
pub proof fn lemma_div_reset(t: Timer, v: u8)
    ensures
        timer_read_spec(timer_write_spec(t, 0xFF04, v), 0xFF04) == 0,
        timer_write_spec(t, 0xFF04, v).tima == (if timer_enabled_spec(t.tac) && t.div_counter
            & crate::timer::tima_bit_spec(t.tac) != 0 {
            t.tima.wrapping_add(1)
        } else {
            t.tima
        }),
{
    assert((0u16 >> 8u16) as u8 == 0) by (bit_vector);
}

/// TIMA reads back what was written, and the write cancels a pending reload.
pub proof fn lemma_tima_write(t: Timer, v: u8)
    ensures
        timer_read_spec(timer_write_spec(t, 0xFF05, v), 0xFF05) == v,
        !timer_write_spec(t, 0xFF05, v).overflow_pending,
{
}

/// Starting an H-Blank DMA of n+1 blocks (HDMA5 = 0x80 | n), HDMA5 then
/// reads n.
pub proof fn lemma_hdma_status_after_start(h: Hdma, v: u8)
    requires
        v & 0x80 != 0,
    ensures
        hdma_status_spec(hdma_write_spec(h, 0xFF55, v)) == v & 0x7F,
{
    lemma_byte_facts(v, 0);
    assert((v & 0x7F) & 0x7F == v & 0x7F) by (bit_vector);
}

/// CGB palette data: without auto-increment, a byte written through BCPD
/// reads back through BCPD; with it, BCPS's index advances by one, wrapping
/// within the 64 bytes, and keeps bit 7.
pub proof fn lemma_palette_write(p: PpuView, v: u8)
    requires
        p.bg_palette_ram.len() == 64,
    ensures
        p.bcps & 0x80 == 0 ==> ppu_read_spec(ppu_write_spec(p, 0xFF69, v), 0xFF69) == v,
        p.bcps & 0x80 != 0 ==> ppu_write_spec(p, 0xFF69, v).bcps & 0x80 == 0x80,
        p.bcps & 0x80 != 0 ==> ppu_write_spec(p, 0xFF69, v).bcps & 0x3F == ((p.bcps & 0x3F) + 1) % 64,
{
    lemma_byte_facts(p.bcps, v);
    let x = p.bcps;
    let y = x.wrapping_add(1);
    assert(((x & 0x80) | (y & 0x3F)) & 0x80 == 0x80 || x & 0x80 == 0) by (bit_vector);
    assert(((x & 0x80) | (y & 0x3F)) & 0x3F == ((x & 0x3F) + 1) % 64) by (bit_vector)
        requires
            x < 255 ==> y == x + 1,
            x == 255 ==> y == 0,
    ;
}

/// Writing 0x81 to SC sends SB: the byte joins the output, a serial
/// interrupt is requested and SC reads 0x01.
pub proof fn lemma_serial_send(s: SerialView)
    ensures
        serial_write_spec(s, 0xFF02, 0x81).output == s.output.push(s.sb),
        serial_write_spec(s, 0xFF02, 0x81).interrupt_request,
        serial_read_spec(serial_write_spec(s, 0xFF02, 0x81), 0xFF02) == 0x01,
{
}


/// T-cycles move the 16-bit counter by one each and never change TAC; with
/// the timer disabled they change nothing else.
proof fn lemma_ticks(t: Timer, n: nat)
    ensures
        ticks_spec(t, n).div_counter == (t.div_counter + n) % 0x10000,
        ticks_spec(t, n).tac == t.tac,
        !timer_enabled_spec(t.tac) ==> ticks_spec(t, n) == (Timer {
            div_counter: ((t.div_counter + n) % 0x10000) as u16,
            ..t
        }),
    decreases n,
{
    if n > 0 {
        lemma_ticks(t, (n - 1) as nat);
        vstd::arithmetic::div_mod::lemma_add_mod_noop(t.div_counter + n - 1, 1, 0x10000);
    }
}

/// DIV counts T-cycles: after a step of `n` cycles the 16-bit counter behind
/// DIV has advanced by `n`, wrapping at 0x10000.
pub proof fn lemma_div_counts_cycles(t: Timer, n: nat)
    ensures
        timer_step_spec(t, n).div_counter == (t.div_counter + n) % 0x10000,
{
    let s = if t.overflow_pending {
        Timer { overflow_pending: false, tima: t.tma, interrupt_request: true, ..t }
    } else {
        t
    };
    lemma_ticks(s, n);
}

/// With TAC's enable bit clear, TIMA stands still: a step only advances the
/// counter behind DIV (after a reload that an earlier overflow left pending).
pub proof fn lemma_timer_disabled(t: Timer, n: nat)
    requires
        !timer_enabled_spec(t.tac),
        !t.overflow_pending,
    ensures
        timer_step_spec(t, n) == (Timer { div_counter: ((t.div_counter + n) % 0x10000) as u16, ..t }),
{
    lemma_ticks(t, n);
}

/// A timer overflow is delivered at the start of the next step: TIMA is
/// reloaded from TMA and the timer interrupt is requested, and TIMA then
/// counts on from TMA.
pub proof fn lemma_timer_overflow_reload(t: Timer)
    requires
        t.overflow_pending,
    ensures
        timer_step_spec(t, 0).tima == t.tma,
        timer_step_spec(t, 0).interrupt_request,
        !timer_step_spec(t, 0).overflow_pending,
{
}

/// Scanline timing: each dot advances the dot counter, and only the 456th
/// dot of a line moves LY on, to the next line or from 153 back to 0. LY
/// reaches 144 exactly when V-Blank begins, and entering V-Blank requests
/// the V-Blank interrupt.
pub proof fn lemma_line_timing(p: PpuView)
    requires
        crate::ppu::ppu_wf(p),
        crate::ppu::ppu_dot_wf(p),
    ensures
        ({
            let q = crate::ppu::tick_spec(p);
            &&& (p.dot + 1 < crate::ppu::HBLANK_MAX_END ==> q.ly == p.ly && q.dot == p.dot + 1)
            &&& (p.dot + 1 == crate::ppu::HBLANK_MAX_END ==> q.dot == 0 && q.ly == (if p.ly == 153 {
                0
            } else {
                p.ly + 1
            }))
            &&& (p.mode != crate::ppu::PpuMode::VBlank && q.mode == crate::ppu::PpuMode::VBlank ==> q.ly
                == 144 && q.vblank_irq)
        }),
{
}

/// VBK on a CGB PPU: writing it selects VRAM bank `v & 1`, which
/// 0x8000..0x9FFF then shows, and VBK reads the selection back with the other
/// bits set. On DMG the write is ignored and the selected bank stays.
pub proof fn lemma_vbk(b: BusView, v: u8, a: u16)
    requires
        0x8000 <= a <= 0x9FFF,
    ensures
        ({
            let w = bus_write_spec(b, 0xFF4F, v);
            let bank: usize = if b.ppu.model == Model::CGB { (v & 0x01) as usize } else { b.ppu.vram_bank };
            &&& w.ppu.vram_bank == bank
            &&& bus_read_spec(w, a) == b.ppu.vram[bank * VRAM_BANK_SIZE + (a - 0x8000)]
            &&& (b.ppu.model == Model::CGB ==> bus_read_spec(w, 0xFF4F) == (v & 0x01) | 0xFE)
        }),
{
    reveal(bus_read_spec);
    reveal(bus_write_spec);
    let w = bus_write_spec(b, 0xFF4F, v);
    assert(w == io_write_spec(b, 0xFF4F, v, GDMA_NESTING as nat));
    assert(w.ppu == ppu_write_spec(b.ppu, 0xFF4F, v));
    if b.ppu.model == Model::CGB {
        assert(bus_read_spec(w, 0xFF4F) == io_read_spec(w, 0xFF4F));
        assert(((v & 0x01) as usize) as u8 | 0xFE == (v & 0x01) | 0xFE) by (bit_vector);
    }
}

/// MBC1 bank switching (ROM banking mode): the low five bank bits written
/// to 0x2000..0x3FFF (0 counting as 1) and the two high bits written to
/// 0x4000..0x5FFF, in either order, select the ROM bank that 0x4000..0x7FFF
/// shows (never 0x00, 0x20, 0x40 or 0x60); RAM enable and RAM bank stay.
pub proof fn lemma_mbc1_bank_switch(c: CartView, a1: u16, lo: u8, a2: u16, hi: u8, k: u16)
    requires
        c.mbc == MbcType::Mbc1,
        !c.mbc1_mode,
        c.rom_bank <= 0x1FF,
        0x2000 <= a1 <= 0x3FFF,
        0x4000 <= a2 <= 0x5FFF,
        k < 0x4000,
    ensures
        ({
            let low: usize = if lo & 0x1F == 0 { 1 } else { (lo & 0x1F) as usize };
            let bank: usize = (((hi & 0x03) as usize) << 5usize) | low;
            let c2 = cart_write_spec(cart_write_spec(c, a1, lo), a2, hi);
            let c3 = cart_write_spec(cart_write_spec(c, a2, hi), a1, lo);
            &&& cart_read_spec(c2, (0x4000 + k) as u16) == rom_read_spec(c, bank, k as usize)
            &&& cart_read_spec(c3, (0x4000 + k) as u16) == rom_read_spec(c, bank, k as usize)
            &&& effective_rom_bank_spec(c2) == bank && effective_rom_bank_spec(c3) == bank
            &&& bank % 0x20 != 0
            &&& c2.ram_enabled == c.ram_enabled && c2.ram_bank == c.ram_bank
            &&& c3.ram_enabled == c.ram_enabled && c3.ram_bank == c.ram_bank
        }),
{
    assert(lo & 0x1F <= 0x1F) by (bit_vector);
    let low: usize = if lo & 0x1F == 0 { 1 } else { (lo & 0x1F) as usize };
    let x = c.rom_bank;
    let h = hi;
    assert(((((x & 0x60) | low) & 0x1F) | (((h & 0x03) as usize) << 5usize)) & 0x7F == (((h & 0x03)
        as usize) << 5usize) | low && ((((x & 0x1F) | (((h & 0x03) as usize) << 5usize)) & 0x60) | low)
        & 0x7F == (((h & 0x03) as usize) << 5usize) | low && ((((h & 0x03) as usize) << 5usize) | low)
        % 0x20 != 0 && (x & 0x1F) | (((h & 0x03) as usize) << 5usize) <= 0x7F) by (bit_vector)
        requires
            1 <= low <= 0x1F,
            x <= 0x1FF,
    ;
}

/// MBC2 bank switching: a write to 0x2000..0x3FFF with address bit 8 set
/// selects ROM bank `v & 0x0F` (0 counting as 1) at 0x4000..0x7FFF.
pub proof fn lemma_mbc2_bank_switch(c: CartView, a: u16, v: u8, k: u16)
    requires
        c.mbc == MbcType::Mbc2,
        0x2000 <= a <= 0x3FFF,
        a & 0x0100 != 0,
        k < 0x4000,
    ensures
        ({
            let bank: usize = if v & 0x0F == 0 { 1 } else { (v & 0x0F) as usize };
            cart_read_spec(cart_write_spec(c, a, v), (0x4000 + k) as u16) == rom_read_spec(c, bank, k as usize)
        }),
{
    let bank: usize = if v & 0x0F == 0 { 1 } else { (v & 0x0F) as usize };
    assert(bank & 0x0F == bank && bank != 0) by (bit_vector)
        requires
            bank == (if v & 0x0F == 0 { 1 } else { (v & 0x0F) as usize }),
    ;
}

/// MBC3 bank switching: a write to 0x2000..0x3FFF selects ROM bank
/// `v & 0x7F` (0 counting as 1) at 0x4000..0x7FFF.
pub proof fn lemma_mbc3_bank_switch(c: CartView, a: u16, v: u8, k: u16)
    requires
        c.mbc == MbcType::Mbc3,
        0x2000 <= a <= 0x3FFF,
        k < 0x4000,
    ensures
        ({
            let bank: usize = if v & 0x7F == 0 { 1 } else { (v & 0x7F) as usize };
            cart_read_spec(cart_write_spec(c, a, v), (0x4000 + k) as u16) == rom_read_spec(c, bank, k as usize)
        }),
{
    let bank: usize = if v & 0x7F == 0 { 1 } else { (v & 0x7F) as usize };
    assert(bank & 0x7F == bank && bank != 0) by (bit_vector)
        requires
            bank == (if v & 0x7F == 0 { 1 } else { (v & 0x7F) as usize }),
    ;
}

/// MBC5 bank switching: the low eight bank bits written to 0x2000..0x2FFF
/// and the ninth written to 0x3000..0x3FFF select any of 512 ROM banks at
/// 0x4000..0x7FFF, bank 0 included.
pub proof fn lemma_mbc5_bank_switch(c: CartView, a1: u16, lo: u8, a2: u16, hi: u8, k: u16)
    requires
        c.mbc == MbcType::Mbc5,
        c.rom_bank <= 0x1FF,
        0x2000 <= a1 <= 0x2FFF,
        0x3000 <= a2 <= 0x3FFF,
        k < 0x4000,
    ensures
        ({
            let c2 = cart_write_spec(cart_write_spec(c, a1, lo), a2, hi);
            let bank: usize = (((hi & 0x01) as usize) << 8usize) | (lo as usize);
            cart_read_spec(c2, (0x4000 + k) as u16) == rom_read_spec(c, bank, k as usize)
        }),
{
    let x = c.rom_bank;
    assert(((((x & 0x100) | (lo as usize)) & 0x0FF) | (((hi & 0x01) as usize) << 8usize)) & 0x1FF == (((hi
        & 0x01) as usize) << 8usize) | (lo as usize)) by (bit_vector);
}

/// OAM DMA: writing XX to 0xFF46 copies XX00..XX9F into OAM, so that
/// 0xFE00 + i then reads what XX00 + i read before the write.
pub proof fn lemma_oam_dma(b: BusView, v: u8, i: u16)
    requires
        bus_view_wf(b),
        i < 160,
    ensures
        bus_read_spec(bus_write_spec(b, 0xFF46, v), (0xFE00 + i) as u16) == bus_read_spec(
            b,
            (v as int * 256 + i) as u16,
        ),
{
    reveal(bus_read_spec);
    reveal(bus_write_spec);
    let w = bus_write_spec(b, 0xFF46, v);
    assert(w == io_write_spec(b, 0xFF46, v, GDMA_NESTING as nat));
    assert(w == crate::bus::oam_dma_spec(b, v));
}

/// The VRAM DMA unit after `k` blocks.
pub open spec fn hdma_after_blocks(h: Hdma, k: nat) -> Hdma
    decreases k,
{
    if k == 0 {
        h
    } else {
        hdma_chunk_spec(hdma_after_blocks(h, (k - 1) as nat)).0
    }
}

/// A VRAM DMA started by writing HDMA5 = v (H-Blank mode when bit 7 is set)
/// moves `(v & 0x7F) + 1` blocks of 16 bytes: block `k` copies from
/// source + 16k to destination + 16k, HDMA5 reads the blocks still to go
/// minus one, and after the last block the unit is idle and HDMA5 reads 0xFF.
pub proof fn lemma_hdma_blocks(h: Hdma, v: u8, k: nat)
    requires
        k <= (v & 0x7F) as nat + 1,
    ensures
        ({
            let h1 = hdma_write_spec(h, 0xFF55, v);
            let n = (v & 0x7F) as nat + 1;
            let hk = hdma_after_blocks(h1, k);
            &&& h1.mode == (if v & 0x80 != 0 { HdmaMode::HDMA } else { HdmaMode::GDMA })
            &&& hk.src == (h.src + 16 * k) % 0x10000
            &&& hk.dst == (h.dst + 16 * k) % 0x10000
            &&& hk.bytes_remaining == 16 * (n - k)
            &&& hk.active == (k < n)
            &&& (k < n ==> hdma_chunk_spec(hk).1 == Some((hk.src, hk.dst, 16u16)))
            &&& (k < n ==> hdma_status_spec(hk) == (n - k - 1) as u8)
            &&& (k == n ==> hdma_status_spec(hk) == 0xFF)
        }),
    decreases k,
{
    assert((v & 0x7F) <= 0x7F) by (bit_vector);
    let h1 = hdma_write_spec(h, 0xFF55, v);
    let n = (v & 0x7F) as nat + 1;
    if k > 0 {
        lemma_hdma_blocks(h, v, (k - 1) as nat);
        let hp = hdma_after_blocks(h1, (k - 1) as nat);
        vstd::arithmetic::div_mod::lemma_add_mod_noop(h.src + 16 * (k - 1), 16, 0x10000);
        vstd::arithmetic::div_mod::lemma_add_mod_noop(h.dst + 16 * (k - 1), 16, 0x10000);
        assert(hp.src.wrapping_add(16) == (h.src + 16 * k) % 0x10000);
        assert(hp.dst.wrapping_add(16) == (h.dst + 16 * k) % 0x10000);
    }
    let hk = hdma_after_blocks(h1, k);
    if k < n {
        assert((16 * (n - k)) / 16 == n - k);
        let left = (n - k - 1) as u8;
        assert(left & 0x7F == left) by (bit_vector)
            requires
                left <= 0x7F,
        ;
    }
}

/// The OAM DMA unit after `k` steps.
pub open spec fn oam_dma_after_steps(d: OamDma, k: nat) -> OamDma
    decreases k,
{
    if k == 0 {
        d
    } else {
        oam_dma_step_spec(oam_dma_after_steps(d, (k - 1) as nat)).0
    }
}

/// The OAM DMA sequence: after a start with source page `v`, the first two
/// steps copy nothing (the start-up delay), steps 3..162 copy bytes 0..159
/// from `v * 256 + i` to OAM byte `i`, and after the 162nd step the unit is
/// idle and copies nothing more.
pub proof fn lemma_oam_dma_sequence(d0: OamDma, v: u8, k: nat)
    requires
        k <= 162,
    ensures
        ({
            let d = oam_dma_start_spec(d0, v);
            let dk = oam_dma_after_steps(d, k);
            &&& dk.source == d.source
            &&& d.source == v as int * 256
            &&& (k < 2 ==> dk.active && dk.delay == 2 - k && dk.byte_index == 0)
            &&& (k < 2 ==> oam_dma_step_spec(dk).1 is None)
            &&& (2 <= k ==> dk.delay == 0 && dk.byte_index == k - 2 && dk.active == (k < 162))
            &&& (2 <= k < 162 ==> oam_dma_step_spec(dk).1 == Some(
                ((v as int * 256 + (k - 2)) as u16, (k - 2) as u8),
            ))
            &&& (k == 162 ==> oam_dma_step_spec(dk) == (dk, None::<(u16, u8)>))
        }),
    decreases k,
{
    let d = oam_dma_start_spec(d0, v);
    lemma_byte_facts(v, 0);
    if k > 0 {
        lemma_oam_dma_sequence(d0, v, (k - 1) as nat);
    }
}

/// The mode a running LCD is in at line `ly`, dot `dot`: V-Blank on lines
/// 144..153; otherwise OAM scan for dots 0..79, drawing for 80..251 and
/// H-Blank for the rest of the line.
pub open spec fn frame_mode(ly: int, dot: int) -> crate::ppu::PpuMode {
    if ly >= 144 {
        crate::ppu::PpuMode::VBlank
    } else if dot < 80 {
        crate::ppu::PpuMode::OamScan
    } else if dot < 252 {
        crate::ppu::PpuMode::Drawing
    } else {
        crate::ppu::PpuMode::HBlank
    }
}

/// One dot keeps line, dot and mode on the frame schedule.
proof fn lemma_tick_on_schedule(p: PpuView)
    requires
        p.ly <= 153,
        p.dot < crate::ppu::HBLANK_MAX_END,
        p.mode == frame_mode(p.ly as int, p.dot as int),
    ensures
        ({
            let q = crate::ppu::tick_spec(p);
            &&& (p.dot + 1 < 456 ==> q.ly == p.ly && q.dot == p.dot + 1)
            &&& (p.dot == 455 ==> q.dot == 0 && q.ly == (if p.ly == 153 { 0 } else { p.ly + 1 }))
            &&& q.mode == frame_mode(q.ly as int, q.dot as int)
            &&& (p.ly == 143 && p.dot == 455 ==> q.vblank_irq)
        }),
{
}

/// Dots per frame: 154 lines of 456 dots.
pub open spec fn dots_per_frame() -> nat {
    154 * 456
}

/// A whole frame: from line 0, dot 0 in OAM scan, dot `k` of the frame is
/// line `k / 456`, dot `k % 456`, in the mode of the frame schedule (so LY
/// takes each value 0..153 in order and V-Blank lasts exactly lines
/// 144..153); the V-Blank interrupt is requested as line 144 begins; and
/// after 70224 dots the PPU is back at line 0, dot 0, in OAM scan.
pub proof fn lemma_frame(p: PpuView, k: nat)
    requires
        p.ly == 0,
        p.dot == 0,
        p.mode == crate::ppu::PpuMode::OamScan,
        k <= dots_per_frame(),
    ensures
        ({
            let q = crate::ppu::ticks_spec(p, k);
            &&& (k < dots_per_frame() ==> q.ly == k / 456 && q.dot == k % 456 && q.mode == frame_mode(
                (k / 456) as int,
                (k % 456) as int,
            ))
            &&& (k == 144 * 456 ==> q.vblank_irq)
            &&& (k == dots_per_frame() ==> q.ly == 0 && q.dot == 0 && q.mode == crate::ppu::PpuMode::OamScan)
        }),
    decreases k,
{
    if k > 0 {
        let k1 = (k - 1) as nat;
        lemma_frame(p, k1);
        let q1 = crate::ppu::ticks_spec(p, k1);
        lemma_tick_on_schedule(q1);
        assert(k1 == 456 * (k1 / 456) + k1 % 456);
        if k1 % 456 < 455 {
            assert(k / 456 == k1 / 456 && k % 456 == k1 % 456 + 1);
        } else {
            assert(k / 456 == k1 / 456 + 1 && k % 456 == 0);
        }
    }
}

/// The position of a PPU in the frame, in dots from line 0, dot 0.
pub open spec fn frame_pos(p: PpuView) -> int {
    p.ly as int * 456 + p.dot as int
}

/// The PPU is on the frame schedule: a valid line and dot, and the mode
/// that the schedule gives them.
pub open spec fn on_schedule(p: PpuView) -> bool {
    &&& p.ly <= 153
    &&& p.dot < crate::ppu::HBLANK_MAX_END
    &&& p.mode == frame_mode(p.ly as int, p.dot as int)
}

/// From any point of the frame schedule, `k` dots later the PPU is `k` dots
/// further along it, wrapping after 70224 dots.
pub proof fn lemma_schedule(p: PpuView, k: nat)
    requires
        on_schedule(p),
    ensures
        on_schedule(crate::ppu::ticks_spec(p, k)),
        frame_pos(crate::ppu::ticks_spec(p, k)) == (frame_pos(p) + k) % (dots_per_frame() as int),
    decreases k,
{
    if k > 0 {
        let k1 = (k - 1) as nat;
        lemma_schedule(p, k1);
        let q1 = crate::ppu::ticks_spec(p, k1);
        lemma_tick_on_schedule(q1);
        vstd::arithmetic::div_mod::lemma_add_mod_noop(frame_pos(p) + k1, 1, 70224);
        let e1 = frame_pos(q1);
        assert(0 <= e1 < 70224);
        if e1 + 1 < 70224 {
            vstd::arithmetic::div_mod::lemma_small_mod((e1 + 1) as nat, 70224);
        }
    } else {
        vstd::arithmetic::div_mod::lemma_small_mod(frame_pos(p) as nat, 70224);
    }
}

/// Running LCD steps keep the PPU on the frame schedule and move it by the
/// step's dots, so steps whose lengths add up to 70224 bring it back to the
/// same line, dot and mode.
pub proof fn lemma_step_on_schedule(p: PpuView, n: nat)
    requires
        on_schedule(p),
        crate::ppu::lcd_enabled_spec(p),
    ensures
        on_schedule(crate::ppu::ppu_step_spec(p, n)),
        frame_pos(crate::ppu::ppu_step_spec(p, n)) == (frame_pos(p) + n) % (dots_per_frame() as int),
{
    lemma_schedule(PpuView { hblank_flag: false, ..p }, n);
}

/// T-cycles per TIMA increment for TAC's clock select (TAC mod 4): 4096 Hz,
/// 262144 Hz, 65536 Hz and 16384 Hz of the 4194304 Hz clock.
pub open spec fn clock_period(tac: u8) -> nat {
    let m = tac % 4;
    if m == 0 {
        1024
    } else if m == 1 {
        16
    } else if m == 2 {
        64
    } else {
        256
    }
}

/// Counter bits as remainders, and TAC's fields as arithmetic.
proof fn lemma_timer_bits(x: u16, tac: u8)
    ensures
        (x & 0x200 != 0) == (x % 0x400 >= 0x200),
        (x & 0x08 != 0) == (x % 0x10 >= 0x08),
        (x & 0x20 != 0) == (x % 0x40 >= 0x20),
        (x & 0x80 != 0) == (x % 0x100 >= 0x80),
        tac & 0x03 == tac % 4,
        (tac & 0x04 != 0) == ((tac / 4) % 2 == 1),
{
    assert((x & 0x200 != 0) == (x % 0x400 >= 0x200) && (x & 0x08 != 0) == (x % 0x10 >= 0x08) && (x & 0x20
        != 0) == (x % 0x40 >= 0x20) && (x & 0x80 != 0) == (x % 0x100 >= 0x80) && tac & 0x03 == tac % 4 && (
    tac & 0x04 != 0) == ((tac / 4) % 2 == 1)) by (bit_vector);
}

/// One cycle inside a period for clock select 0 (1024 cycles, counter bit
/// 0x200).
proof fn lemma_tima_tick_select_0(u: Timer, j: nat)
    requires
        (u.tac / 4) % 2 == 1,
        u.tac % 4 == 0,
        1 <= j <= 1024,
        u.div_counter as int % 1024 == j - 1,
        u.tima < 0xFF,
        !u.overflow_pending,
    ensures
        crate::timer::tick_spec(u).tima == u.tima + (if j == 1024 { 1int } else { 0 }),
        !crate::timer::tick_spec(u).overflow_pending,
        crate::timer::tick_spec(u).tac == u.tac,
{
    let d = u.div_counter.wrapping_add(1);
    lemma_timer_bits(u.div_counter, u.tac);
    lemma_timer_bits(d, u.tac);
    assert(d as int % 1024 == j % 1024);
    assert(crate::timer::tima_bit_spec(u.tac) == 0x200);
    assert(crate::timer::timer_enabled_spec(u.tac));
    assert((u.div_counter & 0x200 != 0) == (j - 1 >= 512));
    assert((d & 0x200 == 0) == (j % 1024 < 512));
}

/// One cycle inside a period for clock select 1 (16 cycles, counter bit
/// 0x8).
proof fn lemma_tima_tick_select_1(u: Timer, j: nat)
    requires
        (u.tac / 4) % 2 == 1,
        u.tac % 4 == 1,
        1 <= j <= 16,
        u.div_counter as int % 16 == j - 1,
        u.tima < 0xFF,
        !u.overflow_pending,
    ensures
        crate::timer::tick_spec(u).tima == u.tima + (if j == 16 { 1int } else { 0 }),
        !crate::timer::tick_spec(u).overflow_pending,
        crate::timer::tick_spec(u).tac == u.tac,
{
    let d = u.div_counter.wrapping_add(1);
    lemma_timer_bits(u.div_counter, u.tac);
    lemma_timer_bits(d, u.tac);
    assert(d as int % 16 == j % 16);
    assert(crate::timer::tima_bit_spec(u.tac) == 0x8);
    assert(crate::timer::timer_enabled_spec(u.tac));
    assert((u.div_counter & 0x8 != 0) == (j - 1 >= 8));
    assert((d & 0x8 == 0) == (j % 16 < 8));
}

/// One cycle inside a period for clock select 2 (64 cycles, counter bit
/// 0x20).
proof fn lemma_tima_tick_select_2(u: Timer, j: nat)
    requires
        (u.tac / 4) % 2 == 1,
        u.tac % 4 == 2,
        1 <= j <= 64,
        u.div_counter as int % 64 == j - 1,
        u.tima < 0xFF,
        !u.overflow_pending,
    ensures
        crate::timer::tick_spec(u).tima == u.tima + (if j == 64 { 1int } else { 0 }),
        !crate::timer::tick_spec(u).overflow_pending,
        crate::timer::tick_spec(u).tac == u.tac,
{
    let d = u.div_counter.wrapping_add(1);
    lemma_timer_bits(u.div_counter, u.tac);
    lemma_timer_bits(d, u.tac);
    assert(d as int % 64 == j % 64);
    assert(crate::timer::tima_bit_spec(u.tac) == 0x20);
    assert(crate::timer::timer_enabled_spec(u.tac));
    assert((u.div_counter & 0x20 != 0) == (j - 1 >= 32));
    assert((d & 0x20 == 0) == (j % 64 < 32));
}

/// One cycle inside a period for clock select 3 (256 cycles, counter bit
/// 0x80).
proof fn lemma_tima_tick_select_3(u: Timer, j: nat)
    requires
        (u.tac / 4) % 2 == 1,
        u.tac % 4 == 3,
        1 <= j <= 256,
        u.div_counter as int % 256 == j - 1,
        u.tima < 0xFF,
        !u.overflow_pending,
    ensures
        crate::timer::tick_spec(u).tima == u.tima + (if j == 256 { 1int } else { 0 }),
        !crate::timer::tick_spec(u).overflow_pending,
        crate::timer::tick_spec(u).tac == u.tac,
{
    let d = u.div_counter.wrapping_add(1);
    lemma_timer_bits(u.div_counter, u.tac);
    lemma_timer_bits(d, u.tac);
    assert(d as int % 256 == j % 256);
    assert(crate::timer::tima_bit_spec(u.tac) == 0x80);
    assert(crate::timer::timer_enabled_spec(u.tac));
    assert((u.div_counter & 0x80 != 0) == (j - 1 >= 128));
    assert((d & 0x80 == 0) == (j % 256 < 128));
}

/// The first `j` cycles of a period that starts on a period boundary.
proof fn lemma_tima_period_ticks(t: Timer, j: nat)
    requires
        (t.tac / 4) % 2 == 1,
        t.div_counter as int % clock_period(t.tac) as int == 0,
        t.tima < 0xFF,
        !t.overflow_pending,
        j <= clock_period(t.tac),
    ensures
        ticks_spec(t, j).tima == t.tima + (if j == clock_period(t.tac) { 1int } else { 0 }),
        !ticks_spec(t, j).overflow_pending,
        ticks_spec(t, j).tac == t.tac,
    decreases j,
{
    if j > 0 {
        let j1 = (j - 1) as nat;
        lemma_tima_period_ticks(t, j1);
        lemma_ticks(t, j1);
        let u = ticks_spec(t, j1);
        let m = t.tac % 4;
        if m == 0 {
            assert(u.div_counter % 1024 == j1);
        } else if m == 1 {
            assert(u.div_counter % 16 == j1);
        } else if m == 2 {
            assert(u.div_counter % 64 == j1);
        } else {
            assert(u.div_counter % 256 == j1);
        }
        if m == 0 {
            lemma_tima_tick_select_0(u, j);
        } else if m == 1 {
            lemma_tima_tick_select_1(u, j);
        } else if m == 2 {
            lemma_tima_tick_select_2(u, j);
        } else {
            lemma_tima_tick_select_3(u, j);
        }
    }
}

/// TIMA's rate: with the timer enabled (TAC bit 2) and the counter behind
/// DIV at a multiple of `clock_period(tac)`, TIMA stays put for the first
/// `clock_period(tac) - 1` cycles and has advanced by exactly one after
/// `clock_period(tac)` cycles: 1024, 16, 64 or 256 cycles per increment for
/// clock selects 0, 1, 2 and 3.
pub proof fn lemma_tima_rate(t: Timer, j: nat)
    requires
        (t.tac / 4) % 2 == 1,
        t.div_counter as int % clock_period(t.tac) as int == 0,
        t.tima < 0xFF,
        !t.overflow_pending,
        j <= clock_period(t.tac),
    ensures
        timer_step_spec(t, j).tima == t.tima + (if j == clock_period(t.tac) { 1int } else { 0 }),
        !timer_step_spec(t, j).overflow_pending,
{
    lemma_tima_period_ticks(t, j);
}

/// Tile-pixel and attribute fields as arithmetic.
proof fn lemma_sprite_bits(lo: u8, hi: u8, k: u8, flags: u8, lcdc: u8)
    requires
        k < 8,
    ensures
        crate::ppu::color_index_spec(lo, hi, k) as int == ((lo >> k) & 1) as int + 2 * ((hi >> k) & 1) as int,
        (flags & 0x20 != 0) == ((flags / 32) % 2 == 1),
        (flags & 0x40 != 0) == ((flags / 64) % 2 == 1),
        (flags & 0x10 != 0) == ((flags / 16) % 2 == 1),
        (lcdc & 0x04 != 0) == ((lcdc / 4) % 2 == 1),
{
    assert((((hi >> k) & 1) << 1u8) | ((lo >> k) & 1) == (((lo >> k) & 1) + 2 * ((hi >> k) & 1)) as u8 && ((
    lo >> k) & 1) + 2 * ((hi >> k) & 1) <= 3 && (flags & 0x20 != 0) == ((flags / 32) % 2 == 1) && (flags
        & 0x40 != 0) == ((flags / 64) % 2 == 1) && (flags & 0x10 != 0) == ((flags / 16) % 2 == 1) && (lcdc
        & 0x04 != 0) == ((lcdc / 4) % 2 == 1)) by (bit_vector)
        requires
            k < 8,
    ;
}

/// How a DMG sprite's attributes shape what it paints (8-pixel sprites, on
/// background colour 0): at column d of the sprite (screen x = X - 8 + d)
/// on its row r (LY + 16 - Y), the pixel comes from tile row r, or 7 - r
/// when attribute bit 6 (Y flip) is set, and from tile bit 7 - d, or d when
/// attribute bit 5 (X flip) is set, the low tile byte giving bit 0 of the
/// colour and the high byte bit 1; colour 0 is transparent, and attribute
/// bit 4 picks OBP1 over OBP0.
pub proof fn lemma_sprite_attributes(p: PpuView, s: Sprite, d: int)
    requires
        p.model == Model::DMG,
        (p.lcdc / 4) % 2 == 0,
        p.vram.len() == VRAM_SIZE,
        p.scanline_bg_color.len() == 160,
        0 <= d < 8,
        0 <= s.x - 8 + d < 160,
        0 <= p.ly + 16 - s.y < 8,
        p.scanline_bg_color[s.x - 8 + d] == 0,
    ensures
        ({
            let r = p.ly + 16 - s.y;
            let row = if (s.flags / 64) % 2 == 1 { 7 - r } else { r };
            let k = (if (s.flags / 32) % 2 == 1 { d } else { 7 - d }) as u8;
            let a = s.tile * 16 + row * 2;
            let lo = p.vram[a];
            let hi = p.vram[a + 1];
            let ci = ((lo >> k) & 1) as int + 2 * ((hi >> k) & 1) as int;
            let pal = if (s.flags / 16) % 2 == 1 { p.obp1 } else { p.obp0 };
            crate::ppu::sprite_pixel_spec(p, s, s.x - 8 + d) == (if ci == 0 {
                None
            } else {
                Some(crate::ppu::dmg_palette_spec(pal, ci as u8))
            })
        }),
{
    let r = p.ly + 16 - s.y;
    let k = (if (s.flags / 32) % 2 == 1 { d } else { 7 - d }) as u8;
    let row = if (s.flags / 64) % 2 == 1 { 7 - r } else { r };
    let a = s.tile * 16 + row * 2;
    lemma_sprite_bits(p.vram[a], p.vram[a + 1], k, s.flags, p.lcdc);
}

} // verus!
