use vstd::prelude::*;
use crate::audio::{Apu, apu_read_spec, apu_write_spec, APU_REGS};
use crate::bits::{lemma_bit_masks, lemma_byte_facts, lemma_word_split};
use crate::cartridge::{Cartridge, CartView, cart_read_spec, cart_write_spec};
use crate::dma::{
    Hdma,
    HdmaMode,
    OamDma,
    hdma_chunk_spec,
    hdma_status_spec,
    hdma_write_spec,
    oam_dma_start_spec,
};
use crate::joypad::{Joypad, joypad_read_spec};
use crate::model::Model;
use crate::ppu::{
    Ppu,
    PpuView,
    ppu_read_spec,
    ppu_step_spec,
    ppu_write_spec,
    OAM_SIZE,
    VRAM_BANK_SIZE,
    ppu_new_spec,
};
use crate::serial::{Serial, SerialView, serial_read_spec, serial_write_spec};
use crate::timer::{Timer, timer_read_spec, timer_step_spec, timer_write_spec};

verus! {

/// Interrupt flag bits (IF 0xFF0F, IE 0xFFFF).
pub const IRQ_VBLANK: u8 = 0x01;

pub const IRQ_STAT: u8 = 0x02;

pub const IRQ_TIMER: u8 = 0x04;

pub const IRQ_SERIAL: u8 = 0x08;

pub const IRQ_JOYPAD: u8 = 0x10;

/// Size of one WRAM bank; eight banks are stored back to back.
pub const WRAM_BANK_SIZE: usize = 0x1000;

pub const WRAM_SIZE: usize = 0x8000;

pub const HRAM_SIZE: usize = 0x7F;

/// How deeply a VRAM DMA may start another one by copying into HDMA5.
///
/// A DMA copy reaches HDMA5 only through a block at 0xFF50, whose write to
/// HDMA3 first moves the destination into VRAM; the transfer started there
/// stays below 0xA800 and starts no further one. Two levels therefore
/// cover every run.
pub const GDMA_NESTING: u8 = 2;

/// Most blocks one general-purpose DMA run copies. A transfer is at most
/// 128 blocks, and at most one more transfer can be started from inside
/// it, so no run comes near this bound.
pub const GDMA_MAX_BLOCKS: u32 = 0x10000;

/// Memory bus, DMG and CGB: the memory map over cartridge, VRAM, WRAM
/// (eight CGB banks at 0xD000), OAM, I/O registers and HRAM; interrupts;
/// OAM and VRAM DMA; the CGB speed switch.
pub struct Bus {
    pub cart: Cartridge,
    pub ppu: Ppu,
    pub timer: Timer,
    pub joypad: Joypad,
    pub apu: Apu,
    pub serial: Serial,
    pub oam_dma: OamDma,
    pub hdma: Hdma,
    /// 8 WRAM banks of 4 KiB (bank 0 always at 0xC000, bank 1..7 at 0xD000)
    pub wram: Vec<u8>,
    /// Bank at 0xD000..0xDFFF (1..7; switchable on CGB only)
    pub wram_bank: usize,
    pub hram: Vec<u8>,
    pub interrupt_flag: u8,
    pub interrupt_enable: u8,
    pub boot_rom: Option<Vec<u8>>,
    pub boot_rom_enabled: bool,
    pub model: Model,
    pub double_speed: bool,
    /// KEY1 bit 0 set
    pub speed_switch_armed: bool,
}

/// Model of the bus and everything on it.
#[verifier::ext_equal]
pub ghost struct BusView {
    pub cart: CartView,
    pub ppu: PpuView,
    pub timer: Timer,
    pub joypad: Joypad,
    pub apu: Seq<u8>,
    pub serial: SerialView,
    pub oam_dma: OamDma,
    pub hdma: Hdma,
    pub wram: Seq<u8>,
    pub wram_bank: usize,
    pub hram: Seq<u8>,
    pub interrupt_flag: u8,
    pub interrupt_enable: u8,
    pub boot_rom: Option<Seq<u8>>,
    pub boot_rom_enabled: bool,
    pub model: Model,
    pub double_speed: bool,
    pub speed_switch_armed: bool,
}

pub open spec fn boot_rom_view(b: &Option<Vec<u8>>) -> Option<Seq<u8>> {
    match b {
        Some(v) => Some(v@),
        None => None,
    }
}

impl View for Bus {
    type V = BusView;

    open spec fn view(&self) -> BusView {
        BusView {
            cart: self.cart@,
            ppu: self.ppu@,
            timer: self.timer,
            joypad: self.joypad,
            apu: self.apu.regs@,
            serial: self.serial@,
            oam_dma: self.oam_dma,
            hdma: self.hdma,
            wram: self.wram@,
            wram_bank: self.wram_bank,
            hram: self.hram@,
            interrupt_flag: self.interrupt_flag,
            interrupt_enable: self.interrupt_enable,
            boot_rom: boot_rom_view(&self.boot_rom),
            boot_rom_enabled: self.boot_rom_enabled,
            model: self.model,
            double_speed: self.double_speed,
            speed_switch_armed: self.speed_switch_armed,
        }
    }
}

// ─── Read ───────────────────────────────────────────────────────────────────

/// Offset in WRAM of an address in the switchable bank's window.
pub open spec fn wram_banked(b: BusView, off: int) -> int {
    b.wram_bank * WRAM_BANK_SIZE + off
}

/// What a read of `addr` gives.
///
/// While the boot ROM is mapped it shadows 0x0000..0x00FF, and on CGB also
/// 0x0200..0x08FF. 0xE000..0xFDFF mirrors WRAM; unused regions read 0xFF.
#[verifier::opaque]
pub open spec fn bus_read_spec(b: BusView, addr: u16) -> u8 {
    if addr <= 0x00FF && b.boot_rom_enabled {
        match b.boot_rom {
            Some(r) => r[addr as int],
            None => 0xFF,
        }
    } else if 0x0200 <= addr <= 0x08FF && b.boot_rom_enabled && b.model == Model::CGB {
        match b.boot_rom {
            Some(r) => if (addr as int) < r.len() { r[addr as int] } else { 0xFF },
            None => 0xFF,
        }
    } else if addr <= 0x7FFF {
        cart_read_spec(b.cart, addr)
    } else if addr <= 0x9FFF {
        b.ppu.vram[b.ppu.vram_bank * VRAM_BANK_SIZE + (addr - 0x8000)]
    } else if addr <= 0xBFFF {
        cart_read_spec(b.cart, addr)
    } else if addr <= 0xCFFF {
        b.wram[addr - 0xC000]
    } else if addr <= 0xDFFF {
        b.wram[wram_banked(b, addr - 0xD000)]
    } else if addr <= 0xEFFF {
        b.wram[addr - 0xE000]
    } else if addr <= 0xFDFF {
        b.wram[wram_banked(b, addr - 0xF000)]
    } else if addr <= 0xFE9F {
        b.ppu.oam[addr - 0xFE00]
    } else if addr <= 0xFEFF {
        0xFF
    } else {
        io_read_spec(b, addr)
    }
}

/// Reads in 0xFF00..0xFFFF: the I/O registers, HRAM and IE.
pub open spec fn io_read_spec(b: BusView, addr: u16) -> u8 {
    if addr == 0xFF00 {
        joypad_read_spec(b.joypad)
    } else if 0xFF01 <= addr <= 0xFF02 {
        serial_read_spec(b.serial, addr)
    } else if 0xFF04 <= addr <= 0xFF07 {
        timer_read_spec(b.timer, addr)
    } else if addr == 0xFF0F {
        b.interrupt_flag | 0xE0
    } else if 0xFF10 <= addr <= 0xFF3F {
        apu_read_spec(b.apu, addr)
    } else if 0xFF40 <= addr <= 0xFF4B {
        ppu_read_spec(b.ppu, addr)
    } else if addr == 0xFF4D {
        (if b.double_speed { 0x80u8 } else { 0u8 }) | (if b.speed_switch_armed { 1u8 } else { 0u8 })
            | 0x7E
    } else if addr == 0xFF4F {
        ppu_read_spec(b.ppu, addr)
    } else if 0xFF51 <= addr <= 0xFF55 {
        hdma_status_spec(b.hdma)
    } else if 0xFF68 <= addr <= 0xFF6B {
        ppu_read_spec(b.ppu, addr)
    } else if addr == 0xFF70 {
        (b.wram_bank as u8) | 0xF8
    } else if 0xFF80 <= addr <= 0xFFFE {
        b.hram[addr - 0xFF80]
    } else if addr == 0xFFFF {
        b.interrupt_enable
    } else {
        0xFF
    }
}

/// A little-endian word: the byte at `addr` is the low half.
pub open spec fn bus_read16_spec(b: BusView, addr: u16) -> u16 {
    (bus_read_spec(b, addr) as int + 256 * bus_read_spec(b, addr.wrapping_add(1)) as int) as u16
}

// ─── Write ──────────────────────────────────────────────────────────────────

/// Writes below 0xFF00: cartridge (ROM area goes to the controller), VRAM
/// bank, WRAM, echo RAM, OAM.
pub open spec fn mem_write_spec(b: BusView, addr: u16, val: u8) -> BusView {
    if addr <= 0x7FFF {
        BusView { cart: cart_write_spec(b.cart, addr, val), ..b }
    } else if addr <= 0x9FFF {
        BusView {
            ppu: PpuView {
                vram: b.ppu.vram.update(b.ppu.vram_bank * VRAM_BANK_SIZE + (addr - 0x8000), val),
                ..b.ppu
            },
            ..b
        }
    } else if addr <= 0xBFFF {
        BusView { cart: cart_write_spec(b.cart, addr, val), ..b }
    } else if addr <= 0xCFFF {
        BusView { wram: b.wram.update(addr - 0xC000, val), ..b }
    } else if addr <= 0xDFFF {
        BusView { wram: b.wram.update(wram_banked(b, addr - 0xD000), val), ..b }
    } else if addr <= 0xEFFF {
        BusView { wram: b.wram.update(addr - 0xE000, val), ..b }
    } else if addr <= 0xFDFF {
        BusView { wram: b.wram.update(wram_banked(b, addr - 0xF000), val), ..b }
    } else if addr <= 0xFE9F {
        BusView { ppu: PpuView { oam: b.ppu.oam.update(addr - 0xFE00, val), ..b.ppu }, ..b }
    } else {
        b
    }
}

/// OAM DMA as this bus performs it: the 160 bytes are copied at once, and
/// the DMA unit records the start.
pub open spec fn oam_dma_spec(b: BusView, val: u8) -> BusView {
    let src = (val as int) * 256;
    BusView {
        ppu: PpuView {
            oam: Seq::new(OAM_SIZE as nat, |i: int| bus_read_spec(b, (src + i) as u16)),
            ..b.ppu
        },
        oam_dma: oam_dma_start_spec(b.oam_dma, val),
        ..b
    }
}

/// The bus after writing `val` at `addr`, where a VRAM DMA started by the
/// write may nest `depth` more levels.
pub open spec fn bus_write_at(b: BusView, addr: u16, val: u8, depth: nat) -> BusView
    decreases depth, 2nat, 0nat,
{
    if addr < 0xFF00 {
        mem_write_spec(b, addr, val)
    } else {
        io_write_spec(b, addr, val, depth)
    }
}

/// Writes in 0xFF00..0xFFFF.
///
/// 0xFF46 starts OAM DMA; 0xFF50 with bit 0 set unmaps the boot ROM. On CGB
/// only: KEY1 arms the speed switch, HDMA1..5 program the VRAM DMA (HDMA5
/// starting it, at once for a general-purpose transfer), SVBK selects a
/// WRAM bank (0 selects 1).
pub open spec fn io_write_spec(b: BusView, addr: u16, val: u8, depth: nat) -> BusView
    decreases depth, 1nat, 0nat,
{
    let cgb = b.model == Model::CGB;
    if addr == 0xFF00 {
        BusView { joypad: Joypad { select_action: val & 0x20 == 0, select_direction: val & 0x10 == 0, ..b.joypad }, ..b }
    } else if 0xFF01 <= addr <= 0xFF02 {
        BusView { serial: serial_write_spec(b.serial, addr, val), ..b }
    } else if 0xFF04 <= addr <= 0xFF07 {
        BusView { timer: timer_write_spec(b.timer, addr, val), ..b }
    } else if addr == 0xFF0F {
        BusView { interrupt_flag: val | 0xE0, ..b }
    } else if 0xFF10 <= addr <= 0xFF3F {
        BusView { apu: apu_write_spec(b.apu, addr, val), ..b }
    } else if addr == 0xFF46 {
        oam_dma_spec(b, val)
    } else if 0xFF40 <= addr <= 0xFF4B {
        BusView { ppu: ppu_write_spec(b.ppu, addr, val), ..b }
    } else if addr == 0xFF4D {
        if cgb { BusView { speed_switch_armed: val & 0x01 != 0, ..b } } else { b }
    } else if addr == 0xFF4F {
        BusView { ppu: ppu_write_spec(b.ppu, addr, val), ..b }
    } else if addr == 0xFF50 {
        if val & 0x01 != 0 { BusView { boot_rom_enabled: false, ..b } } else { b }
    } else if 0xFF51 <= addr <= 0xFF55 {
        if cgb {
            let b2 = BusView { hdma: hdma_write_spec(b.hdma, addr, val), ..b };
            if addr == 0xFF55 && depth > 0 {
                gdma_spec(b2, (depth - 1) as nat)
            } else {
                b2
            }
        } else {
            b
        }
    } else if 0xFF68 <= addr <= 0xFF6B {
        BusView { ppu: ppu_write_spec(b.ppu, addr, val), ..b }
    } else if addr == 0xFF70 {
        if cgb {
            let bank = (val & 0x07) as usize;
            BusView { wram_bank: if bank == 0 { 1 } else { bank }, ..b }
        } else {
            b
        }
    } else if 0xFF80 <= addr <= 0xFFFE {
        BusView { hram: b.hram.update(addr - 0xFF80, val), ..b }
    } else if addr == 0xFFFF {
        BusView { interrupt_enable: val, ..b }
    } else {
        b
    }
}

/// Copying bytes `i..len` of a DMA block, each read then written.
pub open spec fn copy_block_spec(b: BusView, src: u16, dst: u16, i: nat, len: nat, depth: nat) -> BusView
    decreases depth, 3nat, len - i,
{
    if i >= len {
        b
    } else {
        let v = bus_read_spec(b, (src + i) as u16);
        copy_block_spec(bus_write_at(b, (dst + i) as u16, v, depth), src, dst, i + 1, len, depth)
    }
}

/// Up to `fuel` more blocks of a running VRAM DMA, until it finishes.
pub open spec fn gdma_loop_spec(b: BusView, depth: nat, fuel: nat) -> BusView
    decreases depth, 4nat, fuel,
{
    if !b.hdma.active || fuel == 0 {
        b
    } else {
        let (h, r) = hdma_chunk_spec(b.hdma);
        let b1 = BusView { hdma: h, ..b };
        match r {
            Some((s, d, n)) => gdma_loop_spec(
                copy_block_spec(b1, s, d, 0, n as nat, depth),
                depth,
                (fuel - 1) as nat,
            ),
            None => gdma_loop_spec(b1, depth, (fuel - 1) as nat),
        }
    }
}

/// A general-purpose DMA: the whole transfer at once, if one is armed.
pub open spec fn gdma_spec(b: BusView, depth: nat) -> BusView
    decreases depth, 5nat, 0nat,
{
    if !b.hdma.active || b.hdma.mode != HdmaMode::GDMA {
        b
    } else {
        gdma_loop_spec(b, depth, GDMA_MAX_BLOCKS as nat)
    }
}

/// The bus after writing `val` at `addr`.
#[verifier::opaque]
pub open spec fn bus_write_spec(b: BusView, addr: u16, val: u8) -> BusView {
    bus_write_at(b, addr, val, GDMA_NESTING as nat)
}

/// A little-endian word: low byte at `addr`, high byte at `addr + 1`.
pub open spec fn bus_write16_spec(b: BusView, addr: u16, val: u16) -> BusView {
    bus_write_spec(bus_write_spec(b, addr, (val % 256) as u8), addr.wrapping_add(1), (val / 256) as u8)
}

/// One H-Blank block of an H-Blank DMA.
pub open spec fn hdma_hblank_spec(b: BusView) -> BusView {
    if !b.hdma.active || b.hdma.mode != HdmaMode::HDMA {
        b
    } else {
        let (h, r) = hdma_chunk_spec(b.hdma);
        let b1 = BusView { hdma: h, ..b };
        match r {
            Some((s, d, n)) => copy_block_spec(b1, s, d, 0, n as nat, GDMA_NESTING as nat),
            None => b1,
        }
    }
}

// ─── Interrupts, speed, time ────────────────────────────────────────────────

/// `x` with the bits of `m` set when `c` holds.
pub open spec fn or_if(x: u8, c: bool, m: u8) -> u8 {
    if c { x | m } else { x }
}

/// Requests raised by the PPU, timer, serial port and joypad move into IF.
pub open spec fn collect_interrupts_spec(b: BusView) -> BusView {
    BusView {
        interrupt_flag: or_if(
            or_if(
                or_if(
                    or_if(or_if(b.interrupt_flag, b.ppu.vblank_irq, IRQ_VBLANK), b.ppu.stat_irq, IRQ_STAT),
                    b.timer.interrupt_request,
                    IRQ_TIMER,
                ),
                b.serial.interrupt_request,
                IRQ_SERIAL,
            ),
            b.joypad.interrupt_request,
            IRQ_JOYPAD,
        ),
        ppu: PpuView { vblank_irq: false, stat_irq: false, ..b.ppu },
        timer: Timer { interrupt_request: false, ..b.timer },
        serial: SerialView { interrupt_request: false, ..b.serial },
        joypad: Joypad { interrupt_request: false, ..b.joypad },
        ..b
    }
}

/// The lowest bit set among the five interrupt bits of `p`.
pub open spec fn lowest_irq_bit(p: u8) -> u8 {
    if p & 0x01 != 0 {
        0
    } else if p & 0x02 != 0 {
        1
    } else if p & 0x04 != 0 {
        2
    } else if p & 0x08 != 0 {
        3
    } else {
        4
    }
}

/// The highest-priority interrupt both requested and enabled.
pub open spec fn pending_interrupt_spec(b: BusView) -> Option<u8> {
    let p = b.interrupt_flag & b.interrupt_enable & 0x1F;
    if p == 0 {
        None
    } else {
        Some(lowest_irq_bit(p))
    }
}

/// On CGB with the switch armed: toggle the speed, disarm, reset DIV.
pub open spec fn speed_switch_spec(b: BusView) -> BusView {
    if b.model == Model::CGB && b.speed_switch_armed {
        BusView {
            double_speed: !b.double_speed,
            speed_switch_armed: false,
            timer: Timer { div_counter: 0, ..b.timer },
            ..b
        }
    } else {
        b
    }
}

/// A master tick of `t` cycles: timer, PPU, APU; on CGB an H-Blank DMA block
/// when H-Blank has begun; then interrupt collection.
#[verifier::opaque]
pub open spec fn bus_tick_spec(b: BusView, t: nat) -> BusView {
    let b1 = BusView { timer: timer_step_spec(b.timer, t), ppu: ppu_step_spec(b.ppu, t), ..b };
    let b2 = if b1.ppu.hblank_flag && b1.model == Model::CGB { hdma_hblank_spec(b1) } else { b1 };
    collect_interrupts_spec(b2)
}

/// The bus at power-on.
pub open spec fn bus_new_spec(cart: CartView, boot_rom: Option<Seq<u8>>, skip_boot: bool, model: Model) -> BusView {
    BusView {
        cart,
        ppu: ppu_new_spec(model),
        timer: Timer {
            div_counter: 0xABCC,
            tima: 0,
            tma: 0,
            tac: 0,
            overflow_pending: false,
            interrupt_request: false,
        },
        joypad: Joypad {
            select_action: false,
            select_direction: false,
            action_state: 0x0F,
            direction_state: 0x0F,
            interrupt_request: false,
        },
        apu: Seq::new(APU_REGS as nat, |i: int| 0u8),
        serial: SerialView { sb: 0, sc: 0, interrupt_request: false, output: Seq::empty() },
        oam_dma: OamDma { active: false, source: 0, byte_index: 0, delay: 0 },
        hdma: Hdma { src: 0, dst: 0x8000, length: 0, mode: HdmaMode::GDMA, active: false, bytes_remaining: 0 },
        wram: Seq::new(WRAM_SIZE as nat, |i: int| 0u8),
        wram_bank: 1,
        hram: Seq::new(HRAM_SIZE as nat, |i: int| 0u8),
        interrupt_flag: 0xE1,
        interrupt_enable: 0x00,
        boot_rom,
        boot_rom_enabled: boot_rom is Some && !skip_boot,
        model,
        double_speed: false,
        speed_switch_armed: false,
    }
}


impl Bus {
    pub open spec fn wf(&self) -> bool {
        &&& self.cart.wf()
        &&& self.ppu.wf()
        &&& self.oam_dma.wf()
        &&& self.hdma.wf()
        &&& self.apu.wf()
        &&& self.wram@.len() == WRAM_SIZE
        &&& 1 <= self.wram_bank <= 7
        &&& self.hram@.len() == HRAM_SIZE
        &&& self.boot_rom_enabled ==> (self.boot_rom matches Some(r) && r@.len() >= 0x100)
    }

    /// A bus around a cartridge. The boot ROM is mapped when one is given
    /// and booting is not skipped.
    pub fn new(cart: Cartridge, boot_rom: Option<Vec<u8>>, skip_boot: bool, model: Model) -> (b: Self)
        requires
            cart.wf(),
            !skip_boot ==> (boot_rom matches Some(r) ==> r@.len() >= 0x100),
        ensures
            b.wf(),
            b@ == bus_new_spec(cart@, boot_rom_view(&boot_rom), skip_boot, model),
    {
        let boot_rom_enabled = boot_rom.is_some() && !skip_boot;
        let b = Bus {
            ppu: Ppu::new(model),
            cart,
            timer: Timer::new(),
            joypad: Joypad::new(),
            apu: Apu::new(),
            serial: Serial::new(),
            oam_dma: OamDma::new(),
            hdma: Hdma::new(),
            wram: vec![0u8; WRAM_SIZE],
            wram_bank: 1,
            hram: vec![0u8; HRAM_SIZE],
            interrupt_flag: 0xE1,
            interrupt_enable: 0x00,
            boot_rom,
            boot_rom_enabled,
            model,
            double_speed: false,
            speed_switch_armed: false,
        };
        assert(b.wram@ =~= Seq::new(WRAM_SIZE as nat, |i: int| 0u8));
        assert(b.hram@ =~= Seq::new(HRAM_SIZE as nat, |i: int| 0u8));
        b
    }

    // ─── Read ───────────────────────────────────────────────────────────────

    pub fn read(&self, addr: u16) -> (r: u8)
        requires
            self.wf(),
        ensures
            r == bus_read_spec(self@, addr),
    {
        proof {
            reveal(bus_read_spec);
        }
        if addr <= 0x00FF && self.boot_rom_enabled {
            match &self.boot_rom {
                Some(b) => b[addr as usize],
                None => 0xFF,
            }
        } else if 0x0200 <= addr && addr <= 0x08FF && self.boot_rom_enabled && self.model.is_cgb() {
            // CGB boot ROM occupies 0x0000–0x00FF and 0x0200–0x08FF
            match &self.boot_rom {
                Some(b) => if (addr as usize) < b.len() { b[addr as usize] } else { 0xFF },
                None => 0xFF,
            }
        } else if addr <= 0x7FFF {
            self.cart.read(addr)
        } else if addr <= 0x9FFF {
            self.ppu.vram[self.ppu.vram_bank * VRAM_BANK_SIZE + (addr - 0x8000) as usize]
        } else if addr <= 0xBFFF {
            self.cart.read(addr)
        } else if addr <= 0xCFFF {
            self.wram[(addr - 0xC000) as usize]
        } else if addr <= 0xDFFF {
            self.wram[self.wram_bank * WRAM_BANK_SIZE + (addr - 0xD000) as usize]
        } else if addr <= 0xEFFF {
            self.wram[(addr - 0xE000) as usize]
        } else if addr <= 0xFDFF {
            self.wram[self.wram_bank * WRAM_BANK_SIZE + (addr - 0xF000) as usize]
        } else if addr <= 0xFE9F {
            self.ppu.oam[(addr - 0xFE00) as usize]
        } else if addr <= 0xFEFF {
            0xFF
        } else {
            self.read_io(addr)
        }
    }

    fn read_io(&self, addr: u16) -> (r: u8)
        requires
            self.wf(),
            addr >= 0xFF00,
        ensures
            r == io_read_spec(self@, addr),
    {
        if addr == 0xFF00 {
            self.joypad.read()
        } else if 0xFF01 <= addr && addr <= 0xFF02 {
            self.serial.read(addr)
        } else if 0xFF04 <= addr && addr <= 0xFF07 {
            self.timer.read(addr)
        } else if addr == 0xFF0F {
            self.interrupt_flag | 0xE0
        } else if 0xFF10 <= addr && addr <= 0xFF3F {
            self.apu.read(addr)
        } else if 0xFF40 <= addr && addr <= 0xFF4B {
            self.ppu.read(addr)
        } else if addr == 0xFF4D {
            // KEY1 — speed switch
            let armed: u8 = if self.speed_switch_armed { 1 } else { 0 };
            let speed: u8 = if self.double_speed { 0x80 } else { 0 };
            speed | armed | 0x7E
        } else if addr == 0xFF4F {
            self.ppu.read(addr)
        } else if 0xFF51 <= addr && addr <= 0xFF55 {
            self.hdma.read_status()
        } else if 0xFF68 <= addr && addr <= 0xFF6B {
            self.ppu.read(addr)
        } else if addr == 0xFF70 {
            self.wram_bank as u8 | 0xF8
        } else if 0xFF80 <= addr && addr <= 0xFFFE {
            self.hram[(addr - 0xFF80) as usize]
        } else if addr == 0xFFFF {
            self.interrupt_enable
        } else {
            0xFF
        }
    }

    // ─── Write ──────────────────────────────────────────────────────────────

    pub fn write(&mut self, addr: u16, val: u8)
        requires
            old(self).wf(),
        ensures
            final(self).wf(),
            final(self)@ == bus_write_spec(old(self)@, addr, val),
    {
        proof {
            reveal(bus_write_spec);
        }
        self.write_at(addr, val, GDMA_NESTING);
    }

    fn write_at(&mut self, addr: u16, val: u8, depth: u8)
        requires
            old(self).wf(),
        ensures
            final(self).wf(),
            final(self)@ == bus_write_at(old(self)@, addr, val, depth as nat),
        decreases depth, 2nat,
    {
        if addr < 0xFF00 {
            self.write_mem(addr, val);
        } else {
            self.write_io(addr, val, depth);
        }
    }

    fn write_mem(&mut self, addr: u16, val: u8)
        requires
            old(self).wf(),
            addr < 0xFF00,
        ensures
            final(self).wf(),
            final(self)@ == mem_write_spec(old(self)@, addr, val),
    {
        if addr <= 0x7FFF {
            self.cart.write(addr, val);
        } else if addr <= 0x9FFF {
            let i = self.ppu.vram_bank * VRAM_BANK_SIZE + (addr - 0x8000) as usize;
            self.ppu.vram.set(i, val);
        } else if addr <= 0xBFFF {
            self.cart.write(addr, val);
        } else if addr <= 0xCFFF {
            self.wram.set((addr - 0xC000) as usize, val);
        } else if addr <= 0xDFFF {
            let i = self.wram_bank * WRAM_BANK_SIZE + (addr - 0xD000) as usize;
            self.wram.set(i, val);
        } else if addr <= 0xEFFF {
            self.wram.set((addr - 0xE000) as usize, val);
        } else if addr <= 0xFDFF {
            let i = self.wram_bank * WRAM_BANK_SIZE + (addr - 0xF000) as usize;
            self.wram.set(i, val);
        } else if addr <= 0xFE9F {
            self.ppu.oam.set((addr - 0xFE00) as usize, val);
        }
    }

    #[verifier::rlimit(40)]
    fn write_io(&mut self, addr: u16, val: u8, depth: u8)
        requires
            old(self).wf(),
            addr >= 0xFF00,
        ensures
            final(self).wf(),
            final(self)@ == io_write_spec(old(self)@, addr, val, depth as nat),
        decreases depth, 1nat,
    {
        if addr == 0xFF00 {
            self.joypad.write(val);
        } else if 0xFF01 <= addr && addr <= 0xFF02 {
            self.serial.write(addr, val);
        } else if 0xFF04 <= addr && addr <= 0xFF07 {
            self.timer.write(addr, val);
        } else if addr == 0xFF0F {
            self.interrupt_flag = val | 0xE0;
        } else if 0xFF10 <= addr && addr <= 0xFF3F {
            self.apu.write(addr, val);
        } else if addr == 0xFF46 {
            self.start_oam_dma(val);
        } else if 0xFF40 <= addr && addr <= 0xFF4B {
            self.ppu.write(addr, val);
        } else if addr == 0xFF4D {
            // KEY1 — prepare speed switch
            if self.model.is_cgb() {
                self.speed_switch_armed = val & 0x01 != 0;
            }
        } else if addr == 0xFF4F {
            self.ppu.write(addr, val);
        } else if addr == 0xFF50 {
            if val & 0x01 != 0 {
                self.boot_rom_enabled = false;
            }
        } else if 0xFF51 <= addr && addr <= 0xFF55 {
            if self.model.is_cgb() {
                self.hdma.write(addr, val);
                // GDMA executes immediately when armed via FF55 with bit7=0
                if addr == 0xFF55 && depth > 0 {
                    self.run_gdma(depth - 1);
                }
            }
        } else if 0xFF68 <= addr && addr <= 0xFF6B {
            self.ppu.write(addr, val);
        } else if addr == 0xFF70 {
            // SVBK — WRAM bank
            if self.model.is_cgb() {
                proof {
                    lemma_byte_facts(val, 0);
                }
                self.wram_bank = (val & 0x07) as usize;
                if self.wram_bank == 0 {
                    self.wram_bank = 1;
                }
            }
        } else if 0xFF80 <= addr && addr <= 0xFFFE {
            self.hram.set((addr - 0xFF80) as usize, val);
        } else if addr == 0xFFFF {
            self.interrupt_enable = val;
        }
    }

    // ─── OAM DMA ────────────────────────────────────────────────────────────

    fn start_oam_dma(&mut self, val: u8)
        requires
            old(self).wf(),
        ensures
            final(self).wf(),
            final(self)@ == oam_dma_spec(old(self)@, val),
    {
        let ghost pre = self@;
        proof {
            lemma_byte_facts(val, 0);
        }
        let src = (val as u16) << 8;
        let mut i: u16 = 0;
        while i < 160
            invariant
                i <= 160,
                src == val as int * 256,
                self.wf(),
                pre.ppu.oam.len() == OAM_SIZE,
                self@ == (BusView {
                    ppu: PpuView {
                        oam: Seq::new(
                            OAM_SIZE as nat,
                            |j: int|
                                if j < i {
                                    bus_read_spec(pre, (src + j) as u16)
                                } else {
                                    pre.ppu.oam[j]
                                },
                        ),
                        ..pre.ppu
                    },
                    ..pre
                }),
            decreases 160 - i,
        {
            let a = src + i;
            assert(bus_read_spec(self@, a) == bus_read_spec(pre, a)) by {
                reveal(bus_read_spec);
            }
            let v = self.read(a);
            self.ppu.oam.set(i as usize, v);
            proof {
                let ii = i as int;
                assert(self.ppu.oam@ =~= Seq::new(
                    OAM_SIZE as nat,
                    |j: int|
                        if j < ii + 1 {
                            bus_read_spec(pre, (src + j) as u16)
                        } else {
                            pre.ppu.oam[j]
                        },
                ));
            }
            i += 1;
        }
        self.oam_dma.start(val);
        proof {
            assert(self.ppu.oam@ =~= oam_dma_spec(pre, val).ppu.oam);
        }
    }

    // ─── HDMA (CGB) ─────────────────────────────────────────────────────────

    /// Execute one 16-byte HDMA chunk (called on H-Blank for HDMA mode).
    pub fn hdma_hblank_step(&mut self)
        requires
            old(self).wf(),
        ensures
            final(self).wf(),
            final(self)@ == hdma_hblank_spec(old(self)@),
    {
        if !self.hdma.active || self.hdma.mode != HdmaMode::HDMA {
            return;
        }
        let (block, _more) = self.hdma.transfer_chunk();
        if let Some((src, dst, len)) = block {
            self.copy_block(src, dst, len, GDMA_NESTING);
        }
    }

    /// Execute full GDMA immediately (called right after write to FF55).
    pub fn hdma_gdma(&mut self)
        requires
            old(self).wf(),
        ensures
            final(self).wf(),
            final(self)@ == gdma_spec(old(self)@, GDMA_NESTING as nat),
    {
        self.run_gdma(GDMA_NESTING);
    }

    fn run_gdma(&mut self, depth: u8)
        requires
            old(self).wf(),
        ensures
            final(self).wf(),
            final(self)@ == gdma_spec(old(self)@, depth as nat),
        decreases depth, 5nat,
    {
        if !self.hdma.active || self.hdma.mode != HdmaMode::GDMA {
            return;
        }
        let ghost start = self@;
        let mut blocks: u32 = 0;
        while self.hdma.active && blocks < GDMA_MAX_BLOCKS
            invariant
                self.wf(),
                blocks <= GDMA_MAX_BLOCKS,
                gdma_loop_spec(self@, depth as nat, (GDMA_MAX_BLOCKS - blocks) as nat)
                    == gdma_loop_spec(start, depth as nat, GDMA_MAX_BLOCKS as nat),
            decreases GDMA_MAX_BLOCKS - blocks,
        {
            let (block, _more) = self.hdma.transfer_chunk();
            if let Some((src, dst, len)) = block {
                self.copy_block(src, dst, len, depth);
            }
            blocks += 1;
        }
    }

    /// Copies `len` bytes from `src` to `dst` through the bus.
    fn copy_block(&mut self, src: u16, dst: u16, len: u16, depth: u8)
        requires
            old(self).wf(),
            len <= 16,
            src % 16 == 0,
            dst % 16 == 0,
        ensures
            final(self).wf(),
            final(self)@ == copy_block_spec(old(self)@, src, dst, 0, len as nat, depth as nat),
        decreases depth, 3nat,
    {
        let ghost start = self@;
        let mut i: u16 = 0;
        while i < len
            invariant
                self.wf(),
                i <= len,
                len <= 16,
                src % 16 == 0,
                dst % 16 == 0,
                copy_block_spec(self@, src, dst, i as nat, len as nat, depth as nat)
                    == copy_block_spec(start, src, dst, 0, len as nat, depth as nat),
            decreases len - i,
        {
            let byte = self.read(src + i);
            self.write_at(dst + i, byte, depth);
            i += 1;
        }
    }

    // ─── Speed Switch ────────────────────────────────────────────────────────

    pub fn perform_speed_switch(&mut self)
        requires
            old(self).wf(),
        ensures
            final(self).wf(),
            final(self)@ == speed_switch_spec(old(self)@),
    {
        if self.model.is_cgb() && self.speed_switch_armed {
            self.double_speed = !self.double_speed;
            self.speed_switch_armed = false;
            // Reset DIV on speed switch
            self.timer.div_counter = 0;
        }
    }

    // ─── 16-bit helpers ─────────────────────────────────────────────────────

    pub fn read16(&self, addr: u16) -> (r: u16)
        requires
            self.wf(),
        ensures
            r == bus_read16_spec(self@, addr),
    {
        let lo = self.read(addr);
        let hi = self.read(addr.wrapping_add(1));
        proof {
            lemma_byte_facts(hi, lo);
        }
        (lo as u16) | ((hi as u16) << 8)
    }

    pub fn write16(&mut self, addr: u16, val: u16)
        requires
            old(self).wf(),
        ensures
            final(self).wf(),
            final(self)@ == bus_write16_spec(old(self)@, addr, val),
    {
        proof {
            lemma_word_split(val);
        }
        self.write(addr, val as u8);
        self.write(addr.wrapping_add(1), (val >> 8) as u8);
    }

    // ─── Interrupts ─────────────────────────────────────────────────────────

    pub fn collect_interrupts(&mut self)
        requires
            old(self).wf(),
        ensures
            final(self).wf(),
            final(self)@ == collect_interrupts_spec(old(self)@),
    {
        let f = self.interrupt_flag;
        let f = if self.ppu.vblank_irq { f | IRQ_VBLANK } else { f };
        let f = if self.ppu.stat_irq { f | IRQ_STAT } else { f };
        let f = if self.timer.interrupt_request { f | IRQ_TIMER } else { f };
        let f = if self.serial.interrupt_request { f | IRQ_SERIAL } else { f };
        let f = if self.joypad.interrupt_request { f | IRQ_JOYPAD } else { f };
        self.interrupt_flag = f;
        self.ppu.vblank_irq = false;
        self.ppu.stat_irq = false;
        self.timer.interrupt_request = false;
        self.serial.interrupt_request = false;
        self.joypad.interrupt_request = false;
    }

    pub fn pending_interrupt(&self) -> (r: Option<u8>)
        ensures
            r == pending_interrupt_spec(self@),
    {
        let p = self.interrupt_flag & self.interrupt_enable & 0x1F;
        if p == 0 {
            return None;
        }
        proof {
            lemma_bit_masks(self.interrupt_flag & self.interrupt_enable);
        }
        let mut b: u8 = 0;
        while b < 5
            invariant
                b <= 5,
                p == self.interrupt_flag & self.interrupt_enable & 0x1F,
                p != 0,
                forall|k: u8| k < b ==> #[trigger] (p & (1u8 << k)) == 0,
            decreases 5 - b,
        {
            if p & (1 << b) != 0 {
                proof {
                    lemma_bit_masks(p);
                    if b == 0 {
                        assert(1u8 << b == 0x01u8);
                    } else if b == 1 {
                        assert(1u8 << b == 0x02u8);
                    } else if b == 2 {
                        assert(1u8 << b == 0x04u8);
                    } else if b == 3 {
                        assert(1u8 << b == 0x08u8);
                    } else {
                        assert(1u8 << b == 0x10u8);
                    }
                    if b >= 1 {
                        assert(p & (1u8 << 0u8) == 0);
                    }
                    if b >= 2 {
                        assert(p & (1u8 << 1u8) == 0);
                    }
                    if b >= 3 {
                        assert(p & (1u8 << 2u8) == 0);
                    }
                    if b >= 4 {
                        assert(p & (1u8 << 3u8) == 0);
                    }
                }
                return Some(b);
            }
            b += 1;
        }
        None
    }

    pub fn clear_interrupt(&mut self, bit: u8)
        requires
            bit < 8,
        ensures
            final(self)@ == (BusView { interrupt_flag: old(self).interrupt_flag & !(1u8 << bit), ..old(self)@ }),
    {
        self.interrupt_flag &= !(1 << bit);
    }

    // ─── Master tick ────────────────────────────────────────────────────────

    pub fn tick(&mut self, t_cycles: u8)
        requires
            old(self).wf(),
        ensures
            final(self).wf(),
            final(self)@ == bus_tick_spec(old(self)@, t_cycles as nat),
    {
        proof {
            reveal(bus_tick_spec);
        }
        self.timer.step(t_cycles);
        self.ppu.step(t_cycles);
        self.apu.step(t_cycles);

        // HDMA H-Blank trigger
        if self.ppu.hblank_flag && self.model.is_cgb() {
            self.hdma_hblank_step();
        }

        self.collect_interrupts();
    }
}

} // verus!
