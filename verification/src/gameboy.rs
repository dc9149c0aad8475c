use vstd::prelude::*;
use crate::bus::{Bus, BusView, bus_new_spec, bus_tick_spec, boot_rom_view};
use crate::cartridge::{
    Cartridge,
    CgbFlag,
    cart_new_spec,
    mbc_name_spec,
    plain_title,
    title_bytes_spec,
    trim_spec,
    utf8_lossy,
    HEADER_RAM_SIZE,
};
use crate::cpu::{Cpu, cgb_init_spec, cpu_new_spec, cpu_step_spec, handle_interrupts_spec};
use crate::joypad::{Button, press_spec, release_spec};
use crate::model::Model;
use crate::ppu::FB_SIZE;

verus! {

/// T-cycles per frame at single speed (4.194304 MHz / 59.7275 fps).
pub const CYCLES_PER_FRAME: u32 = 70224;

/// Most steps a frame may take. Every step that takes time advances the
/// cycle count, so a frame ends long before this unless the CPU only ever
/// runs undefined opcodes, which take no cycles.
pub const FRAME_STEP_LIMIT: u64 = 0xFFFF_FFFF_FFFF_FFFF;

/// The whole machine: CPU, bus and the hardware model in use.
pub struct GameBoy {
    pub cpu: Cpu,
    pub bus: Bus,
    pub model: Model,
}

/// Model of the machine.
#[verifier::ext_equal]
pub ghost struct GameBoyView {
    pub cpu: Cpu,
    pub bus: BusView,
    pub model: Model,
}

impl View for GameBoy {
    type V = GameBoyView;

    open spec fn view(&self) -> GameBoyView {
        GameBoyView { cpu: self.cpu, bus: self.bus@, model: self.model }
    }
}

/// A CGB cartridge runs on the CGB unless DMG mode is forced.
pub open spec fn model_for(cgb_flag: CgbFlag, force_dmg: bool) -> Model {
    if !force_dmg && cgb_flag != CgbFlag::DMGOnly {
        Model::CGB
    } else {
        Model::DMG
    }
}

/// The machine at power-on.
pub open spec fn gameboy_new_spec(rom: Seq<u8>, boot_rom: Option<Seq<u8>>, skip_boot: bool, force_dmg: bool) -> GameBoyView {
    let cart = cart_new_spec(rom);
    let model = model_for(cart.cgb_flag, force_dmg);
    let cpu0 = cpu_new_spec(skip_boot);
    GameBoyView {
        cpu: if skip_boot && model == Model::CGB { cgb_init_spec(cpu0) } else { cpu0 },
        bus: bus_new_spec(cart, boot_rom, skip_boot, model),
        model,
    }
}

/// One step: interrupt dispatch, one CPU step, then the peripherals run for
/// the step's cycles (halved in double-speed mode). Returns the step's
/// length in single-speed cycles.
#[verifier::opaque]
pub open spec fn gameboy_step_spec(g: GameBoyView) -> (GameBoyView, u8) {
    let (c1, b1, _) = handle_interrupts_spec(g.cpu, g.bus);
    let (c2, b2) = cpu_step_spec(c1, b1);
    let t = c2.t_cycles;
    let pt: u8 = if b2.double_speed { t / 2 } else { t };
    let b3 = bus_tick_spec(b2, pt as nat);
    (GameBoyView { cpu: c2, bus: b3, ..g }, if b3.double_speed { t / 2 } else { t })
}

/// Steps until `CYCLES_PER_FRAME` cycles have passed (or the step limit).
pub open spec fn frame_spec(g: GameBoyView, cycles: nat, budget: nat) -> GameBoyView
    decreases budget,
{
    if cycles >= CYCLES_PER_FRAME || budget == 0 {
        g
    } else {
        let (g1, t) = gameboy_step_spec(g);
        frame_spec(g1, cycles + t as nat, (budget - 1) as nat)
    }
}

impl GameBoy {
    pub open spec fn wf(&self) -> bool {
        self.bus.wf()
    }

    /// Builds the machine for a ROM image, choosing CGB mode from the
    /// header's CGB flag unless DMG mode is forced.
    pub fn new(rom: Vec<u8>, boot_rom: Option<Vec<u8>>, skip_boot: bool, force_dmg: bool) -> (g: Self)
        requires
            rom@.len() > HEADER_RAM_SIZE,
            !skip_boot ==> (boot_rom matches Some(r) ==> r@.len() >= 0x100),
        ensures
            g.wf(),
            g@ == gameboy_new_spec(rom@, boot_rom_view(&boot_rom), skip_boot, force_dmg),
    {
        let ghost rom_v = rom@;
        let ghost boot_v = boot_rom_view(&boot_rom);
        let cart = Cartridge::new(rom);

        // Determine model: if cart has CGB flag and user hasn't forced DMG, use CGB
        let model = if !force_dmg && cart.cgb_flag != CgbFlag::DMGOnly {
            Model::CGB
        } else {
            Model::DMG
        };

        let bus = Bus::new(cart, boot_rom, skip_boot, model);
        let mut cpu = Cpu::new(skip_boot);

        // If skipping boot ROM, set CGB-appropriate initial register state
        if skip_boot && model.is_cgb() {
            cpu.cgb_init();
        }

        GameBoy { cpu, bus, model }
    }

    /// Run exactly one video frame.
    pub fn run_frame(&mut self)
        requires
            old(self).wf(),
        ensures
            final(self).wf(),
            final(self)@ == frame_spec(old(self)@, 0, FRAME_STEP_LIMIT as nat),
    {
        let ghost start = self@;
        let mut cycles: u32 = 0;
        let mut steps: u64 = 0;
        while cycles < CYCLES_PER_FRAME && steps < FRAME_STEP_LIMIT
            invariant
                self.wf(),
                cycles < CYCLES_PER_FRAME + 256,
                frame_spec(self@, cycles as nat, (FRAME_STEP_LIMIT - steps) as nat) == frame_spec(
                    start,
                    0,
                    FRAME_STEP_LIMIT as nat,
                ),
            decreases FRAME_STEP_LIMIT - steps,
        {
            let tc = self.step();
            cycles += tc as u32;
            steps += 1;
        }
    }

    #[verifier::rlimit(40)]
    fn step(&mut self) -> (t: u8)
        requires
            old(self).wf(),
        ensures
            final(self).wf(),
            (final(self)@, t) == gameboy_step_spec(old(self)@),
    {
        proof {
            reveal(gameboy_step_spec);
        }
        self.cpu.handle_interrupts(&mut self.bus);
        self.cpu.step(&mut self.bus);

        let t = self.cpu.t_cycles;

        // In double-speed mode, CPU ticks at 2x but PPU/Timer still at 1x:
        // the peripherals get half the T-cycles
        let peripheral_t = if self.bus.double_speed { t / 2 } else { t };

        self.bus.tick(peripheral_t);

        // Canonical T-cycles for frame counting (always single-speed units)
        if self.bus.double_speed { t / 2 } else { t }
    }

    // ─── Public API ─────────────────────────────────────────────────────────

    /// The RGB888 frame, 160x144 pixels, row by row.
    pub fn framebuffer(&self) -> (fb: &[u8])
        ensures
            fb@ == self.bus.ppu.framebuffer@,
    {
        self.bus.ppu.framebuffer.as_slice()
    }

    pub fn cart_title(&self) -> (s: String)
        requires
            self.wf(),
        ensures
            s@ == trim_spec(utf8_lossy(title_bytes_spec(self.bus.cart@))),
            title_bytes_spec(self.bus.cart@).len() == 0 ==> s@.len() == 0,
            plain_title(title_bytes_spec(self.bus.cart@)) ==> s@ == title_bytes_spec(self.bus.cart@).map_values(
                |b: u8| b as char,
            ),
    {
        self.bus.cart.title()
    }

    pub fn mbc_type(&self) -> (s: String)
        ensures
            s@ == mbc_name_spec(self.bus.cart.mbc),
    {
        self.bus.cart.mbc.name()
    }

    pub fn model_name(&self) -> (s: &'static str)
        ensures
            s@ == (if self.model == Model::CGB { "Game Boy Color"@ } else { "Game Boy"@ }),
    {
        match self.model {
            Model::CGB => "Game Boy Color",
            Model::DMG => "Game Boy",
        }
    }

    pub fn key_down(&mut self, btn: Button)
        ensures
            final(self)@ == (GameBoyView {
                bus: BusView { joypad: press_spec(old(self).bus.joypad, btn), ..old(self)@.bus },
                ..old(self)@
            }),
            final(self).wf() == old(self).wf(),
    {
        self.bus.joypad.press(btn);
    }

    pub fn key_up(&mut self, btn: Button)
        ensures
            final(self)@ == (GameBoyView {
                bus: BusView { joypad: release_spec(old(self).bus.joypad, btn), ..old(self)@.bus },
                ..old(self)@
            }),
            final(self).wf() == old(self).wf(),
    {
        self.bus.joypad.release(btn);
    }
}

} // verus!
