use ferrisboy::gameboy::GameBoy;
use ferrisboy::joypad::Button;
use ferrisboy::model::Model;
use ferrisboy::ppu::{PpuMode, FB_SIZE};

fn rom(cgb: u8, code: &[u8]) -> Vec<u8> {
    let mut r = vec![0u8; 0x8000];
    r[0x134..0x134 + 4].copy_from_slice(b"DEMO");
    r[0x143] = cgb;
    r[0x100..0x100 + code.len()].copy_from_slice(code);
    r
}

#[test]
fn gameboy_detects_model() {
    let g = GameBoy::new(rom(0x80, &[]), None, true, false);
    assert_eq!(g.model, Model::CGB);
    assert_eq!(g.bus.model, Model::CGB);
    assert_eq!(g.model_name(), "Game Boy Color");
    assert_eq!(g.cpu.a, 0x11);
    let g = GameBoy::new(rom(0xC0, &[]), None, true, true);
    assert_eq!(g.model, Model::DMG);
    assert_eq!(g.model_name(), "Game Boy");
    assert_eq!(g.cpu.a, 0x01);
    let g = GameBoy::new(rom(0x00, &[]), None, true, false);
    assert_eq!(g.model, Model::DMG);
}

#[test]
fn gameboy_boot_rom_start() {
    let g = GameBoy::new(rom(0x00, &[]), Some(vec![0u8; 0x100]), false, false);
    assert_eq!(g.cpu.pc, 0);
    assert_eq!(g.cpu.sp, 0);
    assert!(g.bus.boot_rom_enabled);
}

#[test]
fn gameboy_header_info() {
    let g = GameBoy::new(rom(0x00, &[]), None, true, false);
    assert_eq!(g.cart_title(), "DEMO");
    assert_eq!(g.mbc_type(), "ROM Only");
    assert_eq!(g.framebuffer().len(), FB_SIZE);
}

#[test]
fn gameboy_keys_reach_joypad() {
    let mut g = GameBoy::new(rom(0x00, &[]), None, true, false);
    g.bus.write(0xFF00, 0x10);
    g.key_down(Button::B);
    assert_eq!(g.bus.read(0xFF00), 0xCD);
    assert!(g.bus.joypad.interrupt_request);
    g.key_up(Button::B);
    assert_eq!(g.bus.read(0xFF00), 0xCF);
}

#[test]
fn gameboy_frame_is_one_lcd_frame() {
    // JR -2: a 12-cycle loop, 5852 iterations per frame
    let mut g = GameBoy::new(rom(0x00, &[0x18, 0xFE]), None, true, false);
    g.run_frame();
    assert_eq!(g.cpu.pc, 0x100);
    assert_eq!(g.bus.ppu.ly, 0);
    assert_eq!(g.bus.ppu.dot, 0);
    assert_eq!(g.bus.ppu.mode(), PpuMode::OamScan);
    assert_eq!(g.bus.read(0xFF0F) & 0x01, 0x01);
}

#[test]
fn gameboy_vblank_interrupt_dispatch() {
    // EI ; JR -2, with the V-Blank interrupt enabled and its vector looping
    let mut code = vec![0u8; 4];
    code[0] = 0xFB;
    code[1] = 0x18;
    code[2] = 0xFE;
    let mut r = rom(0x00, &code);
    r[0x40] = 0x18;
    r[0x41] = 0xFE;
    let mut g = GameBoy::new(r, None, true, false);
    g.bus.write(0xFF0F, 0x00);
    g.bus.write(0xFFFF, 0x01);
    g.run_frame();
    assert_eq!(g.cpu.pc, 0x40);
    assert!(!g.cpu.ime);
}

#[test]
fn gameboy_double_speed_halves_peripheral_time() {
    let mut g = GameBoy::new(rom(0x80, &[0x18, 0xFE]), None, true, false);
    g.bus.double_speed = true;
    g.run_frame();
    // 12-cycle steps count as 6: the frame takes twice as many instructions
    assert_eq!(g.bus.ppu.ly, 0);
    assert_eq!(g.bus.ppu.dot, 0);
}
