use ferrisboy::model::Model;
use ferrisboy::ppu::{decode_cgb_color, dmg_palette, Ppu, PpuMode, FB_SIZE};

fn run_dots(p: &mut Ppu, mut n: u32) {
    while n > 0 {
        let t = if n > 200 { 200 } else { n };
        p.step(t as u8);
        n -= t;
    }
}

#[test]
fn ppu_power_on_registers() {
    let p = Ppu::new(Model::DMG);
    assert_eq!(p.read(0xFF40), 0x91);
    assert_eq!(p.read(0xFF41), 0x85);
    assert_eq!(p.read(0xFF44), 0);
    assert_eq!(p.read(0xFF47), 0xFC);
    assert_eq!(p.read(0xFF48), 0xFF);
    assert_eq!(p.read(0xFF4F), 0xFE);
    assert_eq!(p.read(0xFF4C), 0xFF);
    assert!(p.lcd_enabled());
    assert_eq!(p.mode(), PpuMode::OamScan);
    assert_eq!(p.framebuffer.len(), FB_SIZE);
    assert!(p.framebuffer.iter().all(|&b| b == 0xFF));
}

#[test]
fn ppu_line_timing() {
    let mut p = Ppu::new(Model::DMG);
    p.step(79);
    assert_eq!(p.mode(), PpuMode::OamScan);
    p.step(1);
    assert_eq!(p.mode(), PpuMode::Drawing);
    assert_eq!(p.read(0xFF41) & 0x03, 3);
    p.step(172);
    assert_eq!(p.mode(), PpuMode::HBlank);
    assert!(p.hblank_flag);
    p.step(203);
    assert_eq!(p.read(0xFF44), 0);
    p.step(1);
    assert_eq!(p.read(0xFF44), 1);
    assert_eq!(p.mode(), PpuMode::OamScan);
    assert!(!p.hblank_flag);
}

#[test]
fn ppu_vblank_and_frame_wrap() {
    let mut p = Ppu::new(Model::DMG);
    run_dots(&mut p, 144 * 456);
    assert_eq!(p.read(0xFF44), 144);
    assert_eq!(p.mode(), PpuMode::VBlank);
    assert!(p.vblank_irq);
    run_dots(&mut p, 10 * 456);
    assert_eq!(p.read(0xFF44), 0);
    assert_eq!(p.mode(), PpuMode::OamScan);
}

#[test]
fn ppu_lyc_match_raises_stat() {
    let mut p = Ppu::new(Model::DMG);
    p.write(0xFF41, 0x40);
    p.write(0xFF45, 1);
    assert_eq!(p.read(0xFF41) & 0x04, 0);
    assert!(!p.stat_irq);
    run_dots(&mut p, 456);
    assert_eq!(p.read(0xFF41) & 0x04, 0x04);
    assert!(p.stat_irq);
}

#[test]
fn ppu_stat_write_keeps_low_bits() {
    let mut p = Ppu::new(Model::DMG);
    p.write(0xFF41, 0xFF);
    assert_eq!(p.read(0xFF41), 0xFD);
    p.write(0xFF44, 0x12);
    assert_eq!(p.read(0xFF44), 0);
}

#[test]
fn ppu_lcd_off_resets() {
    let mut p = Ppu::new(Model::DMG);
    run_dots(&mut p, 3 * 456 + 100);
    assert_eq!(p.read(0xFF44), 3);
    p.write(0xFF40, 0x11);
    assert_eq!(p.read(0xFF44), 0);
    assert_eq!(p.mode(), PpuMode::HBlank);
    assert!(p.framebuffer.iter().all(|&b| b == 0xFF));
    p.step(200);
    assert_eq!(p.dot, 0);
}

#[test]
fn ppu_vram_bank_only_on_cgb() {
    let mut p = Ppu::new(Model::DMG);
    p.write(0xFF4F, 1);
    assert_eq!(p.read(0xFF4F), 0xFE);
    let mut p = Ppu::new(Model::CGB);
    p.write(0xFF4F, 1);
    assert_eq!(p.read(0xFF4F), 0xFF);
    assert_eq!(p.vram_bank, 1);
}

#[test]
fn ppu_palette_auto_increment() {
    let mut p = Ppu::new(Model::CGB);
    p.write(0xFF68, 0x80);
    p.write(0xFF69, 0x12);
    p.write(0xFF69, 0x34);
    assert_eq!(p.read(0xFF68), 0x82);
    p.write(0xFF68, 0x00);
    assert_eq!(p.read(0xFF69), 0x12);
    p.write(0xFF68, 0x01);
    assert_eq!(p.read(0xFF69), 0x34);
    p.write(0xFF68, 0xBF);
    p.write(0xFF69, 0x56);
    assert_eq!(p.read(0xFF68), 0x80);
    p.write(0xFF6A, 0x85);
    p.write(0xFF6B, 0x77);
    assert_eq!(p.read(0xFF6A), 0x86);
    p.write(0xFF6A, 0x05);
    assert_eq!(p.read(0xFF6B), 0x77);
}

#[test]
fn cgb_color_decoding() {
    assert_eq!(decode_cgb_color(0xFF, 0x7F), (255, 255, 255));
    assert_eq!(decode_cgb_color(0x1F, 0x00), (255, 0, 0));
    assert_eq!(decode_cgb_color(0xE0, 0x03), (0, 255, 0));
    assert_eq!(decode_cgb_color(0x00, 0x7C), (0, 0, 255));
    assert_eq!(decode_cgb_color(0x10, 0x42), (132, 132, 132));
    assert_eq!(decode_cgb_color(0x00, 0x00), (0, 0, 0));
}

#[test]
fn dmg_palette_shades() {
    assert_eq!(dmg_palette(0xE4, 0), (0xE0, 0xF8, 0xD0));
    assert_eq!(dmg_palette(0xE4, 1), (0x88, 0xC0, 0x70));
    assert_eq!(dmg_palette(0xE4, 2), (0x34, 0x68, 0x56));
    assert_eq!(dmg_palette(0xE4, 3), (0x08, 0x18, 0x20));
    assert_eq!(dmg_palette(0xFC, 0), (0xE0, 0xF8, 0xD0));
    assert_eq!(dmg_palette(0xFC, 1), (0x08, 0x18, 0x20));
}

fn pixel(p: &Ppu, x: usize, y: usize) -> (u8, u8, u8) {
    let b = (y * 160 + x) * 3;
    (p.framebuffer[b], p.framebuffer[b + 1], p.framebuffer[b + 2])
}

#[test]
fn ppu_renders_background_tile() {
    let mut p = Ppu::new(Model::DMG);
    // tile 0, row 0: every pixel colour 1
    p.vram[0] = 0xFF;
    p.vram[1] = 0x00;
    run_dots(&mut p, 456);
    assert_eq!(pixel(&p, 0, 0), (0x08, 0x18, 0x20));
    assert_eq!(pixel(&p, 159, 0), (0x08, 0x18, 0x20));
    assert_eq!(p.scanline_bg_color[3], 1);
    run_dots(&mut p, 456);
    assert_eq!(pixel(&p, 0, 1), (0xE0, 0xF8, 0xD0));
}

#[test]
fn ppu_scroll_moves_background() {
    let mut p = Ppu::new(Model::DMG);
    // tile 1 at map column 1; tile 1 row 0 colour 3
    p.vram[0x1801] = 1;
    p.vram[16] = 0xFF;
    p.vram[17] = 0xFF;
    p.write(0xFF47, 0xE4);
    p.write(0xFF43, 4);
    run_dots(&mut p, 456);
    assert_eq!(pixel(&p, 3, 0), (0xE0, 0xF8, 0xD0));
    assert_eq!(pixel(&p, 4, 0), (0x08, 0x18, 0x20));
    assert_eq!(pixel(&p, 11, 0), (0x08, 0x18, 0x20));
    assert_eq!(pixel(&p, 12, 0), (0xE0, 0xF8, 0xD0));
}

#[test]
fn ppu_renders_sprite_over_background() {
    let mut p = Ppu::new(Model::DMG);
    p.write(0xFF40, 0x93);
    // sprite 0 at the top-left corner, tile 1
    p.oam[0] = 16;
    p.oam[1] = 8;
    p.oam[2] = 1;
    p.oam[3] = 0;
    p.vram[16] = 0x80;
    p.vram[17] = 0x00;
    run_dots(&mut p, 456);
    assert_eq!(pixel(&p, 0, 0), (0x08, 0x18, 0x20));
    assert_eq!(pixel(&p, 1, 0), (0xE0, 0xF8, 0xD0));
}

#[test]
fn ppu_sprite_behind_nonzero_background() {
    let mut p = Ppu::new(Model::DMG);
    p.write(0xFF40, 0x93);
    p.write(0xFF47, 0xE4);
    p.oam[0] = 16;
    p.oam[1] = 8;
    p.oam[2] = 1;
    p.oam[3] = 0x80;
    p.vram[16] = 0x80;
    p.vram[17] = 0x80;
    // background tile 0 row 0: colour 1 everywhere
    p.vram[0] = 0xFF;
    run_dots(&mut p, 456);
    assert_eq!(pixel(&p, 0, 0), (0x88, 0xC0, 0x70));
}

#[test]
fn ppu_window_draws_from_wx() {
    let mut p = Ppu::new(Model::DMG);
    // window on, map 0x1C00; its tile 2 row 0 colour 2
    p.write(0xFF40, 0x91 | 0x20 | 0x40);
    p.write(0xFF47, 0xE4);
    p.write(0xFF4A, 0);
    p.write(0xFF4B, 7 + 80);
    for i in 0..32 {
        p.vram[0x1C00 + i] = 2;
    }
    p.vram[32] = 0x00;
    p.vram[33] = 0xFF;
    run_dots(&mut p, 456);
    assert_eq!(pixel(&p, 79, 0), (0xE0, 0xF8, 0xD0));
    assert_eq!(pixel(&p, 80, 0), (0x34, 0x68, 0x56));
    assert_eq!(p.window_line, 1);
    assert!(p.window_triggered);
}

#[test]
fn ppu_oam_scan_keeps_ten_sorted_by_x() {
    let mut p = Ppu::new(Model::DMG);
    for i in 0..12 {
        p.oam[i * 4] = 16;
        p.oam[i * 4 + 1] = (100 - i) as u8;
    }
    p.step(1);
    assert_eq!(p.sprite_buffer.len(), 10);
    assert_eq!(p.sprite_buffer[0].x, 91);
    assert_eq!(p.sprite_buffer[9].x, 100);
    let mut p = Ppu::new(Model::CGB);
    for i in 0..12 {
        p.oam[i * 4] = 16;
        p.oam[i * 4 + 1] = (100 - i) as u8;
    }
    p.step(1);
    assert_eq!(p.sprite_buffer.len(), 10);
    assert_eq!(p.sprite_buffer[0].x, 100);
}
