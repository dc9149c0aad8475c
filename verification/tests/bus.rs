use ferrisboy::bus::Bus;
use ferrisboy::cartridge::Cartridge;
use ferrisboy::model::Model;

fn cart() -> Cartridge {
    let mut r = vec![0u8; 0x8000];
    r[0x0000] = 0xAB;
    r[0x4000] = 0xCD;
    Cartridge::new(r)
}

fn bus(model: Model) -> Bus {
    Bus::new(cart(), None, true, model)
}

#[test]
fn bus_power_on() {
    let b = bus(Model::DMG);
    assert_eq!(b.read(0x0000), 0xAB);
    assert_eq!(b.read(0x4000), 0xCD);
    assert_eq!(b.read(0xFF0F), 0xE1);
    assert_eq!(b.read(0xFFFF), 0x00);
    assert_eq!(b.read(0xFF70), 0xF9);
    assert_eq!(b.read(0xFF4D), 0x7E);
    assert_eq!(b.read(0xFEA0), 0xFF);
    assert_eq!(b.read(0xFF03), 0xFF);
    assert_eq!(b.read(0xFF50), 0xFF);
    assert_eq!(b.read(0xFF55), 0xFF);
}

#[test]
fn bus_wram_and_echo() {
    let mut b = bus(Model::DMG);
    b.write(0xC000, 0x11);
    assert_eq!(b.read(0xC000), 0x11);
    assert_eq!(b.read(0xE000), 0x11);
    b.write(0xF234, 0x22);
    assert_eq!(b.read(0xD234), 0x22);
    b.write(0xDFFF, 0x33);
    assert_eq!(b.read(0xDFFF), 0x33);
}

#[test]
fn bus_hram_ie_if() {
    let mut b = bus(Model::DMG);
    b.write(0xFF80, 0x44);
    b.write(0xFFFE, 0x45);
    assert_eq!(b.read(0xFF80), 0x44);
    assert_eq!(b.read(0xFFFE), 0x45);
    b.write(0xFFFF, 0x1F);
    assert_eq!(b.read(0xFFFF), 0x1F);
    b.write(0xFF0F, 0x01);
    assert_eq!(b.interrupt_flag, 0xE1);
    assert_eq!(b.read(0xFF0F), 0xE1);
}

#[test]
fn bus_wram_banks_on_cgb() {
    let mut b = bus(Model::CGB);
    b.write(0xFF70, 3);
    assert_eq!(b.read(0xFF70), 0xFB);
    b.write(0xD000, 0x33);
    b.write(0xFF70, 0);
    assert_eq!(b.read(0xFF70), 0xF9);
    assert_eq!(b.read(0xD000), 0x00);
    b.write(0xFF70, 3);
    assert_eq!(b.read(0xD000), 0x33);
    assert_eq!(b.wram[3 * 0x1000], 0x33);
}

#[test]
fn bus_wram_bank_fixed_on_dmg() {
    let mut b = bus(Model::DMG);
    b.write(0xFF70, 3);
    assert_eq!(b.read(0xFF70), 0xF9);
}

#[test]
fn bus_vram_banks_on_cgb() {
    let mut b = bus(Model::CGB);
    b.write(0x8000, 0x01);
    b.write(0xFF4F, 1);
    assert_eq!(b.read(0x8000), 0x00);
    b.write(0x8000, 0x77);
    b.write(0xFF4F, 0);
    assert_eq!(b.read(0x8000), 0x01);
    b.write(0xFF4F, 1);
    assert_eq!(b.read(0x8000), 0x77);
}

#[test]
fn bus_boot_rom_mapping() {
    let boot = vec![0x31u8; 0x100];
    let b = Bus::new(cart(), Some(boot.clone()), true, Model::DMG);
    assert_eq!(b.read(0x0000), 0xAB);
    let mut b = Bus::new(cart(), Some(boot), false, Model::DMG);
    assert_eq!(b.read(0x0000), 0x31);
    assert_eq!(b.read(0x00FF), 0x31);
    assert_eq!(b.read(0x0100), 0x00);
    b.write(0xFF50, 0x00);
    assert_eq!(b.read(0x0000), 0x31);
    b.write(0xFF50, 0x01);
    assert_eq!(b.read(0x0000), 0xAB);
}

#[test]
fn bus_cgb_boot_rom_second_part() {
    let mut boot = vec![0x00u8; 0x900];
    boot[0x0200] = 0x5A;
    let b = Bus::new(cart(), Some(boot.clone()), false, Model::CGB);
    assert_eq!(b.read(0x0200), 0x5A);
    let b = Bus::new(cart(), Some(boot), false, Model::DMG);
    assert_eq!(b.read(0x0200), 0x00);
}

#[test]
fn bus_oam_dma_copies_page() {
    let mut b = bus(Model::DMG);
    for i in 0..160u16 {
        b.write(0xC000 + i, i as u8);
    }
    b.write(0xFF46, 0xC0);
    assert_eq!(b.read(0xFE00), 0);
    assert_eq!(b.read(0xFE05), 5);
    assert_eq!(b.read(0xFE9F), 159);
    assert!(b.oam_dma.active);
    assert_eq!(b.oam_dma.source, 0xC000);
}

#[test]
fn bus_general_purpose_dma() {
    let mut b = bus(Model::CGB);
    for i in 0..32u16 {
        b.write(0xC000 + i, 0x80 + i as u8);
    }
    b.write(0xFF51, 0xC0);
    b.write(0xFF52, 0x00);
    b.write(0xFF53, 0x00);
    b.write(0xFF54, 0x10);
    b.write(0xFF55, 0x01);
    assert_eq!(b.read(0x8010), 0x80);
    assert_eq!(b.read(0x802F), 0x9F);
    assert_eq!(b.read(0x8030), 0x00);
    assert_eq!(b.read(0xFF55), 0xFF);
}

#[test]
fn bus_hblank_dma_one_block_per_step() {
    let mut b = bus(Model::CGB);
    for i in 0..32u16 {
        b.write(0xC000 + i, 0x40 + i as u8);
    }
    b.write(0xFF51, 0xC0);
    b.write(0xFF52, 0x00);
    b.write(0xFF53, 0x01);
    b.write(0xFF54, 0x00);
    b.write(0xFF55, 0x81);
    assert_eq!(b.read(0x8100), 0x00);
    assert_eq!(b.read(0xFF55), 0x01);
    b.hdma_hblank_step();
    assert_eq!(b.read(0x8100), 0x40);
    assert_eq!(b.read(0x810F), 0x4F);
    assert_eq!(b.read(0x8110), 0x00);
    assert_eq!(b.read(0xFF55), 0x00);
    b.hdma_hblank_step();
    assert_eq!(b.read(0x811F), 0x5F);
    assert_eq!(b.read(0xFF55), 0xFF);
}

#[test]
fn bus_hdma_ignored_on_dmg() {
    let mut b = bus(Model::DMG);
    b.write(0xFF55, 0x01);
    assert!(!b.hdma.active);
    b.hdma_gdma();
    assert_eq!(b.read(0xFF55), 0xFF);
}

#[test]
fn bus_interrupt_priority() {
    let mut b = bus(Model::DMG);
    assert_eq!(b.pending_interrupt(), None);
    b.write(0xFF0F, 0x14);
    b.write(0xFFFF, 0x1F);
    assert_eq!(b.pending_interrupt(), Some(2));
    b.clear_interrupt(2);
    assert_eq!(b.pending_interrupt(), Some(4));
    b.write(0xFFFF, 0x0F);
    assert_eq!(b.pending_interrupt(), None);
}

#[test]
fn bus_collects_requests() {
    let mut b = bus(Model::DMG);
    b.write(0xFF0F, 0x00);
    b.ppu.vblank_irq = true;
    b.timer.interrupt_request = true;
    b.joypad.interrupt_request = true;
    b.collect_interrupts();
    assert_eq!(b.read(0xFF0F), 0xE0 | 0x01 | 0x04 | 0x10);
    assert!(!b.ppu.vblank_irq);
    assert!(!b.timer.interrupt_request);
    assert!(!b.joypad.interrupt_request);
}

#[test]
fn bus_speed_switch() {
    let mut b = bus(Model::CGB);
    b.write(0xFF4D, 0x01);
    assert_eq!(b.read(0xFF4D), 0x7F);
    b.perform_speed_switch();
    assert!(b.double_speed);
    assert_eq!(b.read(0xFF4D), 0xFE);
    assert_eq!(b.read(0xFF04), 0);
    b.perform_speed_switch();
    assert!(b.double_speed);
    let mut d = bus(Model::DMG);
    d.write(0xFF4D, 0x01);
    d.perform_speed_switch();
    assert!(!d.double_speed);
}

#[test]
fn bus_words_little_endian() {
    let mut b = bus(Model::DMG);
    b.write16(0xC010, 0xBEEF);
    assert_eq!(b.read(0xC010), 0xEF);
    assert_eq!(b.read(0xC011), 0xBE);
    assert_eq!(b.read16(0xC010), 0xBEEF);
    b.write16(0xFFFF, 0x1234);
    assert_eq!(b.read(0xFFFF), 0x34);
    assert_eq!(b.read(0x0000), 0xAB);
}

#[test]
fn bus_tick_runs_peripherals() {
    let mut b = bus(Model::DMG);
    let div = b.timer.div_counter;
    b.tick(8);
    assert_eq!(b.timer.div_counter, div.wrapping_add(8));
    assert_eq!(b.ppu.dot, 8);
}

#[test]
fn bus_serial_and_joypad_registers() {
    let mut b = bus(Model::DMG);
    b.write(0xFF01, b'A');
    b.write(0xFF02, 0x81);
    assert_eq!(b.serial.output, vec![b'A']);
    b.collect_interrupts();
    assert_eq!(b.read(0xFF0F) & 0x08, 0x08);
    b.write(0xFF00, 0x20);
    assert_eq!(b.read(0xFF00), 0xCF);
}

#[test]
fn bus_cartridge_ram_through_bus() {
    let mut r = vec![0u8; 0x8000];
    r[0x147] = 0x03;
    r[0x149] = 0x02;
    let mut b = Bus::new(Cartridge::new(r), None, true, Model::DMG);
    b.write(0x0000, 0x0A);
    b.write(0xA010, 0x99);
    assert_eq!(b.read(0xA010), 0x99);
}
