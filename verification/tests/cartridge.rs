use ferrisboy::cartridge::{Cartridge, CgbFlag, MbcType};

fn rom(banks: usize, mbc: u8, ram: u8, cgb: u8) -> Vec<u8> {
    let mut r = vec![0u8; banks * 0x4000];
    r[0x0147] = mbc;
    r[0x0149] = ram;
    r[0x0143] = cgb;
    for b in 0..banks {
        r[b * 0x4000 + 0x10] = b as u8;
    }
    r
}

#[test]
fn header_decoding() {
    let c = Cartridge::new(rom(2, 0x00, 0x00, 0x00));
    assert_eq!(c.mbc, MbcType::RomOnly);
    assert_eq!(c.cgb_flag, CgbFlag::DMGOnly);
    assert_eq!(c.ram.len(), 0);
    let c = Cartridge::new(rom(2, 0x03, 0x03, 0x80));
    assert_eq!(c.mbc, MbcType::Mbc1);
    assert_eq!(c.cgb_flag, CgbFlag::CGBCompatible);
    assert_eq!(c.ram.len(), 32 * 1024);
    let c = Cartridge::new(rom(2, 0x06, 0x00, 0xC0));
    assert_eq!(c.mbc, MbcType::Mbc2);
    assert_eq!(c.cgb_flag, CgbFlag::CGBOnly);
    assert_eq!(c.ram.len(), 512);
    let c = Cartridge::new(rom(2, 0x13, 0x04, 0x00));
    assert_eq!(c.mbc, MbcType::Mbc3);
    assert_eq!(c.ram.len(), 128 * 1024);
    let c = Cartridge::new(rom(2, 0x1E, 0x05, 0x00));
    assert_eq!(c.mbc, MbcType::Mbc5);
    assert_eq!(c.ram.len(), 64 * 1024);
    let c = Cartridge::new(rom(2, 0x1F, 0x07, 0x00));
    assert_eq!(c.mbc, MbcType::Unknown(0x1F));
    assert_eq!(c.ram.len(), 0);
}

#[test]
fn mbc_names() {
    assert_eq!(MbcType::RomOnly.name(), "ROM Only");
    assert_eq!(MbcType::Mbc1.name(), "MBC1");
    assert_eq!(MbcType::Mbc2.name(), "MBC2");
    assert_eq!(MbcType::Mbc3.name(), "MBC3");
    assert_eq!(MbcType::Mbc5.name(), "MBC5");
    assert_eq!(MbcType::Unknown(0x1F).name(), "Unknown(0x1f)");
    assert_eq!(MbcType::Unknown(0xA0).name(), "Unknown(0xa0)");
    assert_eq!(MbcType::Unknown(0x04).name(), "Unknown(0x04)");
}

#[test]
fn title_dmg_and_cgb() {
    let mut r = rom(2, 0x00, 0x00, 0x00);
    r[0x134..0x134 + 6].copy_from_slice(b"TETRIS");
    let c = Cartridge::new(r);
    assert_eq!(c.title(), "TETRIS");
    let mut r = rom(2, 0x00, 0x00, 0x80);
    r[0x134..0x134 + 15].copy_from_slice(b"POKEMON_CRYSTAL");
    let c = Cartridge::new(r);
    // the CGB title field is 11 bytes
    assert_eq!(c.title(), "POKEMON_CRY");
    let mut r = rom(2, 0x00, 0x00, 0x00);
    r[0x134..0x134 + 7].copy_from_slice(b"ZELDA  ");
    let c = Cartridge::new(r);
    assert_eq!(c.title_bytes(), b"ZELDA  ".to_vec());
    assert_eq!(c.title(), "ZELDA");
}

#[test]
fn mbc1_rom_banking() {
    let mut c = Cartridge::new(rom(4, 0x01, 0x02, 0x00));
    assert_eq!(c.read(0x0010), 0);
    assert_eq!(c.read(0x4010), 1);
    c.write(0x2000, 2);
    assert_eq!(c.read(0x4010), 2);
    assert_eq!(c.read(0x0010), 0);
    c.write(0x2000, 0);
    assert_eq!(c.read(0x4010), 1);
    // a bank past the end of the image reads 0xFF
    c.write(0x2000, 0x1F);
    assert_eq!(c.read(0x4010), 0xFF);
}

#[test]
fn mbc1_ram_enable_and_banks() {
    let mut c = Cartridge::new(rom(2, 0x03, 0x02, 0x00));
    assert_eq!(c.read(0xA000), 0xFF);
    c.write(0xA000, 0x55);
    c.write(0x0000, 0x0A);
    assert_eq!(c.read(0xA000), 0x00);
    c.write(0xA000, 0x55);
    assert_eq!(c.read(0xA000), 0x55);
    c.write(0x0000, 0x00);
    assert_eq!(c.read(0xA000), 0xFF);
    c.write(0x0000, 0x1A);
    assert_eq!(c.read(0xA000), 0x55);
    // RAM banking mode: bank 1 lies beyond 8 KiB
    c.write(0x6000, 0x01);
    c.write(0x4000, 0x01);
    assert_eq!(c.read(0xA000), 0xFF);
}

#[test]
fn mbc2_address_bit8() {
    let mut c = Cartridge::new(rom(4, 0x05, 0x00, 0x00));
    c.write(0x2000, 3);
    assert_eq!(c.read(0x4010), 1);
    c.write(0x2100, 3);
    assert_eq!(c.read(0x4010), 3);
    c.write(0x0100, 0x0A);
    assert_eq!(c.read(0xA000), 0xFF);
    c.write(0x0000, 0x0A);
    c.write(0xA1FF, 0x42);
    assert_eq!(c.read(0xA1FF), 0x42);
    assert_eq!(c.read(0xA200), 0xFF);
}

#[test]
fn mbc3_rtc_registers() {
    let mut c = Cartridge::new(rom(2, 0x10, 0x03, 0x00));
    c.write(0x0000, 0x0A);
    c.write(0x4000, 0x08);
    assert_eq!(c.read(0xA000), 0x08);
    c.write(0xA000, 0x3B);
    assert_eq!(c.read(0xA000), 0x3B);
    c.write(0x4000, 0x01);
    c.write(0xA123, 0x77);
    assert_eq!(c.read(0xA123), 0x77);
    assert_eq!(c.ram[0x2123], 0x77);
    c.write(0x2000, 0x00);
    assert_eq!(c.read(0x4010), 1);
}

#[test]
fn mbc5_nine_bit_bank() {
    let mut c = Cartridge::new(rom(4, 0x19, 0x00, 0x00));
    c.write(0x2000, 3);
    assert_eq!(c.read(0x4010), 3);
    // MBC5 maps bank 0 into the switchable window
    c.write(0x2000, 0);
    assert_eq!(c.read(0x4010), 0);
    c.write(0x3000, 1);
    assert_eq!(c.rom_bank, 0x100);
    assert_eq!(c.read(0x4010), 0xFF);
}

#[test]
fn unknown_mbc_ignores_writes() {
    let mut c = Cartridge::new(rom(4, 0x20, 0x00, 0x00));
    c.write(0x2000, 3);
    assert_eq!(c.read(0x4010), 1);
    assert_eq!(c.read(0x8000), 0xFF);
}

#[test]
fn mbc3_rom_banking() {
    let mut c = Cartridge::new(rom(8, 0x13, 0x00, 0x00));
    assert_eq!(c.read(0x4010), 1);
    c.write(0x2000, 5);
    assert_eq!(c.read(0x4010), 5);
    // only the low seven bits select the bank
    c.write(0x3FFF, 0x87);
    assert_eq!(c.read(0x4010), 7);
    assert_eq!(c.read(0x0010), 0);
}

#[test]
fn mbc1_high_bank_bits() {
    let mut c = Cartridge::new(rom(0x40, 0x01, 0x00, 0x00));
    c.write(0x2000, 0x03);
    c.write(0x4000, 0x01);
    assert_eq!(c.read(0x4010), 0x23);
    // bank 0x20 cannot be reached: a zero low part counts as 1
    c.write(0x2000, 0x00);
    assert_eq!(c.read(0x4010), 0x21);
}

#[test]
fn title_empty_when_field_starts_with_zero() {
    let c = Cartridge::new(rom(2, 0x00, 0x00, 0x00));
    assert_eq!(c.title_bytes(), Vec::<u8>::new());
    assert_eq!(c.title(), "");
}

#[test]
fn title_invalid_utf8_is_replaced() {
    let mut r = rom(2, 0x00, 0x00, 0x00);
    r[0x134..0x134 + 4].copy_from_slice(&[b' ', b'A', 0xFF, b'B']);
    let c = Cartridge::new(r);
    assert_eq!(c.title_bytes(), vec![b' ', b'A', 0xFF, b'B']);
    assert_eq!(c.title(), "A\u{FFFD}B");
}

#[test]
fn title_trims_unicode_white_space() {
    let mut r = rom(2, 0x00, 0x00, 0x00);
    // tab, "MARIO", then U+00A0 (no-break space) in UTF-8
    r[0x134..0x134 + 8].copy_from_slice(&[0x09, b'M', b'A', b'R', b'I', b'O', 0xC2, 0xA0]);
    let c = Cartridge::new(r);
    assert_eq!(c.title(), "MARIO");
}
