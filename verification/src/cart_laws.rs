//! Properties of the cartridge: what the header selects and how the RAM
//! banks of each controller are reached.
use vstd::prelude::*;
use crate::cartridge::{CartView, CgbFlag, MbcType, cart_new_spec, cart_read_spec, cart_write_spec};

verus! {

/// Header decoding. The RAM size code at 0x0149 gives no RAM (0x00, except
/// MBC2's built-in 512 bytes), 2 KiB (0x01), 8 KiB (0x02), 32 KiB (0x03),
/// 128 KiB (0x04) or 64 KiB (0x05), all zero at power-on, and no RAM for any
/// other code. The controller byte at 0x0147 selects ROM only (0x00), MBC1
/// (0x01..0x03), MBC2 (0x05..0x06), MBC3 (0x0F..0x13) or MBC5 (0x19..0x1E).
/// The CGB flag at 0x0143 is 0x80 (CGB compatible) or 0xC0 (CGB only). At
/// power-on ROM bank 1 and RAM bank 0 are selected and RAM is disabled.
pub proof fn lemma_header_decoding(rom: Seq<u8>)
    requires
        rom.len() > 0x149,
    ensures
        ({
            let c = cart_new_spec(rom);
            let code = rom[0x149];
            let t = rom[0x147];
            &&& code == 0x00 ==> c.ram.len() == (if 0x05 <= t <= 0x06 { 512nat } else { 0nat })
            &&& code == 0x01 ==> c.ram.len() == 2048
            &&& code == 0x02 ==> c.ram.len() == 8192
            &&& code == 0x03 ==> c.ram.len() == 32768
            &&& code == 0x04 ==> c.ram.len() == 131072
            &&& code == 0x05 ==> c.ram.len() == 65536
            &&& code > 0x05 ==> c.ram.len() == 0
            &&& forall|i: int| 0 <= i < c.ram.len() ==> c.ram[i] == 0
            &&& (c.mbc == MbcType::RomOnly <==> t == 0x00)
            &&& (c.mbc == MbcType::Mbc1 <==> 0x01 <= t <= 0x03)
            &&& (c.mbc == MbcType::Mbc2 <==> 0x05 <= t <= 0x06)
            &&& (c.mbc == MbcType::Mbc3 <==> 0x0F <= t <= 0x13)
            &&& (c.mbc == MbcType::Mbc5 <==> 0x19 <= t <= 0x1E)
            &&& (c.cgb_flag == CgbFlag::CGBCompatible <==> rom[0x143] == 0x80)
            &&& (c.cgb_flag == CgbFlag::CGBOnly <==> rom[0x143] == 0xC0)
            &&& c.rom_bank == 1 && c.ram_bank == 0 && !c.ram_enabled
        }),
{
}

/// The RAM bank that a write of `v` to 0x4000..0x5FFF selects: the low four
/// bits on MBC5, the low two bits on MBC1 (RAM banking mode), and `v` itself
/// (0..3) on MBC3.
pub open spec fn selected_ram_bank(mbc: MbcType, v: u8) -> int {
    match mbc {
        MbcType::Mbc5 => v as int % 16,
        MbcType::Mbc1 => v as int % 4,
        _ => v as int,
    }
}

/// Selecting a RAM bank (a write of `v` to 0x4000..0x5FFF on MBC5, on MBC1
/// in RAM banking mode, or on MBC3 with `v` in 0..3) makes 0xA000 + k reach
/// RAM byte bank * 0x2000 + k, for reads and writes alike, and changes
/// neither the RAM contents nor whether RAM is enabled.
pub proof fn lemma_ram_bank_select(c: CartView, a: u16, v: u8, k: u16, x: u8)
    requires
        0x4000 <= a <= 0x5FFF,
        k < 0x2000,
        c.mbc == MbcType::Mbc5 || (c.mbc == MbcType::Mbc1 && c.mbc1_mode) || (c.mbc == MbcType::Mbc3
            && v <= 3),
    ensures
        ({
            let c1 = cart_write_spec(c, a, v);
            let idx = selected_ram_bank(c.mbc, v) * 0x2000 + k;
            &&& c1.ram == c.ram
            &&& c1.ram_enabled == c.ram_enabled
            &&& cart_read_spec(c1, (0xA000 + k) as u16) == (if !c.ram_enabled {
                0xFF
            } else if idx < c.ram.len() {
                c.ram[idx]
            } else {
                0xFF
            })
            &&& (c.ram_enabled && idx < c.ram.len() ==> cart_write_spec(c1, (0xA000 + k) as u16, x).ram
                == c.ram.update(idx, x))
            &&& (c.ram_enabled && idx < c.ram.len() ==> cart_read_spec(
                cart_write_spec(c1, (0xA000 + k) as u16, x),
                (0xA000 + k) as u16,
            ) == x)
        }),
{
    assert(v & 0x0F == v % 16 && v & 0x03 == v % 4) by (bit_vector);
}

/// RAM enable: writing `v` to 0x0000..0x1FFF (on MBC2 only with address
/// bit 8 clear) enables external RAM exactly when the low nibble of `v` is
/// 0xA; it changes neither RAM contents nor banks, and while RAM is disabled
/// 0xA000..0xBFFF reads 0xFF and writes there are lost.
pub proof fn lemma_ram_enable(c: CartView, a: u16, v: u8, k: u16, x: u8)
    requires
        a <= 0x1FFF,
        k < 0x2000,
        c.mbc == MbcType::Mbc1 || c.mbc == MbcType::Mbc3 || c.mbc == MbcType::Mbc5 || (c.mbc
            == MbcType::Mbc2 && (a / 256) % 2 == 0),
    ensures
        ({
            let c1 = cart_write_spec(c, a, v);
            &&& c1.ram_enabled == (v % 16 == 10)
            &&& c1.ram == c.ram
            &&& c1.ram_bank == c.ram_bank && c1.rom_bank == c.rom_bank
            &&& (!c1.ram_enabled ==> cart_read_spec(c1, (0xA000 + k) as u16) == 0xFF)
            &&& (!c1.ram_enabled ==> cart_write_spec(c1, (0xA000 + k) as u16, x).ram == c.ram)
        }),
{
    assert(v & 0x0F == v % 16 && (a & 0x0100 == 0) == ((a / 256) % 2 == 0)) by (bit_vector);
}

} // verus!
