use vstd::prelude::*;

verus! {

/// Memory bank controller named by header byte 0x0147.
#[derive(Debug, Clone, Copy, PartialEq, Eq, Structural)]
pub enum MbcType {
    RomOnly,
    Mbc1,
    Mbc2,
    Mbc3,
    Mbc5,
    Unknown(u8),
}

/// CGB compatibility flag from cartridge header 0x0143.
#[derive(Debug, Clone, Copy, PartialEq, Eq, Structural)]
pub enum CgbFlag {
    DMGOnly,
    /// Works on both DMG and CGB
    CGBCompatible,
    CGBOnly,
}

/// Header byte 0x0147 holds the controller type.
pub const HEADER_MBC: usize = 0x0147;

/// Header byte 0x0143 holds the CGB flag.
pub const HEADER_CGB: usize = 0x0143;

/// Header byte 0x0149 holds the external RAM size.
pub const HEADER_RAM_SIZE: usize = 0x0149;

/// The title starts at header byte 0x0134.
pub const TITLE_START: usize = 0x0134;

/// ROM/RAM banking for ROM-only, MBC1, MBC2, MBC3 (clock registers stubbed)
/// and MBC5 cartridges.
pub struct Cartridge {
    pub rom: Vec<u8>,
    pub ram: Vec<u8>,
    pub mbc: MbcType,
    pub cgb_flag: CgbFlag,
    pub rom_bank: usize,
    pub ram_bank: usize,
    pub ram_enabled: bool,
    pub mbc1_mode: bool,
    pub rtc_selected: bool,
    pub rtc_reg: u8,
}

/// Model of a cartridge.
#[verifier::ext_equal]
pub ghost struct CartView {
    pub rom: Seq<u8>,
    pub ram: Seq<u8>,
    pub mbc: MbcType,
    pub cgb_flag: CgbFlag,
    pub rom_bank: usize,
    pub ram_bank: usize,
    pub ram_enabled: bool,
    pub mbc1_mode: bool,
    pub rtc_selected: bool,
    pub rtc_reg: u8,
}

impl View for Cartridge {
    type V = CartView;

    open spec fn view(&self) -> CartView {
        CartView {
            rom: self.rom@,
            ram: self.ram@,
            mbc: self.mbc,
            cgb_flag: self.cgb_flag,
            rom_bank: self.rom_bank,
            ram_bank: self.ram_bank,
            ram_enabled: self.ram_enabled,
            mbc1_mode: self.mbc1_mode,
            rtc_selected: self.rtc_selected,
            rtc_reg: self.rtc_reg,
        }
    }
}

/// The controller that header byte 0x0147 names.
pub open spec fn mbc_of(b: u8) -> MbcType {
    if b == 0x00 {
        MbcType::RomOnly
    } else if 0x01 <= b <= 0x03 {
        MbcType::Mbc1
    } else if 0x05 <= b <= 0x06 {
        MbcType::Mbc2
    } else if 0x0F <= b <= 0x13 {
        MbcType::Mbc3
    } else if 0x19 <= b <= 0x1E {
        MbcType::Mbc5
    } else {
        MbcType::Unknown(b)
    }
}

/// The CGB flag that header byte 0x0143 gives.
pub open spec fn cgb_flag_of(b: u8) -> CgbFlag {
    if b == 0x80 {
        CgbFlag::CGBCompatible
    } else if b == 0xC0 {
        CgbFlag::CGBOnly
    } else {
        CgbFlag::DMGOnly
    }
}

/// External RAM size in bytes for header byte 0x0149; MBC2 has 512 bytes of
/// its own.
pub open spec fn ram_size_of(b: u8, mbc: MbcType) -> nat {
    if b == 0x00 {
        if mbc == MbcType::Mbc2 { 512 } else { 0 }
    } else if b == 0x01 {
        2 * 1024
    } else if b == 0x02 {
        8 * 1024
    } else if b == 0x03 {
        32 * 1024
    } else if b == 0x04 {
        128 * 1024
    } else if b == 0x05 {
        64 * 1024
    } else {
        0
    }
}

/// The cartridge freshly made from a ROM image.
pub open spec fn cart_new_spec(rom: Seq<u8>) -> CartView {
    let mbc = mbc_of(rom[HEADER_MBC as int]);
    CartView {
        rom,
        ram: Seq::new(ram_size_of(rom[HEADER_RAM_SIZE as int], mbc), |i: int| 0u8),
        mbc,
        cgb_flag: cgb_flag_of(rom[HEADER_CGB as int]),
        rom_bank: 1,
        ram_bank: 0,
        ram_enabled: false,
        mbc1_mode: false,
        rtc_selected: false,
        rtc_reg: 0,
    }
}

/// ROM byte `offset` of bank `bank`; 0xFF past the end of the image.
pub open spec fn rom_read_spec(c: CartView, bank: usize, offset: usize) -> u8 {
    let idx = bank * 0x4000 + offset;
    if idx < c.rom.len() { c.rom[idx] } else { 0xFF }
}

/// The bank mapped at 0x4000..0x7FFF. Bank 0 selects bank 1, except on MBC5.
pub open spec fn effective_rom_bank_spec(c: CartView) -> usize {
    match c.mbc {
        MbcType::RomOnly => 1,
        MbcType::Mbc1 => {
            let b = if c.mbc1_mode { c.rom_bank & 0x1F } else { c.rom_bank & 0x7F };
            if b == 0 { 1 } else { b }
        },
        MbcType::Mbc2 => {
            let b = c.rom_bank & 0x0F;
            if b == 0 { 1 } else { b }
        },
        MbcType::Mbc3 => {
            let b = c.rom_bank & 0x7F;
            if b == 0 { 1 } else { b }
        },
        MbcType::Mbc5 => c.rom_bank & 0x1FF,
        MbcType::Unknown(_) => c.rom_bank,
    }
}

/// Offset into external RAM of an address in 0xA000..0xBFFF.
pub open spec fn ram_offset(c: CartView, addr: u16) -> int {
    c.ram_bank * 0x2000 + (addr - 0xA000)
}

/// What a read of `addr` gives.
pub open spec fn cart_read_spec(c: CartView, addr: u16) -> u8 {
    if addr <= 0x3FFF {
        rom_read_spec(c, 0, addr as usize)
    } else if addr <= 0x7FFF {
        rom_read_spec(c, effective_rom_bank_spec(c), (addr - 0x4000) as usize)
    } else if 0xA000 <= addr <= 0xBFFF {
        if !c.ram_enabled {
            0xFF
        } else if c.mbc == MbcType::Mbc3 && c.rtc_selected {
            c.rtc_reg
        } else if ram_offset(c, addr) < c.ram.len() {
            c.ram[ram_offset(c, addr)]
        } else {
            0xFF
        }
    } else {
        0xFF
    }
}

/// RAM enable: the low nibble 0xA enables, anything else disables.
pub open spec fn ram_enable_value(val: u8) -> bool {
    (val & 0x0F) == 0x0A
}

/// MBC1 register writes.
pub open spec fn mbc1_write_spec(c: CartView, addr: u16, val: u8) -> CartView {
    if addr <= 0x1FFF {
        CartView { ram_enabled: ram_enable_value(val), ..c }
    } else if addr <= 0x3FFF {
        let lo = (val & 0x1F) as usize;
        CartView { rom_bank: (c.rom_bank & 0x60) | (if lo == 0 { 1 } else { lo }), ..c }
    } else if addr <= 0x5FFF {
        let hi = (val & 0x03) as usize;
        if c.mbc1_mode {
            CartView { ram_bank: hi, ..c }
        } else {
            CartView { rom_bank: (c.rom_bank & 0x1F) | (hi << 5usize), ..c }
        }
    } else if addr <= 0x7FFF {
        CartView { mbc1_mode: val & 0x01 != 0, ..c }
    } else {
        c
    }
}

/// MBC2 register writes: address bit 8 tells RAM enable from ROM bank.
pub open spec fn mbc2_write_spec(c: CartView, addr: u16, val: u8) -> CartView {
    if addr <= 0x1FFF {
        if addr & 0x0100 == 0 { CartView { ram_enabled: ram_enable_value(val), ..c } } else { c }
    } else if addr <= 0x3FFF {
        if addr & 0x0100 != 0 {
            let b = (val & 0x0F) as usize;
            CartView { rom_bank: if b == 0 { 1 } else { b }, ..c }
        } else {
            c
        }
    } else {
        c
    }
}

/// MBC3 register writes: 0x4000..0x5FFF selects a RAM bank (0..3) or a
/// clock register (0x08..0x0C).
pub open spec fn mbc3_write_spec(c: CartView, addr: u16, val: u8) -> CartView {
    if addr <= 0x1FFF {
        CartView { ram_enabled: ram_enable_value(val), ..c }
    } else if addr <= 0x3FFF {
        let b = (val & 0x7F) as usize;
        CartView { rom_bank: if b == 0 { 1 } else { b }, ..c }
    } else if addr <= 0x5FFF {
        if val <= 0x03 {
            CartView { ram_bank: val as usize, rtc_selected: false, ..c }
        } else if 0x08 <= val <= 0x0C {
            CartView { rtc_selected: true, rtc_reg: val, ..c }
        } else {
            c
        }
    } else {
        c
    }
}

/// MBC5 register writes: a 9-bit ROM bank in two registers, a 4-bit RAM bank.
pub open spec fn mbc5_write_spec(c: CartView, addr: u16, val: u8) -> CartView {
    if addr <= 0x1FFF {
        CartView { ram_enabled: ram_enable_value(val), ..c }
    } else if addr <= 0x2FFF {
        CartView { rom_bank: (c.rom_bank & 0x100) | (val as usize), ..c }
    } else if addr <= 0x3FFF {
        CartView { rom_bank: (c.rom_bank & 0x0FF) | (((val & 0x01) as usize) << 8usize), ..c }
    } else if addr <= 0x5FFF {
        CartView { ram_bank: (val & 0x0F) as usize, ..c }
    } else {
        c
    }
}

/// The controller's response to a write.
pub open spec fn mbc_write_spec(c: CartView, addr: u16, val: u8) -> CartView {
    match c.mbc {
        MbcType::Mbc1 => mbc1_write_spec(c, addr, val),
        MbcType::Mbc2 => mbc2_write_spec(c, addr, val),
        MbcType::Mbc3 => mbc3_write_spec(c, addr, val),
        MbcType::Mbc5 => mbc5_write_spec(c, addr, val),
        _ => c,
    }
}

/// The cartridge after writing `val` at `addr`: first the controller sees
/// the write, then, if RAM is (now) enabled and the address is in
/// 0xA000..0xBFFF, the selected clock register or RAM byte takes the value.
pub open spec fn cart_write_spec(c: CartView, addr: u16, val: u8) -> CartView {
    let m = mbc_write_spec(c, addr, val);
    if 0xA000 <= addr <= 0xBFFF && m.ram_enabled {
        if m.mbc == MbcType::Mbc3 && m.rtc_selected {
            CartView { rtc_reg: val, ..m }
        } else if ram_offset(m, addr) < m.ram.len() {
            CartView { ram: m.ram.update(ram_offset(m, addr), val), ..m }
        } else {
            m
        }
    } else {
        m
    }
}

/// Index of the first zero byte of `s` at or after `i`, or its length.
pub open spec fn zero_pos_from(s: Seq<u8>, i: int) -> int
    decreases s.len() - i,
{
    if i >= s.len() {
        s.len() as int
    } else if s[i] == 0 {
        i
    } else {
        zero_pos_from(s, i + 1)
    }
}

/// The title field of the header: 16 bytes on DMG cartridges, 11 when the
/// CGB flag is set; it ends at the first zero byte.
pub open spec fn title_bytes_spec(c: CartView) -> Seq<u8> {
    let end: int = if c.cgb_flag != CgbFlag::DMGOnly { 0x013F } else { 0x0144 };
    let field = c.rom.subrange(TITLE_START as int, end);
    field.take(zero_pos_from(field, 0))
}

/// A title of printable ASCII that neither starts nor ends with a space:
/// decoding and trimming leave it as it is.
pub open spec fn plain_title(t: Seq<u8>) -> bool {
    &&& t.len() > 0
    &&& forall|i: int| 0 <= i < t.len() ==> 0x20 <= #[trigger] t[i] <= 0x7E
    &&& t[0] != 0x20
    &&& t.last() != 0x20
}

/// Text that `String::from_utf8_lossy` makes of a byte sequence.
pub uninterp spec fn utf8_lossy(bytes: Seq<u8>) -> Seq<char>;

/// Unicode White_Space, the characters that `char::is_whitespace` accepts.
pub open spec fn is_white_space(c: char) -> bool {
    let u = c as u32;
    ||| 0x09 <= u <= 0x0D
    ||| u == 0x20
    ||| u == 0x85
    ||| u == 0xA0
    ||| u == 0x1680
    ||| 0x2000 <= u <= 0x200A
    ||| u == 0x2028
    ||| u == 0x2029
    ||| u == 0x202F
    ||| u == 0x205F
    ||| u == 0x3000
}

/// Index of the first character of `s` at or after `i` that is not white
/// space, or the length.
pub open spec fn trim_start_from(s: Seq<char>, i: int) -> int
    decreases s.len() - i,
{
    if i >= s.len() {
        s.len() as int
    } else if is_white_space(s[i]) {
        trim_start_from(s, i + 1)
    } else {
        i
    }
}

/// Index just past the last character of `s` before `j` that is not white
/// space, or 0.
pub open spec fn trim_end_before(s: Seq<char>, j: int) -> int
    decreases j,
{
    if j <= 0 {
        0
    } else if is_white_space(s[j - 1]) {
        trim_end_before(s, j - 1)
    } else {
        j
    }
}

/// `s` without its leading and trailing white space.
pub open spec fn trim_spec(s: Seq<char>) -> Seq<char> {
    let a = trim_start_from(s, 0);
    let b = trim_end_before(s, s.len() as int);
    if a < b { s.subrange(a, b) } else { Seq::empty() }
}

/// Calls `String::from_utf8_lossy`, which decodes UTF-8 and puts U+FFFD in
/// place of invalid sequences. Claimed: the result is `utf8_lossy` of the
/// bytes, and bytes that are all ASCII come out as the same characters.
#[verifier::external_body]
fn decode_lossy(bytes: &[u8]) -> (s: String)
    ensures
        s@ == utf8_lossy(bytes@),
        (forall|i: int| 0 <= i < bytes@.len() ==> bytes@[i] < 0x80) ==> s@ == bytes@.map_values(
            |b: u8| b as char,
        ),
{
    String::from_utf8_lossy(bytes).into_owned()
}

/// Calls `str::trim`, which removes leading and trailing white space as
/// Unicode's White_Space property defines it. Claimed: the result is
/// `trim_spec` of the input.
#[verifier::external_body]
fn trim_string(s: &str) -> (r: String)
    ensures
        r@ == trim_spec(s@),
{
    s.trim().to_string()
}

proof fn lemma_bank_bounds(x: usize, v: u8)
    by (bit_vector)
    requires
        x <= 0x1FF,
    ensures
        (x & 0x60) | ((v & 0x1F) as usize) <= 0x7F,
        (x & 0x60) | 1usize <= 0x7F,
        (x & 0x1F) | (((v & 0x03) as usize) << 5usize) <= 0x7F,
        (x & 0x100) | (v as usize) <= 0x1FF,
        (x & 0x0FF) | (((v & 0x01) as usize) << 8usize) <= 0x1FF,
        x & 0x7F <= 0x7F,
        x & 0x1F <= 0x1F,
        x & 0x0F <= 0x0F,
        x & 0x1FF <= 0x1FF,
        (v & 0x0F) as usize <= 0x0F,
        (v & 0x7F) as usize <= 0x7F,
        (v & 0x03) as usize <= 0x03,
{
}

impl Cartridge {
    pub open spec fn wf(&self) -> bool {
        &&& self.rom@.len() > HEADER_RAM_SIZE
        &&& self.rom_bank <= 0x1FF
        &&& self.ram_bank <= 0x0F
    }

    /// Reads the header: controller type, CGB flag and RAM size.
    pub fn new(rom: Vec<u8>) -> (c: Self)
        requires
            rom@.len() > HEADER_RAM_SIZE,
        ensures
            c.wf(),
            c@ == cart_new_spec(rom@),
    {
        let mbc_byte = rom[HEADER_MBC];
        let mbc = if mbc_byte == 0x00 {
            MbcType::RomOnly
        } else if 0x01 <= mbc_byte && mbc_byte <= 0x03 {
            MbcType::Mbc1
        } else if 0x05 <= mbc_byte && mbc_byte <= 0x06 {
            MbcType::Mbc2
        } else if 0x0F <= mbc_byte && mbc_byte <= 0x13 {
            MbcType::Mbc3
        } else if 0x19 <= mbc_byte && mbc_byte <= 0x1E {
            MbcType::Mbc5
        } else {
            MbcType::Unknown(mbc_byte)
        };

        let cgb_byte = rom[HEADER_CGB];
        let cgb_flag = if cgb_byte == 0x80 {
            CgbFlag::CGBCompatible
        } else if cgb_byte == 0xC0 {
            CgbFlag::CGBOnly
        } else {
            CgbFlag::DMGOnly
        };

        let size_byte = rom[HEADER_RAM_SIZE];
        let ram_size: usize = if size_byte == 0x00 {
            if mbc == MbcType::Mbc2 { 512 } else { 0 }
        } else if size_byte == 0x01 {
            2 * 1024
        } else if size_byte == 0x02 {
            8 * 1024
        } else if size_byte == 0x03 {
            32 * 1024
        } else if size_byte == 0x04 {
            128 * 1024
        } else if size_byte == 0x05 {
            64 * 1024
        } else {
            0
        };

        let c = Cartridge {
            rom,
            ram: vec![0u8; ram_size],
            mbc,
            cgb_flag,
            rom_bank: 1,
            ram_bank: 0,
            ram_enabled: false,
            mbc1_mode: false,
            rtc_selected: false,
            rtc_reg: 0,
        };
        assert(c@.ram =~= cart_new_spec(c.rom@).ram);
        c
    }

    /// The header title bytes, up to the first zero.
    pub fn title_bytes(&self) -> (t: Vec<u8>)
        requires
            self.wf(),
        ensures
            t@ == title_bytes_spec(self@),
    {
        let end: usize = if self.cgb_flag != CgbFlag::DMGOnly { 0x013F } else { 0x0144 };
        let ghost field = self.rom@.subrange(TITLE_START as int, end as int);
        let mut out: Vec<u8> = Vec::new();
        let mut i: usize = TITLE_START;
        while i < end && self.rom[i] != 0
            invariant
                TITLE_START <= i <= end,
                end == 0x013F || end == 0x0144,
                end < self.rom@.len(),
                field == self.rom@.subrange(TITLE_START as int, end as int),
                out@ == field.take(i - TITLE_START),
                zero_pos_from(field, 0) == zero_pos_from(field, i - TITLE_START),
            decreases end - i,
        {
            out.push(self.rom[i]);
            assert(out@ =~= field.take(i + 1 - TITLE_START));
            i = i + 1;
        }
        assert(zero_pos_from(field, i - TITLE_START) == i - TITLE_START);
        out
    }

    /// The cartridge title from the header, decoded and trimmed.
    pub fn title(&self) -> (s: String)
        requires
            self.wf(),
        ensures
            s@ == trim_spec(utf8_lossy(title_bytes_spec(self@))),
            title_bytes_spec(self@).len() == 0 ==> s@.len() == 0,
            plain_title(title_bytes_spec(self@)) ==> s@ == title_bytes_spec(self@).map_values(
                |b: u8| b as char,
            ),
    {
        let bytes = self.title_bytes();
        let decoded = decode_lossy(bytes.as_slice());
        let ghost t = bytes@;
        proof {
            let d = decoded@;
            if plain_title(t) {
                assert(d == t.map_values(|b: u8| b as char));
                assert(trim_start_from(d, 0) == 0);
                assert(trim_end_before(d, d.len() as int) == d.len());
                assert(d.subrange(0, d.len() as int) =~= d);
            }
            if t.len() == 0 {
                assert(d.len() == 0);
            }
        }
        trim_string(decoded.as_str())
    }

    pub fn read(&self, addr: u16) -> (r: u8)
        requires
            self.wf(),
        ensures
            r == cart_read_spec(self@, addr),
    {
        if addr <= 0x3FFF {
            self.rom_read(0, addr as usize)
        } else if addr <= 0x7FFF {
            let bank = self.effective_rom_bank();
            self.rom_read(bank, (addr - 0x4000) as usize)
        } else if 0xA000 <= addr && addr <= 0xBFFF {
            if !self.ram_enabled {
                return 0xFF;
            }
            if self.mbc == MbcType::Mbc3 && self.rtc_selected {
                return self.rtc_reg;
            }
            let offset = self.ram_bank * 0x2000 + (addr - 0xA000) as usize;
            if offset < self.ram.len() {
                self.ram[offset]
            } else {
                0xFF
            }
        } else {
            0xFF
        }
    }

    fn rom_read(&self, bank: usize, offset: usize) -> (r: u8)
        requires
            bank <= 0x1FF,
            offset < 0x4000,
        ensures
            r == rom_read_spec(self@, bank, offset),
    {
        let idx = bank * 0x4000 + offset;
        if idx < self.rom.len() {
            self.rom[idx]
        } else {
            0xFF
        }
    }

    fn effective_rom_bank(&self) -> (b: usize)
        requires
            self.wf(),
        ensures
            b == effective_rom_bank_spec(self@),
            b <= 0x1FF,
    {
        proof {
            lemma_bank_bounds(self.rom_bank, 0);
        }
        match self.mbc {
            MbcType::RomOnly => 1,
            MbcType::Mbc1 => {
                let b = if self.mbc1_mode { self.rom_bank & 0x1F } else { self.rom_bank & 0x7F };
                if b == 0 { 1 } else { b }
            },
            MbcType::Mbc2 => {
                let b = self.rom_bank & 0x0F;
                if b == 0 { 1 } else { b }
            },
            MbcType::Mbc3 => {
                let b = self.rom_bank & 0x7F;
                if b == 0 { 1 } else { b }
            },
            MbcType::Mbc5 => self.rom_bank & 0x1FF,
            MbcType::Unknown(_) => self.rom_bank,
        }
    }

    pub fn write(&mut self, addr: u16, val: u8)
        requires
            old(self).wf(),
        ensures
            final(self).wf(),
            final(self)@ == cart_write_spec(old(self)@, addr, val),
    {
        match self.mbc {
            MbcType::RomOnly => {},
            MbcType::Mbc1 => self.mbc1_write(addr, val),
            MbcType::Mbc2 => self.mbc2_write(addr, val),
            MbcType::Mbc3 => self.mbc3_write(addr, val),
            MbcType::Mbc5 => self.mbc5_write(addr, val),
            MbcType::Unknown(_) => {},
        }
        if 0xA000 <= addr && addr <= 0xBFFF && self.ram_enabled {
            if self.mbc == MbcType::Mbc3 && self.rtc_selected {
                self.rtc_reg = val;
                return;
            }
            let offset = self.ram_bank * 0x2000 + (addr - 0xA000) as usize;
            if offset < self.ram.len() {
                self.ram[offset] = val;
            }
        }
    }

    fn mbc1_write(&mut self, addr: u16, val: u8)
        requires
            old(self).wf(),
        ensures
            final(self).wf(),
            final(self)@ == mbc1_write_spec(old(self)@, addr, val),
    {
        proof {
            lemma_bank_bounds(self.rom_bank, val);
        }
        if addr <= 0x1FFF {
            self.ram_enabled = (val & 0x0F) == 0x0A;
        } else if addr <= 0x3FFF {
            let lo = (val & 0x1F) as usize;
            self.rom_bank = (self.rom_bank & 0x60) | if lo == 0 { 1 } else { lo };
        } else if addr <= 0x5FFF {
            let hi = (val & 0x03) as usize;
            if self.mbc1_mode {
                self.ram_bank = hi;
            } else {
                self.rom_bank = (self.rom_bank & 0x1F) | (hi << 5);
            }
        } else if addr <= 0x7FFF {
            self.mbc1_mode = val & 0x01 != 0;
        }
    }

    fn mbc2_write(&mut self, addr: u16, val: u8)
        requires
            old(self).wf(),
        ensures
            final(self).wf(),
            final(self)@ == mbc2_write_spec(old(self)@, addr, val),
    {
        proof {
            lemma_bank_bounds(self.rom_bank, val);
        }
        if addr <= 0x1FFF {
            if addr & 0x0100 == 0 {
                self.ram_enabled = (val & 0x0F) == 0x0A;
            }
        } else if addr <= 0x3FFF {
            if addr & 0x0100 != 0 {
                let b = (val & 0x0F) as usize;
                self.rom_bank = if b == 0 { 1 } else { b };
            }
        }
    }

    fn mbc3_write(&mut self, addr: u16, val: u8)
        requires
            old(self).wf(),
        ensures
            final(self).wf(),
            final(self)@ == mbc3_write_spec(old(self)@, addr, val),
    {
        proof {
            lemma_bank_bounds(self.rom_bank, val);
        }
        if addr <= 0x1FFF {
            self.ram_enabled = (val & 0x0F) == 0x0A;
        } else if addr <= 0x3FFF {
            let b = (val & 0x7F) as usize;
            self.rom_bank = if b == 0 { 1 } else { b };
        } else if addr <= 0x5FFF {
            if val <= 0x03 {
                self.ram_bank = val as usize;
                self.rtc_selected = false;
            } else if 0x08 <= val && val <= 0x0C {
                self.rtc_selected = true;
                self.rtc_reg = val;
            }
        }
    }

    fn mbc5_write(&mut self, addr: u16, val: u8)
        requires
            old(self).wf(),
        ensures
            final(self).wf(),
            final(self)@ == mbc5_write_spec(old(self)@, addr, val),
    {
        proof {
            lemma_bank_bounds(self.rom_bank, val);
        }
        if addr <= 0x1FFF {
            self.ram_enabled = (val & 0x0F) == 0x0A;
        } else if addr <= 0x2FFF {
            self.rom_bank = (self.rom_bank & 0x100) | val as usize;
        } else if addr <= 0x3FFF {
            self.rom_bank = (self.rom_bank & 0x0FF) | (((val & 0x01) as usize) << 8);
        } else if addr <= 0x5FFF {
            self.ram_bank = (val & 0x0F) as usize;
        }
    }
}


/// One lower-case hexadecimal digit.
pub open spec fn hex_digit_spec(d: u8) -> Seq<char> {
    if d == 0 {
        "0"@
    } else if d == 1 {
        "1"@
    } else if d == 2 {
        "2"@
    } else if d == 3 {
        "3"@
    } else if d == 4 {
        "4"@
    } else if d == 5 {
        "5"@
    } else if d == 6 {
        "6"@
    } else if d == 7 {
        "7"@
    } else if d == 8 {
        "8"@
    } else if d == 9 {
        "9"@
    } else if d == 10 {
        "a"@
    } else if d == 11 {
        "b"@
    } else if d == 12 {
        "c"@
    } else if d == 13 {
        "d"@
    } else if d == 14 {
        "e"@
    } else {
        "f"@
    }
}

/// The controller's display name; an unknown type shows its header byte as
/// two lower-case hex digits.
pub open spec fn mbc_name_spec(m: MbcType) -> Seq<char> {
    match m {
        MbcType::RomOnly => "ROM Only"@,
        MbcType::Mbc1 => "MBC1"@,
        MbcType::Mbc2 => "MBC2"@,
        MbcType::Mbc3 => "MBC3"@,
        MbcType::Mbc5 => "MBC5"@,
        MbcType::Unknown(n) => "Unknown(0x"@ + hex_digit_spec(n / 16) + hex_digit_spec(n % 16) + ")"@,
    }
}

fn hex_digit(d: u8) -> (s: &'static str)
    ensures
        s@ == hex_digit_spec(d),
{
    if d == 0 {
        "0"
    } else if d == 1 {
        "1"
    } else if d == 2 {
        "2"
    } else if d == 3 {
        "3"
    } else if d == 4 {
        "4"
    } else if d == 5 {
        "5"
    } else if d == 6 {
        "6"
    } else if d == 7 {
        "7"
    } else if d == 8 {
        "8"
    } else if d == 9 {
        "9"
    } else if d == 10 {
        "a"
    } else if d == 11 {
        "b"
    } else if d == 12 {
        "c"
    } else if d == 13 {
        "d"
    } else if d == 14 {
        "e"
    } else {
        "f"
    }
}

impl MbcType {
    /// The display name: "ROM Only", "MBC1", ..., or "Unknown(0x1f)".
    pub fn name(&self) -> (s: String)
        ensures
            s@ == mbc_name_spec(*self),
    {
        match self {
            MbcType::RomOnly => String::from_str("ROM Only"),
            MbcType::Mbc1 => String::from_str("MBC1"),
            MbcType::Mbc2 => String::from_str("MBC2"),
            MbcType::Mbc3 => String::from_str("MBC3"),
            MbcType::Mbc5 => String::from_str("MBC5"),
            MbcType::Unknown(n) => {
                let mut s = String::from_str("Unknown(0x");
                s.append(hex_digit(*n / 16));
                s.append(hex_digit(*n % 16));
                s.append(")");
                s
            },
        }
    }
}

} // verus!
