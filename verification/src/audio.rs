use vstd::prelude::*;

verus! {

/// Number of APU registers, mapped at 0xFF10..0xFF3F.
pub const APU_REGS: usize = 0x30;

/// Audio processing unit: a register file only (no sound is synthesised).
pub struct Apu {
    pub regs: Vec<u8>,
}

/// What a read of `addr` gives: the stored register inside the register file,
/// 0xFF past its end.
pub open spec fn apu_read_spec(regs: Seq<u8>, addr: u16) -> u8 {
    let i = addr - 0xFF10;
    if i < APU_REGS { regs[i] } else { 0xFF }
}

/// The register file after writing `val` at `addr`.
pub open spec fn apu_write_spec(regs: Seq<u8>, addr: u16, val: u8) -> Seq<u8> {
    let i = addr - 0xFF10;
    if i < APU_REGS { regs.update(i, val) } else { regs }
}

impl Apu {
    pub open spec fn wf(&self) -> bool {
        self.regs@.len() == APU_REGS
    }

    /// All registers start at zero.
    pub fn new() -> (a: Self)
        ensures
            a.wf(),
            a.regs@ == Seq::new(APU_REGS as nat, |i: int| 0u8),
    {
        Apu { regs: vec![0u8; APU_REGS] }
    }

    pub fn read(&self, addr: u16) -> (r: u8)
        requires
            self.wf(),
            addr >= 0xFF10,
        ensures
            r == apu_read_spec(self.regs@, addr),
    {
        let i = (addr - 0xFF10) as usize;
        if i < self.regs.len() {
            self.regs[i]
        } else {
            0xFF
        }
    }

    pub fn write(&mut self, addr: u16, val: u8)
        requires
            old(self).wf(),
            addr >= 0xFF10,
        ensures
            final(self).wf(),
            final(self).regs@ == apu_write_spec(old(self).regs@, addr, val),
    {
        let i = (addr - 0xFF10) as usize;
        if i < self.regs.len() {
            self.regs[i] = val;
        }
    }

    /// Advancing time changes nothing: the unit holds no running state.
    pub fn step(&mut self, t: u8)
        ensures
            *final(self) == *old(self),
    {
    }
}

} // verus!
