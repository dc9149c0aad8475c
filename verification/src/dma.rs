use vstd::prelude::*;
use crate::bits::lemma_byte_facts;

verus! {

// ─── OAM DMA ────────────────────────────────────────────────────────────────

/// OAM DMA: after a start delay of two steps, copies one byte per step from
/// `source + i` to OAM byte `i`, for `i` in 0..160.
#[derive(Clone, Copy, PartialEq, Eq, Structural)]
pub struct OamDma {
    pub active: bool,
    pub source: u16,
    pub byte_index: u8,
    pub delay: u8,
}

/// Number of bytes an OAM DMA copies.
pub const OAM_DMA_LEN: u8 = 160;

/// A transfer started with `val` as the source page.
pub open spec fn oam_dma_start_spec(d: OamDma, val: u8) -> OamDma {
    OamDma { source: ((val as u16) * 256) as u16, byte_index: 0, active: true, delay: 2 }
}

/// One step: the new state, and the (source address, OAM index) to copy.
pub open spec fn oam_dma_step_spec(d: OamDma) -> (OamDma, Option<(u16, u8)>) {
    if !d.active {
        (d, None)
    } else if d.delay > 0 {
        (OamDma { delay: (d.delay - 1) as u8, ..d }, None)
    } else {
        let n = (d.byte_index + 1) as u8;
        (
            OamDma { byte_index: n, active: n < OAM_DMA_LEN, ..d },
            Some(((d.source + d.byte_index) as u16, d.byte_index)),
        )
    }
}

impl OamDma {
    pub open spec fn wf(&self) -> bool {
        &&& self.source <= 0xFF00
        &&& self.byte_index <= OAM_DMA_LEN
        &&& self.active ==> self.byte_index < OAM_DMA_LEN
    }

    pub fn new() -> (d: Self)
        ensures
            d.wf(),
            d == (OamDma { active: false, source: 0, byte_index: 0, delay: 0 }),
    {
        OamDma { active: false, source: 0, byte_index: 0, delay: 0 }
    }

    pub fn start(&mut self, val: u8)
        ensures
            final(self).wf(),
            *final(self) == oam_dma_start_spec(*old(self), val),
    {
        proof {
            lemma_byte_facts(val, 0);
        }
        self.source = (val as u16) << 8;
        self.byte_index = 0;
        self.active = true;
        self.delay = 2;
    }

    /// Returns (src_addr, oam_byte_index) if a byte should be copied this cycle.
    pub fn step(&mut self) -> (r: Option<(u16, u8)>)
        requires
            old(self).active && old(self).delay == 0 ==> old(self).source + old(self).byte_index <= 0xFFFF
                && old(self).byte_index < 0xFF,
        ensures
            old(self).wf() ==> final(self).wf(),
            (*final(self), r) == oam_dma_step_spec(*old(self)),
    {
        if !self.active {
            return None;
        }
        if self.delay > 0 {
            self.delay -= 1;
            return None;
        }
        let src = self.source + self.byte_index as u16;
        let dst = self.byte_index;
        self.byte_index += 1;
        if self.byte_index >= 160 {
            self.active = false;
        }
        Some((src, dst))
    }
}

// ─── HDMA / GDMA (CGB only) ─────────────────────────────────────────────────

#[derive(Debug, Clone, Copy, PartialEq, Eq, Structural)]
pub enum HdmaMode {
    /// General Purpose DMA: transfers the entire block at once
    GDMA,
    /// H-Blank DMA: transfers 16 bytes each H-Blank
    HDMA,
}

/// VRAM DMA state. Source and destination are 16-byte aligned, the length
/// is a whole number of 16-byte blocks, at most 128 of them.
#[derive(Clone, Copy, PartialEq, Eq, Structural)]
pub struct Hdma {
    pub src: u16,
    pub dst: u16,
    pub length: u16,
    pub mode: HdmaMode,
    pub active: bool,
    pub bytes_remaining: u16,
}

/// Largest transfer: 128 blocks of 16 bytes.
pub const HDMA_MAX_LEN: u16 = 0x800;

/// The DMA state after writing `val` to HDMA register `addr` (0xFF51..0xFF55).
pub open spec fn hdma_write_spec(h: Hdma, addr: u16, val: u8) -> Hdma {
    if addr == 0xFF51 {
        Hdma { src: (h.src & 0x00FF) | ((val as u16) << 8u16), ..h }
    } else if addr == 0xFF52 {
        Hdma { src: (h.src & 0xFF00) | (val as u16 & 0xF0), ..h }
    } else if addr == 0xFF53 {
        Hdma { dst: (h.dst & 0x00FF) | ((val as u16 & 0x1F) << 8u16) | 0x8000, ..h }
    } else if addr == 0xFF54 {
        Hdma { dst: (h.dst & 0xFF00) | (val as u16 & 0xF0), ..h }
    } else if addr == 0xFF55 {
        let len = (((val & 0x7F) as u16) + 1) * 16;
        Hdma {
            length: len as u16,
            bytes_remaining: len as u16,
            mode: if val & 0x80 != 0 { HdmaMode::HDMA } else { HdmaMode::GDMA },
            active: true,
            ..h
        }
    } else {
        h
    }
}

/// HDMA5 as read: 0xFF when idle, else the number of blocks left minus one.
pub open spec fn hdma_status_spec(h: Hdma) -> u8 {
    if !h.active {
        0xFF
    } else {
        let blocks = h.bytes_remaining / 16;
        (if blocks == 0 { 0 } else { (blocks - 1) as u8 }) & 0x7F
    }
}

/// One 16-byte block: the new state, and the (source, destination, length)
/// of the copy. Addresses advance modulo 2^16.
pub open spec fn hdma_chunk_spec(h: Hdma) -> (Hdma, Option<(u16, u16, u16)>) {
    if !h.active || h.bytes_remaining == 0 {
        (h, None)
    } else {
        let chunk: u16 = if h.bytes_remaining < 16 { h.bytes_remaining } else { 16 };
        let rem = (h.bytes_remaining - chunk) as u16;
        (
            Hdma {
                src: h.src.wrapping_add(chunk),
                dst: h.dst.wrapping_add(chunk),
                bytes_remaining: rem,
                active: rem != 0,
                ..h
            },
            Some((h.src, h.dst, chunk)),
        )
    }
}

proof fn lemma_hdma_align(x: u16, v: u8)
    by (bit_vector)
    requires
        x % 16 == 0,
    ensures
        ((x & 0x00FF) | ((v as u16) << 8u16)) % 16 == 0,
        ((x & 0xFF00) | (v as u16 & 0xF0)) % 16 == 0,
        ((x & 0x00FF) | ((v as u16 & 0x1F) << 8u16) | 0x8000) % 16 == 0,
{
}

impl Hdma {
    pub open spec fn wf(&self) -> bool {
        &&& self.src % 16 == 0
        &&& self.dst % 16 == 0
        &&& self.bytes_remaining % 16 == 0
        &&& self.bytes_remaining <= HDMA_MAX_LEN
        &&& self.active ==> self.bytes_remaining > 0
    }

    pub fn new() -> (h: Self)
        ensures
            h.wf(),
            h == (Hdma {
                src: 0,
                dst: 0x8000,
                length: 0,
                mode: HdmaMode::GDMA,
                active: false,
                bytes_remaining: 0,
            }),
    {
        Hdma { src: 0, dst: 0x8000, length: 0, mode: HdmaMode::GDMA, active: false, bytes_remaining: 0 }
    }

    /// Write to HDMA registers (0xFF51–0xFF55); 0xFF55 starts a transfer.
    pub fn write(&mut self, addr: u16, val: u8)
        ensures
            old(self).wf() ==> final(self).wf(),
            *final(self) == hdma_write_spec(*old(self), addr, val),
    {
        proof {
            if self.wf() {
                lemma_hdma_align(self.src, val);
                lemma_hdma_align(self.dst, val);
            }
            lemma_byte_facts(val, 0);
        }
        if addr == 0xFF51 {
            self.src = (self.src & 0x00FF) | ((val as u16) << 8);
        } else if addr == 0xFF52 {
            self.src = (self.src & 0xFF00) | (val as u16 & 0xF0);
        } else if addr == 0xFF53 {
            self.dst = (self.dst & 0x00FF) | ((val as u16 & 0x1F) << 8) | 0x8000;
        } else if addr == 0xFF54 {
            self.dst = (self.dst & 0xFF00) | (val as u16 & 0xF0);
        } else if addr == 0xFF55 {
            self.length = ((val & 0x7F) as u16 + 1) * 16;
            self.bytes_remaining = self.length;
            self.mode = if val & 0x80 != 0 { HdmaMode::HDMA } else { HdmaMode::GDMA };
            self.active = true;
        }
    }

    /// Read HDMA5 status.
    pub fn read_status(&self) -> (r: u8)
        ensures
            r == hdma_status_spec(*self),
    {
        if !self.active {
            return 0xFF;
        }
        let blocks_remaining = (self.bytes_remaining / 16).saturating_sub(1) as u8;
        blocks_remaining & 0x7F
    }

    /// Transfer one 16-byte chunk. Returns the block copied, as (source,
    /// destination, length), if any, and whether more data remains.
    pub fn transfer_chunk(&mut self) -> (r: (Option<(u16, u16, u16)>, bool))
        ensures
            old(self).wf() ==> final(self).wf(),
            (*final(self), r.0) == hdma_chunk_spec(*old(self)),
            r.1 == (final(self).active && final(self).bytes_remaining > 0),
            old(self).wf() ==> (r.0 matches Some((s, d, n)) ==> n == 16 && s % 16 == 0 && d % 16 == 0),
    {
        if !self.active || self.bytes_remaining == 0 {
            return (None, false);
        }
        let chunk: u16 = if self.bytes_remaining < 16 { self.bytes_remaining } else { 16 };
        let src = self.src;
        let dst = self.dst;
        self.src = self.src.wrapping_add(chunk);
        self.dst = self.dst.wrapping_add(chunk);
        self.bytes_remaining -= chunk;
        if self.bytes_remaining == 0 {
            self.active = false;
        }
        (Some((src, dst, chunk)), self.bytes_remaining > 0)
    }
}

} // verus!
