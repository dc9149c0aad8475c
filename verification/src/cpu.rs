use vstd::prelude::*;
use crate::bits::{
    lemma_bit_masks,
    lemma_byte_facts,
    lemma_u16_high_byte,
    lemma_u16_low_byte,
    lemma_u16_low_nibble,
    lemma_u32_low_word,
    lemma_u8_low_nibble,
};
use crate::bus::{
    Bus,
    BusView,
    bus_read16_spec,
    bus_read_spec,
    bus_write16_spec,
    bus_write_spec,
    pending_interrupt_spec,
    speed_switch_spec,
};

verus! {

pub const FLAG_Z: u8 = 0x80;

pub const FLAG_N: u8 = 0x40;

pub const FLAG_H: u8 = 0x20;

pub const FLAG_C: u8 = 0x10;

/// Sharp LR35902 register file and execution state.
#[derive(Clone, Copy, PartialEq, Eq, Structural)]
pub struct Cpu {
    pub a: u8,
    pub f: u8,
    pub b: u8,
    pub c: u8,
    pub d: u8,
    pub e: u8,
    pub h: u8,
    pub l: u8,
    pub sp: u16,
    pub pc: u16,
    pub ime: bool,
    /// EI takes effect one instruction late
    pub ime_pending: bool,
    pub halted: bool,
    pub stopped: bool,
    /// HALT with IME clear and an interrupt pending: the next fetch does not
    /// advance PC
    pub halt_bug: bool,
    /// T-cycles the last step took
    pub t_cycles: u8,
}

// ─── Registers ──────────────────────────────────────────────────────────────

/// The 16-bit value of a register pair.
pub open spec fn word(hi: u8, lo: u8) -> u16 {
    (hi as int * 256 + lo as int) as u16
}

pub open spec fn af_spec(s: Cpu) -> u16 {
    word(s.a, s.f)
}

pub open spec fn bc_spec(s: Cpu) -> u16 {
    word(s.b, s.c)
}

pub open spec fn de_spec(s: Cpu) -> u16 {
    word(s.d, s.e)
}

pub open spec fn hl_spec(s: Cpu) -> u16 {
    word(s.h, s.l)
}

pub open spec fn set_bc_spec(s: Cpu, v: u16) -> Cpu {
    Cpu { b: (v / 256) as u8, c: (v % 256) as u8, ..s }
}

pub open spec fn set_de_spec(s: Cpu, v: u16) -> Cpu {
    Cpu { d: (v / 256) as u8, e: (v % 256) as u8, ..s }
}

pub open spec fn set_hl_spec(s: Cpu, v: u16) -> Cpu {
    Cpu { h: (v / 256) as u8, l: (v % 256) as u8, ..s }
}

/// The low four bits of F always read zero.
pub open spec fn set_af_spec(s: Cpu, v: u16) -> Cpu {
    Cpu { a: (v / 256) as u8, f: ((v % 256) as u8) & 0xF0, ..s }
}

/// Register pair by index: BC, DE, HL, SP.
pub open spec fn rr_spec(s: Cpu, i: u8) -> u16 {
    if i == 0 {
        bc_spec(s)
    } else if i == 1 {
        de_spec(s)
    } else if i == 2 {
        hl_spec(s)
    } else {
        s.sp
    }
}

pub open spec fn set_rr_spec(s: Cpu, i: u8, v: u16) -> Cpu {
    if i == 0 {
        set_bc_spec(s, v)
    } else if i == 1 {
        set_de_spec(s, v)
    } else if i == 2 {
        set_hl_spec(s, v)
    } else {
        Cpu { sp: v, ..s }
    }
}

/// Register pair for PUSH/POP by index: BC, DE, HL, AF.
pub open spec fn qq_spec(s: Cpu, i: u8) -> u16 {
    if i == 3 { af_spec(s) } else { rr_spec(s, i) }
}

pub open spec fn set_qq_spec(s: Cpu, i: u8, v: u16) -> Cpu {
    if i == 3 { set_af_spec(s, v) } else { set_rr_spec(s, i, v) }
}

pub open spec fn has_flag(s: Cpu, m: u8) -> bool {
    s.f & m != 0
}

pub open spec fn with_flag(s: Cpu, m: u8, on: bool) -> Cpu {
    Cpu { f: if on { s.f | m } else { s.f & !m }, ..s }
}

/// Branch condition by index: NZ, Z, NC, C.
pub open spec fn cond_spec(s: Cpu, cc: u8) -> bool {
    if cc == 0 {
        !has_flag(s, FLAG_Z)
    } else if cc == 1 {
        has_flag(s, FLAG_Z)
    } else if cc == 2 {
        !has_flag(s, FLAG_C)
    } else {
        has_flag(s, FLAG_C)
    }
}

/// 8-bit operand by index: B, C, D, E, H, L, (HL), A.
pub open spec fn reg8_spec(s: Cpu, m: BusView, i: u8) -> u8 {
    if i == 0 {
        s.b
    } else if i == 1 {
        s.c
    } else if i == 2 {
        s.d
    } else if i == 3 {
        s.e
    } else if i == 4 {
        s.h
    } else if i == 5 {
        s.l
    } else if i == 6 {
        bus_read_spec(m, hl_spec(s))
    } else {
        s.a
    }
}

pub open spec fn set_reg8_spec(s: Cpu, m: BusView, i: u8, v: u8) -> (Cpu, BusView) {
    if i == 0 {
        (Cpu { b: v, ..s }, m)
    } else if i == 1 {
        (Cpu { c: v, ..s }, m)
    } else if i == 2 {
        (Cpu { d: v, ..s }, m)
    } else if i == 3 {
        (Cpu { e: v, ..s }, m)
    } else if i == 4 {
        (Cpu { h: v, ..s }, m)
    } else if i == 5 {
        (Cpu { l: v, ..s }, m)
    } else if i == 6 {
        (s, bus_write_spec(m, hl_spec(s), v))
    } else {
        (Cpu { a: v, ..s }, m)
    }
}

// ─── Fetch and stack ────────────────────────────────────────────────────────

/// The byte at PC; PC advances unless the HALT bug repeats the byte.
pub open spec fn fetch_spec(s: Cpu, m: BusView) -> (u8, Cpu) {
    (
        bus_read_spec(m, s.pc),
        if s.halt_bug { Cpu { halt_bug: false, ..s } } else { Cpu { pc: s.pc.wrapping_add(1), ..s } },
    )
}

/// A little-endian immediate word.
pub open spec fn fetch16_spec(s: Cpu, m: BusView) -> (u16, Cpu) {
    let (lo, s1) = fetch_spec(s, m);
    let (hi, s2) = fetch_spec(s1, m);
    (word(hi, lo), s2)
}

pub open spec fn push_spec(s: Cpu, m: BusView, v: u16) -> (Cpu, BusView) {
    let sp = s.sp.wrapping_sub(2);
    (Cpu { sp, ..s }, bus_write16_spec(m, sp, v))
}

pub open spec fn pop_spec(s: Cpu, m: BusView) -> (u16, Cpu) {
    (bus_read16_spec(m, s.sp), Cpu { sp: s.sp.wrapping_add(2), ..s })
}

// ─── Arithmetic ─────────────────────────────────────────────────────────────

/// ADD/ADC: A + v (+ carry); Z, H from the low nibbles, C from bit 7.
pub open spec fn add_a_spec(s: Cpu, v: u8, carry: bool) -> Cpu {
    let ci: int = if carry { 1 } else { 0 };
    let r = s.a as int + v as int + ci;
    let s1 = with_flag(s, FLAG_Z, r % 256 == 0);
    let s2 = with_flag(s1, FLAG_N, false);
    let s3 = with_flag(s2, FLAG_H, s.a % 16 + v % 16 + ci > 15);
    let s4 = with_flag(s3, FLAG_C, r > 255);
    Cpu { a: (r % 256) as u8, ..s4 }
}

/// SUB/SBC: A - v (- borrow); H and C flag borrows.
pub open spec fn sub_a_spec(s: Cpu, v: u8, borrow: bool) -> Cpu {
    let bi: int = if borrow { 1 } else { 0 };
    let r = s.a as int - v as int - bi;
    let s1 = with_flag(s, FLAG_Z, r % 256 == 0);
    let s2 = with_flag(s1, FLAG_N, true);
    let s3 = with_flag(s2, FLAG_H, s.a % 16 < v % 16 + bi);
    let s4 = with_flag(s3, FLAG_C, r < 0);
    Cpu { a: (r % 256) as u8, ..s4 }
}

/// The eight ALU operations: ADD, ADC, SUB, SBC, AND, XOR, OR, CP.
pub open spec fn alu_spec(s: Cpu, op: u8, v: u8) -> Cpu {
    if op == 0 {
        add_a_spec(s, v, false)
    } else if op == 1 {
        add_a_spec(s, v, has_flag(s, FLAG_C))
    } else if op == 2 {
        sub_a_spec(s, v, false)
    } else if op == 3 {
        sub_a_spec(s, v, has_flag(s, FLAG_C))
    } else if op == 4 {
        let r = s.a & v;
        Cpu { a: r, f: FLAG_H | if r == 0 { FLAG_Z } else { 0 }, ..s }
    } else if op == 5 {
        let r = s.a ^ v;
        Cpu { a: r, f: if r == 0 { FLAG_Z } else { 0 }, ..s }
    } else if op == 6 {
        let r = s.a | v;
        Cpu { a: r, f: if r == 0 { FLAG_Z } else { 0 }, ..s }
    } else {
        Cpu { a: s.a, ..sub_a_spec(s, v, false) }
    }
}

/// INC r: C is kept.
pub open spec fn inc8_spec(s: Cpu, v: u8) -> (Cpu, u8) {
    let r = v.wrapping_add(1);
    let s1 = with_flag(s, FLAG_Z, r == 0);
    let s2 = with_flag(s1, FLAG_N, false);
    (with_flag(s2, FLAG_H, v % 16 == 15), r)
}

/// DEC r: C is kept.
pub open spec fn dec8_spec(s: Cpu, v: u8) -> (Cpu, u8) {
    let r = v.wrapping_sub(1);
    let s1 = with_flag(s, FLAG_Z, r == 0);
    let s2 = with_flag(s1, FLAG_N, true);
    (with_flag(s2, FLAG_H, v % 16 == 0), r)
}

/// ADD HL,rr: Z is kept; H from bit 11, C from bit 15.
pub open spec fn add_hl_spec(s: Cpu, v: u16) -> (Cpu, u16) {
    let hl = hl_spec(s);
    let r = hl as int + v as int;
    let s1 = with_flag(s, FLAG_N, false);
    let s2 = with_flag(s1, FLAG_H, hl % 4096 + v % 4096 > 4095);
    (with_flag(s2, FLAG_C, r > 65535), (r % 65536) as u16)
}

/// SP plus a signed offset, with H and C from the unsigned low-byte sum
/// (ADD SP,e and LD HL,SP+e).
pub open spec fn sp_offset_spec(s: Cpu, o: u8) -> (u8, u16) {
    let f: u8 = (if s.sp % 16 + o % 16 > 15 { FLAG_H } else { 0 }) | (if s.sp % 256 + o as int > 255 {
        FLAG_C
    } else {
        0
    });
    (f, ((s.sp as i32) + ((o as i8) as i32)) as u16)
}

/// DAA: BCD adjustment after an addition or subtraction. After an addition
/// a decimal carry (C already set, or A above 0x99) adds 0x60 and sets C,
/// and a half carry (H set, or a low digit above 9) adds 0x06; after a
/// subtraction the same corrections are subtracted and C is kept. H is
/// cleared and Z follows the result.
pub open spec fn daa_spec(s: Cpu) -> Cpu {
    let (a, c) = if !has_flag(s, FLAG_N) {
        let c2 = has_flag(s, FLAG_C) || s.a > 0x99;
        let a1 = if c2 { s.a.wrapping_add(0x60) } else { s.a };
        let a2 = if has_flag(s, FLAG_H) || s.a % 16 > 9 { a1.wrapping_add(0x06) } else { a1 };
        (a2, c2)
    } else {
        let a1 = if has_flag(s, FLAG_C) { s.a.wrapping_sub(0x60) } else { s.a };
        let a2 = if has_flag(s, FLAG_H) { a1.wrapping_sub(0x06) } else { a1 };
        (a2, has_flag(s, FLAG_C))
    };
    let s1 = with_flag(s, FLAG_C, c);
    let s2 = with_flag(s1, FLAG_H, false);
    let s3 = Cpu { a, ..s2 };
    with_flag(s3, FLAG_Z, a == 0)
}

/// Flags of the CB rotates and shifts: Z from the result, C from the bit
/// shifted out.
pub open spec fn shift_flags(r: u8, c: u8) -> u8 {
    (if r == 0 { FLAG_Z } else { 0 }) | (if c != 0 { FLAG_C } else { 0 })
}

/// The eight CB rotate/shift operations: RLC, RRC, RL, RR, SLA, SRA, SWAP, SRL.
pub open spec fn shift_spec(s: Cpu, op: u8, v: u8) -> (Cpu, u8) {
    let oc: u8 = if has_flag(s, FLAG_C) { 1 } else { 0 };
    if op == 0 {
        let c = v >> 7u8;
        let r = (v << 1u8) | c;
        (Cpu { f: shift_flags(r, c), ..s }, r)
    } else if op == 1 {
        let c = v & 1;
        let r = (v >> 1u8) | (c << 7u8);
        (Cpu { f: shift_flags(r, c), ..s }, r)
    } else if op == 2 {
        let c = v >> 7u8;
        let r = (v << 1u8) | oc;
        (Cpu { f: shift_flags(r, c), ..s }, r)
    } else if op == 3 {
        let c = v & 1;
        let r = (v >> 1u8) | (oc << 7u8);
        (Cpu { f: shift_flags(r, c), ..s }, r)
    } else if op == 4 {
        let c = v >> 7u8;
        let r = v << 1u8;
        (Cpu { f: shift_flags(r, c), ..s }, r)
    } else if op == 5 {
        let c = v & 1;
        let r = (v >> 1u8) | (v & 0x80);
        (Cpu { f: shift_flags(r, c), ..s }, r)
    } else if op == 6 {
        let r = (v >> 4u8) | (v << 4u8);
        (Cpu { f: if r == 0 { FLAG_Z } else { 0 }, ..s }, r)
    } else {
        let c = v & 1;
        let r = v >> 1u8;
        (Cpu { f: shift_flags(r, c), ..s }, r)
    }
}

/// A relative jump.
pub open spec fn jr_spec(s: Cpu, o: u8) -> Cpu {
    Cpu { pc: (s.pc as i32 + (o as i8) as i32) as u16, ..s }
}

// ─── Instructions ───────────────────────────────────────────────────────────

pub const CYCLE_TABLE: [u8; 256] = [
    4, 12, 8, 8, 4, 4, 8, 4, 20, 8, 8, 8, 4, 4, 8, 4,
    4, 12, 8, 8, 4, 4, 8, 4, 12, 8, 8, 8, 4, 4, 8, 4,
    8, 12, 8, 8, 4, 4, 8, 4, 8, 8, 8, 8, 4, 4, 8, 4,
    8, 12, 8, 8, 12, 12, 12, 4, 8, 8, 8, 8, 4, 4, 8, 4,
    4, 4, 4, 4, 4, 4, 8, 4, 4, 4, 4, 4, 4, 4, 8, 4,
    4, 4, 4, 4, 4, 4, 8, 4, 4, 4, 4, 4, 4, 4, 8, 4,
    4, 4, 4, 4, 4, 4, 8, 4, 4, 4, 4, 4, 4, 4, 8, 4,
    8, 8, 8, 8, 8, 8, 4, 8, 4, 4, 4, 4, 4, 4, 8, 4,
    4, 4, 4, 4, 4, 4, 8, 4, 4, 4, 4, 4, 4, 4, 8, 4,
    4, 4, 4, 4, 4, 4, 8, 4, 4, 4, 4, 4, 4, 4, 8, 4,
    4, 4, 4, 4, 4, 4, 8, 4, 4, 4, 4, 4, 4, 4, 8, 4,
    4, 4, 4, 4, 4, 4, 8, 4, 4, 4, 4, 4, 4, 4, 8, 4,
    8, 12, 12, 16, 12, 16, 8, 16, 8, 16, 12, 4, 12, 24, 8, 16,
    8, 12, 12, 0, 12, 16, 8, 16, 8, 16, 12, 0, 12, 0, 8, 16,
    12, 12, 8, 0, 0, 16, 8, 16, 16, 4, 16, 0, 0, 0, 8, 16,
    12, 12, 8, 4, 0, 16, 8, 16, 12, 8, 16, 4, 0, 0, 8, 16,
];

/// Base T-cycles of an opcode; branches taken add their own.
pub open spec fn cycles_spec(op: u8) -> u8 {
    CYCLE_TABLE@[op as int]
}

/// Opcodes 0x00..0x3F (the cycle count already set).
pub open spec fn exec_low_spec(s: Cpu, m: BusView, op: u8) -> (Cpu, BusView) {
    let x = op & 0x0F;
    let i = (op >> 4u8) & 0x03;
    let r = (op >> 3u8) & 0x07;
    if op == 0x00 {
        (s, m)
    } else if op == 0x10 {
        // STOP
        let (_, s1) = fetch_spec(s, m);
        if m.speed_switch_armed {
            (s1, speed_switch_spec(m))
        } else {
            (Cpu { stopped: true, ..s1 }, m)
        }
    } else if x == 0x01 {
        let (v, s1) = fetch16_spec(s, m);
        (set_rr_spec(s1, i, v), m)
    } else if x == 0x02 {
        // LD (BC),A / LD (DE),A / LD (HL+),A / LD (HL-),A
        let addr = if i == 0 { bc_spec(s) } else if i == 1 { de_spec(s) } else { hl_spec(s) };
        let m1 = bus_write_spec(m, addr, s.a);
        (
            if i == 2 {
                set_hl_spec(s, hl_spec(s).wrapping_add(1))
            } else if i == 3 {
                set_hl_spec(s, hl_spec(s).wrapping_sub(1))
            } else {
                s
            },
            m1,
        )
    } else if x == 0x03 {
        (set_rr_spec(s, i, rr_spec(s, i).wrapping_add(1)), m)
    } else if x == 0x0B {
        (set_rr_spec(s, i, rr_spec(s, i).wrapping_sub(1)), m)
    } else if x == 0x04 || x == 0x0C {
        let (s1, v) = inc8_spec(s, reg8_spec(s, m, r));
        set_reg8_spec(s1, m, r, v)
    } else if x == 0x05 || x == 0x0D {
        let (s1, v) = dec8_spec(s, reg8_spec(s, m, r));
        set_reg8_spec(s1, m, r, v)
    } else if x == 0x06 || x == 0x0E {
        let (v, s1) = fetch_spec(s, m);
        set_reg8_spec(s1, m, r, v)
    } else if op == 0x07 {
        let c = s.a >> 7u8;
        (Cpu { a: (s.a << 1u8) | c, f: if c != 0 { FLAG_C } else { 0 }, ..s }, m)
    } else if op == 0x17 {
        let c = s.a >> 7u8;
        let oc: u8 = if has_flag(s, FLAG_C) { 1 } else { 0 };
        (Cpu { a: (s.a << 1u8) | oc, f: if c != 0 { FLAG_C } else { 0 }, ..s }, m)
    } else if op == 0x0F {
        let c = s.a & 1;
        (Cpu { a: (s.a >> 1u8) | (c << 7u8), f: if c != 0 { FLAG_C } else { 0 }, ..s }, m)
    } else if op == 0x1F {
        let c = s.a & 1;
        let oc: u8 = if has_flag(s, FLAG_C) { 1 } else { 0 };
        (Cpu { a: (s.a >> 1u8) | (oc << 7u8), f: if c != 0 { FLAG_C } else { 0 }, ..s }, m)
    } else if op == 0x08 {
        let (a, s1) = fetch16_spec(s, m);
        (s1, bus_write16_spec(m, a, s1.sp))
    } else if x == 0x09 {
        let (s1, v) = add_hl_spec(s, rr_spec(s, i));
        (set_hl_spec(s1, v), m)
    } else if x == 0x0A {
        let addr = if i == 0 { bc_spec(s) } else if i == 1 { de_spec(s) } else { hl_spec(s) };
        let s1 = Cpu { a: bus_read_spec(m, addr), ..s };
        (
            if i == 2 {
                set_hl_spec(s1, hl_spec(s1).wrapping_add(1))
            } else if i == 3 {
                set_hl_spec(s1, hl_spec(s1).wrapping_sub(1))
            } else {
                s1
            },
            m,
        )
    } else if op == 0x18 {
        let (e, s1) = fetch_spec(s, m);
        (jr_spec(s1, e), m)
    } else if op == 0x20 || op == 0x28 || op == 0x30 || op == 0x38 {
        let (e, s1) = fetch_spec(s, m);
        if cond_spec(s1, r & 0x03) {
            (Cpu { t_cycles: (s1.t_cycles + 4) as u8, ..jr_spec(s1, e) }, m)
        } else {
            (s1, m)
        }
    } else if op == 0x27 {
        (daa_spec(s), m)
    } else if op == 0x2F {
        (Cpu { a: !s.a, f: s.f | (FLAG_N | FLAG_H), ..s }, m)
    } else if op == 0x37 {
        (Cpu { f: (s.f & FLAG_Z) | FLAG_C, ..s }, m)
    } else {
        // 0x3F CCF
        let c = !has_flag(s, FLAG_C);
        (with_flag(Cpu { f: s.f & FLAG_Z, ..s }, FLAG_C, c), m)
    }
}

/// HALT: with IME clear and an interrupt pending the HALT bug triggers
/// instead of halting.
pub open spec fn halt_spec(s: Cpu, m: BusView) -> Cpu {
    if !s.ime && (m.interrupt_flag & m.interrupt_enable & 0x1F) != 0 {
        Cpu { halt_bug: true, ..s }
    } else {
        Cpu { halted: true, ..s }
    }
}

/// Opcodes 0x40..0xBF: HALT, register loads and register ALU operations.
pub open spec fn exec_mid_spec(s: Cpu, m: BusView, op: u8) -> (Cpu, BusView) {
    if op == 0x76 {
        (halt_spec(s, m), m)
    } else if op < 0x80 {
        set_reg8_spec(s, m, (op >> 3u8) & 0x07, reg8_spec(s, m, op & 0x07))
    } else {
        (alu_spec(s, (op >> 3u8) & 0x07, reg8_spec(s, m, op & 0x07)), m)
    }
}

/// Opcodes 0xC0..0xFF (the cycle count already set); undefined opcodes do
/// nothing.
pub open spec fn exec_high_spec(s: Cpu, m: BusView, op: u8) -> (Cpu, BusView) {
    let x = op & 0x0F;
    let i = (op >> 4u8) & 0x03;
    let cc = (op >> 3u8) & 0x03;
    if op == 0xC0 || op == 0xC8 || op == 0xD0 || op == 0xD8 {
        if cond_spec(s, cc) {
            let (v, s1) = pop_spec(s, m);
            (Cpu { pc: v, t_cycles: (s1.t_cycles + 12) as u8, ..s1 }, m)
        } else {
            (s, m)
        }
    } else if op == 0xC9 {
        let (v, s1) = pop_spec(s, m);
        (Cpu { pc: v, ..s1 }, m)
    } else if op == 0xD9 {
        let (v, s1) = pop_spec(s, m);
        (Cpu { pc: v, ime: true, ..s1 }, m)
    } else if x == 0x01 {
        let (v, s1) = pop_spec(s, m);
        (set_qq_spec(s1, i, v), m)
    } else if x == 0x05 {
        push_spec(s, m, qq_spec(s, i))
    } else if op == 0xC2 || op == 0xCA || op == 0xD2 || op == 0xDA {
        let (a, s1) = fetch16_spec(s, m);
        if cond_spec(s1, cc) {
            (Cpu { pc: a, t_cycles: (s1.t_cycles + 4) as u8, ..s1 }, m)
        } else {
            (s1, m)
        }
    } else if op == 0xC3 {
        let (a, s1) = fetch16_spec(s, m);
        (Cpu { pc: a, ..s1 }, m)
    } else if op == 0xE9 {
        (Cpu { pc: hl_spec(s), ..s }, m)
    } else if op == 0xC4 || op == 0xCC || op == 0xD4 || op == 0xDC {
        let (a, s1) = fetch16_spec(s, m);
        if cond_spec(s1, cc) {
            let (s2, m2) = push_spec(s1, m, s1.pc);
            (Cpu { pc: a, t_cycles: (s2.t_cycles + 12) as u8, ..s2 }, m2)
        } else {
            (s1, m)
        }
    } else if op == 0xCD {
        let (a, s1) = fetch16_spec(s, m);
        let (s2, m2) = push_spec(s1, m, s1.pc);
        (Cpu { pc: a, ..s2 }, m2)
    } else if x == 0x07 || x == 0x0F {
        // RST
        let (s1, m1) = push_spec(s, m, s.pc);
        (Cpu { pc: (op & 0x38) as u16, ..s1 }, m1)
    } else if op == 0xE0 {
        let (o, s1) = fetch_spec(s, m);
        (s1, bus_write_spec(m, (0xFF00 + o as u16) as u16, s1.a))
    } else if op == 0xF0 {
        let (o, s1) = fetch_spec(s, m);
        (Cpu { a: bus_read_spec(m, (0xFF00 + o as u16) as u16), ..s1 }, m)
    } else if op == 0xE2 {
        (s, bus_write_spec(m, (0xFF00 + s.c as u16) as u16, s.a))
    } else if op == 0xF2 {
        (Cpu { a: bus_read_spec(m, (0xFF00 + s.c as u16) as u16), ..s }, m)
    } else if op == 0xEA {
        let (a, s1) = fetch16_spec(s, m);
        (s1, bus_write_spec(m, a, s1.a))
    } else if op == 0xFA {
        let (a, s1) = fetch16_spec(s, m);
        (Cpu { a: bus_read_spec(m, a), ..s1 }, m)
    } else if op == 0xE8 {
        let (o, s1) = fetch_spec(s, m);
        let (f, v) = sp_offset_spec(s1, o);
        (Cpu { f, sp: v, ..s1 }, m)
    } else if op == 0xF8 {
        let (o, s1) = fetch_spec(s, m);
        let (f, v) = sp_offset_spec(s1, o);
        (set_hl_spec(Cpu { f, ..s1 }, v), m)
    } else if op == 0xF9 {
        (Cpu { sp: hl_spec(s), ..s }, m)
    } else if op == 0xF3 {
        (Cpu { ime: false, ime_pending: false, ..s }, m)
    } else if op == 0xFB {
        (Cpu { ime_pending: true, ..s }, m)
    } else if op == 0xCB {
        let (cb, s1) = fetch_spec(s, m);
        exec_cb_spec(s1, m, cb)
    } else if x == 0x06 || x == 0x0E {
        let (v, s1) = fetch_spec(s, m);
        (alu_spec(s1, (op >> 3u8) & 0x07, v), m)
    } else {
        (s, m)
    }
}

/// CB-prefixed opcodes: rotates and shifts, BIT, RES, SET.
pub open spec fn exec_cb_spec(s: Cpu, m: BusView, op: u8) -> (Cpu, BusView) {
    let s0 = Cpu { t_cycles: if op & 0x07 == 6 { 16 } else { 8 }, ..s };
    let ri = op & 0x07;
    let bit = (op >> 3u8) & 0x07;
    let grp = op >> 6u8;
    let v = reg8_spec(s0, m, ri);
    if grp == 0 {
        let (s1, r) = shift_spec(s0, bit, v);
        set_reg8_spec(s1, m, ri, r)
    } else if grp == 1 {
        let s1 = with_flag(s0, FLAG_Z, v & (1u8 << bit) == 0);
        let s2 = with_flag(s1, FLAG_N, false);
        (with_flag(s2, FLAG_H, true), m)
    } else if grp == 2 {
        set_reg8_spec(s0, m, ri, v & !(1u8 << bit))
    } else {
        set_reg8_spec(s0, m, ri, v | (1u8 << bit))
    }
}

/// One opcode.
pub open spec fn execute_spec(s: Cpu, m: BusView, op: u8) -> (Cpu, BusView) {
    let s0 = Cpu { t_cycles: cycles_spec(op), ..s };
    if op < 0x40 {
        exec_low_spec(s0, m, op)
    } else if op < 0xC0 {
        exec_mid_spec(s0, m, op)
    } else {
        exec_high_spec(s0, m, op)
    }
}

/// A step: a pending EI takes effect; a stopped or halted CPU idles four
/// cycles; otherwise one instruction runs.
#[verifier::opaque]
pub open spec fn cpu_step_spec(s: Cpu, m: BusView) -> (Cpu, BusView) {
    let s1 = if s.ime_pending { Cpu { ime_pending: false, ime: true, ..s } } else { s };
    if s1.stopped || s1.halted {
        (Cpu { t_cycles: 4, ..s1 }, m)
    } else {
        let (op, s2) = fetch_spec(s1, m);
        execute_spec(s2, m, op)
    }
}

/// Interrupt dispatch: a pending interrupt ends HALT; with IME set the
/// highest-priority one is acknowledged, PC pushed, and execution moves to
/// its vector 0x40 + 8 * bit.
#[verifier::opaque]
pub open spec fn handle_interrupts_spec(s: Cpu, m: BusView) -> (Cpu, BusView, bool) {
    let pending = m.interrupt_flag & m.interrupt_enable & 0x1F;
    let s1 = if s.halted && pending != 0 { Cpu { halted: false, ..s } } else { s };
    if !s1.ime {
        (s1, m, false)
    } else {
        match pending_interrupt_spec(m) {
            Some(bit) => {
                let s2 = Cpu { ime: false, ..s1 };
                let m2 = BusView { interrupt_flag: m.interrupt_flag & !(1u8 << bit), ..m };
                let (s3, m3) = push_spec(s2, m2, s2.pc);
                (Cpu { pc: (0x40 + bit * 8) as u16, t_cycles: 20, ..s3 }, m3, true)
            },
            None => (s1, m, false),
        }
    }
}

/// Registers after the boot ROM, DMG values when skipping it, else all zero.
pub open spec fn cpu_new_spec(skip_boot: bool) -> Cpu {
    if skip_boot {
        Cpu {
            a: 0x01,
            f: 0xB0,
            b: 0x00,
            c: 0x13,
            d: 0x00,
            e: 0xD8,
            h: 0x01,
            l: 0x4D,
            sp: 0xFFFE,
            pc: 0x0100,
            ime: false,
            ime_pending: false,
            halted: false,
            stopped: false,
            halt_bug: false,
            t_cycles: 0,
        }
    } else {
        Cpu {
            a: 0,
            f: 0,
            b: 0,
            c: 0,
            d: 0,
            e: 0,
            h: 0,
            l: 0,
            sp: 0,
            pc: 0,
            ime: false,
            ime_pending: false,
            halted: false,
            stopped: false,
            halt_bug: false,
            t_cycles: 0,
        }
    }
}

/// CGB register values after its boot ROM.
pub open spec fn cgb_init_spec(s: Cpu) -> Cpu {
    Cpu { a: 0x11, f: 0x80, b: 0x00, c: 0x00, d: 0xFF, e: 0x56, h: 0x00, l: 0x0D, sp: 0xFFFE, pc: 0x0100, ..s }
}


// ─── Bit-level facts about the ALU ──────────────────────────────────────────

proof fn lemma_alu_bits(a: u8, v: u8, b: u8, w: u16)
    by (bit_vector)
    requires
        b <= 1,
    ensures
        ((a as i16 - v as i16 - b as i16) as u8) == ((a as u16 + 512 - v as u16 - b as u16) % 256) as u8,
        ((w & 0xF0) as u8) == ((w as u8) & 0xF0),
{
}

proof fn lemma_add_hl_bits(hl: u16, v: u16)
    by (bit_vector)
    ensures
        ((hl ^ v ^ ((hl as u32 + v as u32) as u16)) & 0x1000 != 0) == (hl % 4096 + v % 4096 > 4095),
{
}

proof fn lemma_sp_offset_bits(sp: u16, o: u8)
    by (bit_vector)
    ensures
        ({
            let s: i32 = o as i8 as i32;
            let r: i32 = (sp as i32 + s) as i32;
            &&& ((sp as i32 ^ s ^ r) & 0x10 != 0) == (sp % 16 + (o as u16) % 16 > 15)
            &&& ((sp as i32 ^ s ^ r) & 0x100 != 0) == (sp % 256 + (o as u16) > 255)
        }),
{
}

impl Cpu {
    pub fn new(skip_boot: bool) -> (s: Self)
        ensures
            s == cpu_new_spec(skip_boot),
    {
        if skip_boot {
            Cpu {
                a: 0x01,
                f: 0xB0,
                b: 0x00,
                c: 0x13,
                d: 0x00,
                e: 0xD8,
                h: 0x01,
                l: 0x4D,
                sp: 0xFFFE,
                pc: 0x0100,
                ime: false,
                ime_pending: false,
                halted: false,
                stopped: false,
                halt_bug: false,
                t_cycles: 0,
            }
        } else {
            Cpu {
                a: 0,
                f: 0,
                b: 0,
                c: 0,
                d: 0,
                e: 0,
                h: 0,
                l: 0,
                sp: 0,
                pc: 0,
                ime: false,
                ime_pending: false,
                halted: false,
                stopped: false,
                halt_bug: false,
                t_cycles: 0,
            }
        }
    }

    /// CGB post-boot register state.
    pub fn cgb_init(&mut self)
        ensures
            *final(self) == cgb_init_spec(*old(self)),
    {
        self.a = 0x11;
        self.f = 0x80;
        self.b = 0x00;
        self.c = 0x00;
        self.d = 0xFF;
        self.e = 0x56;
        self.h = 0x00;
        self.l = 0x0D;
        self.sp = 0xFFFE;
        self.pc = 0x0100;
    }

    fn af(&self) -> (r: u16)
        ensures
            r == af_spec(*self),
    {
        proof {
            lemma_byte_facts(self.a, self.f);
        }
        ((self.a as u16) << 8) | self.f as u16
    }

    fn bc(&self) -> (r: u16)
        ensures
            r == bc_spec(*self),
    {
        proof {
            lemma_byte_facts(self.b, self.c);
        }
        ((self.b as u16) << 8) | self.c as u16
    }

    fn de(&self) -> (r: u16)
        ensures
            r == de_spec(*self),
    {
        proof {
            lemma_byte_facts(self.d, self.e);
        }
        ((self.d as u16) << 8) | self.e as u16
    }

    fn hl(&self) -> (r: u16)
        ensures
            r == hl_spec(*self),
    {
        proof {
            lemma_byte_facts(self.h, self.l);
        }
        ((self.h as u16) << 8) | self.l as u16
    }

    fn set_af(&mut self, v: u16)
        ensures
            *final(self) == set_af_spec(*old(self), v),
    {
        broadcast use lemma_u16_high_byte, lemma_u16_low_byte;

        proof {
            lemma_alu_bits(0, 0, 0, v);
        }
        self.a = (v >> 8) as u8;
        self.f = (v & 0xF0) as u8;
    }

    fn set_bc(&mut self, v: u16)
        ensures
            *final(self) == set_bc_spec(*old(self), v),
    {
        broadcast use lemma_u16_high_byte, lemma_u16_low_byte;

        self.b = (v >> 8) as u8;
        self.c = v as u8;
    }

    fn set_de(&mut self, v: u16)
        ensures
            *final(self) == set_de_spec(*old(self), v),
    {
        broadcast use lemma_u16_high_byte, lemma_u16_low_byte;

        self.d = (v >> 8) as u8;
        self.e = v as u8;
    }

    fn set_hl(&mut self, v: u16)
        ensures
            *final(self) == set_hl_spec(*old(self), v),
    {
        broadcast use lemma_u16_high_byte, lemma_u16_low_byte;

        self.h = (v >> 8) as u8;
        self.l = v as u8;
    }

    /// Register pair by index: BC, DE, HL, SP.
    fn reg16(&self, i: u8) -> (r: u16)
        ensures
            r == rr_spec(*self, i),
    {
        if i == 0 {
            self.bc()
        } else if i == 1 {
            self.de()
        } else if i == 2 {
            self.hl()
        } else {
            self.sp
        }
    }

    fn set_reg16(&mut self, i: u8, v: u16)
        ensures
            *final(self) == set_rr_spec(*old(self), i, v),
    {
        if i == 0 {
            self.set_bc(v);
        } else if i == 1 {
            self.set_de(v);
        } else if i == 2 {
            self.set_hl(v);
        } else {
            self.sp = v;
        }
    }

    fn flag(&self, f: u8) -> (r: bool)
        ensures
            r == has_flag(*self, f),
    {
        self.f & f != 0
    }

    fn set_flag(&mut self, f: u8, on: bool)
        ensures
            *final(self) == with_flag(*old(self), f, on),
    {
        if on {
            self.f |= f;
        } else {
            self.f &= !f;
        }
    }

    fn cond(&self, cc: u8) -> (r: bool)
        ensures
            r == cond_spec(*self, cc),
    {
        if cc == 0 {
            !self.flag(FLAG_Z)
        } else if cc == 1 {
            self.flag(FLAG_Z)
        } else if cc == 2 {
            !self.flag(FLAG_C)
        } else {
            self.flag(FLAG_C)
        }
    }

    fn fetch(&mut self, bus: &Bus) -> (v: u8)
        requires
            bus.wf(),
        ensures
            (v, *final(self)) == fetch_spec(*old(self), bus@),
    {
        let v = bus.read(self.pc);
        if self.halt_bug {
            self.halt_bug = false;
        } else {
            self.pc = self.pc.wrapping_add(1);
        }
        v
    }

    fn fetch16(&mut self, bus: &Bus) -> (v: u16)
        requires
            bus.wf(),
        ensures
            (v, *final(self)) == fetch16_spec(*old(self), bus@),
    {
        let lo = self.fetch(bus) as u16;
        let hi = self.fetch(bus) as u16;
        proof {
            lemma_byte_facts(hi as u8, lo as u8);
        }
        (hi << 8) | lo
    }

    fn push(&mut self, bus: &mut Bus, v: u16)
        requires
            old(bus).wf(),
        ensures
            final(bus).wf(),
            (*final(self), final(bus)@) == push_spec(*old(self), old(bus)@, v),
    {
        self.sp = self.sp.wrapping_sub(2);
        bus.write16(self.sp, v);
    }

    fn pop(&mut self, bus: &Bus) -> (v: u16)
        requires
            bus.wf(),
        ensures
            (v, *final(self)) == pop_spec(*old(self), bus@),
    {
        let v = bus.read16(self.sp);
        self.sp = self.sp.wrapping_add(2);
        v
    }

    pub fn handle_interrupts(&mut self, bus: &mut Bus) -> (taken: bool)
        requires
            old(bus).wf(),
        ensures
            final(bus).wf(),
            (*final(self), final(bus)@, taken) == handle_interrupts_spec(*old(self), old(bus)@),
    {
        proof {
            reveal(handle_interrupts_spec);
        }
        let pending = bus.interrupt_flag & bus.interrupt_enable & 0x1F;
        if self.halted && pending != 0 {
            self.halted = false;
        }
        if !self.ime {
            return false;
        }
        if let Some(bit) = bus.pending_interrupt() {
            self.ime = false;
            bus.clear_interrupt(bit);
            let pc = self.pc;
            self.push(bus, pc);
            self.pc = 0x0040 + bit as u16 * 8;
            self.t_cycles = 20;
            return true;
        }
        false
    }

    pub fn step(&mut self, bus: &mut Bus)
        requires
            old(bus).wf(),
        ensures
            final(bus).wf(),
            (*final(self), final(bus)@) == cpu_step_spec(*old(self), old(bus)@),
    {
        proof {
            reveal(cpu_step_spec);
        }
        if self.ime_pending {
            self.ime_pending = false;
            self.ime = true;
        }
        if self.stopped || self.halted {
            self.t_cycles = 4;
            return;
        }
        let op = self.fetch(bus);
        self.execute(bus, op);
    }

    fn execute(&mut self, bus: &mut Bus, op: u8)
        requires
            old(bus).wf(),
        ensures
            final(bus).wf(),
            (*final(self), final(bus)@) == execute_spec(*old(self), old(bus)@, op),
    {
        self.t_cycles = CYCLE_TABLE[op as usize];
        assert(self.t_cycles <= 24);
        if op < 0x40 {
            self.exec_low(bus, op);
        } else if op < 0xC0 {
            self.exec_mid(bus, op);
        } else {
            self.exec_high(bus, op);
        }
    }

    /// Opcodes 0x40..0xBF.
    fn exec_mid(&mut self, bus: &mut Bus, op: u8)
        requires
            old(bus).wf(),
            0x40 <= op < 0xC0,
        ensures
            final(bus).wf(),
            (*final(self), final(bus)@) == exec_mid_spec(*old(self), old(bus)@, op),
    {
        proof {
            lemma_byte_facts(op >> 3, op);
        }
        if op == 0x76 {
            if !self.ime && (bus.interrupt_flag & bus.interrupt_enable & 0x1F) != 0 {
                self.halt_bug = true;
            } else {
                self.halted = true;
            }
        } else if op < 0x80 {
            let s = self.reg8(bus, op & 0x07);
            self.set_reg8(bus, (op >> 3) & 0x07, s);
        } else {
            let o = self.reg8(bus, op & 0x07);
            self.alu((op >> 3) & 0x07, o);
        }
    }

    fn reg8(&self, bus: &Bus, i: u8) -> (r: u8)
        requires
            bus.wf(),
        ensures
            r == reg8_spec(*self, bus@, i),
    {
        if i == 0 {
            self.b
        } else if i == 1 {
            self.c
        } else if i == 2 {
            self.d
        } else if i == 3 {
            self.e
        } else if i == 4 {
            self.h
        } else if i == 5 {
            self.l
        } else if i == 6 {
            bus.read(self.hl())
        } else {
            self.a
        }
    }

    fn set_reg8(&mut self, bus: &mut Bus, i: u8, v: u8)
        requires
            old(bus).wf(),
        ensures
            final(bus).wf(),
            (*final(self), final(bus)@) == set_reg8_spec(*old(self), old(bus)@, i, v),
    {
        if i == 0 {
            self.b = v;
        } else if i == 1 {
            self.c = v;
        } else if i == 2 {
            self.d = v;
        } else if i == 3 {
            self.e = v;
        } else if i == 4 {
            self.h = v;
        } else if i == 5 {
            self.l = v;
        } else if i == 6 {
            bus.write(self.hl(), v);
        } else {
            self.a = v;
        }
    }

    fn alu(&mut self, op: u8, operand: u8)
        ensures
            *final(self) == alu_spec(*old(self), op, operand),
    {
        if op == 0 {
            self.add_a(operand, false);
        } else if op == 1 {
            let c = self.flag(FLAG_C);
            self.add_a(operand, c);
        } else if op == 2 {
            self.sub_a(operand, false);
        } else if op == 3 {
            let c = self.flag(FLAG_C);
            self.sub_a(operand, c);
        } else if op == 4 {
            let r = self.a & operand;
            self.f = FLAG_H | if r == 0 { FLAG_Z } else { 0 };
            self.a = r;
        } else if op == 5 {
            let r = self.a ^ operand;
            self.f = if r == 0 { FLAG_Z } else { 0 };
            self.a = r;
        } else if op == 6 {
            let r = self.a | operand;
            self.f = if r == 0 { FLAG_Z } else { 0 };
            self.a = r;
        } else {
            // CP
            let s = self.a;
            self.sub_a(operand, false);
            self.a = s;
        }
    }

    fn add_a(&mut self, v: u8, c: bool)
        ensures
            *final(self) == add_a_spec(*old(self), v, c),
    {
        broadcast use lemma_u16_low_byte, lemma_u8_low_nibble;

        let c: u8 = if c { 1 } else { 0 };
        let r = self.a as u16 + v as u16 + c as u16;
        self.set_flag(FLAG_Z, r as u8 == 0);
        self.set_flag(FLAG_N, false);
        self.set_flag(FLAG_H, (self.a & 0xF) + (v & 0xF) + c > 0xF);
        self.set_flag(FLAG_C, r > 0xFF);
        self.a = r as u8;
    }

    fn sub_a(&mut self, v: u8, b: bool)
        ensures
            *final(self) == sub_a_spec(*old(self), v, b),
    {
        let bi: u8 = if b { 1 } else { 0 };
        let a = self.a;
        let r = a as i16 - v as i16 - bi as i16;
        let res = r as u8;
        proof {
            let x: int = a as int - v as int - bi as int;
            lemma_alu_bits(a, v, bi, 0);
            assert((a as u16 + 512 - v as u16 - bi as u16) % 256 == x % 256);
            assert(res as int == x % 256);
            lemma_u8_low_nibble(a);
            lemma_u8_low_nibble(v);
        }
        let half = (a & 0xF) < (v & 0xF) + bi;
        self.set_flag(FLAG_Z, res == 0);
        self.set_flag(FLAG_N, true);
        self.set_flag(FLAG_H, half);
        self.set_flag(FLAG_C, r < 0);
        self.a = res;
    }

    fn inc8(&mut self, v: u8) -> (r: u8)
        ensures
            (*final(self), r) == inc8_spec(*old(self), v),
    {
        broadcast use lemma_u8_low_nibble;

        let r = v.wrapping_add(1);
        self.set_flag(FLAG_Z, r == 0);
        self.set_flag(FLAG_N, false);
        self.set_flag(FLAG_H, v & 0xF == 0xF);
        r
    }

    fn dec8(&mut self, v: u8) -> (r: u8)
        ensures
            (*final(self), r) == dec8_spec(*old(self), v),
    {
        broadcast use lemma_u8_low_nibble;

        let r = v.wrapping_sub(1);
        self.set_flag(FLAG_Z, r == 0);
        self.set_flag(FLAG_N, true);
        self.set_flag(FLAG_H, v & 0xF == 0);
        r
    }

    fn add_hl(&mut self, v: u16) -> (r: u16)
        ensures
            (*final(self), r) == add_hl_spec(*old(self), v),
    {
        broadcast use lemma_u32_low_word;

        let hl = self.hl();
        proof {
            lemma_add_hl_bits(hl, v);
        }
        let r = hl as u32 + v as u32;
        self.set_flag(FLAG_N, false);
        self.set_flag(FLAG_H, (hl ^ v ^ r as u16) & 0x1000 != 0);
        self.set_flag(FLAG_C, r > 0xFFFF);
        r as u16
    }

    /// SP plus a signed offset: the new flags and the sum.
    fn sp_offset(&self, o: u8) -> (r: (u8, u16))
        ensures
            r == sp_offset_spec(*self, o),
    {
        proof {
            lemma_sp_offset_bits(self.sp, o);
        }
        let s = o as i8 as i32;
        let sp = self.sp as i32;
        let r = sp.wrapping_add(s);
        let h = (sp ^ s ^ r) & 0x10 != 0;
        let c = (sp ^ s ^ r) & 0x100 != 0;
        let f: u8 = (if h { FLAG_H } else { 0 }) | (if c { FLAG_C } else { 0 });
        (f, r as u16)
    }

    fn jr(&mut self, o: i8)
        ensures
            *final(self) == (Cpu { pc: (old(self).pc as i32 + o as i32) as u16, ..*old(self) }),
    {
        self.pc = (self.pc as i32 + o as i32) as u16;
    }

    fn daa(&mut self)
        ensures
            *final(self) == daa_spec(*old(self)),
    {
        broadcast use lemma_u8_low_nibble;

        let a0 = self.a;
        let mut a = a0;
        let c;
        if !self.flag(FLAG_N) {
            c = self.flag(FLAG_C) || a0 > 0x99;
            if c {
                a = a.wrapping_add(0x60);
            }
            if self.flag(FLAG_H) || (a0 & 0xF) > 9 {
                a = a.wrapping_add(0x06);
            }
        } else {
            c = self.flag(FLAG_C);
            if c {
                a = a.wrapping_sub(0x60);
            }
            if self.flag(FLAG_H) {
                a = a.wrapping_sub(0x06);
            }
        }
        self.set_flag(FLAG_C, c);
        self.set_flag(FLAG_H, false);
        self.a = a;
        self.set_flag(FLAG_Z, a == 0);
    }

    fn rlc(&mut self, v: u8) -> (r: u8)
        ensures
            (*final(self), r) == shift_spec(*old(self), 0, v),
    {
        let c = v >> 7;
        let r = (v << 1) | c;
        self.f = (if r == 0 { FLAG_Z } else { 0 }) | (if c != 0 { FLAG_C } else { 0 });
        r
    }

    fn rrc(&mut self, v: u8) -> (r: u8)
        ensures
            (*final(self), r) == shift_spec(*old(self), 1, v),
    {
        let c = v & 1;
        let r = (v >> 1) | (c << 7);
        self.f = (if r == 0 { FLAG_Z } else { 0 }) | (if c != 0 { FLAG_C } else { 0 });
        r
    }

    fn rl(&mut self, v: u8) -> (r: u8)
        ensures
            (*final(self), r) == shift_spec(*old(self), 2, v),
    {
        let oc: u8 = if self.flag(FLAG_C) { 1 } else { 0 };
        let c = v >> 7;
        let r = (v << 1) | oc;
        self.f = (if r == 0 { FLAG_Z } else { 0 }) | (if c != 0 { FLAG_C } else { 0 });
        r
    }

    fn rr(&mut self, v: u8) -> (r: u8)
        ensures
            (*final(self), r) == shift_spec(*old(self), 3, v),
    {
        let oc: u8 = if self.flag(FLAG_C) { 1 } else { 0 };
        let c = v & 1;
        let r = (v >> 1) | (oc << 7);
        self.f = (if r == 0 { FLAG_Z } else { 0 }) | (if c != 0 { FLAG_C } else { 0 });
        r
    }

    fn sla(&mut self, v: u8) -> (r: u8)
        ensures
            (*final(self), r) == shift_spec(*old(self), 4, v),
    {
        let c = v >> 7;
        let r = v << 1;
        self.f = (if r == 0 { FLAG_Z } else { 0 }) | (if c != 0 { FLAG_C } else { 0 });
        r
    }

    fn sra(&mut self, v: u8) -> (r: u8)
        ensures
            (*final(self), r) == shift_spec(*old(self), 5, v),
    {
        let c = v & 1;
        let r = (v >> 1) | (v & 0x80);
        self.f = (if r == 0 { FLAG_Z } else { 0 }) | (if c != 0 { FLAG_C } else { 0 });
        r
    }

    fn srl(&mut self, v: u8) -> (r: u8)
        ensures
            (*final(self), r) == shift_spec(*old(self), 7, v),
    {
        let c = v & 1;
        let r = v >> 1;
        self.f = (if r == 0 { FLAG_Z } else { 0 }) | (if c != 0 { FLAG_C } else { 0 });
        r
    }

    fn swap(&mut self, v: u8) -> (r: u8)
        ensures
            (*final(self), r) == shift_spec(*old(self), 6, v),
    {
        let r = (v >> 4) | (v << 4);
        self.f = if r == 0 { FLAG_Z } else { 0 };
        r
    }

    fn execute_cb(&mut self, bus: &mut Bus, op: u8)
        requires
            old(bus).wf(),
        ensures
            final(bus).wf(),
            (*final(self), final(bus)@) == exec_cb_spec(*old(self), old(bus)@, op),
    {
        self.t_cycles = if op & 0x07 == 6 { 16 } else { 8 };
        let ri = op & 0x07;
        let bit = (op >> 3) & 0x07;
        let grp = op >> 6;
        proof {
            lemma_byte_facts(op >> 3, op);
        }
        let v = self.reg8(bus, ri);
        if grp == 0 {
            let r = if bit == 0 {
                self.rlc(v)
            } else if bit == 1 {
                self.rrc(v)
            } else if bit == 2 {
                self.rl(v)
            } else if bit == 3 {
                self.rr(v)
            } else if bit == 4 {
                self.sla(v)
            } else if bit == 5 {
                self.sra(v)
            } else if bit == 6 {
                self.swap(v)
            } else {
                self.srl(v)
            };
            self.set_reg8(bus, ri, r);
        } else if grp == 1 {
            self.set_flag(FLAG_Z, v & (1 << bit) == 0);
            self.set_flag(FLAG_N, false);
            self.set_flag(FLAG_H, true);
        } else if grp == 2 {
            self.set_reg8(bus, ri, v & !(1 << bit));
        } else {
            self.set_reg8(bus, ri, v | (1 << bit));
        }
    }

    /// Opcodes 0x00..0x3F.
    #[verifier::rlimit(60)]
    fn exec_low(&mut self, bus: &mut Bus, op: u8)
        requires
            old(bus).wf(),
            op < 0x40,
            old(self).t_cycles <= 24,
        ensures
            final(bus).wf(),
            (*final(self), final(bus)@) == exec_low_spec(*old(self), old(bus)@, op),
    {
        let x = op & 0x0F;
        let i = (op >> 4) & 0x03;
        let r = (op >> 3) & 0x07;
        proof {
            lemma_byte_facts(op >> 3, op >> 4);
        }
        if op == 0x00 {
        } else if op == 0x10 {
            // STOP: on CGB, may trigger the speed switch
            self.fetch(bus);
            if bus.speed_switch_armed {
                bus.perform_speed_switch();
            } else {
                self.stopped = true;
            }
        } else if x == 0x01 {
            let v = self.fetch16(bus);
            self.set_reg16(i, v);
        } else if x == 0x02 {
            let addr = if i == 0 { self.bc() } else if i == 1 { self.de() } else { self.hl() };
            bus.write(addr, self.a);
            if i == 2 {
                let v = self.hl().wrapping_add(1);
                self.set_hl(v);
            } else if i == 3 {
                let v = self.hl().wrapping_sub(1);
                self.set_hl(v);
            }
        } else if x == 0x03 {
            let v = self.reg16(i).wrapping_add(1);
            self.set_reg16(i, v);
        } else if x == 0x0B {
            let v = self.reg16(i).wrapping_sub(1);
            self.set_reg16(i, v);
        } else if x == 0x04 || x == 0x0C {
            let v = self.reg8(bus, r);
            let v = self.inc8(v);
            self.set_reg8(bus, r, v);
        } else if x == 0x05 || x == 0x0D {
            let v = self.reg8(bus, r);
            let v = self.dec8(v);
            self.set_reg8(bus, r, v);
        } else if x == 0x06 || x == 0x0E {
            let v = self.fetch(bus);
            self.set_reg8(bus, r, v);
        } else if op == 0x07 {
            let c = self.a >> 7;
            self.a = (self.a << 1) | c;
            self.f = if c != 0 { FLAG_C } else { 0 };
        } else if op == 0x17 {
            let c = self.a >> 7;
            let oc: u8 = if self.flag(FLAG_C) { 1 } else { 0 };
            self.a = (self.a << 1) | oc;
            self.f = if c != 0 { FLAG_C } else { 0 };
        } else if op == 0x0F {
            let c = self.a & 1;
            self.a = (self.a >> 1) | (c << 7);
            self.f = if c != 0 { FLAG_C } else { 0 };
        } else if op == 0x1F {
            let c = self.a & 1;
            let oc: u8 = if self.flag(FLAG_C) { 1 } else { 0 };
            self.a = (self.a >> 1) | (oc << 7);
            self.f = if c != 0 { FLAG_C } else { 0 };
        } else if op == 0x08 {
            let a = self.fetch16(bus);
            bus.write16(a, self.sp);
        } else if x == 0x09 {
            let v = self.reg16(i);
            let v = self.add_hl(v);
            self.set_hl(v);
        } else if x == 0x0A {
            let addr = if i == 0 { self.bc() } else if i == 1 { self.de() } else { self.hl() };
            self.a = bus.read(addr);
            if i == 2 {
                let v = self.hl().wrapping_add(1);
                self.set_hl(v);
            } else if i == 3 {
                let v = self.hl().wrapping_sub(1);
                self.set_hl(v);
            }
        } else if op == 0x18 {
            let e = self.fetch(bus) as i8;
            self.jr(e);
        } else if op == 0x20 || op == 0x28 || op == 0x30 || op == 0x38 {
            let e = self.fetch(bus) as i8;
            if self.cond(r & 0x03) {
                self.jr(e);
                self.t_cycles += 4;
            }
        } else if op == 0x27 {
            self.daa();
        } else if op == 0x2F {
            self.a = !self.a;
            self.f |= FLAG_N | FLAG_H;
        } else if op == 0x37 {
            self.f = (self.f & FLAG_Z) | FLAG_C;
        } else {
            // 0x3F CCF
            let c = !self.flag(FLAG_C);
            self.f = self.f & FLAG_Z;
            self.set_flag(FLAG_C, c);
        }
    }

    fn push_pair(&mut self, bus: &mut Bus, i: u8)
        requires
            old(bus).wf(),
        ensures
            final(bus).wf(),
            (*final(self), final(bus)@) == push_spec(*old(self), old(bus)@, qq_spec(*old(self), i)),
    {
        let v = if i == 3 { self.af() } else { self.reg16(i) };
        self.push(bus, v);
    }

    fn pop_pair(&mut self, bus: &Bus, i: u8)
        requires
            bus.wf(),
        ensures
            ({
                let (v, s1) = pop_spec(*old(self), bus@);
                *final(self) == set_qq_spec(s1, i, v)
            }),
    {
        let v = self.pop(bus);
        if i == 3 {
            self.set_af(v);
        } else {
            self.set_reg16(i, v);
        }
    }

    /// Opcodes 0xC0..0xFF.
    #[verifier::rlimit(60)]
    fn exec_high(&mut self, bus: &mut Bus, op: u8)
        requires
            old(bus).wf(),
            op >= 0xC0,
            old(self).t_cycles <= 24,
        ensures
            final(bus).wf(),
            (*final(self), final(bus)@) == exec_high_spec(*old(self), old(bus)@, op),
    {
        let x = op & 0x0F;
        let i = (op >> 4) & 0x03;
        let cc = (op >> 3) & 0x03;
        if op == 0xC0 || op == 0xC8 || op == 0xD0 || op == 0xD8 {
            if self.cond(cc) {
                self.pc = self.pop(bus);
                self.t_cycles += 12;
            }
        } else if op == 0xC9 {
            self.pc = self.pop(bus);
        } else if op == 0xD9 {
            self.pc = self.pop(bus);
            self.ime = true;
        } else if x == 0x01 {
            self.pop_pair(bus, i);
        } else if x == 0x05 {
            self.push_pair(bus, i);
        } else if op == 0xC2 || op == 0xCA || op == 0xD2 || op == 0xDA {
            let a = self.fetch16(bus);
            if self.cond(cc) {
                self.pc = a;
                self.t_cycles += 4;
            }
        } else if op == 0xC3 {
            self.pc = self.fetch16(bus);
        } else if op == 0xE9 {
            self.pc = self.hl();
        } else if op == 0xC4 || op == 0xCC || op == 0xD4 || op == 0xDC {
            let a = self.fetch16(bus);
            if self.cond(cc) {
                let pc = self.pc;
                self.push(bus, pc);
                self.pc = a;
                self.t_cycles += 12;
            }
        } else if op == 0xCD {
            let a = self.fetch16(bus);
            let pc = self.pc;
            self.push(bus, pc);
            self.pc = a;
        } else if x == 0x07 || x == 0x0F {
            // RST
            let pc = self.pc;
            self.push(bus, pc);
            self.pc = (op & 0x38) as u16;
        } else {
            self.exec_high_rest(bus, op);
        }
    }

    /// Opcodes 0xC0..0xFF other than returns, stack, jumps, calls and RST.
    #[verifier::rlimit(60)]
    fn exec_high_rest(&mut self, bus: &mut Bus, op: u8)
        requires
            old(bus).wf(),
            op >= 0xC0,
            !(op == 0xC0 || op == 0xC8 || op == 0xD0 || op == 0xD8 || op == 0xC9 || op == 0xD9),
            !(op & 0x0F == 0x01 || op & 0x0F == 0x05 || op & 0x0F == 0x07 || op & 0x0F == 0x0F),
            !(op == 0xC2 || op == 0xCA || op == 0xD2 || op == 0xDA || op == 0xC3 || op == 0xE9),
            !(op == 0xC4 || op == 0xCC || op == 0xD4 || op == 0xDC || op == 0xCD),
        ensures
            final(bus).wf(),
            (*final(self), final(bus)@) == exec_high_spec(*old(self), old(bus)@, op),
    {
        let x = op & 0x0F;
        proof {
            lemma_byte_facts(op >> 3, op);
        }
        if op == 0xE0 {
            let o = self.fetch(bus);
            proof {
                lemma_byte_facts(0, o);
            }
            bus.write(0xFF00 | o as u16, self.a);
        } else if op == 0xF0 {
            let o = self.fetch(bus);
            proof {
                lemma_byte_facts(0, o);
            }
            self.a = bus.read(0xFF00 | o as u16);
        } else if op == 0xE2 {
            proof {
                lemma_byte_facts(0, self.c);
            }
            bus.write(0xFF00 | self.c as u16, self.a);
        } else if op == 0xF2 {
            proof {
                lemma_byte_facts(0, self.c);
            }
            self.a = bus.read(0xFF00 | self.c as u16);
        } else if op == 0xEA {
            let a = self.fetch16(bus);
            bus.write(a, self.a);
        } else if op == 0xFA {
            let a = self.fetch16(bus);
            self.a = bus.read(a);
        } else if op == 0xE8 {
            let o = self.fetch(bus);
            let (f, v) = self.sp_offset(o);
            self.f = f;
            self.sp = v;
        } else if op == 0xF8 {
            let o = self.fetch(bus);
            let (f, v) = self.sp_offset(o);
            self.f = f;
            self.set_hl(v);
        } else if op == 0xF9 {
            self.sp = self.hl();
        } else if op == 0xF3 {
            self.ime = false;
            self.ime_pending = false;
        } else if op == 0xFB {
            self.ime_pending = true;
        } else if op == 0xCB {
            let cb = self.fetch(bus);
            self.execute_cb(bus, cb);
        } else if x == 0x06 || x == 0x0E {
            let v = self.fetch(bus);
            self.alu((op >> 3) & 0x07, v);
        }
    }
}

} // verus!
