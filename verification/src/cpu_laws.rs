//! Properties of the CPU that span several steps or several instructions:
//! arithmetic inverses, interrupt enabling, HALT, STOP and interrupt
//! dispatch.
use vstd::prelude::*;
use crate::bus::{BusView, bus_read_spec};
use crate::cpu::{
    Cpu,
    add_a_spec,
    dec8_spec,
    inc8_spec,
    pop_spec,
    push_spec,
    qq_spec,
    sub_a_spec,
    cpu_step_spec,
    fetch_spec,
    handle_interrupts_spec,
};
use crate::laws::{bus_view_wf, is_ram_addr, lemma_push_pop};
use crate::model::Model;

verus! {

/// ADD then SUB of the same operand gives back A.
pub proof fn lemma_sub_undoes_add(s: Cpu, v: u8)
    ensures
        sub_a_spec(add_a_spec(s, v, false), v, false).a == s.a,
{
    let s1 = add_a_spec(s, v, false);
    if s.a as int + v as int >= 256 {
        assert(s1.a as int == s.a as int + v as int - 256);
        assert((s1.a as int - v as int) % 256 == s.a as int);
    } else {
        assert(s1.a as int == s.a as int + v as int);
    }
}

/// DEC undoes INC on the operand.
pub proof fn lemma_dec_undoes_inc(s: Cpu, v: u8)
    ensures
        ({
            let (s1, r) = inc8_spec(s, v);
            dec8_spec(s1, r).1 == v
        }),
{
}


/// STOP with the speed switch armed on CGB switches the speed instead of
/// stopping: the speed toggles, the switch disarms and DIV restarts at 0.
pub proof fn lemma_stop_switches_speed(s: Cpu, m: BusView)
    requires
        !s.stopped,
        !s.halted,
        m.model == Model::CGB,
        m.speed_switch_armed,
        bus_read_spec(m, s.pc) == 0x10,
    ensures
        ({
            let (s2, m2) = cpu_step_spec(s, m);
            &&& m2.double_speed == !m.double_speed
            &&& !m2.speed_switch_armed
            &&& m2.timer.div_counter == 0
            &&& !s2.stopped
        }),
{
    reveal(cpu_step_spec);
}




/// The opcode fields that the decoder tests, as arithmetic.
proof fn lemma_opcode_fields(op: u8)
    ensures
        op & 0x0F == op % 16,
        (op >> 4u8) & 0x03 == (op / 16) % 4,
        (op >> 3u8) & 0x07 == (op / 8) % 8,
        (op >> 3u8) & 0x03 == (op / 8) % 4,
        ((op >> 3u8) & 0x07) & 0x03 == (op / 8) % 4,
{
    assert(op & 0x0F == op % 16) by (bit_vector);
    assert((op >> 4u8) & 0x03 == (op / 16) % 4) by (bit_vector);
    assert((op >> 3u8) & 0x07 == (op / 8) % 8) by (bit_vector);
    assert((op >> 3u8) & 0x03 == (op / 8) % 4) by (bit_vector);
    assert(((op >> 3u8) & 0x07) & 0x03 == (op / 8) % 4) by (bit_vector);
}

/// CB-prefixed opcodes keep IME and a pending EI.
proof fn lemma_exec_cb_keeps_ime(s: Cpu, m: BusView, op: u8)
    ensures
        crate::cpu::exec_cb_spec(s, m, op).0.ime == s.ime,
        crate::cpu::exec_cb_spec(s, m, op).0.ime_pending == s.ime_pending,
{
}

/// Only DI, EI and RETI touch interrupt enabling: DI clears IME and a
/// pending EI, EI schedules IME, RETI sets IME; every other opcode keeps
/// both.
pub proof fn lemma_ime_only_by_di_ei_reti(s: Cpu, m: BusView, op: u8)
    ensures
        crate::cpu::execute_spec(s, m, op).0.ime == (if op == 0xF3 { false } else if op == 0xD9 {
            true
        } else {
            s.ime
        }),
        crate::cpu::execute_spec(s, m, op).0.ime_pending == (if op == 0xF3 { false } else if op == 0xFB {
            true
        } else {
            s.ime_pending
        }),
{
    lemma_opcode_fields(op);
    if op == 0xCB {
        let s0 = Cpu { t_cycles: crate::cpu::cycles_spec(op), ..s };
        let (cb, s1) = fetch_spec(s0, m);
        lemma_exec_cb_keeps_ime(s1, m, cb);
    }
}

/// A scheduled IME is set before the next instruction runs, and stays set
/// unless that instruction is DI.
proof fn lemma_pending_ime_set(s: Cpu, m: BusView)
    requires
        s.ime_pending,
        !s.stopped,
        !s.halted,
        bus_read_spec(m, s.pc) != 0xF3,
    ensures
        cpu_step_spec(s, m).0.ime,
{
    reveal(cpu_step_spec);
    let s1 = Cpu { ime_pending: false, ime: true, ..s };
    let (op, s2) = fetch_spec(s1, m);
    lemma_ime_only_by_di_ei_reti(s2, m, op);
}

/// EI itself only schedules IME.
proof fn lemma_ei_step(s: Cpu, m: BusView)
    requires
        !s.stopped,
        !s.halted,
        !s.ime,
        !s.ime_pending,
        bus_read_spec(m, s.pc) == 0xFB,
    ensures
        ({
            let (s1, m1) = cpu_step_spec(s, m);
            !s1.ime && s1.ime_pending && m1 == m && !s1.halted && !s1.stopped
        }),
{
    reveal(cpu_step_spec);
    let op = bus_read_spec(m, s.pc);
    assert(op & 0x0F == 0x0B && (op >> 4u8) & 0x03 == 3 && (op >> 3u8) & 0x03 == 3) by (bit_vector)
        requires
            op == 0xFB,
    ;
}

/// EI takes effect one instruction late: right after EI, IME is still clear
/// (only scheduled), so no interrupt is taken before the next instruction;
/// once that instruction has run, IME is set, unless it was DI.
pub proof fn lemma_ei_delay(s: Cpu, m: BusView)
    requires
        !s.stopped,
        !s.halted,
        !s.ime,
        !s.ime_pending,
        bus_read_spec(m, s.pc) == 0xFB,
    ensures
        ({
            let (s1, m1) = cpu_step_spec(s, m);
            let (s2, m2, taken) = handle_interrupts_spec(s1, m1);
            &&& !s1.ime
            &&& s1.ime_pending
            &&& m1 == m
            &&& !taken
            &&& (bus_read_spec(m2, s2.pc) != 0xF3 ==> cpu_step_spec(s2, m2).0.ime)
        }),
{
    lemma_ei_step(s, m);
    let (s1, m1) = cpu_step_spec(s, m);
    let (s2, m2, taken) = handle_interrupts_spec(s1, m1);
    assert(s2 == s1 && m2 == m1 && !taken) by {
        reveal(handle_interrupts_spec);
    }
    if bus_read_spec(m2, s2.pc) != 0xF3 {
        lemma_pending_ime_set(s2, m2);
    }
}

/// HALT halts the CPU unless IME is clear with an interrupt already
/// pending. In that case the HALT bug hits: the CPU keeps running and the
/// byte after HALT is fetched twice, as PC does not advance past it the
/// first time. HALT itself takes 4 cycles.
pub proof fn lemma_halt(s: Cpu, m: BusView)
    requires
        !s.stopped,
        !s.halted,
        bus_read_spec(m, s.pc) == 0x76,
    ensures
        ({
            let (s1, m1) = cpu_step_spec(s, m);
            let ime = s.ime || s.ime_pending;
            let pending = m.interrupt_flag & m.interrupt_enable & 0x1F;
            &&& m1 == m
            &&& s1.pc == fetch_spec(s, m).1.pc
            &&& s1.t_cycles == 4
            &&& (ime || pending == 0 ==> s1.halted)
            &&& (!ime && pending != 0 ==> {
                let (b1, s2) = fetch_spec(s1, m1);
                let (b2, _) = fetch_spec(s2, m1);
                &&& !s1.halted
                &&& s2.pc == s1.pc
                &&& b1 == b2
            })
        }),
{
    reveal(cpu_step_spec);
}

/// A halted CPU idles in place (four cycles, PC and memory unchanged) while
/// no enabled interrupt is pending, and the first pending one ends HALT.
pub proof fn lemma_halted_waits(s: Cpu, m: BusView)
    requires
        s.halted,
        !s.stopped,
    ensures
        ({
            let pending = m.interrupt_flag & m.interrupt_enable & 0x1F;
            let (s1, m1) = cpu_step_spec(s, m);
            &&& s1.halted && s1.pc == s.pc && s1.t_cycles == 4 && m1 == m
            &&& (pending == 0 ==> handle_interrupts_spec(s, m) == (s, m, false))
            &&& (pending != 0 ==> !handle_interrupts_spec(s, m).0.halted)
        }),
{
    reveal(cpu_step_spec);
    reveal(handle_interrupts_spec);
}

/// Interrupt dispatch: with IME set and an enabled interrupt requested, the
/// highest-priority one (lowest bit) is taken: IME is cleared and execution
/// moves to its vector 0x40 + 8 * bit; with the stack in RAM, a return
/// (a POP of the pushed word) resumes at the interrupted PC with SP restored.
pub proof fn lemma_interrupt_dispatch(s: Cpu, m: BusView)
    requires
        s.ime,
        m.interrupt_flag & m.interrupt_enable & 0x1F != 0,
        bus_view_wf(m),
        is_ram_addr(s.sp.wrapping_sub(2)),
        is_ram_addr(s.sp.wrapping_sub(1)),
    ensures
        ({
            let (s1, m1, taken) = handle_interrupts_spec(s, m);
            let bit = crate::bus::lowest_irq_bit(m.interrupt_flag & m.interrupt_enable & 0x1F);
            let (ret, s2) = pop_spec(s1, m1);
            &&& taken
            &&& !s1.ime
            &&& !s1.halted
            &&& s1.pc == 0x40 + 8 * bit
            &&& ret == s.pc
            &&& s2.sp == s.sp
        }),
{
    reveal(handle_interrupts_spec);
    let bit = crate::bus::lowest_irq_bit(m.interrupt_flag & m.interrupt_enable & 0x1F);
    let s_1 = if s.halted { Cpu { halted: false, ..s } } else { s };
    let s_2 = Cpu { ime: false, ..s_1 };
    let m_2 = BusView { interrupt_flag: m.interrupt_flag & !(1u8 << bit), ..m };
    assert(bus_view_wf(m_2));
    lemma_push_pop(s_2, m_2, s_2.pc);
}

/// CALL then RET: a CALL at PC jumps to its operand with the stack in RAM,
/// and a RET executed there comes back to the instruction after the CALL
/// (PC + 3) with SP restored. CALL takes 24 cycles and RET 16.
pub proof fn lemma_call_ret(s: Cpu, m: BusView)
    requires
        !s.stopped,
        !s.halted,
        !s.halt_bug,
        bus_read_spec(m, s.pc) == 0xCD,
        bus_view_wf(m),
        is_ram_addr(s.sp.wrapping_sub(2)),
        is_ram_addr(s.sp.wrapping_sub(1)),
    ensures
        ({
            let (s1, m1) = cpu_step_spec(s, m);
            let target = crate::cpu::word(
                bus_read_spec(m, s.pc.wrapping_add(1).wrapping_add(1)),
                bus_read_spec(m, s.pc.wrapping_add(1)),
            );
            &&& s1.pc == target
            &&& s1.t_cycles == 24
            &&& (bus_read_spec(m1, s1.pc) == 0xC9 && !s1.halt_bug ==> {
                let (s2, m2) = cpu_step_spec(s1, m1);
                &&& s2.pc == s.pc.wrapping_add(1).wrapping_add(1).wrapping_add(1)
                &&& s2.sp == s.sp
                &&& m2 == m1
                &&& s2.t_cycles == 16
            })
        }),
{
    reveal(cpu_step_spec);
    let op = bus_read_spec(m, s.pc);
    lemma_opcode_fields(op);
    let s0 = if s.ime_pending { Cpu { ime_pending: false, ime: true, ..s } } else { s };
    let (op0, sa) = fetch_spec(s0, m);
    let sb = Cpu { t_cycles: crate::cpu::cycles_spec(op), ..sa };
    let (a, sc) = crate::cpu::fetch16_spec(sb, m);
    lemma_push_pop(sc, m, sc.pc);
    let (s1, m1) = cpu_step_spec(s, m);
    if bus_read_spec(m1, s1.pc) == 0xC9 && !s1.halt_bug {
        lemma_opcode_fields(0xC9);
    }
}

/// OR of two bytes with a clear low nibble has a clear low nibble.
broadcast proof fn lemma_or_low_clear(f: u8, m: u8)
    requires
        f & 0x0F == 0,
        m & 0x0F == 0,
    ensures
        #[trigger] ((f | m) & 0x0F) == 0,
{
    assert((f & 0x0F == 0 && m & 0x0F == 0) ==> (f | m) & 0x0F == 0) by (bit_vector);
}

/// AND with a byte that has a clear low nibble has a clear low nibble.
broadcast proof fn lemma_and_low_clear(f: u8, m: u8)
    requires
        f & 0x0F == 0 || m & 0x0F == 0,
    ensures
        #[trigger] ((f & m) & 0x0F) == 0,
{
    assert((f & 0x0F == 0 || m & 0x0F == 0) ==> (f & m) & 0x0F == 0) by (bit_vector);
}

/// The flag bits and the masks built from them lie in the high nibble.
proof fn lemma_flag_constants()
    ensures
        crate::cpu::FLAG_Z & 0x0F == 0,
        crate::cpu::FLAG_N & 0x0F == 0,
        crate::cpu::FLAG_H & 0x0F == 0,
        crate::cpu::FLAG_C & 0x0F == 0,
        0u8 & 0x0F == 0,
        0xF0u8 & 0x0F == 0,
        0xB0u8 & 0x0F == 0,
{
    assert(0x80u8 & 0x0F == 0 && 0x40u8 & 0x0F == 0 && 0x20u8 & 0x0F == 0 && 0x10u8 & 0x0F == 0 && 0u8
        & 0x0F == 0 && 0xF0u8 & 0x0F == 0 && 0xB0u8 & 0x0F == 0) by (bit_vector);
}

/// Opcodes 0x00..0x3F keep F's low nibble clear.
proof fn lemma_exec_low_flags(s: Cpu, m: BusView, op: u8)
    requires
        s.f & 0x0F == 0,
        op < 0x40,
    ensures
        crate::cpu::exec_low_spec(s, m, op).0.f & 0x0F == 0,
{
    broadcast use lemma_or_low_clear, lemma_and_low_clear;

    lemma_flag_constants();
    lemma_opcode_fields(op);
}

/// Opcodes 0x40..0xBF keep F's low nibble clear.
proof fn lemma_exec_mid_flags(s: Cpu, m: BusView, op: u8)
    requires
        s.f & 0x0F == 0,
        0x40 <= op < 0xC0,
    ensures
        crate::cpu::exec_mid_spec(s, m, op).0.f & 0x0F == 0,
{
    broadcast use lemma_or_low_clear, lemma_and_low_clear;

    lemma_flag_constants();
    lemma_opcode_fields(op);
}

/// CB-prefixed opcodes keep F's low nibble clear.
proof fn lemma_exec_cb_flags(s: Cpu, m: BusView, op: u8)
    requires
        s.f & 0x0F == 0,
    ensures
        crate::cpu::exec_cb_spec(s, m, op).0.f & 0x0F == 0,
{
    broadcast use lemma_or_low_clear, lemma_and_low_clear;

    lemma_flag_constants();
    lemma_opcode_fields(op);
}

/// Opcodes 0xC0..0xFF keep F's low nibble clear.
proof fn lemma_exec_high_flags(s: Cpu, m: BusView, op: u8)
    requires
        s.f & 0x0F == 0,
        op >= 0xC0,
    ensures
        crate::cpu::exec_high_spec(s, m, op).0.f & 0x0F == 0,
{
    broadcast use lemma_or_low_clear, lemma_and_low_clear;

    lemma_flag_constants();
    lemma_opcode_fields(op);
    if op == 0xCB {
        let (cb, s1) = fetch_spec(s, m);
        lemma_exec_cb_flags(s1, m, cb);
    }
}

/// The low nibble of F is always 0: it is 0 at power-on and after the CGB
/// register setup, and no step (interrupt dispatch or instruction) sets
/// any of its bits; flag updates touch bits 4..7 only and POP AF masks F.
pub proof fn lemma_flags_low_nibble_clear(s: Cpu, m: BusView, skip_boot: bool)
    ensures
        crate::cpu::cpu_new_spec(skip_boot).f & 0x0F == 0,
        crate::cpu::cgb_init_spec(s).f & 0x0F == 0,
        s.f & 0x0F == 0 ==> cpu_step_spec(s, m).0.f & 0x0F == 0,
        s.f & 0x0F == 0 ==> handle_interrupts_spec(s, m).0.f & 0x0F == 0,
{
    lemma_flag_constants();
    reveal(cpu_step_spec);
    reveal(handle_interrupts_spec);
    if s.f & 0x0F == 0 {
        let s1 = if s.ime_pending { Cpu { ime_pending: false, ime: true, ..s } } else { s };
        let (op, s2) = fetch_spec(s1, m);
        let s3 = Cpu { t_cycles: crate::cpu::cycles_spec(op), ..s2 };
        if op < 0x40 {
            lemma_exec_low_flags(s3, m, op);
        } else if op < 0xC0 {
            lemma_exec_mid_flags(s3, m, op);
        } else {
            lemma_exec_high_flags(s3, m, op);
        }
    }
}

/// PUSH rr as an instruction: 16 cycles, then the pair pushed.
proof fn lemma_exec_push(s: Cpu, m: BusView, i: u8)
    requires
        i < 4,
    ensures
        crate::cpu::execute_spec(s, m, (0xC5 + 16 * i) as u8) == push_spec(
            Cpu { t_cycles: 16, ..s },
            m,
            qq_spec(s, i),
        ),
{
    let op = (0xC5 + 16 * i) as u8;
    lemma_opcode_fields(op);
    if i == 0 {
        assert(op == 0xC5);
    } else if i == 1 {
        assert(op == 0xD5);
    } else if i == 2 {
        assert(op == 0xE5);
    } else {
        assert(op == 0xF5);
    }
}

/// POP rr as an instruction: 12 cycles, the word at SP into the pair, SP
/// two higher.
proof fn lemma_exec_pop(s: Cpu, m: BusView, i: u8)
    requires
        i < 4,
    ensures
        ({
            let (w, s1) = pop_spec(Cpu { t_cycles: 12, ..s }, m);
            crate::cpu::execute_spec(s, m, (0xC1 + 16 * i) as u8) == (crate::cpu::set_qq_spec(s1, i, w), m)
        }),
{
    let op = (0xC1 + 16 * i) as u8;
    lemma_opcode_fields(op);
    if i == 0 {
        assert(op == 0xC1);
    } else if i == 1 {
        assert(op == 0xD1);
    } else if i == 2 {
        assert(op == 0xE1);
    } else {
        assert(op == 0xF1);
    }
}

/// PUSH rr then POP rr (BC, DE, HL or AF, by `i`): with the stack in RAM
/// the pair comes back, except that POP AF clears F's low nibble; SP is back
/// where it was, and POP BC/DE/HL leaves F alone. PUSH takes 16 cycles and
/// POP 12.
pub proof fn lemma_push_pop_instructions(s: Cpu, m: BusView, i: u8)
    requires
        i < 4,
        bus_view_wf(m),
        is_ram_addr(s.sp.wrapping_sub(2)),
        is_ram_addr(s.sp.wrapping_sub(1)),
    ensures
        ({
            let v = qq_spec(s, i);
            let (s1, m1) = crate::cpu::execute_spec(s, m, (0xC5 + 16 * i) as u8);
            let (s2, m2) = crate::cpu::execute_spec(s1, m1, (0xC1 + 16 * i) as u8);
            &&& qq_spec(s2, i) == (if i == 3 { v & 0xFFF0 } else { v })
            &&& s2.sp == s.sp
            &&& m2 == m1
            &&& (i < 3 ==> s2.f == s.f)
            &&& s1.t_cycles == 16
            &&& s2.t_cycles == 12
        }),
{
    let v = qq_spec(s, i);
    let s0 = Cpu { t_cycles: 16, ..s };
    assert(qq_spec(s0, i) == v);
    lemma_exec_push(s, m, i);
    lemma_push_pop(s0, m, v);
    let (s1, m1) = push_spec(s0, m, v);
    lemma_exec_pop(s1, m1, i);
    let (w, s2) = pop_spec(Cpu { t_cycles: 12, ..s1 }, m1);
    assert(w == v);
    if i == 3 {
        let lo = (v % 256) as u8;
        assert(((v / 256) as u8) as u16 * 256 + ((lo & 0xF0) as u16) == v & 0xFFF0) by (bit_vector)
            requires
                lo == (v % 256) as u8,
        ;
    }
}

/// Byte identities behind the CB rotates and shifts.
proof fn lemma_shift_arith(v: u8, ci: u8)
    requires
        ci <= 1,
    ensures
        (v << 1u8) | (v >> 7u8) == ((2 * v as int) % 256 + v as int / 128) as u8,
        (v >> 1u8) | ((v & 1) << 7u8) == (v as int / 2 + 128 * (v as int % 2)) as u8,
        (v << 1u8) | ci == ((2 * v as int) % 256 + ci as int) as u8,
        (v >> 1u8) | (ci << 7u8) == (v as int / 2 + 128 * ci as int) as u8,
        v << 1u8 == ((2 * v as int) % 256) as u8,
        (v >> 1u8) | (v & 0x80) == (v as int / 2 + 128 * (v as int / 128)) as u8,
        (v >> 4u8) | (v << 4u8) == ((v as int % 16) * 16 + v as int / 16) as u8,
        v >> 1u8 == (v as int / 2) as u8,
        v >> 7u8 == v as int / 128,
        v & 1 == v as int % 2,
        (0x80u8 | 0x10u8) == 0x90u8,
        (0x80u8 | 0u8) == 0x80u8,
        (0u8 | 0x10u8) == 0x10u8,
        (0u8 | 0u8) == 0u8,
{
    assert((v << 1u8) | (v >> 7u8) == ((2 * v as int) % 256 + v as int / 128) as u8) by (bit_vector);
    assert((v >> 1u8) | ((v & 1) << 7u8) == (v as int / 2 + 128 * (v as int % 2)) as u8) by (bit_vector);
    assert((v << 1u8) | ci == ((2 * v as int) % 256 + ci as int) as u8 && (v >> 1u8) | (ci << 7u8) == (v
        as int / 2 + 128 * ci as int) as u8) by (bit_vector)
        requires
            ci <= 1,
    ;
    assert(v << 1u8 == ((2 * v as int) % 256) as u8 && (v >> 1u8) | (v & 0x80) == (v as int / 2 + 128 * (v
        as int / 128)) as u8 && (v >> 4u8) | (v << 4u8) == ((v as int % 16) * 16 + v as int / 16) as u8
        && v >> 1u8 == (v as int / 2) as u8 && v >> 7u8 == v as int / 128 && v & 1 == v as int % 2 && (
    0x80u8 | 0x10u8) == 0x90u8 && (0x80u8 | 0u8) == 0x80u8 && (0u8 | 0x10u8) == 0x10u8 && (0u8 | 0u8)
        == 0u8) by (bit_vector);
}

/// The flags after a rotate or shift: Z when the result is 0, C from the bit
/// shifted out, N and H clear.
pub open spec fn shift_flag_value(r: int, carry: int) -> int {
    (if r == 0 { 0x80int } else { 0 }) + (if carry != 0 { 0x10int } else { 0 })
}

/// The CB-prefixed rotates and shifts on a byte `v` (C the carry flag before):
/// RLC rotates left (bit 7 to bit 0 and C); RRC rotates right (bit 0 to bit
/// 7 and C); RL and RR rotate through C; SLA doubles (bit 7 to C); SRA halves
/// keeping the sign bit, so as a signed byte it is `v` divided by 2 rounded
/// down (bit 0 to C); SWAP exchanges the nibbles (C clear); SRL halves (bit 0
/// to C). Z is set exactly for a zero result; N and H are cleared.
pub proof fn lemma_cb_shifts(s: Cpu, v: u8)
    ensures
        ({
            let ci: int = if s.f & 0x10 != 0 { 1 } else { 0 };
            let x = v as int;
            let rlc = crate::cpu::shift_spec(s, 0, v);
            let rrc = crate::cpu::shift_spec(s, 1, v);
            let rl = crate::cpu::shift_spec(s, 2, v);
            let rr = crate::cpu::shift_spec(s, 3, v);
            let sla = crate::cpu::shift_spec(s, 4, v);
            let sra = crate::cpu::shift_spec(s, 5, v);
            let swap = crate::cpu::shift_spec(s, 6, v);
            let srl = crate::cpu::shift_spec(s, 7, v);
            &&& rlc.1 == (2 * x) % 256 + x / 128 && rlc.0.f == shift_flag_value(rlc.1 as int, x / 128)
            &&& rrc.1 == x / 2 + 128 * (x % 2) && rrc.0.f == shift_flag_value(rrc.1 as int, x % 2)
            &&& rl.1 == (2 * x) % 256 + ci && rl.0.f == shift_flag_value(rl.1 as int, x / 128)
            &&& rr.1 == x / 2 + 128 * ci && rr.0.f == shift_flag_value(rr.1 as int, x % 2)
            &&& sla.1 == (2 * x) % 256 && sla.0.f == shift_flag_value(sla.1 as int, x / 128)
            &&& sra.1 == x / 2 + 128 * (x / 128) && sra.0.f == shift_flag_value(sra.1 as int, x % 2)
            &&& (sra.1 as int) - (if sra.1 >= 128 { 256int } else { 0 }) == (x - (if x >= 128 {
                256int
            } else {
                0
            })) / 2
            &&& swap.1 == (x % 16) * 16 + x / 16 && swap.0.f == shift_flag_value(swap.1 as int, 0)
            &&& srl.1 == x / 2 && srl.0.f == shift_flag_value(srl.1 as int, x % 2)
            &&& forall|op: u8| #![auto] op < 8 ==> crate::cpu::shift_spec(s, op, v).0 == (Cpu {
                f: crate::cpu::shift_spec(s, op, v).0.f,
                ..s
            })
        }),
{
    let ci: u8 = if s.f & 0x10 != 0 { 1 } else { 0 };
    assert(crate::cpu::has_flag(s, crate::cpu::FLAG_C) == (s.f & 0x10 != 0));
    lemma_shift_arith(v, ci);
}

/// Offsets and flag bits as arithmetic.
proof fn lemma_jr_bits(pc: u16, e: u8, f: u8)
    ensures
        (pc as i32 + (e as i8) as i32) as u16 == ((pc as int + (if e >= 128 { e as int - 256 } else {
            e as int
        })) % 0x10000) as u16,
        (f & 0x80 != 0) == ((f / 128) % 2 == 1),
        (f & 0x10 != 0) == ((f / 16) % 2 == 1),
{
    assert((pc as i32 + (e as i8) as i32) as u16 == ((pc as int + (if e >= 128 { e as int - 256 } else {
        e as int
    })) % 0x10000) as u16 && (f & 0x80 != 0) == ((f / 128) % 2 == 1) && (f & 0x10 != 0) == ((f / 16) % 2
        == 1)) by (bit_vector);
}

/// The step for opcode 0x18 in terms of the fetched offset.
proof fn lemma_jr_step_18(s: Cpu, m: BusView)
    requires
        !s.stopped,
        !s.halted,
        !s.halt_bug,
        bus_read_spec(m, s.pc) == 0x18,
    ensures
        ({
            let pc2 = s.pc.wrapping_add(1).wrapping_add(1);
            let e = bus_read_spec(m, s.pc.wrapping_add(1));
            let (s1, m1) = cpu_step_spec(s, m);
            &&& m1 == m
            &&& s1.pc == (if true { (pc2 as i32 + (e as i8) as i32) as u16 } else { pc2 })
            &&& s1.t_cycles == (if true { 12u8 } else { 12u8 })
        }),
{
    reveal(cpu_step_spec);
    lemma_opcode_fields(0x18);
}

/// The step for opcode 0x20 in terms of the fetched offset.
proof fn lemma_jr_step_20(s: Cpu, m: BusView)
    requires
        !s.stopped,
        !s.halted,
        !s.halt_bug,
        bus_read_spec(m, s.pc) == 0x20,
    ensures
        ({
            let pc2 = s.pc.wrapping_add(1).wrapping_add(1);
            let e = bus_read_spec(m, s.pc.wrapping_add(1));
            let (s1, m1) = cpu_step_spec(s, m);
            &&& m1 == m
            &&& s1.pc == (if crate::cpu::cond_spec(s, 0) { (pc2 as i32 + (e as i8) as i32) as u16 } else { pc2 })
            &&& s1.t_cycles == (if crate::cpu::cond_spec(s, 0) { 12u8 } else { 8u8 })
        }),
{
    reveal(cpu_step_spec);
    lemma_opcode_fields(0x20);
}

/// The step for opcode 0x28 in terms of the fetched offset.
proof fn lemma_jr_step_28(s: Cpu, m: BusView)
    requires
        !s.stopped,
        !s.halted,
        !s.halt_bug,
        bus_read_spec(m, s.pc) == 0x28,
    ensures
        ({
            let pc2 = s.pc.wrapping_add(1).wrapping_add(1);
            let e = bus_read_spec(m, s.pc.wrapping_add(1));
            let (s1, m1) = cpu_step_spec(s, m);
            &&& m1 == m
            &&& s1.pc == (if crate::cpu::cond_spec(s, 1) { (pc2 as i32 + (e as i8) as i32) as u16 } else { pc2 })
            &&& s1.t_cycles == (if crate::cpu::cond_spec(s, 1) { 12u8 } else { 8u8 })
        }),
{
    reveal(cpu_step_spec);
    lemma_opcode_fields(0x28);
}

/// The step for opcode 0x30 in terms of the fetched offset.
proof fn lemma_jr_step_30(s: Cpu, m: BusView)
    requires
        !s.stopped,
        !s.halted,
        !s.halt_bug,
        bus_read_spec(m, s.pc) == 0x30,
    ensures
        ({
            let pc2 = s.pc.wrapping_add(1).wrapping_add(1);
            let e = bus_read_spec(m, s.pc.wrapping_add(1));
            let (s1, m1) = cpu_step_spec(s, m);
            &&& m1 == m
            &&& s1.pc == (if crate::cpu::cond_spec(s, 2) { (pc2 as i32 + (e as i8) as i32) as u16 } else { pc2 })
            &&& s1.t_cycles == (if crate::cpu::cond_spec(s, 2) { 12u8 } else { 8u8 })
        }),
{
    reveal(cpu_step_spec);
    lemma_opcode_fields(0x30);
}

/// The step for opcode 0x38 in terms of the fetched offset.
proof fn lemma_jr_step_38(s: Cpu, m: BusView)
    requires
        !s.stopped,
        !s.halted,
        !s.halt_bug,
        bus_read_spec(m, s.pc) == 0x38,
    ensures
        ({
            let pc2 = s.pc.wrapping_add(1).wrapping_add(1);
            let e = bus_read_spec(m, s.pc.wrapping_add(1));
            let (s1, m1) = cpu_step_spec(s, m);
            &&& m1 == m
            &&& s1.pc == (if crate::cpu::cond_spec(s, 3) { (pc2 as i32 + (e as i8) as i32) as u16 } else { pc2 })
            &&& s1.t_cycles == (if crate::cpu::cond_spec(s, 3) { 12u8 } else { 8u8 })
        }),
{
    reveal(cpu_step_spec);
    lemma_opcode_fields(0x38);
}

/// One relative jump with opcode `op` at PC.
proof fn lemma_relative_jump_op(s: Cpu, m: BusView, op: u8)
    requires
        !s.stopped,
        !s.halted,
        !s.halt_bug,
        bus_read_spec(m, s.pc) == op,
        op == 0x18 || op == 0x20 || op == 0x28 || op == 0x30 || op == 0x38,
    ensures
        ({
            let e = bus_read_spec(m, s.pc.wrapping_add(1));
            let next = s.pc as int + 2;
            let z = (s.f / 128) % 2 == 1;
            let c = (s.f / 16) % 2 == 1;
            let taken = op == 0x18 || (op == 0x20 && !z) || (op == 0x28 && z) || (op == 0x30 && !c) || (
            op == 0x38 && c);
            let (s1, m1) = cpu_step_spec(s, m);
            &&& m1 == m
            &&& s1.pc == (if taken {
                (next + (if e >= 128 { e as int - 256 } else { e as int })) % 0x10000
            } else {
                next % 0x10000
            })
            &&& s1.t_cycles == (if taken { 12u8 } else { 8u8 })
        }),
{
    let pc1 = s.pc.wrapping_add(1);
    lemma_jr_bits(pc1.wrapping_add(1), bus_read_spec(m, pc1), s.f);
    if op == 0x18 {
        lemma_jr_step_18(s, m);
    } else if op == 0x20 {
        lemma_jr_step_20(s, m);
    } else if op == 0x28 {
        lemma_jr_step_28(s, m);
    } else if op == 0x30 {
        lemma_jr_step_30(s, m);
    } else {
        lemma_jr_step_38(s, m);
    }
}

/// Relative jumps: JR e (0x18) and JR NZ/Z/NC/C, e (0x20/0x28/0x30/0x38)
/// read the signed offset e after the opcode; a jump that is taken lands at
/// the address after the instruction plus e (two's complement, wrapping) in
/// 12 cycles, one that is not taken goes on after the instruction in 8. The
/// conditions are Z clear, Z set, C clear and C set.
pub proof fn lemma_relative_jumps(s: Cpu, m: BusView)
    requires
        !s.stopped,
        !s.halted,
        !s.halt_bug,
        bus_read_spec(m, s.pc) == 0x18 || bus_read_spec(m, s.pc) == 0x20 || bus_read_spec(m, s.pc) == 0x28
            || bus_read_spec(m, s.pc) == 0x30 || bus_read_spec(m, s.pc) == 0x38,
    ensures
        ({
            let op = bus_read_spec(m, s.pc);
            let e = bus_read_spec(m, s.pc.wrapping_add(1));
            let next = s.pc as int + 2;
            let z = (s.f / 128) % 2 == 1;
            let c = (s.f / 16) % 2 == 1;
            let taken = op == 0x18 || (op == 0x20 && !z) || (op == 0x28 && z) || (op == 0x30 && !c) || (
            op == 0x38 && c);
            let (s1, m1) = cpu_step_spec(s, m);
            &&& m1 == m
            &&& s1.pc == (if taken {
                (next + (if e >= 128 { e as int - 256 } else { e as int })) % 0x10000
            } else {
                next % 0x10000
            })
            &&& s1.t_cycles == (if taken { 12u8 } else { 8u8 })
        }),
{
    lemma_relative_jump_op(s, m, bus_read_spec(m, s.pc));
}

/// Bit facts for the five interrupt request bits.
proof fn lemma_irq_bits(q: u8)
    ensures
        ({
            let p = q & 0x1F;
            &&& (p & 0x01 != 0) == ((p >> 0u8) & 1 == 1)
            &&& (p & 0x02 != 0) == ((p >> 1u8) & 1 == 1)
            &&& (p & 0x04 != 0) == ((p >> 2u8) & 1 == 1)
            &&& (p & 0x08 != 0) == ((p >> 3u8) & 1 == 1)
            &&& (p != 0 && p & 0x0F == 0) ==> (p >> 4u8) & 1 == 1
            &&& (p & 0x0F == 0) == (p & 0x01 == 0 && p & 0x02 == 0 && p & 0x04 == 0 && p & 0x08 == 0)
            &&& (p & 0x01 == 0) == ((p >> 0u8) & 1 == 0)
            &&& (p & 0x02 == 0) == ((p >> 1u8) & 1 == 0)
            &&& (p & 0x04 == 0) == ((p >> 2u8) & 1 == 0)
            &&& (p & 0x08 == 0) == ((p >> 3u8) & 1 == 0)
        }),
{
    assert({
        let p = q & 0x1F;
        &&& (p & 0x01 != 0) == ((p >> 0u8) & 1 == 1)
        &&& (p & 0x02 != 0) == ((p >> 1u8) & 1 == 1)
        &&& (p & 0x04 != 0) == ((p >> 2u8) & 1 == 1)
        &&& (p & 0x08 != 0) == ((p >> 3u8) & 1 == 1)
        &&& (p != 0 && p & 0x0F == 0) ==> (p >> 4u8) & 1 == 1
        &&& (p & 0x0F == 0) == (p & 0x01 == 0 && p & 0x02 == 0 && p & 0x04 == 0 && p & 0x08 == 0)
        &&& (p & 0x01 == 0) == ((p >> 0u8) & 1 == 0)
        &&& (p & 0x02 == 0) == ((p >> 1u8) & 1 == 0)
        &&& (p & 0x04 == 0) == ((p >> 2u8) & 1 == 0)
        &&& (p & 0x08 == 0) == ((p >> 3u8) & 1 == 0)
    }) by (bit_vector);
}

/// Interrupt priority: an interrupt is pending exactly when some request
/// bit is set in both IF and IE (bits 0..4); the one served is the lowest
/// such bit: V-Blank before STAT, timer, serial and joypad.
pub proof fn lemma_interrupt_priority(m: BusView)
    ensures
        ({
            let p = m.interrupt_flag & m.interrupt_enable & 0x1F;
            &&& (crate::bus::pending_interrupt_spec(m) is None <==> p == 0)
            &&& (crate::bus::pending_interrupt_spec(m) matches Some(b) ==> {
                &&& b < 5
                &&& (p >> b) & 1 == 1
                &&& forall|j: u8| j < b ==> #[trigger] ((p >> j) & 1) == 0
            })
        }),
{
    let q = m.interrupt_flag & m.interrupt_enable;
    lemma_irq_bits(q);
    let p = q & 0x1F;
    if let Some(b) = crate::bus::pending_interrupt_spec(m) {
        assert forall|j: u8| j < b implies #[trigger] ((p >> j) & 1) == 0 by {
            assert(p & 0x01 == 0);
            if j == 0 {
                assert((p >> j) & 1 == (p >> 0u8) & 1);
            } else if j == 1 {
                assert(p & 0x02 == 0);
                assert((p >> j) & 1 == (p >> 1u8) & 1);
            } else if j == 2 {
                assert(p & 0x02 == 0 && p & 0x04 == 0);
                assert((p >> j) & 1 == (p >> 2u8) & 1);
            } else {
                assert(j == 3);
                assert(p & 0x02 == 0 && p & 0x04 == 0 && p & 0x08 == 0);
                assert((p >> j) & 1 == (p >> 3u8) & 1);
            }
        }
    }
}

/// Flag-register facts: setting or clearing one flag leaves the others, and
/// the flag bytes that AND, XOR and OR produce.
proof fn lemma_flag_bits(f: u8, m: u8, on: bool, q: u8)
    requires
        m == 0x80 || m == 0x40 || m == 0x20 || m == 0x10,
        q == 0x80 || q == 0x40 || q == 0x20 || q == 0x10,
    ensures
        ((if on { f | m } else { f & !m }) & q != 0) == (if q == m { on } else { f & q != 0 }),
        (0x20u8 | 0x80u8) & q != 0 == (q == 0x20 || q == 0x80),
        (0x20u8 | 0u8) & q != 0 == (q == 0x20),
        0x80u8 & q != 0 == (q == 0x80),
        0u8 & q == 0,
{
    assert(((if on { f | m } else { f & !m }) & q != 0) == (if q == m { on } else { f & q != 0 }) && (0x20u8
        | 0x80u8) & q != 0 == (q == 0x20 || q == 0x80) && (0x20u8 | 0u8) & q != 0 == (q == 0x20) && 0x80u8
        & q != 0 == (q == 0x80) && 0u8 & q == 0) by (bit_vector)
        requires
            m == 0x80 || m == 0x40 || m == 0x20 || m == 0x10,
            q == 0x80 || q == 0x40 || q == 0x20 || q == 0x10,
    ;
}

/// Reading a flag after one was set or cleared.
broadcast proof fn lemma_with_flag_read(s: Cpu, m: u8, on: bool, q: u8)
    requires
        m == 0x80 || m == 0x40 || m == 0x20 || m == 0x10,
        q == 0x80 || q == 0x40 || q == 0x20 || q == 0x10,
    ensures
        (#[trigger] (crate::cpu::with_flag(s, m, on).f & q) != 0) == (if q == m { on } else { s.f & q != 0 }),
{
    lemma_flag_bits(s.f, m, on, q);
}

/// The flags of a result, read as (Z, N, H, C).
pub open spec fn flags_of(s: Cpu) -> (bool, bool, bool, bool) {
    (s.f & 0x80 != 0, s.f & 0x40 != 0, s.f & 0x20 != 0, s.f & 0x10 != 0)
}

/// The eight ALU operations on A and an operand `v` (C the carry before):
/// ADD/ADC give (A + v [+ C]) mod 256 with H from the low nibbles and C from
/// the 8-bit sum overflowing; SUB/SBC give (A - v [- C]) mod 256 with H and C
/// set on a borrow from the low nibble and from the whole byte, and N set;
/// AND, XOR and OR combine bitwise, with H set by AND only and N, C clear;
/// CP sets the flags as SUB but keeps A. Z is set exactly for a zero result,
/// and no other register changes.
pub proof fn lemma_alu(s: Cpu, v: u8)
    ensures
        ({
            let a = s.a as int;
            let x = v as int;
            let ci: int = if s.f & 0x10 != 0 { 1 } else { 0 };
            let add = crate::cpu::alu_spec(s, 0, v);
            let adc = crate::cpu::alu_spec(s, 1, v);
            let sub = crate::cpu::alu_spec(s, 2, v);
            let sbc = crate::cpu::alu_spec(s, 3, v);
            let and = crate::cpu::alu_spec(s, 4, v);
            let xor = crate::cpu::alu_spec(s, 5, v);
            let or = crate::cpu::alu_spec(s, 6, v);
            let cp = crate::cpu::alu_spec(s, 7, v);
            &&& add.a == (a + x) % 256
            &&& flags_of(add) == (add.a == 0, false, a % 16 + x % 16 > 15, a + x > 255)
            &&& adc.a == (a + x + ci) % 256
            &&& flags_of(adc) == (adc.a == 0, false, a % 16 + x % 16 + ci > 15, a + x + ci > 255)
            &&& sub.a == (a - x) % 256
            &&& flags_of(sub) == (sub.a == 0, true, a % 16 < x % 16, a < x)
            &&& sbc.a == (a - x - ci) % 256
            &&& flags_of(sbc) == (sbc.a == 0, true, a % 16 < x % 16 + ci, a < x + ci)
            &&& and.a == s.a & v && flags_of(and) == (and.a == 0, false, true, false)
            &&& xor.a == s.a ^ v && flags_of(xor) == (xor.a == 0, false, false, false)
            &&& or.a == s.a | v && flags_of(or) == (or.a == 0, false, false, false)
            &&& cp.a == s.a && flags_of(cp) == ((a - x) % 256 == 0, true, a % 16 < x % 16, a < x)
            &&& forall|op: u8| #![auto] op < 8 ==> crate::cpu::alu_spec(s, op, v) == (Cpu {
                a: crate::cpu::alu_spec(s, op, v).a,
                f: crate::cpu::alu_spec(s, op, v).f,
                ..s
            })
        }),
{
    broadcast use lemma_with_flag_read;

    lemma_flag_bits(0, 0x80, false, 0x80);
    lemma_flag_bits(0, 0x80, false, 0x40);
    lemma_flag_bits(0, 0x80, false, 0x20);
    lemma_flag_bits(0, 0x80, false, 0x10);
    assert(crate::cpu::has_flag(s, crate::cpu::FLAG_C) == (s.f & 0x10 != 0));
}

/// The DAA correction after adding two BCD bytes, on all such bytes.
proof fn lemma_daa_arith(a: u8, x: u8, ci: u8)
    by (bit_vector)
    requires
        a % 16 <= 9,
        a / 16 <= 9,
        x % 16 <= 9,
        x / 16 <= 9,
        ci <= 1,
    ensures
        ({
            let t = a as u16 + x as u16 + ci as u16;
            let r = t % 256;
            let h = a % 16 + x % 16 + ci > 15;
            let c2 = t > 255 || r > 0x99;
            let r2 = if c2 { (r + 0x60) % 256 } else { r };
            let r3 = if h || r % 16 > 9 { (r2 + 6) % 256 } else { r2 };
            let sum = 10 * (a / 16) + a % 16 + 10 * (x / 16) + x % 16 + ci;
            &&& r3 == 16 * ((sum % 100) / 10) + sum % 10
            &&& c2 == (sum >= 100)
        }),
{
}

/// The result and flags of ADD/ADC as DAA reads them.
proof fn lemma_add_for_daa(s: Cpu, v: u8, carry: bool)
    ensures
        ({
            let ci: int = if carry { 1 } else { 0 };
            let s1 = crate::cpu::add_a_spec(s, v, carry);
            &&& s1.a == (s.a + v + ci) % 256
            &&& !crate::cpu::has_flag(s1, crate::cpu::FLAG_N)
            &&& crate::cpu::has_flag(s1, crate::cpu::FLAG_H) == (s.a % 16 + v % 16 + ci > 15)
            &&& crate::cpu::has_flag(s1, crate::cpu::FLAG_C) == (s.a + v + ci > 255)
        }),
{
    broadcast use lemma_with_flag_read;

}

/// DAA after an addition, in terms of A and the H and C flags before it.
proof fn lemma_daa_after_addition(s1: Cpu)
    requires
        !crate::cpu::has_flag(s1, crate::cpu::FLAG_N),
    ensures
        ({
            let h = crate::cpu::has_flag(s1, crate::cpu::FLAG_H);
            let c2 = crate::cpu::has_flag(s1, crate::cpu::FLAG_C) || s1.a > 0x99;
            let r2 = if c2 { (s1.a + 0x60) % 256 } else { s1.a as int };
            let r3 = if h || s1.a % 16 > 9 { (r2 + 6) % 256 } else { r2 };
            let r = crate::cpu::daa_spec(s1);
            &&& r.a == r3
            &&& flags_of(r) == (r.a == 0, false, false, c2)
        }),
{
    broadcast use lemma_with_flag_read;

}

/// DAA makes decimal addition: after ADD or ADC of two packed BCD bytes
/// (`carry` the carry added in), DAA leaves in A the two decimal digits of
/// the sum, sets C exactly when the sum reaches 100, sets Z for a zero
/// result, and clears N and H.
pub proof fn lemma_daa_after_add(s: Cpu, v: u8, carry: bool)
    requires
        s.a % 16 <= 9,
        s.a / 16 <= 9,
        v % 16 <= 9,
        v / 16 <= 9,
    ensures
        ({
            let ci: int = if carry { 1 } else { 0 };
            let sum = 10 * (s.a / 16) + s.a % 16 + 10 * (v / 16) + v % 16 + ci;
            let r = crate::cpu::daa_spec(crate::cpu::add_a_spec(s, v, carry));
            &&& r.a == 16 * ((sum % 100) / 10) + sum % 10
            &&& flags_of(r) == (r.a == 0, false, false, sum >= 100)
        }),
{
    let ci: u8 = if carry { 1 } else { 0 };
    lemma_daa_arith(s.a, v, ci);
    lemma_add_for_daa(s, v, carry);
    lemma_daa_after_addition(crate::cpu::add_a_spec(s, v, carry));
}

} // verus!
