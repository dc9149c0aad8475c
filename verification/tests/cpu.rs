use ferrisboy::bus::Bus;
use ferrisboy::cartridge::Cartridge;
use ferrisboy::cpu::Cpu;
use ferrisboy::model::Model;

fn machine(code: &[u8], model: Model) -> (Cpu, Bus) {
    let mut r = vec![0u8; 0x8000];
    r[0x100..0x100 + code.len()].copy_from_slice(code);
    let bus = Bus::new(Cartridge::new(r), None, true, model);
    (Cpu::new(true), bus)
}

fn run(cpu: &mut Cpu, bus: &mut Bus, steps: usize) {
    for _ in 0..steps {
        cpu.step(bus);
    }
}

#[test]
fn cpu_post_boot_registers() {
    let c = Cpu::new(true);
    assert_eq!((c.a, c.f, c.b, c.c, c.d, c.e, c.h, c.l), (0x01, 0xB0, 0x00, 0x13, 0x00, 0xD8, 0x01, 0x4D));
    assert_eq!((c.sp, c.pc), (0xFFFE, 0x0100));
    let c = Cpu::new(false);
    assert_eq!((c.a, c.f, c.sp, c.pc), (0, 0, 0, 0));
    let mut c = Cpu::new(true);
    c.cgb_init();
    assert_eq!((c.a, c.f, c.d, c.e, c.l), (0x11, 0x80, 0xFF, 0x56, 0x0D));
}

#[test]
fn cpu_add_sets_all_flags() {
    // LD A,0x3A ; ADD A,0xC6
    let (mut c, mut b) = machine(&[0x3E, 0x3A, 0xC6, 0xC6], Model::DMG);
    run(&mut c, &mut b, 2);
    assert_eq!(c.a, 0x00);
    assert_eq!(c.f, 0xB0);
    assert_eq!(c.pc, 0x104);
    assert_eq!(c.t_cycles, 8);
}

#[test]
fn cpu_daa_after_bcd_add() {
    // LD A,0x45 ; ADD A,0x38 ; DAA
    let (mut c, mut b) = machine(&[0x3E, 0x45, 0xC6, 0x38, 0x27], Model::DMG);
    run(&mut c, &mut b, 2);
    assert_eq!(c.a, 0x7D);
    assert_eq!(c.f, 0x00);
    run(&mut c, &mut b, 1);
    assert_eq!(c.a, 0x83);
    assert_eq!(c.f, 0x00);
}

#[test]
fn cpu_daa_after_bcd_sub() {
    // LD A,0x42 ; SUB 0x05 ; DAA  (42 - 05 = 37 in BCD)
    let (mut c, mut b) = machine(&[0x3E, 0x42, 0xD6, 0x05, 0x27], Model::DMG);
    run(&mut c, &mut b, 2);
    assert_eq!(c.a, 0x3D);
    assert_eq!(c.f, 0x60);
    run(&mut c, &mut b, 1);
    assert_eq!(c.a, 0x37);
    assert_eq!(c.f, 0x40);
}

#[test]
fn cpu_compare_keeps_a() {
    // LD A,0x10 ; CP 0x10 ; CP 0x20
    let (mut c, mut b) = machine(&[0x3E, 0x10, 0xFE, 0x10, 0xFE, 0x20], Model::DMG);
    run(&mut c, &mut b, 2);
    assert_eq!(c.a, 0x10);
    assert_eq!(c.f, 0xC0);
    run(&mut c, &mut b, 1);
    assert_eq!(c.a, 0x10);
    assert_eq!(c.f, 0x50);
}

#[test]
fn cpu_logic_ops() {
    // XOR A ; OR 0x0F ; AND 0xF0
    let (mut c, mut b) = machine(&[0xAF, 0xF6, 0x0F, 0xE6, 0xF0], Model::DMG);
    run(&mut c, &mut b, 1);
    assert_eq!((c.a, c.f), (0x00, 0x80));
    run(&mut c, &mut b, 1);
    assert_eq!((c.a, c.f), (0x0F, 0x00));
    run(&mut c, &mut b, 1);
    assert_eq!((c.a, c.f), (0x00, 0xA0));
}

#[test]
fn cpu_adc_sbc_use_carry() {
    // SCF ; LD A,0x10 ; ADC A,0x01 ; SCF ; SBC A,0x01
    let (mut c, mut b) = machine(&[0x37, 0x3E, 0x10, 0xCE, 0x01, 0x37, 0xDE, 0x01], Model::DMG);
    run(&mut c, &mut b, 3);
    assert_eq!(c.a, 0x12);
    run(&mut c, &mut b, 2);
    assert_eq!(c.a, 0x10);
    assert_eq!(c.f, 0x40);
}

#[test]
fn cpu_inc_dec_keep_carry() {
    // LD B,0x0F ; INC B ; DEC B
    let (mut c, mut b) = machine(&[0x06, 0x0F, 0x04, 0x05], Model::DMG);
    run(&mut c, &mut b, 2);
    assert_eq!(c.b, 0x10);
    assert_eq!(c.f, 0x30);
    run(&mut c, &mut b, 1);
    assert_eq!(c.b, 0x0F);
    assert_eq!(c.f, 0x70);
}

#[test]
fn cpu_push_pop() {
    // LD BC,0x1234 ; PUSH BC ; POP DE ; LD BC,0x12FF ; PUSH BC ; POP AF
    let (mut c, mut b) =
        machine(&[0x01, 0x34, 0x12, 0xC5, 0xD1, 0x01, 0xFF, 0x12, 0xC5, 0xF1], Model::DMG);
    run(&mut c, &mut b, 2);
    assert_eq!(c.sp, 0xFFFC);
    assert_eq!(b.read16(0xFFFC), 0x1234);
    run(&mut c, &mut b, 1);
    assert_eq!((c.d, c.e), (0x12, 0x34));
    assert_eq!(c.sp, 0xFFFE);
    run(&mut c, &mut b, 3);
    assert_eq!((c.a, c.f), (0x12, 0xF0));
}

#[test]
fn cpu_call_and_ret() {
    let mut code = vec![0u8; 0x20];
    code[0] = 0xCD;
    code[1] = 0x10;
    code[2] = 0x01;
    code[0x10] = 0xC9;
    let (mut c, mut b) = machine(&code, Model::DMG);
    run(&mut c, &mut b, 1);
    assert_eq!(c.pc, 0x0110);
    assert_eq!(c.sp, 0xFFFC);
    assert_eq!(b.read16(0xFFFC), 0x0103);
    assert_eq!(c.t_cycles, 24);
    run(&mut c, &mut b, 1);
    assert_eq!(c.pc, 0x0103);
    assert_eq!(c.sp, 0xFFFE);
}

#[test]
fn cpu_relative_jumps() {
    // JR NZ,+5 (not taken: Z set) ; JR Z,+2 (taken)
    let (mut c, mut b) = machine(&[0x20, 0x05, 0x28, 0x02], Model::DMG);
    run(&mut c, &mut b, 1);
    assert_eq!(c.pc, 0x102);
    assert_eq!(c.t_cycles, 8);
    run(&mut c, &mut b, 1);
    assert_eq!(c.pc, 0x106);
    assert_eq!(c.t_cycles, 12);
    let (mut c, mut b) = machine(&[0x18, 0xFE], Model::DMG);
    run(&mut c, &mut b, 3);
    assert_eq!(c.pc, 0x100);
}

#[test]
fn cpu_cb_operations() {
    // LD A,0xF0 ; SWAP A ; BIT 7,A ; SET 0,B ; RES 0,B ; SRL A
    let (mut c, mut b) =
        machine(&[0x3E, 0xF0, 0xCB, 0x37, 0xCB, 0x7F, 0xCB, 0xC0, 0xCB, 0x80, 0xCB, 0x3F], Model::DMG);
    run(&mut c, &mut b, 2);
    assert_eq!((c.a, c.f), (0x0F, 0x00));
    assert_eq!(c.t_cycles, 8);
    run(&mut c, &mut b, 1);
    assert_eq!(c.f, 0xA0);
    run(&mut c, &mut b, 1);
    assert_eq!(c.b, 0x01);
    run(&mut c, &mut b, 1);
    assert_eq!(c.b, 0x00);
    run(&mut c, &mut b, 1);
    assert_eq!((c.a, c.f), (0x07, 0x10));
}

#[test]
fn cpu_cb_on_memory() {
    // LD HL,0xC000 ; LD (HL),0x81 ; RLC (HL)
    let (mut c, mut b) = machine(&[0x21, 0x00, 0xC0, 0x36, 0x81, 0xCB, 0x06], Model::DMG);
    run(&mut c, &mut b, 3);
    assert_eq!(b.read(0xC000), 0x03);
    assert_eq!(c.f, 0x10);
    assert_eq!(c.t_cycles, 16);
}

#[test]
fn cpu_rotate_accumulator() {
    // LD A,0x85 ; RLCA ; RRA
    let (mut c, mut b) = machine(&[0x3E, 0x85, 0x07, 0x1F], Model::DMG);
    run(&mut c, &mut b, 2);
    assert_eq!((c.a, c.f), (0x0B, 0x10));
    run(&mut c, &mut b, 1);
    assert_eq!((c.a, c.f), (0x85, 0x10));
}

#[test]
fn cpu_memory_loads() {
    // LD HL,0xC000 ; LD (HL),0x99 ; LD A,(HL+) ; LD (HL-),A ; LDH (0x80),A ; LD A,(0xC001)
    let (mut c, mut b) = machine(
        &[0x21, 0x00, 0xC0, 0x36, 0x99, 0x2A, 0x32, 0xE0, 0x80, 0xFA, 0x01, 0xC0],
        Model::DMG,
    );
    run(&mut c, &mut b, 3);
    assert_eq!(c.a, 0x99);
    assert_eq!((c.h, c.l), (0xC0, 0x01));
    run(&mut c, &mut b, 1);
    assert_eq!(b.read(0xC001), 0x99);
    assert_eq!((c.h, c.l), (0xC0, 0x00));
    run(&mut c, &mut b, 1);
    assert_eq!(b.read(0xFF80), 0x99);
    run(&mut c, &mut b, 1);
    assert_eq!(c.a, 0x99);
}

#[test]
fn cpu_stack_pointer_arithmetic() {
    // LD SP,0xFFF8 ; ADD SP,8 ; LD HL,SP-1 ; LD SP,HL
    let (mut c, mut b) = machine(&[0x31, 0xF8, 0xFF, 0xE8, 0x08, 0xF8, 0xFF, 0xF9], Model::DMG);
    run(&mut c, &mut b, 2);
    assert_eq!(c.sp, 0x0000);
    assert_eq!(c.f, 0x30);
    run(&mut c, &mut b, 1);
    assert_eq!((c.h, c.l), (0xFF, 0xFF));
    assert_eq!(c.f, 0x00);
    run(&mut c, &mut b, 1);
    assert_eq!(c.sp, 0xFFFF);
}

#[test]
fn cpu_add_hl_half_carry() {
    // LD HL,0x0FFF ; LD BC,0x0001 ; ADD HL,BC
    let (mut c, mut b) = machine(&[0x21, 0xFF, 0x0F, 0x01, 0x01, 0x00, 0x09], Model::DMG);
    run(&mut c, &mut b, 3);
    assert_eq!((c.h, c.l), (0x10, 0x00));
    assert_eq!(c.f, 0xA0);
}

#[test]
fn cpu_undefined_opcode_is_skipped() {
    let (mut c, mut b) = machine(&[0xD3, 0x00], Model::DMG);
    run(&mut c, &mut b, 1);
    assert_eq!(c.pc, 0x101);
    assert_eq!(c.t_cycles, 0);
}

#[test]
fn cpu_rst_pushes_and_jumps() {
    let (mut c, mut b) = machine(&[0xFF], Model::DMG);
    run(&mut c, &mut b, 1);
    assert_eq!(c.pc, 0x0038);
    assert_eq!(b.read16(0xFFFC), 0x0101);
}

#[test]
fn cpu_ei_delay_and_interrupt_dispatch() {
    // EI ; NOP ; NOP
    let (mut c, mut b) = machine(&[0xFB, 0x00, 0x00], Model::DMG);
    run(&mut c, &mut b, 1);
    assert!(!c.ime);
    assert!(c.ime_pending);
    run(&mut c, &mut b, 1);
    assert!(c.ime);
    b.write(0xFFFF, 0x05);
    b.write(0xFF0F, 0x04);
    assert!(c.handle_interrupts(&mut b));
    assert_eq!(c.pc, 0x0050);
    assert!(!c.ime);
    assert_eq!(c.t_cycles, 20);
    assert_eq!(b.read(0xFF0F), 0xE0);
    assert_eq!(b.read16(c.sp), 0x0102);
    assert!(!c.handle_interrupts(&mut b));
}

#[test]
fn cpu_reti_enables_interrupts() {
    let mut code = vec![0u8; 0x20];
    code[0] = 0xCD;
    code[1] = 0x10;
    code[2] = 0x01;
    code[0x10] = 0xD9;
    let (mut c, mut b) = machine(&code, Model::DMG);
    run(&mut c, &mut b, 2);
    assert_eq!(c.pc, 0x0103);
    assert!(c.ime);
}

#[test]
fn cpu_halt_and_wake() {
    // HALT ; NOP
    let (mut c, mut b) = machine(&[0x76, 0x00], Model::DMG);
    b.write(0xFF0F, 0x00);
    run(&mut c, &mut b, 1);
    assert!(c.halted);
    run(&mut c, &mut b, 1);
    assert_eq!(c.t_cycles, 4);
    assert_eq!(c.pc, 0x101);
    b.write(0xFFFF, 0x01);
    b.write(0xFF0F, 0x01);
    assert!(!c.handle_interrupts(&mut b));
    assert!(!c.halted);
}

#[test]
fn cpu_halt_bug_repeats_next_byte() {
    // HALT ; INC A  with IME clear and an interrupt pending
    let (mut c, mut b) = machine(&[0x76, 0x3C], Model::DMG);
    b.write(0xFFFF, 0x01);
    b.write(0xFF0F, 0x01);
    run(&mut c, &mut b, 1);
    assert!(!c.halted);
    run(&mut c, &mut b, 2);
    assert_eq!(c.a, 0x03);
    assert_eq!(c.pc, 0x102);
}

#[test]
fn cpu_stop_switches_speed_on_cgb() {
    // STOP with KEY1 armed
    let (mut c, mut b) = machine(&[0x10, 0x00], Model::CGB);
    b.write(0xFF4D, 0x01);
    run(&mut c, &mut b, 1);
    assert!(b.double_speed);
    assert!(!c.stopped);
    assert_eq!(c.pc, 0x102);
    let (mut c, mut b) = machine(&[0x10, 0x00], Model::DMG);
    run(&mut c, &mut b, 1);
    assert!(c.stopped);
    run(&mut c, &mut b, 1);
    assert_eq!(c.pc, 0x102);
    assert_eq!(c.t_cycles, 4);
}

#[test]
fn cpu_conditional_return_and_jump() {
    let mut code = vec![0u8; 0x20];
    // SCF ; CALL C,0x0110 ; ... at 0x110: RET NC ; RET C
    code[0] = 0x37;
    code[1] = 0xDC;
    code[2] = 0x10;
    code[3] = 0x01;
    code[0x10] = 0xD0;
    code[0x11] = 0xD8;
    let (mut c, mut b) = machine(&code, Model::DMG);
    run(&mut c, &mut b, 2);
    assert_eq!(c.pc, 0x0110);
    assert_eq!(c.t_cycles, 24);
    run(&mut c, &mut b, 1);
    assert_eq!(c.pc, 0x0111);
    assert_eq!(c.t_cycles, 8);
    run(&mut c, &mut b, 1);
    assert_eq!(c.pc, 0x0104);
    assert_eq!(c.t_cycles, 20);
}

#[test]
fn cpu_ccf_cpl() {
    // CCF ; CPL
    let (mut c, mut b) = machine(&[0x3F, 0x2F], Model::DMG);
    run(&mut c, &mut b, 1);
    assert_eq!(c.f, 0x80);
    run(&mut c, &mut b, 1);
    assert_eq!(c.a, 0xFE);
    assert_eq!(c.f, 0xE0);
}

#[test]
fn cpu_daa_keeps_decimal_carry() {
    // LD A,0x90 ; ADD A,0x90 ; DAA  (90 + 90 = 180: A = 0x80, carry set)
    let (mut c, mut b) = machine(&[0x3E, 0x90, 0xC6, 0x90, 0x27], Model::DMG);
    run(&mut c, &mut b, 2);
    assert_eq!(c.a, 0x20);
    assert_eq!(c.f, 0x10);
    run(&mut c, &mut b, 1);
    assert_eq!(c.a, 0x80);
    assert_eq!(c.f, 0x10);
}

#[test]
fn cpu_daa_decimal_overflow_to_zero() {
    // LD A,0x99 ; ADD A,0x01 ; DAA  (99 + 1 = 100: A = 0x00, Z and C set)
    let (mut c, mut b) = machine(&[0x3E, 0x99, 0xC6, 0x01, 0x27], Model::DMG);
    run(&mut c, &mut b, 3);
    assert_eq!(c.a, 0x00);
    assert_eq!(c.f, 0x90);
}
