use ferrisboy::audio::Apu;
use ferrisboy::dma::{Hdma, HdmaMode, OamDma};
use ferrisboy::joypad::{Button, Joypad};
use ferrisboy::model::Model;
use ferrisboy::serial::Serial;
use ferrisboy::timer::Timer;

#[test]
fn model_predicates() {
    assert!(Model::CGB.is_cgb());
    assert!(!Model::CGB.is_dmg());
    assert!(Model::DMG.is_dmg());
    assert!(!Model::DMG.is_cgb());
}

#[test]
fn apu_registers_read_back() {
    let mut apu = Apu::new();
    assert_eq!(apu.read(0xFF10), 0);
    apu.write(0xFF26, 0x80);
    assert_eq!(apu.read(0xFF26), 0x80);
    apu.write(0xFF3F, 0x12);
    assert_eq!(apu.read(0xFF3F), 0x12);
    // past the register file
    apu.write(0xFF40, 0x34);
    assert_eq!(apu.read(0xFF40), 0xFF);
    apu.step(4);
    assert_eq!(apu.read(0xFF26), 0x80);
}

#[test]
fn serial_transfer_sends_sb() {
    let mut s = Serial::new();
    s.write(0xFF01, b'H');
    assert_eq!(s.read(0xFF01), b'H');
    s.write(0xFF02, 0x80);
    assert_eq!(s.read(0xFF02), 0x80);
    assert!(s.output.is_empty());
    s.write(0xFF02, 0x81);
    assert_eq!(s.read(0xFF02), 0x01);
    assert!(s.interrupt_request);
    assert_eq!(s.take_output(), vec![b'H']);
    assert!(s.output.is_empty());
    assert_eq!(s.read(0xFF03), 0xFF);
}

#[test]
fn joypad_reads_selected_group() {
    let mut j = Joypad::new();
    assert_eq!(j.read(), 0xCF);
    // select action buttons (bit 5 low)
    j.write(0x10);
    assert_eq!(j.read(), 0xCF);
    j.press(Button::A);
    assert_eq!(j.read(), 0xCE);
    assert!(j.interrupt_request);
    j.release(Button::A);
    assert_eq!(j.read(), 0xCF);
    // select directions (bit 4 low)
    j.write(0x20);
    j.press(Button::Down);
    assert_eq!(j.read(), 0xC7);
    j.press(Button::Left);
    assert_eq!(j.read(), 0xC5);
}

#[test]
fn joypad_interrupt_only_on_new_press() {
    let mut j = Joypad::new();
    j.press(Button::Start);
    assert!(j.interrupt_request);
    j.interrupt_request = false;
    j.press(Button::Start);
    assert!(!j.interrupt_request);
    j.press(Button::NoButton);
    assert!(!j.interrupt_request);
    assert_eq!(j.action_state, 0x07);
}

#[test]
fn joypad_both_groups_show_directions() {
    let mut j = Joypad::new();
    j.write(0x00);
    j.press(Button::B);
    // directions win when both groups are selected
    assert_eq!(j.read(), 0xCF);
    j.press(Button::Up);
    assert_eq!(j.read(), 0xCB);
}

#[test]
fn timer_div_counts_cycles() {
    let mut t = Timer::new();
    assert_eq!(t.read(0xFF04), 0xAB);
    t.step(4);
    assert_eq!(t.div_counter, 0xABD0);
    t.write(0xFF04, 0x55);
    assert_eq!(t.read(0xFF04), 0);
    assert_eq!(t.div_counter, 0);
}

#[test]
fn timer_tima_falling_edge() {
    let mut t = Timer::new();
    t.write(0xFF04, 0);
    t.write(0xFF07, 0x05);
    assert_eq!(t.read(0xFF07), 0xFD);
    t.step(15);
    assert_eq!(t.read(0xFF05), 0);
    t.step(1);
    assert_eq!(t.read(0xFF05), 1);
    t.step(16);
    assert_eq!(t.read(0xFF05), 2);
}

#[test]
fn timer_overflow_reloads_next_step() {
    let mut t = Timer::new();
    t.write(0xFF07, 0x05);
    t.write(0xFF06, 0x42);
    t.div_counter = 0x000F;
    t.tima = 0xFF;
    t.step(1);
    assert_eq!(t.read(0xFF05), 0);
    assert!(t.overflow_pending);
    assert!(!t.interrupt_request);
    t.step(1);
    assert_eq!(t.read(0xFF05), 0x42);
    assert!(t.interrupt_request);
    assert!(!t.overflow_pending);
}

#[test]
fn timer_tac_change_glitch_increments() {
    let mut t = Timer::new();
    t.write(0xFF07, 0x05);
    t.div_counter = 0x0008;
    // disabling while the selected bit is high counts one edge
    t.write(0xFF07, 0x00);
    assert_eq!(t.read(0xFF05), 1);
}

#[test]
fn oam_dma_copies_after_delay() {
    let mut d = OamDma::new();
    assert_eq!(d.step(), None);
    d.start(0xC1);
    assert_eq!(d.source, 0xC100);
    assert_eq!(d.step(), None);
    assert_eq!(d.step(), None);
    assert_eq!(d.step(), Some((0xC100, 0)));
    assert_eq!(d.step(), Some((0xC101, 1)));
    let mut last = None;
    for _ in 2..160 {
        last = d.step();
    }
    assert_eq!(last, Some((0xC19F, 159)));
    assert!(!d.active);
    assert_eq!(d.step(), None);
}

#[test]
fn hdma_registers_and_chunks() {
    let mut h = Hdma::new();
    assert_eq!(h.read_status(), 0xFF);
    h.write(0xFF51, 0x12);
    h.write(0xFF52, 0x34);
    assert_eq!(h.src, 0x1230);
    h.write(0xFF53, 0x85);
    h.write(0xFF54, 0x6F);
    assert_eq!(h.dst, 0x8560);
    h.write(0xFF55, 0x81);
    assert_eq!(h.mode, HdmaMode::HDMA);
    assert_eq!(h.length, 32);
    assert_eq!(h.read_status(), 1);
    assert_eq!(h.transfer_chunk(), (Some((0x1230, 0x8560, 16)), true));
    assert_eq!(h.read_status(), 0);
    assert_eq!(h.transfer_chunk(), (Some((0x1240, 0x8570, 16)), false));
    assert!(!h.active);
    assert_eq!(h.read_status(), 0xFF);
    assert_eq!(h.transfer_chunk(), (None, false));
}

#[test]
fn hdma_general_purpose_mode() {
    let mut h = Hdma::new();
    h.write(0xFF55, 0x7F);
    assert_eq!(h.mode, HdmaMode::GDMA);
    assert_eq!(h.length, 0x800);
    assert_eq!(h.read_status(), 0x7F);
}

#[test]
fn hdma_source_wraps_at_top_of_memory() {
    let mut h = Hdma::new();
    h.write(0xFF51, 0xFF);
    h.write(0xFF52, 0xF0);
    h.write(0xFF55, 0x01);
    assert_eq!(h.transfer_chunk(), (Some((0xFFF0, 0x8000, 16)), true));
    assert_eq!(h.src, 0x0000);
}

#[test]
fn timer_disabled_keeps_tima() {
    let mut t = Timer::new();
    t.write(0xFF05, 0x42);
    t.write(0xFF07, 0x01);
    t.step(200);
    t.step(200);
    assert_eq!(t.read(0xFF05), 0x42);
    assert_eq!(t.div_counter, 0xABCC + 400);
}

#[test]
fn hdma_unaligned_state_still_steps() {
    // a state no register write produces: 20 bytes left, odd addresses
    let mut h = Hdma::new();
    h.src = 0x1001;
    h.dst = 0x8003;
    h.bytes_remaining = 20;
    h.active = true;
    assert_eq!(h.read_status(), 0);
    assert_eq!(h.transfer_chunk(), (Some((0x1001, 0x8003, 16)), true));
    assert_eq!(h.transfer_chunk(), (Some((0x1011, 0x8013, 4)), false));
    assert!(!h.active);
}

#[test]
fn timer_div_write_is_a_falling_edge() {
    let mut t = Timer::new();
    t.write(0xFF04, 0);
    t.write(0xFF07, 0x05);
    t.step(8);
    assert_eq!(t.div_counter, 8);
    assert_eq!(t.read(0xFF05), 0);
    t.write(0xFF04, 0x12);
    assert_eq!(t.read(0xFF04), 0);
    assert_eq!(t.read(0xFF05), 1);
    // with the selected bit low, resetting DIV does not tick TIMA
    t.step(4);
    t.write(0xFF04, 0);
    assert_eq!(t.read(0xFF05), 1);
}
