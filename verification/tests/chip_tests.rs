use chip8::chip::Chip;
use chip8::screen::Screen;

fn machine(program: &[u8]) -> Chip {
    let mut chip = Chip::new(Screen::new(800, 480));
    chip.reset();
    chip.load(program);
    chip
}

#[test]
fn new_machine_is_not_loaded() {
    let chip = Chip::new(Screen::new(800, 480));
    assert!(!chip.is_loaded());
    assert_eq!(chip.cpu.pc, 0x200);
}

#[test]
fn load_marks_the_machine_as_loaded() {
    let chip = machine(&[0x00, 0xe0]);
    assert!(chip.is_loaded());
    assert_eq!(chip.memory.get(0x200), 0x00);
    assert_eq!(chip.memory.get(0x201), 0xe0);
    assert_eq!(chip.memory.get(0), 0xF0);
}

#[test]
fn reset_unloads_and_reseeds() {
    let mut chip = machine(&[0x60, 0x05]);
    assert!(chip.can_run());
    chip.run();
    chip.keys.keys[1] = true;
    chip.screen.set(3, 3);
    chip.reset();
    assert!(!chip.is_loaded());
    assert_eq!(chip.cpu.pc, 0x200);
    assert_eq!(chip.cpu.registers.v[0], 0);
    assert_eq!(chip.memory.get(0x200), 0);
    assert_eq!(chip.memory.get(0), 0xF0);
    assert!(!chip.keys.get(1));
    assert!(!chip.screen.get(3, 3));
}

#[test]
fn runs_a_small_program() {
    let mut chip = machine(&[0x60, 0xff, 0x61, 0x02, 0x80, 0x14, 0x12, 0x00]);
    for _ in 0..3 {
        assert!(chip.can_run());
        let outcome = chip.run();
        assert!(outcome.ok);
        assert!(!outcome.beep);
    }
    assert_eq!(chip.cpu.registers.v[0], 0x01);
    assert_eq!(chip.cpu.registers.v[1], 0x02);
    assert_eq!(chip.cpu.registers.v[15], 1);
    assert_eq!(chip.cpu.pc, 0x206);
    let outcome = chip.run();
    assert!(outcome.ok);
    assert_eq!(outcome.opcode.code, 0x1200);
    assert_eq!(chip.cpu.pc, 0x200);
}

#[test]
fn an_unknown_word_stops_the_run_and_changes_nothing() {
    let mut chip = machine(&[0x80, 0x18]);
    chip.cpu.delay.set_timer(5);
    assert!(chip.can_run());
    let outcome = chip.run();
    assert!(!outcome.ok);
    assert!(!outcome.beep);
    assert_eq!(outcome.opcode.code, 0x8018);
    assert_eq!(chip.cpu.pc, 0x200);
    assert_eq!(chip.cpu.delay.get_timer(), 5);
}

#[test]
fn unknown_words_of_each_family() {
    for word in [[0x00u8, 0x00], [0xe1, 0x00], [0xf1, 0xff], [0xf1, 0x30], [0x81, 0x2f]] {
        let mut chip = machine(&word);
        assert!(chip.can_run());
        assert!(!chip.run().ok);
    }
}

#[test]
fn every_run_ticks_the_timers_once() {
    let mut chip = machine(&[0x60, 0x02, 0xf0, 0x18, 0x60, 0x00, 0x60, 0x00]);
    assert!(!chip.run().beep);
    assert!(!chip.run().beep);
    assert_eq!(chip.cpu.delay.get_sound(), 1);
    assert!(chip.run().beep);
    assert_eq!(chip.cpu.delay.get_sound(), 0);
    assert!(!chip.run().beep);
}

#[test]
fn a_return_without_a_call_cannot_run() {
    let chip = machine(&[0x00, 0xee]);
    assert!(!chip.can_run());
}

#[test]
fn a_counter_at_the_end_of_memory_cannot_run() {
    let mut chip = machine(&[0x00, 0xe0]);
    chip.cpu.pc = 4095;
    assert!(!chip.can_run());
    chip.cpu.pc = 4094;
    assert!(chip.can_run());
}

#[test]
fn transfers_past_the_end_of_memory_cannot_run() {
    let mut chip = machine(&[0xf2, 0x33]);
    chip.cpu.i = 4094;
    assert!(!chip.can_run());
    chip.cpu.i = 4093;
    assert!(chip.can_run());
    let mut chip = machine(&[0xd0, 0x05]);
    chip.cpu.i = 4092;
    assert!(!chip.can_run());
    chip.cpu.i = 4091;
    assert!(chip.can_run());
    let mut chip = machine(&[0xf3, 0x55]);
    chip.cpu.i = 4093;
    assert!(!chip.can_run());
    chip.cpu.i = 4092;
    assert!(chip.can_run());
    let mut chip = machine(&[0xf0, 0x65]);
    chip.cpu.i = 4096;
    assert!(!chip.can_run());
    chip.cpu.i = 4095;
    assert!(chip.can_run());
    let mut chip = machine(&[0xe0, 0x9e]);
    chip.cpu.registers.v[0] = 16;
    assert!(!chip.can_run());
}

#[test]
fn key_wait_through_the_machine() {
    let mut chip = machine(&[0xf3, 0x0a]);
    for _ in 0..4 {
        assert!(chip.run().ok);
        assert_eq!(chip.cpu.pc, 0x200);
    }
    chip.keys.keys[7] = true;
    assert!(chip.run().ok);
    assert_eq!(chip.cpu.pc, 0x202);
    assert_eq!(chip.cpu.registers.v[3], 7);
    assert!(!chip.keys.get(7));
}

#[test]
fn draw_through_the_machine() {
    let mut chip = machine(&[0xa0, 0x00, 0xd0, 0x05, 0xd0, 0x05]);
    assert!(chip.run().ok);
    assert!(chip.run().ok);
    assert_eq!(chip.cpu.registers.v[15], 0);
    assert!(chip.screen.get(0, 0));
    assert!(chip.run().ok);
    assert_eq!(chip.cpu.registers.v[15], 1);
    assert!(!chip.screen.get(0, 0));
}

#[test]
fn run_with_uses_the_given_number() {
    let mut chip = machine(&[0xc1, 0x01]);
    let outcome = chip.run_with(0xff);
    assert!(outcome.ok);
    assert_eq!(chip.cpu.registers.v[1], 0);
    assert_eq!(chip.cpu.pc, 0x202);
}

#[test]
fn call_and_return_through_the_machine() {
    let mut chip = machine(&[0x22, 0x04, 0x00, 0x00, 0x00, 0xee]);
    assert!(chip.run().ok);
    assert_eq!(chip.cpu.pc, 0x204);
    assert!(chip.can_run());
    assert!(chip.run().ok);
    assert_eq!(chip.cpu.pc, 0x202);
}

#[test]
fn step_runs_what_can_run_and_refuses_the_rest() {
    let mut chip = machine(&[0x60, 0x07, 0x00, 0xee]);
    let outcome = chip.step().unwrap();
    assert!(outcome.ok);
    assert_eq!(chip.cpu.registers.v[0], 7);
    assert_eq!(chip.cpu.pc, 0x202);
    assert!(chip.step().is_none());
    assert_eq!(chip.cpu.pc, 0x202);
}
