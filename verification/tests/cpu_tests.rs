use chip8::cpu::{Delay, Registers, CPU};
use chip8::keys::KeyPad;
use chip8::memory::Memory;
use chip8::opcode::Opcode;
use chip8::screen::Screen;

fn cpu_with(values: &[(usize, u8)]) -> CPU {
    let mut cpu = CPU::new();
    for (i, v) in values {
        cpu.registers.v[*i] = *v;
    }
    cpu
}

#[test]
fn new_cpu_starts_at_the_program_base() {
    let cpu = CPU::new();
    assert_eq!(cpu.pc, 0x200);
    assert_eq!(cpu.i, 0);
    assert!(cpu.stack.is_empty());
    assert_eq!(cpu.registers.v, [0u8; 16]);
    assert_eq!(cpu.registers.r, [0u8; 8]);
    assert_eq!(cpu.delay.get_sound(), 0);
    assert_eq!(cpu.delay.get_timer(), 0);
}

#[test]
fn reset_restores_the_initial_state() {
    let mut cpu = cpu_with(&[(3, 9)]);
    cpu.pc = 0x300;
    cpu.i = 5;
    cpu.stack.push(0x222);
    cpu.delay.set_sound(4);
    cpu.delay.set_timer(5);
    cpu.registers.r[2] = 1;
    cpu.reset();
    assert_eq!(cpu.pc, 0x200);
    assert_eq!(cpu.i, 0);
    assert!(cpu.stack.is_empty());
    assert_eq!(cpu.registers.v, [0u8; 16]);
    assert_eq!(cpu.registers.r, [0u8; 8]);
    assert_eq!(cpu.delay.get_sound(), 0);
    assert_eq!(cpu.delay.get_timer(), 0);
}

#[test]
fn delay_counts_down_to_zero_and_stays() {
    let mut d = Delay::new();
    d.set_sound(2);
    d.set_timer(1);
    d.update();
    assert_eq!((d.get_sound(), d.get_timer()), (1, 0));
    d.update();
    assert_eq!((d.get_sound(), d.get_timer()), (0, 0));
    d.update();
    assert_eq!((d.get_sound(), d.get_timer()), (0, 0));
    d.set_timer(9);
    d.reset();
    assert_eq!((d.get_sound(), d.get_timer()), (0, 0));
}

#[test]
fn registers_reset_to_zero() {
    let mut r = Registers::new();
    r.v[15] = 1;
    r.r[7] = 2;
    r.reset();
    assert_eq!(r.v, [0u8; 16]);
    assert_eq!(r.r, [0u8; 8]);
}

#[test]
fn fetch_reads_high_byte_first() {
    let mut m = Memory::new();
    m.load(&[0x12, 0x34]);
    let cpu = CPU::new();
    assert_eq!(cpu.fetch(&m), 0x1234);
}

#[test]
fn call_and_return() {
    let mut cpu = CPU::new();
    cpu.call(&Opcode::new(0x2abc));
    assert_eq!(cpu.pc, 0xabc);
    assert_eq!(cpu.stack, vec![0x202]);
    cpu.ret();
    assert_eq!(cpu.pc, 0x202);
    assert!(cpu.stack.is_empty());
}

#[test]
fn jump_sets_the_counter() {
    let mut cpu = CPU::new();
    cpu.jump(&Opcode::new(0x1206));
    assert_eq!(cpu.pc, 0x206);
    cpu.registers.v[0] = 0x10;
    cpu.jump_v0(&Opcode::new(0xb300));
    assert_eq!(cpu.pc, 0x310);
}

#[test]
fn skips_move_by_four_or_two() {
    let mut cpu = cpu_with(&[(1, 0x22), (2, 0x22), (3, 0x23)]);
    cpu.if_eq(&Opcode::new(0x3122));
    assert_eq!(cpu.pc, 0x204);
    cpu.if_eq(&Opcode::new(0x3123));
    assert_eq!(cpu.pc, 0x206);
    cpu.if_not_eq(&Opcode::new(0x4123));
    assert_eq!(cpu.pc, 0x20a);
    cpu.if_not_eq(&Opcode::new(0x4122));
    assert_eq!(cpu.pc, 0x20c);
    cpu.if_eq_reg(&Opcode::new(0x5120));
    assert_eq!(cpu.pc, 0x210);
    cpu.if_eq_reg(&Opcode::new(0x5130));
    assert_eq!(cpu.pc, 0x212);
    cpu.if_not_eq_reg(&Opcode::new(0x9130));
    assert_eq!(cpu.pc, 0x216);
    cpu.if_not_eq_reg(&Opcode::new(0x9120));
    assert_eq!(cpu.pc, 0x218);
}

#[test]
fn counter_wraps_at_sixteen_bits() {
    let mut cpu = CPU::new();
    cpu.pc = 0xffff;
    cpu.set(&Opcode::new(0x6001));
    assert_eq!(cpu.pc, 1);
}

#[test]
fn set_and_add_immediate() {
    let mut cpu = CPU::new();
    cpu.set(&Opcode::new(0x63fe));
    assert_eq!(cpu.registers.v[3], 0xfe);
    assert_eq!(cpu.pc, 0x202);
    cpu.add(&Opcode::new(0x7303));
    assert_eq!(cpu.registers.v[3], 0x01);
    assert_eq!(cpu.registers.v[15], 0);
    assert_eq!(cpu.pc, 0x204);
}

#[test]
fn assign_and_bit_operations() {
    let mut cpu = cpu_with(&[(0, 0b1100), (1, 0b1010)]);
    cpu.bit_or(&Opcode::new(0x8011));
    assert_eq!(cpu.registers.v[0], 0b1110);
    cpu.registers.v[0] = 0b1100;
    cpu.bit_and(&Opcode::new(0x8012));
    assert_eq!(cpu.registers.v[0], 0b1000);
    cpu.registers.v[0] = 0b1100;
    cpu.bit_xor(&Opcode::new(0x8013));
    assert_eq!(cpu.registers.v[0], 0b0110);
    cpu.assign(&Opcode::new(0x8010));
    assert_eq!(cpu.registers.v[0], 0b1010);
    assert_eq!(cpu.pc, 0x208);
}

#[test]
fn add_with_carry() {
    let mut cpu = cpu_with(&[(0, 0xff), (1, 0x02)]);
    cpu.add_reg(&Opcode::new(0x8014));
    assert_eq!(cpu.registers.v[0], 0x01);
    assert_eq!(cpu.registers.v[15], 1);
    assert_eq!(cpu.pc, 0x202);
}

#[test]
fn add_without_carry() {
    let mut cpu = cpu_with(&[(0, 0x10), (1, 0x02), (15, 1)]);
    cpu.add_reg(&Opcode::new(0x8014));
    assert_eq!(cpu.registers.v[0], 0x12);
    assert_eq!(cpu.registers.v[15], 0);
}

#[test]
fn subtract_sets_the_flag_when_larger() {
    let mut cpu = cpu_with(&[(0, 5), (1, 3)]);
    cpu.sub_reg(&Opcode::new(0x8015));
    assert_eq!(cpu.registers.v[0], 2);
    assert_eq!(cpu.registers.v[15], 1);
    let mut cpu = cpu_with(&[(0, 3), (1, 5)]);
    cpu.sub_reg(&Opcode::new(0x8015));
    assert_eq!(cpu.registers.v[0], 0xfe);
    assert_eq!(cpu.registers.v[15], 0);
    let mut cpu = cpu_with(&[(0, 3), (1, 3)]);
    cpu.sub_reg(&Opcode::new(0x8015));
    assert_eq!(cpu.registers.v[0], 0);
    assert_eq!(cpu.registers.v[15], 0);
}

#[test]
fn reverse_subtract() {
    let mut cpu = cpu_with(&[(0, 3), (1, 5)]);
    cpu.sub_copy(&Opcode::new(0x8017));
    assert_eq!(cpu.registers.v[0], 2);
    assert_eq!(cpu.registers.v[15], 1);
    let mut cpu = cpu_with(&[(0, 5), (1, 3)]);
    cpu.sub_copy(&Opcode::new(0x8017));
    assert_eq!(cpu.registers.v[0], 0xfe);
    assert_eq!(cpu.registers.v[15], 0);
}

#[test]
fn shifts() {
    let mut cpu = cpu_with(&[(2, 0b1000_0101)]);
    cpu.shift_right(&Opcode::new(0x8206));
    assert_eq!(cpu.registers.v[2], 0b0100_0010);
    assert_eq!(cpu.registers.v[15], 1);
    let mut cpu = cpu_with(&[(2, 0b1000_0101)]);
    cpu.shift_left(&Opcode::new(0x820e));
    assert_eq!(cpu.registers.v[2], 0b0000_1010);
    assert_eq!(cpu.registers.v[15], 1);
    let mut cpu = cpu_with(&[(2, 0b0100_0100)]);
    cpu.shift_left(&Opcode::new(0x820e));
    assert_eq!(cpu.registers.v[2], 0b1000_1000);
    assert_eq!(cpu.registers.v[15], 0);
}

#[test]
fn index_register_operations() {
    let mut cpu = cpu_with(&[(1, 0x0a)]);
    cpu.set_i(&Opcode::new(0xa123));
    assert_eq!(cpu.i, 0x123);
    cpu.add_i(&Opcode::new(0xf11e));
    assert_eq!(cpu.i, 0x12d);
    cpu.get_font(&Opcode::new(0xf129));
    assert_eq!(cpu.i, 50);
    cpu.get_font16(&Opcode::new(0xf130));
    assert_eq!(cpu.i, 180);
    cpu.i = 0xffff;
    cpu.add_i(&Opcode::new(0xf11e));
    assert_eq!(cpu.i, 9);
    assert_eq!(cpu.pc, 0x20a);
}

#[test]
fn random_with_a_given_number() {
    let mut cpu = CPU::new();
    cpu.and_rand_with(&Opcode::new(0xc1f0), 0x20);
    assert_eq!(cpu.registers.v[1], 0x10);
    assert_eq!(cpu.pc, 0x202);
}

#[test]
fn random_moves_on_and_touches_only_vx() {
    for _ in 0..50 {
        let mut cpu = cpu_with(&[(2, 7)]);
        cpu.and_rand(&Opcode::new(0xc100));
        assert_eq!(cpu.pc, 0x202);
        assert_eq!(cpu.registers.v[2], 7);
        assert_eq!(cpu.registers.v[15], 0);
    }
}

#[test]
fn random_draws_different_numbers() {
    let mut seen = [false; 256];
    for _ in 0..400 {
        let mut cpu = CPU::new();
        cpu.and_rand(&Opcode::new(0xc100));
        seen[cpu.registers.v[1] as usize] = true;
    }
    assert!(seen.iter().filter(|s| **s).count() > 1);
}

#[test]
fn timers_through_the_cpu() {
    let mut cpu = cpu_with(&[(1, 3)]);
    cpu.set_delay(&Opcode::new(0xf115));
    cpu.set_sound(&Opcode::new(0xf118));
    assert_eq!(cpu.delay.get_timer(), 3);
    assert_eq!(cpu.delay.get_sound(), 3);
    assert!(!cpu.update());
    assert!(!cpu.update());
    assert!(cpu.update());
    assert!(!cpu.update());
    assert_eq!(cpu.delay.get_sound(), 0);
    cpu.delay.set_timer(9);
    cpu.get_delay(&Opcode::new(0xf207));
    assert_eq!(cpu.registers.v[2], 9);
    assert_eq!(cpu.pc, 0x206);
}

#[test]
fn bcd_stores_three_digits() {
    let mut cpu = cpu_with(&[(4, 194)]);
    let mut m = Memory::new();
    cpu.i = 0x300;
    cpu.bcd(&Opcode::new(0xf433), &mut m);
    assert_eq!((m.get(0x300), m.get(0x301), m.get(0x302)), (1, 9, 4));
    assert_eq!(cpu.i, 0x300);
    assert_eq!(cpu.pc, 0x202);
}

#[test]
fn register_dump_and_load_copy_v0_through_vx() {
    let mut cpu = cpu_with(&[(0, 1), (1, 2), (2, 3), (3, 4), (4, 5)]);
    let mut m = Memory::new();
    cpu.i = 0x400;
    cpu.reg_dump(&Opcode::new(0xf355), &mut m);
    assert_eq!(
        (m.get(0x400), m.get(0x401), m.get(0x402), m.get(0x403), m.get(0x404)),
        (1, 2, 3, 4, 0)
    );
    assert_eq!(cpu.i, 0x404);
    assert_eq!(cpu.pc, 0x202);
    assert_eq!(&cpu.registers.v[0..5], &[1, 2, 3, 4, 5]);
    let mut other = CPU::new();
    other.i = 0x400;
    other.registers.v[4] = 9;
    other.reg_load(&Opcode::new(0xf365), &m);
    assert_eq!(&other.registers.v[0..5], &[1, 2, 3, 4, 9]);
    assert_eq!(other.i, 0x404);
    assert_eq!(other.pc, 0x202);
}

#[test]
fn register_dump_and_load_with_x_zero_copy_v0() {
    let mut cpu = cpu_with(&[(0, 7), (1, 8)]);
    let mut m = Memory::new();
    cpu.i = 4095;
    cpu.reg_dump(&Opcode::new(0xf055), &mut m);
    assert_eq!(m.get(4095), 7);
    assert_eq!(m.get(4094), 0);
    assert_eq!(cpu.i, 4096);
    let mut other = CPU::new();
    other.i = 4095;
    other.reg_load(&Opcode::new(0xf065), &m);
    assert_eq!(&other.registers.v[0..2], &[7, 0]);
    assert_eq!(other.i, 4096);
}

#[test]
fn register_dump_of_all_sixteen() {
    let values: Vec<(usize, u8)> = (0..16).map(|k| (k, 100 + k as u8)).collect();
    let mut cpu = cpu_with(&values);
    let mut m = Memory::new();
    cpu.i = 0x500;
    cpu.reg_dump(&Opcode::new(0xff55), &mut m);
    for k in 0..16 {
        assert_eq!(m.get(0x500 + k), 100 + k as u8);
    }
    assert_eq!(m.get(0x510), 0);
    assert_eq!(cpu.i, 0x510);
}

#[test]
fn key_skips() {
    let mut keys = KeyPad::new();
    keys.keys[5] = true;
    let mut cpu = cpu_with(&[(1, 5), (2, 6)]);
    cpu.if_key(&Opcode::new(0xe19e), &keys);
    assert_eq!(cpu.pc, 0x204);
    cpu.if_key(&Opcode::new(0xe29e), &keys);
    assert_eq!(cpu.pc, 0x206);
    cpu.if_not_key(&Opcode::new(0xe2a1), &keys);
    assert_eq!(cpu.pc, 0x20a);
    cpu.if_not_key(&Opcode::new(0xe1a1), &keys);
    assert_eq!(cpu.pc, 0x20c);
}

#[test]
fn wait_key_holds_the_counter_until_a_key_is_held() {
    let mut keys = KeyPad::new();
    let mut cpu = CPU::new();
    let op = Opcode::new(0xf30a);
    for _ in 0..5 {
        cpu.wait_key(&op, &mut keys);
        assert_eq!(cpu.pc, 0x200);
        assert_eq!(cpu.registers.v[3], 0);
    }
    keys.keys[9] = true;
    cpu.wait_key(&op, &mut keys);
    assert_eq!(cpu.pc, 0x202);
    assert_eq!(cpu.registers.v[3], 9);
    assert!(!keys.get(9));
}

#[test]
fn wait_key_takes_the_highest_held_key_and_leaves_the_others() {
    let mut keys = KeyPad::new();
    keys.keys[2] = true;
    keys.keys[11] = true;
    let mut cpu = CPU::new();
    cpu.wait_key(&Opcode::new(0xf00a), &mut keys);
    assert_eq!(cpu.registers.v[0], 11);
    assert_eq!(cpu.pc, 0x202);
    assert!(keys.get(2));
    assert!(!keys.get(11));
}

#[test]
fn draw_reads_the_sprite_at_i_and_sets_the_flag() {
    let mut m = Memory::new();
    m.clear();
    let mut screen = Screen::new(1, 1);
    let mut cpu = cpu_with(&[(1, 4), (2, 6)]);
    cpu.i = 0;
    let op = Opcode::new(0xd125);
    cpu.draw(&op, &mut screen, &m);
    assert_eq!(cpu.registers.v[15], 0);
    assert_eq!(cpu.pc, 0x202);
    assert!(screen.get(4, 6));
    assert!(screen.get(7, 6));
    assert!(screen.get(4, 7));
    assert!(!screen.get(5, 7));
    cpu.draw(&op, &mut screen, &m);
    assert_eq!(cpu.registers.v[15], 1);
    assert!(!screen.get(4, 6));
    assert_eq!(cpu.pc, 0x204);
}

#[test]
fn clear_screen_blanks_and_moves_on() {
    let mut screen = Screen::new(1, 1);
    screen.set(1, 1);
    let mut cpu = CPU::new();
    cpu.clear_screen(&mut screen);
    assert!(!screen.get(1, 1));
    assert_eq!(cpu.pc, 0x202);
}

#[test]
fn invalid_reports_the_word_in_hex() {
    let cpu = CPU::new();
    assert_eq!(cpu.invalid(&Opcode::new(0xf0ff)), "unknown or invalid command: Opcode :F0FF");
    assert_eq!(cpu.invalid(&Opcode::new(0)), "unknown or invalid command: Opcode :");
}
