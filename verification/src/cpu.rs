//! The register machine: registers, index register, program counter, call
//! stack and timers, with one operation per instruction.
use vstd::prelude::*;
use vstd::string::*;
use rand::Rng;
use crate::keys::KeyPad;
use crate::memory::Memory;
use crate::opcode::{Opcode, field_x, field_y, field_n, field_kk, field_nnn};
use crate::screen::{Screen, Grid, drawn, collision_flag, blank};
use crate::text::hex_digits;

verus! {

/// The two countdown timers.
pub struct Delay {
    pub sound: u8,
    pub timer: u8,
}

impl Delay {
    pub fn new() -> (out: Self)
        ensures
            out.sound == 0,
            out.timer == 0,
    {
        Delay { sound: 0, timer: 0 }
    }

    /// Counts both timers down by one; a timer at zero stays at zero.
    pub fn update(&mut self)
        ensures
            final(self).sound == (if old(self).sound > 0 { old(self).sound - 1 } else { 0 }),
            final(self).timer == (if old(self).timer > 0 { old(self).timer - 1 } else { 0 }),
    {
        if self.sound > 0 {
            self.sound -= 1;
        }
        if self.timer > 0 {
            self.timer -= 1;
        }
    }

    pub fn reset(&mut self)
        ensures
            final(self).sound == 0,
            final(self).timer == 0,
    {
        self.sound = 0;
        self.timer = 0;
    }

    pub fn set_sound(&mut self, sound: u8)
        ensures
            final(self).sound == sound,
            final(self).timer == old(self).timer,
    {
        self.sound = sound;
    }

    pub fn set_timer(&mut self, timer: u8)
        ensures
            final(self).timer == timer,
            final(self).sound == old(self).sound,
    {
        self.timer = timer;
    }

    pub fn get_sound(&self) -> (out: u8)
        ensures
            out == self.sound,
    {
        self.sound
    }

    pub fn get_timer(&self) -> (out: u8)
        ensures
            out == self.timer,
    {
        self.timer
    }
}

/// The sixteen general registers `V0` to `VF` and eight user flags.
pub struct Registers {
    pub v: [u8; 16],
    pub r: [u8; 8],
}

impl Registers {
    pub fn new() -> (out: Self)
        ensures
            out.v@ == Seq::new(16, |i: int| 0u8),
            out.r@ == Seq::new(8, |i: int| 0u8),
    {
        let out = Registers { v: [0; 16], r: [0; 8] };
        assert(out.v@ =~= Seq::new(16, |i: int| 0u8));
        assert(out.r@ =~= Seq::new(8, |i: int| 0u8));
        out
    }

    pub fn reset(&mut self)
        ensures
            final(self).v@ == Seq::new(16, |i: int| 0u8),
            final(self).r@ == Seq::new(8, |i: int| 0u8),
    {
        let mut i: usize = 0;
        while i < 16
            invariant
                i <= 16,
                forall|j: int| 0 <= j < i ==> #[trigger] self.v@[j] == 0,
            decreases 16 - i,
        {
            self.v[i] = 0;
            i += 1;
        }
        let mut k: usize = 0;
        while k < 8
            invariant
                k <= 8,
                forall|j: int| 0 <= j < 16 ==> #[trigger] self.v@[j] == 0,
                forall|j: int| 0 <= j < k ==> #[trigger] self.r@[j] == 0,
            decreases 8 - k,
        {
            self.r[k] = 0;
            k += 1;
        }
        assert(self.v@ =~= Seq::new(16, |i: int| 0u8));
        assert(self.r@ =~= Seq::new(8, |i: int| 0u8));
    }
}

/// The state of the register machine as plain values.
pub struct Machine {
    pub v: Seq<u8>,
    pub r: Seq<u8>,
    pub i: u16,
    pub pc: u16,
    pub stack: Seq<u16>,
    pub sound: u8,
    pub timer: u8,
}

/// `a + b` reduced to sixteen bits.
pub open spec fn wrap16(a: int, b: int) -> u16 {
    ((a + b) % 0x10000) as u16
}

/// `a + b` reduced to eight bits.
pub open spec fn wrap8(a: int, b: int) -> u8 {
    ((a + b) % 0x100) as u8
}

/// `1` for true, `0` for false.
pub open spec fn flag(b: bool) -> u8 {
    if b { 1u8 } else { 0u8 }
}

impl Machine {
    /// The state right after a reset.
    pub open spec fn initial() -> Machine {
        Machine {
            v: Seq::new(16, |i: int| 0u8),
            r: Seq::new(8, |i: int| 0u8),
            i: 0,
            pc: 0x200,
            stack: Seq::empty(),
            sound: 0,
            timer: 0,
        }
    }

    /// Sixteen registers and eight user flags.
    pub open spec fn well_formed(self) -> bool {
        self.v.len() == 16 && self.r.len() == 8
    }

    /// The program counter moved on by `n`.
    pub open spec fn advance(self, n: int) -> Machine {
        Machine { pc: wrap16(self.pc as int, n), ..self }
    }

    /// The next instruction, or the one after it when `cond` holds.
    pub open spec fn skip_if(self, cond: bool) -> Machine {
        self.advance(if cond { 4 } else { 2 })
    }

    /// Register `x` set to `value`.
    pub open spec fn with_v(self, x: int, value: u8) -> Machine {
        Machine { v: self.v.update(x, value), ..self }
    }

    pub open spec fn vx(self, code: u16) -> u8 {
        self.v[field_x(code) as int]
    }

    pub open spec fn vy(self, code: u16) -> u8 {
        self.v[field_y(code) as int]
    }

    pub open spec fn call(self, code: u16) -> Machine {
        Machine { stack: self.stack.push(wrap16(self.pc as int, 2)), pc: field_nnn(code), ..self }
    }

    pub open spec fn ret(self) -> Machine {
        Machine { pc: self.stack.last(), stack: self.stack.drop_last(), ..self }
    }

    pub open spec fn jump(self, code: u16) -> Machine {
        Machine { pc: field_nnn(code), ..self }
    }

    pub open spec fn if_eq(self, code: u16) -> Machine {
        self.skip_if(self.vx(code) == field_kk(code))
    }

    pub open spec fn if_not_eq(self, code: u16) -> Machine {
        self.skip_if(self.vx(code) != field_kk(code))
    }

    pub open spec fn if_eq_reg(self, code: u16) -> Machine {
        self.skip_if(self.vx(code) == self.vy(code))
    }

    pub open spec fn if_not_eq_reg(self, code: u16) -> Machine {
        self.skip_if(self.vx(code) != self.vy(code))
    }

    pub open spec fn set(self, code: u16) -> Machine {
        self.with_v(field_x(code) as int, field_kk(code) as u8).advance(2)
    }

    pub open spec fn add(self, code: u16) -> Machine {
        self.with_v(field_x(code) as int, wrap8(self.vx(code) as int, field_kk(code) as int)).advance(2)
    }

    pub open spec fn assign(self, code: u16) -> Machine {
        self.with_v(field_x(code) as int, self.vy(code)).advance(2)
    }

    pub open spec fn bit_or(self, code: u16) -> Machine {
        self.with_v(field_x(code) as int, self.vx(code) | self.vy(code)).advance(2)
    }

    pub open spec fn bit_and(self, code: u16) -> Machine {
        self.with_v(field_x(code) as int, self.vx(code) & self.vy(code)).advance(2)
    }

    pub open spec fn bit_xor(self, code: u16) -> Machine {
        self.with_v(field_x(code) as int, self.vx(code) ^ self.vy(code)).advance(2)
    }

    /// The carry goes to `VF` first, the sum to `Vx` after it.
    pub open spec fn add_reg(self, code: u16) -> Machine {
        let sum = self.vx(code) + self.vy(code);
        self.with_v(15, (sum / 256) as u8).with_v(field_x(code) as int, (sum % 256) as u8).advance(2)
    }

    /// `VF` is written first; the difference is taken from the registers as
    /// they are after that.
    pub open spec fn sub_reg(self, code: u16) -> Machine {
        let flagged = self.with_v(15, flag(self.vx(code) > self.vy(code)));
        flagged.with_v(
            field_x(code) as int,
            wrap8(flagged.vx(code) as int, 256 - flagged.vy(code)),
        ).advance(2)
    }

    pub open spec fn shift_right(self, code: u16) -> Machine {
        let flagged = self.with_v(15, self.vx(code) % 2);
        flagged.with_v(field_x(code) as int, flagged.vx(code) / 2).advance(2)
    }

    pub open spec fn sub_copy(self, code: u16) -> Machine {
        let flagged = self.with_v(15, flag(self.vy(code) > self.vx(code)));
        flagged.with_v(
            field_x(code) as int,
            wrap8(flagged.vy(code) as int, 256 - flagged.vx(code)),
        ).advance(2)
    }

    pub open spec fn shift_left(self, code: u16) -> Machine {
        let flagged = self.with_v(15, self.vx(code) / 128);
        flagged.with_v(field_x(code) as int, wrap8(flagged.vx(code) as int, flagged.vx(code) as int)).advance(2)
    }

    pub open spec fn set_i(self, code: u16) -> Machine {
        Machine { i: field_nnn(code), ..self }.advance(2)
    }

    pub open spec fn jump_v0(self, code: u16) -> Machine {
        Machine { pc: (field_nnn(code) + self.v[0]) as u16, ..self }
    }

    /// `Vx` becomes the low byte plus the drawn number, reduced to eight bits.
    pub open spec fn and_rand(self, code: u16, random: u16) -> Machine {
        self.with_v(field_x(code) as int, wrap8(field_kk(code) as int, random as int)).advance(2)
    }

    pub open spec fn get_delay(self, code: u16) -> Machine {
        self.with_v(field_x(code) as int, self.timer).advance(2)
    }

    pub open spec fn set_delay(self, code: u16) -> Machine {
        Machine { timer: self.vx(code), ..self }.advance(2)
    }

    pub open spec fn set_sound(self, code: u16) -> Machine {
        Machine { sound: self.vx(code), ..self }.advance(2)
    }

    pub open spec fn add_i(self, code: u16) -> Machine {
        Machine { i: wrap16(self.i as int, self.vx(code) as int), ..self }.advance(2)
    }

    pub open spec fn get_font(self, code: u16) -> Machine {
        Machine { i: (self.vx(code) * 5) as u16, ..self }.advance(2)
    }

    pub open spec fn get_font16(self, code: u16) -> Machine {
        Machine { i: (self.vx(code) * 10 + 80) as u16, ..self }.advance(2)
    }

    /// Memory after the three decimal digits of `Vx` are stored at `I`.
    pub open spec fn bcd_image(self, code: u16, image: Seq<u8>) -> Seq<u8> {
        let vx = self.vx(code);
        image.update(self.i as int, vx / 100).update(self.i + 1, (vx % 100) / 10).update(
            self.i + 2,
            vx % 10,
        )
    }

    /// Memory after `V0` through `Vx` are stored from `I` on.
    pub open spec fn dump_image(self, code: u16, image: Seq<u8>) -> Seq<u8> {
        Seq::new(
            image.len(),
            |a: int| if self.i <= a <= self.i + field_x(code) { self.v[a - self.i] } else { image[a] },
        )
    }

    /// The index register moved past the `x + 1` bytes copied.
    pub open spec fn after_copy(self, code: u16) -> Machine {
        Machine { i: (self.i + field_x(code) + 1) as u16, ..self }.advance(2)
    }

    /// `V0` through `Vx` read from memory at `I` on.
    pub open spec fn reg_load(self, code: u16, image: Seq<u8>) -> Machine {
        Machine {
            v: Seq::new(16, |k: int| if k <= field_x(code) { image[self.i + k] } else { self.v[k] }),
            ..self
        }.after_copy(code)
    }

    pub open spec fn if_key(self, code: u16, keys: Seq<bool>) -> Machine {
        self.skip_if(keys[self.vx(code) as int])
    }

    pub open spec fn if_not_key(self, code: u16, keys: Seq<bool>) -> Machine {
        self.skip_if(!keys[self.vx(code) as int])
    }

    /// One tick of the timers.
    pub open spec fn tick(self) -> Machine {
        Machine {
            sound: if self.sound > 0 { (self.sound - 1) as u8 } else { 0 },
            timer: if self.timer > 0 { (self.timer - 1) as u8 } else { 0 },
            ..self
        }
    }

    /// With key `key` observed held: its index goes to `Vx` and execution moves on.
    pub open spec fn key_taken(self, code: u16, key: int) -> Machine {
        self.with_v(field_x(code) as int, key as u8).advance(2)
    }

    /// The sprite that a draw instruction reads: `n` bytes from `I` on.
    pub open spec fn sprite(self, code: u16, image: Seq<u8>) -> Seq<u16> {
        Seq::new(field_n(code) as nat, |k: int| image[self.i + k] as u16)
    }

    /// The grid after the draw instruction `code`.
    pub open spec fn draw_grid(self, code: u16, grid: Grid, image: Seq<u8>) -> Grid {
        drawn(grid, self.vx(code) as u16, self.vy(code) as u16, self.sprite(code, image))
    }

    /// The machine after the draw instruction `code`: `VF` holds the collision flag.
    pub open spec fn draw(self, code: u16, grid: Grid, image: Seq<u8>) -> Machine {
        self.with_v(
            15,
            collision_flag(grid, self.vx(code) as u16, self.vy(code) as u16, self.sprite(code, image)),
        ).advance(2)
    }
}

/// The highest key that is held, or -1 when none is.
pub open spec fn held_key(keys: Seq<bool>, upto: int) -> int
    decreases upto,
{
    if upto <= 0 {
        -1
    } else if keys[upto - 1] {
        upto - 1
    } else {
        held_key(keys, upto - 1)
    }
}

/// A number from the thread-local generator of `rand`, drawn with
/// `Rng::gen_range` from the half-open range from 0 to `bound`: any value
/// below `bound` may come back. The range must not be empty.
#[verifier::external_body]
fn random_below(bound: u16) -> (out: u16)
    requires
        bound > 0,
    ensures
        out < bound,
{
    let mut rng = rand::thread_rng();
    rng.gen_range(0..bound)
}

/// The number that the instruction `code` draws: a fresh one for the random
/// instruction, zero for every other, which does not look at it.
pub fn draw_random(code: u16) -> (out: u16)
    ensures
        out < 256,
        code & 0xf000 != 0xc000 ==> out == 0,
{
    if code & 0xf000 == 0xc000 {
        random_below(256)
    } else {
        0
    }
}

fn bump(pc: u16, n: u16) -> (out: u16)
    ensures
        out == wrap16(pc as int, n as int),
{
    ((pc as u32 + n as u32) % 0x10000) as u16
}

fn low8(a: u16, b: u16) -> (out: u8)
    requires
        a <= 512,
        b <= 512,
    ensures
        out == wrap8(a as int, b as int),
{
    ((a + b) % 256) as u8
}

pub struct CPU {
    pub stack: Vec<u16>,
    pub registers: Registers,
    pub i: u16,
    pub pc: u16,
    pub delay: Delay,
}

impl View for CPU {
    type V = Machine;

    open spec fn view(&self) -> Machine {
        Machine {
            v: self.registers.v@,
            r: self.registers.r@,
            i: self.i,
            pc: self.pc,
            stack: self.stack@,
            sound: self.delay.sound,
            timer: self.delay.timer,
        }
    }
}

impl CPU {
    pub fn new() -> (out: Self)
        ensures
            out@ == Machine::initial(),
    {
        let out = CPU { stack: Vec::new(), registers: Registers::new(), i: 0, pc: 0x200, delay: Delay::new() };
        assert(out@ =~= Machine::initial());
        out
    }

    /// Back to the initial state: counter at the program base, everything else zero or empty.
    pub fn reset(&mut self)
        ensures
            final(self)@ == Machine::initial(),
    {
        self.pc = 0x200;
        self.i = 0;
        self.stack.clear();
        self.registers.reset();
        self.delay.reset();
        assert(self@ =~= Machine::initial());
    }

    /// The instruction word at the program counter, high byte first.
    pub fn fetch(&self, memory: &Memory) -> (out: u16)
        requires
            self.pc < 4095,
        ensures
            out == memory@[self.pc as int] * 256 + memory@[self.pc + 1],
    {
        let high: u16 = memory.get(self.pc as usize) as u16;
        let low: u16 = memory.get((self.pc + 1) as usize) as u16;
        high * 256 + low
    }

    pub fn clear_screen(&mut self, screen: &mut Screen)
        ensures
            final(self)@ == old(self)@.advance(2),
            final(screen)@ == blank(),
            final(screen).width == old(screen).width,
            final(screen).height == old(screen).height,
            final(screen).extended == old(screen).extended,
    {
        screen.clear();
        self.pc = bump(self.pc, 2);
        assert(self@ =~= old(self)@.advance(2));
    }

    pub fn call(&mut self, opcode: &Opcode)
        ensures
            final(self)@ == old(self)@.call(opcode.code),
    {
        self.stack.push(bump(self.pc, 2));
        self.pc = opcode.nnn();
        assert(self@ =~= old(self)@.call(opcode.code));
    }

    /// Returns from a subroutine. The call stack must hold a return address.
    pub fn ret(&mut self)
        requires
            old(self).stack@.len() > 0,
        ensures
            final(self)@ == old(self)@.ret(),
    {
        self.pc = self.stack.pop().unwrap();
        assert(self@ =~= old(self)@.ret());
    }

    pub fn jump(&mut self, opcode: &Opcode)
        ensures
            final(self)@ == old(self)@.jump(opcode.code),
    {
        self.pc = opcode.nnn();
        assert(self@ =~= old(self)@.jump(opcode.code));
    }

    pub fn if_eq(&mut self, opcode: &Opcode)
        ensures
            final(self)@ == old(self)@.if_eq(opcode.code),
    {
        let vx: u16 = self.registers.v[opcode.x()] as u16;
        self.pc = bump(self.pc, if vx == opcode.kk() { 4 } else { 2 });
        assert(self@ =~= old(self)@.if_eq(opcode.code));
    }

    pub fn if_not_eq(&mut self, opcode: &Opcode)
        ensures
            final(self)@ == old(self)@.if_not_eq(opcode.code),
    {
        let vx: u16 = self.registers.v[opcode.x()] as u16;
        self.pc = bump(self.pc, if vx != opcode.kk() { 4 } else { 2 });
        assert(self@ =~= old(self)@.if_not_eq(opcode.code));
    }

    pub fn if_eq_reg(&mut self, opcode: &Opcode)
        ensures
            final(self)@ == old(self)@.if_eq_reg(opcode.code),
    {
        let vx: u8 = self.registers.v[opcode.x()];
        let vy: u8 = self.registers.v[opcode.y()];
        self.pc = bump(self.pc, if vx == vy { 4 } else { 2 });
        assert(self@ =~= old(self)@.if_eq_reg(opcode.code));
    }

    pub fn set(&mut self, opcode: &Opcode)
        ensures
            final(self)@ == old(self)@.set(opcode.code),
    {
        self.registers.v[opcode.x()] = opcode.kk() as u8;
        self.pc = bump(self.pc, 2);
        assert(self@ =~= old(self)@.set(opcode.code));
    }

    pub fn add(&mut self, opcode: &Opcode)
        ensures
            final(self)@ == old(self)@.add(opcode.code),
    {
        let x: usize = opcode.x();
        self.registers.v[x] = low8(self.registers.v[x] as u16, opcode.kk());
        self.pc = bump(self.pc, 2);
        assert(self@ =~= old(self)@.add(opcode.code));
    }

    pub fn assign(&mut self, opcode: &Opcode)
        ensures
            final(self)@ == old(self)@.assign(opcode.code),
    {
        self.registers.v[opcode.x()] = self.registers.v[opcode.y()];
        self.pc = bump(self.pc, 2);
        assert(self@ =~= old(self)@.assign(opcode.code));
    }

    pub fn bit_or(&mut self, opcode: &Opcode)
        ensures
            final(self)@ == old(self)@.bit_or(opcode.code),
    {
        let x: usize = opcode.x();
        self.registers.v[x] = self.registers.v[x] | self.registers.v[opcode.y()];
        self.pc = bump(self.pc, 2);
        assert(self@ =~= old(self)@.bit_or(opcode.code));
    }

    pub fn bit_and(&mut self, opcode: &Opcode)
        ensures
            final(self)@ == old(self)@.bit_and(opcode.code),
    {
        let x: usize = opcode.x();
        self.registers.v[x] = self.registers.v[x] & self.registers.v[opcode.y()];
        self.pc = bump(self.pc, 2);
        assert(self@ =~= old(self)@.bit_and(opcode.code));
    }

    pub fn bit_xor(&mut self, opcode: &Opcode)
        ensures
            final(self)@ == old(self)@.bit_xor(opcode.code),
    {
        let x: usize = opcode.x();
        self.registers.v[x] = self.registers.v[x] ^ self.registers.v[opcode.y()];
        self.pc = bump(self.pc, 2);
        assert(self@ =~= old(self)@.bit_xor(opcode.code));
    }

    /// `Vx` becomes the sum with `Vy` reduced to eight bits; `VF` the carry.
    pub fn add_reg(&mut self, opcode: &Opcode)
        ensures
            final(self)@ == old(self)@.add_reg(opcode.code),
    {
        let x: usize = opcode.x();
        let y: usize = opcode.y();
        let sum: u16 = self.registers.v[x] as u16 + self.registers.v[y] as u16;
        self.registers.v[0xf] = (sum / 256) as u8;
        self.registers.v[x] = (sum % 256) as u8;
        self.pc = bump(self.pc, 2);
        assert(self@ =~= old(self)@.add_reg(opcode.code));
    }

    /// `VF` becomes 1 if `Vx` is above `Vy`, else 0; then `Vx` loses `Vy`, modulo 256.
    pub fn sub_reg(&mut self, opcode: &Opcode)
        ensures
            final(self)@ == old(self)@.sub_reg(opcode.code),
    {
        let x: usize = opcode.x();
        let y: usize = opcode.y();
        self.registers.v[0xf] = if self.registers.v[x] > self.registers.v[y] { 1 } else { 0 };
        self.registers.v[x] = low8(self.registers.v[x] as u16, 256 - self.registers.v[y] as u16);
        self.pc = bump(self.pc, 2);
        assert(self@ =~= old(self)@.sub_reg(opcode.code));
    }

    /// `VF` becomes the lowest bit of `Vx`; then `Vx` is halved.
    pub fn shift_right(&mut self, opcode: &Opcode)
        ensures
            final(self)@ == old(self)@.shift_right(opcode.code),
    {
        let x: usize = opcode.x();
        self.registers.v[0xf] = self.registers.v[x] % 2;
        self.registers.v[x] = self.registers.v[x] / 2;
        self.pc = bump(self.pc, 2);
        assert(self@ =~= old(self)@.shift_right(opcode.code));
    }

    /// `VF` becomes 1 if `Vy` is above `Vx`, else 0; then `Vx` becomes `Vy` less `Vx`, modulo 256.
    pub fn sub_copy(&mut self, opcode: &Opcode)
        ensures
            final(self)@ == old(self)@.sub_copy(opcode.code),
    {
        let x: usize = opcode.x();
        let y: usize = opcode.y();
        self.registers.v[0xf] = if self.registers.v[y] > self.registers.v[x] { 1 } else { 0 };
        self.registers.v[x] = low8(self.registers.v[y] as u16, 256 - self.registers.v[x] as u16);
        self.pc = bump(self.pc, 2);
        assert(self@ =~= old(self)@.sub_copy(opcode.code));
    }

    /// `VF` becomes the highest bit of `Vx`; then `Vx` is doubled, modulo 256.
    pub fn shift_left(&mut self, opcode: &Opcode)
        ensures
            final(self)@ == old(self)@.shift_left(opcode.code),
    {
        let x: usize = opcode.x();
        self.registers.v[0xf] = self.registers.v[x] / 128;
        self.registers.v[x] = low8(self.registers.v[x] as u16, self.registers.v[x] as u16);
        self.pc = bump(self.pc, 2);
        assert(self@ =~= old(self)@.shift_left(opcode.code));
    }

    pub fn if_not_eq_reg(&mut self, opcode: &Opcode)
        ensures
            final(self)@ == old(self)@.if_not_eq_reg(opcode.code),
    {
        let vx: u8 = self.registers.v[opcode.x()];
        let vy: u8 = self.registers.v[opcode.y()];
        self.pc = bump(self.pc, if vx != vy { 4 } else { 2 });
        assert(self@ =~= old(self)@.if_not_eq_reg(opcode.code));
    }

    pub fn set_i(&mut self, opcode: &Opcode)
        ensures
            final(self)@ == old(self)@.set_i(opcode.code),
    {
        self.i = opcode.nnn();
        self.pc = bump(self.pc, 2);
        assert(self@ =~= old(self)@.set_i(opcode.code));
    }

    pub fn jump_v0(&mut self, opcode: &Opcode)
        ensures
            final(self)@ == old(self)@.jump_v0(opcode.code),
    {
        self.pc = opcode.nnn() + (self.registers.v[0] as u16);
        assert(self@ =~= old(self)@.jump_v0(opcode.code));
    }

    /// The random instruction for a number already drawn.
    pub fn and_rand_with(&mut self, opcode: &Opcode, random: u16)
        requires
            random < 256,
        ensures
            final(self)@ == old(self)@.and_rand(opcode.code, random),
    {
        self.registers.v[opcode.x()] = low8(opcode.kk(), random);
        self.pc = bump(self.pc, 2);
        assert(self@ =~= old(self)@.and_rand(opcode.code, random));
    }

    /// Draws a number below 256 and adds it to the low byte, modulo 256, into `Vx`.
    pub fn and_rand(&mut self, opcode: &Opcode)
        ensures
            exists|random: u16| random < 256 && final(self)@ == #[trigger] old(self)@.and_rand(opcode.code, random),
    {
        let random: u16 = random_below(256);
        self.and_rand_with(opcode, random);
    }

    pub fn get_delay(&mut self, opcode: &Opcode)
        ensures
            final(self)@ == old(self)@.get_delay(opcode.code),
    {
        self.registers.v[opcode.x()] = self.delay.get_timer();
        self.pc = bump(self.pc, 2);
        assert(self@ =~= old(self)@.get_delay(opcode.code));
    }

    pub fn set_delay(&mut self, opcode: &Opcode)
        ensures
            final(self)@ == old(self)@.set_delay(opcode.code),
    {
        self.delay.set_timer(self.registers.v[opcode.x()]);
        self.pc = bump(self.pc, 2);
        assert(self@ =~= old(self)@.set_delay(opcode.code));
    }

    pub fn set_sound(&mut self, opcode: &Opcode)
        ensures
            final(self)@ == old(self)@.set_sound(opcode.code),
    {
        self.delay.set_sound(self.registers.v[opcode.x()]);
        self.pc = bump(self.pc, 2);
        assert(self@ =~= old(self)@.set_sound(opcode.code));
    }

    pub fn add_i(&mut self, opcode: &Opcode)
        ensures
            final(self)@ == old(self)@.add_i(opcode.code),
    {
        self.i = bump(self.i, self.registers.v[opcode.x()] as u16);
        self.pc = bump(self.pc, 2);
        assert(self@ =~= old(self)@.add_i(opcode.code));
    }

    /// Points `I` at the five-byte glyph of the digit in `Vx`.
    pub fn get_font(&mut self, opcode: &Opcode)
        ensures
            final(self)@ == old(self)@.get_font(opcode.code),
    {
        self.i = (self.registers.v[opcode.x()] as u16) * 5;
        self.pc = bump(self.pc, 2);
        assert(self@ =~= old(self)@.get_font(opcode.code));
    }

    /// Points `I` at the ten-byte glyph of the digit in `Vx`.
    pub fn get_font16(&mut self, opcode: &Opcode)
        ensures
            final(self)@ == old(self)@.get_font16(opcode.code),
    {
        self.i = (self.registers.v[opcode.x()] as u16) * 10 + 80;
        self.pc = bump(self.pc, 2);
        assert(self@ =~= old(self)@.get_font16(opcode.code));
    }

    /// Stores the hundreds, tens and ones of `Vx` at `I`, `I+1` and `I+2`.
    pub fn bcd(&mut self, opcode: &Opcode, memory: &mut Memory)
        requires
            old(self).i + 2 < 4096,
        ensures
            final(self)@ == old(self)@.advance(2),
            final(memory)@ == old(self)@.bcd_image(opcode.code, old(memory)@),
    {
        let vx: u8 = self.registers.v[opcode.x()];
        memory.save(self.i as usize, vx / 100);
        memory.save((self.i + 1) as usize, (vx % 100) / 10);
        memory.save((self.i + 2) as usize, vx % 10);
        self.pc = bump(self.pc, 2);
        assert(self@ =~= old(self)@.advance(2));
    }

    /// Stores `V0` through `Vx` from `I` on, and moves `I` past them.
    pub fn reg_dump(&mut self, opcode: &Opcode, memory: &mut Memory)
        requires
            old(self).i + field_x(opcode.code) + 1 <= 4096,
        ensures
            final(self)@ == old(self)@.after_copy(opcode.code),
            final(memory)@ == old(self)@.dump_image(opcode.code, old(memory)@),
    {
        let vx: usize = opcode.x();
        let mut k: usize = 0;
        while k <= vx
            invariant
                k <= vx + 1,
                vx < 16,
                vx == field_x(opcode.code),
                old(self).i + vx + 1 <= 4096,
                self.i == old(self).i + k,
                self.pc == old(self).pc,
                self.registers == old(self).registers,
                self.stack == old(self).stack,
                self.delay == old(self).delay,
                memory@.len() == 4096,
                forall|a: int| 0 <= a < 4096 ==> #[trigger] memory@[a] == (if old(self).i <= a < old(self).i + k {
                    old(self).registers.v@[a - old(self).i]
                } else {
                    old(memory)@[a]
                }),
            decreases vx + 1 - k,
        {
            memory.save(self.i as usize, self.registers.v[k]);
            self.i += 1;
            k += 1;
        }
        self.pc = bump(self.pc, 2);
        assert(self@ =~= old(self)@.after_copy(opcode.code));
        assert(memory@ =~= old(self)@.dump_image(opcode.code, old(memory)@));
    }

    /// Reads `V0` through `Vx` from memory at `I` on, and moves `I` past them.
    pub fn reg_load(&mut self, opcode: &Opcode, memory: &Memory)
        requires
            old(self).i + field_x(opcode.code) + 1 <= 4096,
        ensures
            final(self)@ == old(self)@.reg_load(opcode.code, memory@),
    {
        let vx: usize = opcode.x();
        let mut k: usize = 0;
        while k <= vx
            invariant
                k <= vx + 1,
                vx < 16,
                vx == field_x(opcode.code),
                old(self).i + vx + 1 <= 4096,
                self.i == old(self).i + k,
                self.pc == old(self).pc,
                self.registers.r == old(self).registers.r,
                self.stack == old(self).stack,
                self.delay == old(self).delay,
                forall|j: int| 0 <= j < 16 ==> #[trigger] self.registers.v@[j] == (if j < k {
                    memory@[old(self).i + j]
                } else {
                    old(self).registers.v@[j]
                }),
            decreases vx + 1 - k,
        {
            self.registers.v[k] = memory.get(self.i as usize);
            self.i += 1;
            k += 1;
        }
        self.pc = bump(self.pc, 2);
        assert(self.registers.v@ =~= Seq::new(
            16,
            |j: int| if j <= field_x(opcode.code) { memory@[old(self).i + j] } else { old(self).registers.v@[j] },
        ));
        assert(self@ =~= old(self)@.reg_load(opcode.code, memory@));
    }

    /// Skips the next instruction if the key named by `Vx` is held.
    pub fn if_key(&mut self, opcode: &Opcode, keys: &KeyPad)
        requires
            old(self)@.vx(opcode.code) < 16,
        ensures
            final(self)@ == old(self)@.if_key(opcode.code, keys@),
    {
        let held: bool = keys.get(self.registers.v[opcode.x()] as usize);
        self.pc = bump(self.pc, if held { 4 } else { 2 });
        assert(self@ =~= old(self)@.if_key(opcode.code, keys@));
    }

    /// Skips the next instruction if the key named by `Vx` is not held.
    pub fn if_not_key(&mut self, opcode: &Opcode, keys: &KeyPad)
        requires
            old(self)@.vx(opcode.code) < 16,
        ensures
            final(self)@ == old(self)@.if_not_key(opcode.code, keys@),
    {
        let held: bool = keys.get(self.registers.v[opcode.x()] as usize);
        self.pc = bump(self.pc, if !held { 4 } else { 2 });
        assert(self@ =~= old(self)@.if_not_key(opcode.code, keys@));
    }

    /// One tick of the timers. Returns whether the sound timer stood at one,
    /// the moment at which the machine beeps.
    pub fn update(&mut self) -> (beep: bool)
        ensures
            beep == (old(self).delay.sound == 1),
            final(self)@ == old(self)@.tick(),
    {
        let beep: bool = self.delay.get_sound() == 1;
        self.delay.update();
        assert(self@ =~= old(self)@.tick());
        beep
    }

    /// Waits for a key. With no key held nothing changes, so the instruction
    /// runs again on the next tick. With a key held, the highest such key
    /// goes to `Vx` and is released, and execution moves on.
    pub fn wait_key(&mut self, opcode: &Opcode, keys: &mut KeyPad)
        ensures
            held_key(old(keys)@, 16) < 0 ==> final(self)@ == old(self)@ && final(keys)@ == old(keys)@,
            held_key(old(keys)@, 16) >= 0 ==> final(self)@ == old(self)@.key_taken(
                opcode.code,
                held_key(old(keys)@, 16),
            ) && final(keys)@ == old(keys)@.update(held_key(old(keys)@, 16), false),
    {
        let mut k: usize = 16;
        while k > 0
            invariant
                k <= 16,
                *self == *old(self),
                *keys == *old(keys),
                held_key(keys@, 16) == held_key(keys@, k as int),
            decreases k,
        {
            if keys.get(k - 1) {
                self.registers.v[opcode.x()] = (k - 1) as u8;
                keys.clear_key(k - 1);
                self.pc = bump(self.pc, 2);
                assert(self@ =~= old(self)@.key_taken(opcode.code, (k - 1) as int));
                return ;
            }
            k -= 1;
        }
        assert(held_key(keys@, 0) == -1);
    }

    /// The text that reports a word outside the instruction set.
    pub fn invalid(&self, opcode: &Opcode) -> (out: String)
        ensures
            out@ == "unknown or invalid command: "@ + ("Opcode :"@ + hex_digits(opcode.code as nat)),
    {
        let mut out = String::from_str("unknown or invalid command: ");
        let word = opcode.display();
        out.append(word.as_str());
        out
    }

    /// Draws the `n`-byte sprite at `I` with its corner at (`Vx`, `Vy`) and
    /// puts the collision flag into `VF`.
    pub fn draw(&mut self, opcode: &Opcode, screen: &mut Screen, memory: &Memory)
        requires
            old(self).i + field_n(opcode.code) <= 4096,
        ensures
            final(self)@ == old(self)@.draw(opcode.code, old(screen)@, memory@),
            final(screen)@ == old(self)@.draw_grid(opcode.code, old(screen)@, memory@),
            final(screen).width == old(screen).width,
            final(screen).height == old(screen).height,
            final(screen).extended == old(screen).extended,
    {
        let x: usize = opcode.x();
        let y: usize = opcode.y();
        let n: u16 = opcode.n();
        let mut sprite: Vec<u16> = Vec::new();
        let mut k: u16 = 0;
        while k < n
            invariant
                k <= n < 16,
                self.i + n <= 4096,
                sprite@.len() == k,
                forall|j: int| 0 <= j < k ==> #[trigger] sprite@[j] == memory@[self.i + j] as u16,
            decreases n - k,
        {
            sprite.push(memory.get(self.i as usize + k as usize) as u16);
            k += 1;
        }
        assert(sprite@ =~= old(self)@.sprite(opcode.code, memory@));
        self.registers.v[0xf] = screen.draw(self.registers.v[x] as u16, self.registers.v[y] as u16, sprite);
        self.pc = bump(self.pc, 2);
        assert(self@ =~= old(self)@.draw(opcode.code, old(screen)@, memory@));
    }
}

} // verus!
