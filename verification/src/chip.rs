//! The whole machine: processor, memory, screen and keypad, and the
//! decoding of one instruction word into the operation that runs it.
use vstd::prelude::*;
use crate::cpu::{CPU, Machine};
use crate::keys::KeyPad;
use crate::memory::{Memory, after_clear, after_load};
use crate::opcode::{Opcode, field_x, field_n};
use crate::screen::{Screen, Grid, blank};

verus! {

/// The state of the whole machine as plain values.
pub struct ChipState {
    pub cpu: Machine,
    pub memory: Seq<u8>,
    pub grid: Grid,
    pub keys: Seq<bool>,
    pub loaded: bool,
}

/// Whether `code` is a word of the instruction set.
pub open spec fn recognised(code: u16) -> bool {
    let family = code & 0xf000;
    let low = code & 0x00ff;
    let last = code & 0x000f;
    if family == 0x0000 {
        low == 0xe0 || low == 0xee
    } else if family == 0x8000 {
        last <= 7 || last == 0xe
    } else if family == 0xe000 {
        last == 0xe || last == 0x1
    } else if family == 0xf000 {
        low == 0x07 || low == 0x0a || low == 0x15 || low == 0x18 || low == 0x1e || low == 0x29
            || low == 0x33 || low == 0x55 || low == 0x65
    } else {
        true
    }
}

/// The highest key that is held, or -1 when none is.
pub open spec fn held(keys: Seq<bool>) -> int {
    crate::cpu::held_key(keys, 16)
}

impl ChipState {
    /// The word at the program counter, high byte first.
    pub open spec fn word(self) -> u16 {
        (self.memory[self.cpu.pc as int] * 256 + self.memory[self.cpu.pc + 1]) as u16
    }

    /// Whether the instruction at the program counter can run: the word lies
    /// within memory, and what it reads or writes exists. A return needs a
    /// return address, a key test a key below sixteen, and a memory transfer
    /// or a draw a range that ends within memory.
    pub open spec fn ready(self) -> bool {
        self.cpu.pc < 4095 && self.can_execute(self.word())
    }

    pub open spec fn can_execute(self, code: u16) -> bool {
        let family = code & 0xf000;
        let low = code & 0x00ff;
        let last = code & 0x000f;
        if family == 0x0000 {
            low == 0xee ==> self.cpu.stack.len() > 0
        } else if family == 0xd000 {
            self.cpu.i + field_n(code) <= 4096
        } else if family == 0xe000 {
            last == 0xe || last == 0x1 ==> self.cpu.vx(code) < 16
        } else if family == 0xf000 {
            &&& low == 0x33 ==> self.cpu.i + 2 < 4096
            &&& low == 0x55 || low == 0x65 ==> self.cpu.i + field_x(code) + 1 <= 4096
        } else {
            true
        }
    }

    /// The state after the instruction `code`, before the timers tick. A
    /// word outside the instruction set changes nothing.
    pub open spec fn execute(self, code: u16, random: u16) -> ChipState {
        let family = code & 0xf000;
        let low = code & 0x00ff;
        let last = code & 0x000f;
        let cpu = self.cpu;
        if family == 0x0000 {
            if low == 0xe0 {
                ChipState { cpu: cpu.advance(2), grid: blank(), ..self }
            } else if low == 0xee {
                ChipState { cpu: cpu.ret(), ..self }
            } else {
                self
            }
        } else if family == 0x1000 {
            ChipState { cpu: cpu.jump(code), ..self }
        } else if family == 0x2000 {
            ChipState { cpu: cpu.call(code), ..self }
        } else if family == 0x3000 {
            ChipState { cpu: cpu.if_eq(code), ..self }
        } else if family == 0x4000 {
            ChipState { cpu: cpu.if_not_eq(code), ..self }
        } else if family == 0x5000 {
            ChipState { cpu: cpu.if_eq_reg(code), ..self }
        } else if family == 0x6000 {
            ChipState { cpu: cpu.set(code), ..self }
        } else if family == 0x7000 {
            ChipState { cpu: cpu.add(code), ..self }
        } else if family == 0x8000 {
            if last == 0x0 {
                ChipState { cpu: cpu.assign(code), ..self }
            } else if last == 0x1 {
                ChipState { cpu: cpu.bit_or(code), ..self }
            } else if last == 0x2 {
                ChipState { cpu: cpu.bit_and(code), ..self }
            } else if last == 0x3 {
                ChipState { cpu: cpu.bit_xor(code), ..self }
            } else if last == 0x4 {
                ChipState { cpu: cpu.add_reg(code), ..self }
            } else if last == 0x5 {
                ChipState { cpu: cpu.sub_reg(code), ..self }
            } else if last == 0x6 {
                ChipState { cpu: cpu.shift_right(code), ..self }
            } else if last == 0x7 {
                ChipState { cpu: cpu.sub_copy(code), ..self }
            } else if last == 0xe {
                ChipState { cpu: cpu.shift_left(code), ..self }
            } else {
                self
            }
        } else if family == 0x9000 {
            ChipState { cpu: cpu.if_not_eq_reg(code), ..self }
        } else if family == 0xa000 {
            ChipState { cpu: cpu.set_i(code), ..self }
        } else if family == 0xb000 {
            ChipState { cpu: cpu.jump_v0(code), ..self }
        } else if family == 0xc000 {
            ChipState { cpu: cpu.and_rand(code, random), ..self }
        } else if family == 0xd000 {
            ChipState {
                cpu: cpu.draw(code, self.grid, self.memory),
                grid: cpu.draw_grid(code, self.grid, self.memory),
                ..self
            }
        } else if family == 0xe000 {
            if last == 0xe {
                ChipState { cpu: cpu.if_key(code, self.keys), ..self }
            } else if last == 0x1 {
                ChipState { cpu: cpu.if_not_key(code, self.keys), ..self }
            } else {
                self
            }
        } else {
            if low == 0x07 {
                ChipState { cpu: cpu.get_delay(code), ..self }
            } else if low == 0x0a {
                if held(self.keys) < 0 {
                    self
                } else {
                    ChipState {
                        cpu: cpu.key_taken(code, held(self.keys)),
                        keys: self.keys.update(held(self.keys), false),
                        ..self
                    }
                }
            } else if low == 0x15 {
                ChipState { cpu: cpu.set_delay(code), ..self }
            } else if low == 0x18 {
                ChipState { cpu: cpu.set_sound(code), ..self }
            } else if low == 0x1e {
                ChipState { cpu: cpu.add_i(code), ..self }
            } else if low == 0x29 {
                ChipState { cpu: cpu.get_font(code), ..self }
            } else if low == 0x33 {
                ChipState { cpu: cpu.advance(2), memory: cpu.bcd_image(code, self.memory), ..self }
            } else if low == 0x55 {
                ChipState { cpu: cpu.after_copy(code), memory: cpu.dump_image(code, self.memory), ..self }
            } else if low == 0x65 {
                ChipState { cpu: cpu.reg_load(code, self.memory), ..self }
            } else {
                self
            }
        }
    }

    /// One call of the machine loop: the instruction at the program counter,
    /// then one tick of the timers. A word outside the instruction set stops
    /// the run and changes nothing.
    pub open spec fn run(self, random: u16) -> ChipState {
        if recognised(self.word()) {
            let done = self.execute(self.word(), random);
            ChipState { cpu: done.cpu.tick(), ..done }
        } else {
            self
        }
    }
}

/// Whether the parts of a machine that take no part in running stay as
/// they were: the word it keeps, and the size and mode of its screen.
pub open spec fn same_frame(before: &Chip, after: &Chip) -> bool {
    &&& after.opcode == before.opcode
    &&& after.screen.width == before.screen.width
    &&& after.screen.height == before.screen.height
    &&& after.screen.extended == before.screen.extended
}

/// What one call of the machine loop reports.
pub struct Outcome {
    /// Whether the word was of the instruction set. If not, the run is over.
    pub ok: bool,
    /// Whether the sound timer stood at one when the timers ticked.
    pub beep: bool,
    /// The word that was fetched.
    pub opcode: Opcode,
}

pub struct Chip {
    pub cpu: CPU,
    pub opcode: Opcode,
    pub memory: Memory,
    pub screen: Screen,
    pub keys: KeyPad,
    pub loaded: bool,
}

impl View for Chip {
    type V = ChipState;

    open spec fn view(&self) -> ChipState {
        ChipState {
            cpu: self.cpu@,
            memory: self.memory@,
            grid: self.screen@,
            keys: self.keys@,
            loaded: self.loaded,
        }
    }
}

impl Chip {
    /// A machine around the given screen, with nothing loaded.
    pub fn new(screen: Screen) -> (out: Self)
        ensures
            out.cpu@ == Machine::initial(),
            out.opcode.code == 0,
            out.memory@ == Seq::new(4096, |i: int| 0u8),
            out.keys@ == Seq::new(16, |i: int| false),
            out.screen == screen,
            !out.loaded,
    {
        Chip {
            cpu: CPU::new(),
            opcode: Opcode::new(0),
            screen,
            memory: Memory::new(),
            keys: KeyPad::new(),
            loaded: false,
        }
    }

    /// Puts every part back into its initial state and reseeds the glyph table.
    pub fn reset(&mut self)
        ensures
            final(self)@ == (ChipState {
                cpu: Machine::initial(),
                memory: after_clear(old(self)@.memory),
                grid: blank(),
                keys: Seq::new(16, |i: int| false),
                loaded: false,
            }),
            final(self).opcode.code == 0,
    {
        self.cpu.reset();
        self.opcode.clear();
        self.screen.clear();
        self.memory.clear();
        self.keys.reset();
        self.loaded = false;
    }

    /// Copies a program image to the program base and marks the machine as loaded.
    pub fn load(&mut self, data: &[u8])
        requires
            data@.len() <= 4096 - 0x200,
        ensures
            final(self)@ == (ChipState {
                memory: after_load(old(self)@.memory, data@),
                loaded: true,
                ..old(self)@
            }),
            same_frame(old(self), final(self)),
    {
        self.memory.load(data);
        self.loaded = true;
    }

    pub fn is_loaded(&self) -> (out: bool)
        ensures
            out == self.loaded,
    {
        self.loaded
    }

    /// Whether the instruction at the program counter can run.
    pub fn can_run(&self) -> (out: bool)
        ensures
            out == self@.ready(),
    {
        if self.cpu.pc >= 4095 {
            return false;
        }
        let opcode = Opcode::new(self.cpu.fetch(&self.memory));
        let code: u16 = opcode.code;
        let family: u16 = code & 0xf000;
        let low: u16 = code & 0x00ff;
        let last: u16 = code & 0x000f;
        if family == 0x0000 {
            low != 0xee || self.cpu.stack.len() > 0
        } else if family == 0xd000 {
            self.cpu.i as u32 + opcode.n() as u32 <= 4096
        } else if family == 0xe000 {
            !(last == 0xe || last == 0x1) || self.cpu.registers.v[opcode.x()] < 16
        } else if family == 0xf000 {
            (low != 0x33 || self.cpu.i as u32 + 2 < 4096) && (!(low == 0x55 || low == 0x65)
                || self.cpu.i as u32 + opcode.x() as u32 + 1 <= 4096)
        } else {
            true
        }
    }

    /// Decodes `opcode` and runs the operation it names, with `random` as
    /// the number that the random instruction draws. Returns whether the
    /// word was of the instruction set.
    pub fn execute(&mut self, opcode: &Opcode, random: u16) -> (ok: bool)
        requires
            random < 256,
            old(self)@.can_execute(opcode.code),
        ensures
            ok == recognised(opcode.code),
            final(self)@ == old(self)@.execute(opcode.code, random),
            final(self).opcode == old(self).opcode,
            final(self).screen.width == old(self).screen.width,
            final(self).screen.height == old(self).screen.height,
            final(self).screen.extended == old(self).screen.extended,
    {
        let code: u16 = opcode.code;
        let family: u16 = code & 0xf000;
        let low: u16 = code & 0x00ff;
        let last: u16 = code & 0x000f;
        if family == 0x0000 {
            if low == 0xe0 {
                self.cpu.clear_screen(&mut self.screen);
            } else if low == 0xee {
                self.cpu.ret();
            } else {
                return false;
            }
        } else if family == 0x1000 {
            self.cpu.jump(opcode);
        } else if family == 0x2000 {
            self.cpu.call(opcode);
        } else if family == 0x3000 {
            self.cpu.if_eq(opcode);
        } else if family == 0x4000 {
            self.cpu.if_not_eq(opcode);
        } else if family == 0x5000 {
            self.cpu.if_eq_reg(opcode);
        } else if family == 0x6000 {
            self.cpu.set(opcode);
        } else if family == 0x7000 {
            self.cpu.add(opcode);
        } else if family == 0x8000 {
            if last == 0x0 {
                self.cpu.assign(opcode);
            } else if last == 0x1 {
                self.cpu.bit_or(opcode);
            } else if last == 0x2 {
                self.cpu.bit_and(opcode);
            } else if last == 0x3 {
                self.cpu.bit_xor(opcode);
            } else if last == 0x4 {
                self.cpu.add_reg(opcode);
            } else if last == 0x5 {
                self.cpu.sub_reg(opcode);
            } else if last == 0x6 {
                self.cpu.shift_right(opcode);
            } else if last == 0x7 {
                self.cpu.sub_copy(opcode);
            } else if last == 0xe {
                self.cpu.shift_left(opcode);
            } else {
                return false;
            }
        } else if family == 0x9000 {
            self.cpu.if_not_eq_reg(opcode);
        } else if family == 0xa000 {
            self.cpu.set_i(opcode);
        } else if family == 0xb000 {
            self.cpu.jump_v0(opcode);
        } else if family == 0xc000 {
            self.cpu.and_rand_with(opcode, random);
        } else if family == 0xd000 {
            self.cpu.draw(opcode, &mut self.screen, &self.memory);
        } else if family == 0xe000 {
            if last == 0xe {
                self.cpu.if_key(opcode, &self.keys);
            } else if last == 0x1 {
                self.cpu.if_not_key(opcode, &self.keys);
            } else {
                return false;
            }
        } else {
            assert(family == 0xf000) by (bit_vector)
                requires
                    family == code & 0xf000,
                    family != 0x0000 && family != 0x1000 && family != 0x2000 && family != 0x3000,
                    family != 0x4000 && family != 0x5000 && family != 0x6000 && family != 0x7000,
                    family != 0x8000 && family != 0x9000 && family != 0xa000 && family != 0xb000,
                    family != 0xc000 && family != 0xd000 && family != 0xe000,
            ;
            if low == 0x07 {
                self.cpu.get_delay(opcode);
            } else if low == 0x0a {
                self.cpu.wait_key(opcode, &mut self.keys);
            } else if low == 0x15 {
                self.cpu.set_delay(opcode);
            } else if low == 0x18 {
                self.cpu.set_sound(opcode);
            } else if low == 0x1e {
                self.cpu.add_i(opcode);
            } else if low == 0x29 {
                self.cpu.get_font(opcode);
            } else if low == 0x33 {
                self.cpu.bcd(opcode, &mut self.memory);
            } else if low == 0x55 {
                self.cpu.reg_dump(opcode, &mut self.memory);
            } else if low == 0x65 {
                self.cpu.reg_load(opcode, &self.memory);
            } else {
                return false;
            }
        }
        true
    }

    /// One call of the machine loop for a number already drawn: fetches the
    /// word at the program counter, runs it, and ticks the timers once.
    pub fn run_with(&mut self, random: u16) -> (outcome: Outcome)
        requires
            random < 256,
            old(self)@.ready(),
        ensures
            outcome.opcode.code == old(self)@.word(),
            outcome.ok == recognised(old(self)@.word()),
            final(self)@ == old(self)@.run(random),
            outcome.beep == (outcome.ok && old(self)@.execute(old(self)@.word(), random).cpu.sound == 1),
            same_frame(old(self), final(self)),
    {
        let opcode = Opcode::new(self.cpu.fetch(&self.memory));
        let ok: bool = self.execute(&opcode, random);
        let mut beep: bool = false;
        if ok {
            beep = self.cpu.update();
        }
        Outcome { ok, beep, opcode }
    }

    /// One call of the machine loop where the instruction can run; where it
    /// cannot, nothing changes and `None` says so.
    pub fn step(&mut self) -> (outcome: Option<Outcome>)
        ensures
            !old(self)@.ready() ==> outcome is None && *final(self) == *old(self),
            old(self)@.ready() ==> outcome is Some && outcome->Some_0.opcode.code == old(self)@.word()
                && outcome->Some_0.ok == recognised(old(self)@.word()) && exists|random: u16|
                random < 256 && final(self)@ == #[trigger] old(self)@.run(random) && outcome->Some_0.beep == (
                outcome->Some_0.ok && old(self)@.execute(old(self)@.word(), random).cpu.sound == 1),
            same_frame(old(self), final(self)),
    {
        if self.can_run() {
            Some(self.run())
        } else {
            None
        }
    }

    /// One call of the machine loop. The random instruction draws its number
    /// here; every other instruction does the same whatever is drawn.
    pub fn run(&mut self) -> (outcome: Outcome)
        requires
            old(self)@.ready(),
        ensures
            outcome.opcode.code == old(self)@.word(),
            outcome.ok == recognised(old(self)@.word()),
            exists|random: u16| random < 256 && final(self)@ == #[trigger] old(self)@.run(random)
                && outcome.beep == (outcome.ok && old(self)@.execute(old(self)@.word(), random).cpu.sound == 1),
            same_frame(old(self), final(self)),
    {
        let random: u16 = crate::cpu::draw_random(self.cpu.fetch(&self.memory));
        self.run_with(random)
    }
}

/// The key that `held_key` finds is held, and none above it is.
proof fn lemma_held_key(keys: Seq<bool>, upto: int)
    requires
        crate::cpu::held_key(keys, upto) >= 0,
    ensures
        0 <= crate::cpu::held_key(keys, upto) < upto,
        keys[crate::cpu::held_key(keys, upto)],
    decreases upto,
{
    if upto > 0 && !keys[upto - 1] {
        lemma_held_key(keys, upto - 1);
    }
}

/// While no key is held, the key-wait instruction changes nothing: not the
/// program counter, not a register, not a key. So it runs again on the next
/// call, as often as it takes.
pub proof fn waiting_changes_nothing(s: ChipState, code: u16, random: u16)
    requires
        code & 0xf000 == 0xf000,
        code & 0x00ff == 0x0a,
        held(s.keys) < 0,
    ensures
        s.execute(code, random) == s,
{
}

/// With a key held, the key-wait instruction moves the program counter on
/// by two, puts the key's index into `Vx`, and releases that key.
pub proof fn a_held_key_ends_the_wait(s: ChipState, code: u16, random: u16)
    requires
        code & 0xf000 == 0xf000,
        code & 0x00ff == 0x0a,
        held(s.keys) >= 0,
        s.cpu.well_formed(),
        s.keys.len() == 16,
    ensures
        0 <= held(s.keys) < 16,
        s.keys[held(s.keys)],
        s.execute(code, random).cpu.pc == crate::cpu::wrap16(s.cpu.pc as int, 2),
        s.execute(code, random).cpu.v[field_x(code) as int] == held(s.keys),
        !s.execute(code, random).keys[held(s.keys)],
{
    lemma_held_key(s.keys, 16);
    assert(((code >> 8) & 0xf) < 16) by (bit_vector);
}

/// Every instruction that neither jumps, calls, returns, skips nor waits
/// moves the program counter on by exactly two.
pub proof fn plain_instructions_step_by_two(s: ChipState, code: u16, random: u16)
    requires
        recognised(code),
        ({
            let family = code & 0xf000;
            let low = code & 0x00ff;
            (family == 0x0000 && low == 0xe0) || family == 0x6000 || family == 0x7000 || family == 0x8000
                || family == 0xa000 || family == 0xc000 || family == 0xd000 || (family == 0xf000 && low
                != 0x0a)
        }),
    ensures
        s.execute(code, random).cpu.pc == crate::cpu::wrap16(s.cpu.pc as int, 2),
{
}

} // verus!
