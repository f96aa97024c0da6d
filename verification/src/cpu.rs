//! The interpreter: memory, registers, timers, call stack, keypad and
//! display, and the effect of each instruction on them.
//!
//! The state of the machine is modelled by [`Machine`], a record of plain
//! mathematical values, and the effect of an instruction by
//! [`Machine::step`]. The executable interpreter is proved to follow that
//! model exactly.

use crate::instruction::{decode, lemma_opcode_parts, opcode, spec_decode, Instruction};
use crate::keypad::{first_key_down, Keypad};
use crate::screen::{blank, collides, drawn, Screen};
use vstd::prelude::*;
use vstd::slice::slice_subrange;

verus! {

/// Number of bytes of memory.
pub const MEMORY_SIZE: usize = 4096;

/// Address at which programs are loaded and start to run.
pub const PROGRAM_START: u16 = 512;

/// The largest program that fits between `PROGRAM_START` and the end of
/// memory.
pub const MAX_ROM_SIZE: usize = 3584;

/// Value of both timers after a reset.
pub const TIMER_START: u8 = 255;

/// The random byte that `Cxkk` sees until the host supplies another.
pub const RANDOM_START: u8 = 0xFF;

/// The built-in font: five bytes for each of the hex digits 0 to F, held at
/// the base of memory.
pub const SPRITES: [u8; 80] = [
    0xF0, 0x90, 0x90, 0x90, 0xF0,  // 0
    0x20, 0x60, 0x20, 0x20, 0x70,  // 1
    0xF0, 0x10, 0xF0, 0x80, 0xF0,  // 2
    0xF0, 0x10, 0xF0, 0x10, 0xF0,  // 3
    0x90, 0x90, 0xF0, 0x10, 0x10,  // 4
    0xF0, 0x80, 0xF0, 0x10, 0xF0,  // 5
    0xF0, 0x80, 0xF0, 0x90, 0xF0,  // 6
    0xF0, 0x10, 0x20, 0x40, 0x40,  // 7
    0xF0, 0x90, 0xF0, 0x90, 0xF0,  // 8
    0xF0, 0x90, 0xF0, 0x10, 0xF0,  // 9
    0xF0, 0x90, 0xF0, 0x90, 0x90,  // A
    0xE0, 0x90, 0xE0, 0x90, 0xE0,  // B
    0xF0, 0x80, 0x80, 0x80, 0xF0,  // C
    0xE0, 0x90, 0x90, 0x90, 0xE0,  // D
    0xF0, 0x80, 0xF0, 0x80, 0xF0,  // E
    0xF0, 0x80, 0xF0, 0x80, 0x80,  // F
];

/// What became of an instruction.
#[derive(Clone, Copy, Debug, PartialEq, Eq)]
pub enum Outcome {
    /// The instruction was carried out.
    Executed,
    /// `Fx0A` found every key up. Nothing has changed, the program counter
    /// still points at the instruction, and it is to be presented again.
    AwaitingKey,
    /// The opcode calls a routine of the host machine (`0nnn`). It was
    /// passed over.
    UnsupportedRoutine,
    /// The opcode stands for no instruction. It was passed over.
    UnknownInstruction,
}

/// Why a program image was not loaded.
#[derive(Clone, Copy, Debug, PartialEq, Eq)]
pub enum RomError {
    /// The image has an odd number of bytes, so its last instruction is cut
    /// in half.
    OddLength,
    /// The image has more than `MAX_ROM_SIZE` bytes.
    TooLarge,
}

/// The state of the machine as plain values.
#[verifier::ext_equal]
pub struct Machine {
    /// The 4096 bytes of memory.
    pub memory: Seq<u8>,
    /// The registers `V0` to `VF`.
    pub v: Seq<u8>,
    /// The index register `I`.
    pub i: int,
    /// The delay timer.
    pub delay: u8,
    /// The sound timer.
    pub sound: u8,
    /// The program counter.
    pub pc: int,
    /// The number of return addresses on the call stack.
    pub sp: int,
    /// The 16 slots of the call stack.
    pub stack: Seq<int>,
    /// The level of each of the 16 keys.
    pub keys: Seq<bool>,
    /// The display, 32 rows of 64 pixels.
    pub screen: Seq<Seq<bool>>,
    /// The byte that the next `Cxkk` takes for random.
    pub random: u8,
}

/// Memory after a reset: the font at the base, zero above it.
pub open spec fn initial_memory() -> Seq<u8> {
    Seq::new(4096, |a: int| if a < 80 { SPRITES@[a] } else { 0u8 })
}

impl Machine {
    /// The value of register `Vx`.
    pub open spec fn reg(self, x: u8) -> u8 {
        self.v[x as int]
    }

    /// The machine with `value` in register `Vx`.
    pub open spec fn set_reg(self, x: u8, value: u8) -> Machine {
        Machine { v: self.v.update(x as int, value), ..self }
    }

    /// The machine with 1 or 0 in `VF`.
    pub open spec fn set_flag(self, on: bool) -> Machine {
        self.set_reg(0xF, if on { 1u8 } else { 0u8 })
    }

    /// The machine with the program counter on the next instruction.
    pub open spec fn proceed(self) -> Machine {
        Machine { pc: self.pc + 2, ..self }
    }

    /// The machine with the program counter on the next instruction, or on
    /// the one after it if `skip` holds.
    pub open spec fn proceed_or_skip(self, skip: bool) -> Machine {
        Machine { pc: if skip { self.pc + 4 } else { self.pc + 2 }, ..self }
    }

    /// The machine with `rom` in memory from address 512 on.
    pub open spec fn with_rom(self, rom: Seq<u8>) -> Machine {
        Machine {
            memory: Seq::new(
                4096,
                |a: int| if 512 <= a < 512 + rom.len() { rom[a - 512] } else { self.memory[a] },
            ),
            ..self
        }
    }

    /// The machine after a reset. The keys and the random byte belong to the
    /// host and stay as they are.
    pub open spec fn reset(self) -> Machine {
        Machine {
            memory: initial_memory(),
            v: Seq::new(16, |k: int| 0u8),
            i: 0,
            delay: TIMER_START,
            sound: TIMER_START,
            pc: 512,
            sp: 0,
            stack: Seq::new(16, |k: int| 0int),
            keys: self.keys,
            screen: blank(),
            random: self.random,
        }
    }

    /// The machine after one tick of the timers: each timer that is not zero
    /// goes down by one.
    pub open spec fn tick(self) -> Machine {
        Machine {
            delay: if self.delay > 0 { (self.delay - 1) as u8 } else { 0u8 },
            sound: if self.sound > 0 { (self.sound - 1) as u8 } else { 0u8 },
            ..self
        }
    }

    /// The 16-bit word at the program counter, most significant byte first.
    pub open spec fn fetch(self) -> int {
        self.memory[self.pc] * 256 + self.memory[self.pc + 1]
    }

    /// The machine after `instruction`.
    pub open spec fn step(self, instruction: Instruction) -> Machine {
        match instruction {
            Instruction::ClearScreen => Machine { screen: blank(), ..self }.proceed(),
            Instruction::Return => Machine {
                pc: self.stack[self.sp - 1],
                sp: self.sp - 1,
                ..self
            },
            Instruction::MachineRoutine { nnn } => self.proceed(),
            Instruction::Jump { nnn } => Machine { pc: nnn as int, ..self },
            Instruction::Call { nnn } => Machine {
                stack: self.stack.update(self.sp, self.pc + 2),
                sp: self.sp + 1,
                pc: nnn as int,
                ..self
            },
            Instruction::SkipEqualByte { x, kk } => self.proceed_or_skip(self.reg(x) == kk),
            Instruction::SkipNotEqualByte { x, kk } => self.proceed_or_skip(self.reg(x) != kk),
            Instruction::SkipEqual { x, y } => self.proceed_or_skip(self.reg(x) == self.reg(y)),
            Instruction::LoadByte { x, kk } => self.set_reg(x, kk).proceed(),
            Instruction::AddByte { x, kk } => self.set_reg(
                x,
                ((self.reg(x) + kk) % 256) as u8,
            ).proceed(),
            Instruction::Move { x, y } => self.set_reg(x, self.reg(y)).proceed(),
            Instruction::Or { x, y } => self.set_reg(x, self.reg(x) | self.reg(y)).proceed(),
            Instruction::And { x, y } => self.set_reg(x, self.reg(x) & self.reg(y)).proceed(),
            Instruction::Xor { x, y } => self.set_reg(x, self.reg(x) ^ self.reg(y)).proceed(),
            Instruction::Add { x, y } => {
                let sum = self.reg(x) + self.reg(y);
                self.set_reg(x, (sum % 256) as u8).set_flag(sum > 255).proceed()
            },
            Instruction::Subtract { x, y } => {
                let difference = self.reg(x) - self.reg(y);
                self.set_reg(x, (difference % 256) as u8).set_flag(difference >= 0).proceed()
            },
            Instruction::ShiftRight { x, y } => {
                let flagged = self.set_flag(self.reg(y) % 2 == 1);
                flagged.set_reg(x, flagged.reg(y) / 2).proceed()
            },
            Instruction::SubtractFrom { x, y } => {
                let difference = self.reg(y) - self.reg(x);
                self.set_reg(x, (difference % 256) as u8).set_flag(difference >= 0).proceed()
            },
            Instruction::ShiftLeft { x, y } => {
                let flagged = self.set_flag(self.reg(y) >= 128);
                flagged.set_reg(x, ((flagged.reg(y) * 2) % 256) as u8).proceed()
            },
            Instruction::SkipNotEqual { x, y } => self.proceed_or_skip(self.reg(x) != self.reg(y)),
            Instruction::LoadIndex { nnn } => Machine { i: nnn as int, ..self }.proceed(),
            Instruction::JumpOffset { nnn } => Machine { pc: nnn + self.reg(0), ..self },
            Instruction::Random { x, kk } => self.set_reg(x, self.random & kk).proceed(),
            Instruction::Draw { x, y, n } => {
                let sprite = self.memory.subrange(self.i, self.i + n);
                let column = self.reg(x) as int;
                let row = self.reg(y) as int;
                Machine { screen: drawn(self.screen, sprite, column, row), ..self }.set_flag(
                    collides(self.screen, sprite, column, row),
                ).proceed()
            },
            Instruction::SkipKeyDown { x } => self.proceed_or_skip(self.keys[self.reg(x) as int]),
            Instruction::SkipKeyUp { x } => self.proceed_or_skip(!self.keys[self.reg(x) as int]),
            Instruction::ReadDelay { x } => self.set_reg(x, self.delay).proceed(),
            Instruction::WaitKey { x } => match first_key_down(self.keys) {
                Some(key) => self.set_reg(x, key).proceed(),
                None => self,
            },
            Instruction::SetDelay { x } => Machine { delay: self.reg(x), ..self }.proceed(),
            Instruction::SetSound { x } => Machine { sound: self.reg(x), ..self }.proceed(),
            Instruction::AddIndex { x } => Machine { i: self.i + self.reg(x), ..self }.proceed(),
            Instruction::LoadGlyph { x } => Machine { i: 5 * self.reg(x), ..self }.proceed(),
            Instruction::StoreDecimal { x } => {
                let value = self.reg(x);
                Machine {
                    memory: self.memory.update(self.i, value % 10).update(
                        self.i + 1,
                        (value / 10) % 10,
                    ).update(self.i + 2, (value / 100) % 10),
                    ..self
                }.proceed()
            },
            Instruction::StoreRegisters { x } => Machine {
                memory: Seq::new(
                    4096,
                    |a: int|
                        if self.i <= a < self.i + x {
                            self.v[a - self.i]
                        } else {
                            self.memory[a]
                        },
                ),
                i: self.i + x,
                ..self
            }.proceed(),
            Instruction::LoadRegisters { x } => Machine {
                v: Seq::new(16, |k: int| if k < x { self.memory[self.i + k] } else { self.v[k] }),
                i: self.i + x,
                ..self
            }.proceed(),
            Instruction::Unknown => self.proceed(),
        }
    }

    /// Whether `instruction` is a skip whose condition holds.
    pub open spec fn skips(self, instruction: Instruction) -> bool {
        match instruction {
            Instruction::SkipEqualByte { x, kk } => self.reg(x) == kk,
            Instruction::SkipNotEqualByte { x, kk } => self.reg(x) != kk,
            Instruction::SkipEqual { x, y } => self.reg(x) == self.reg(y),
            Instruction::SkipNotEqual { x, y } => self.reg(x) != self.reg(y),
            Instruction::SkipKeyDown { x } => self.keys[self.reg(x) as int],
            Instruction::SkipKeyUp { x } => !self.keys[self.reg(x) as int],
            _ => false,
        }
    }

    /// What the interpreter reports of `instruction`.
    pub open spec fn outcome(self, instruction: Instruction) -> Outcome {
        match instruction {
            Instruction::MachineRoutine { nnn } => Outcome::UnsupportedRoutine,
            Instruction::Unknown => Outcome::UnknownInstruction,
            Instruction::WaitKey { x } => if first_key_down(self.keys) is None {
                Outcome::AwaitingKey
            } else {
                Outcome::Executed
            },
            _ => Outcome::Executed,
        }
    }

    /// Whether the machine can carry out `instruction`: the call stack
    /// neither overflows nor underflows, memory is read and written within
    /// its bounds, a key that is asked for exists, and the index register and
    /// the program counter stay within 16 bits.
    pub open spec fn can_step(self, instruction: Instruction) -> bool {
        &&& self.step(instruction).pc <= 0xFFFF
        &&& match instruction {
            Instruction::Return => 1 <= self.sp <= 16,
            Instruction::Call { nnn } => self.sp < 16 && self.pc + 2 <= 0xFFFF,
            Instruction::Draw { x, y, n } => self.i + n <= 4096,
            Instruction::SkipKeyDown { x } | Instruction::SkipKeyUp { x } => self.reg(x) < 16,
            Instruction::AddIndex { x } => self.i + self.reg(x) <= 0xFFFF,
            Instruction::StoreDecimal { x } => self.i + 2 < 4096,
            Instruction::StoreRegisters { x } | Instruction::LoadRegisters { x } => x > 0
                ==> self.i + x <= 4096,
            _ => true,
        }
    }
}

/// The sum of two bytes modulo 256.
fn wrapping_sum(a: u8, b: u8) -> (sum: u8)
    ensures
        sum == ((a + b) % 256) as u8,
{
    a.wrapping_add(b)
}

/// The difference of two bytes modulo 256.
fn wrapping_difference(a: u8, b: u8) -> (difference: u8)
    ensures
        difference == ((a - b) % 256) as u8,
{
    a.wrapping_sub(b)
}

/// A byte shifted right by one bit, and whether a set bit was shifted out.
fn shifted_right(a: u8) -> (result: (u8, bool))
    ensures
        result.0 == a / 2,
        result.1 == (a % 2 == 1),
{
    proof {
        assert(a >> 1u8 == a / 2) by (bit_vector);
        assert((a & 1 == 1) == (a % 2 == 1)) by (bit_vector);
    }
    (a >> 1u8, a & 1 == 1)
}

/// A byte shifted left by one bit, and whether a set bit was shifted out.
fn shifted_left(a: u8) -> (result: (u8, bool))
    ensures
        result.0 == ((a * 2) % 256) as u8,
        result.1 == (a >= 128),
{
    proof {
        assert(a << 1u8 == (a * 2) % 256) by (bit_vector);
        assert((a >> 7u8 == 1) == (a >= 128)) by (bit_vector);
    }
    (a << 1u8, a >> 7u8 == 1)
}

/// The CHIP-8 machine.
pub struct CPU {
    /// 4096 bytes of RAM. The first 512 bytes were the interpreter's own on
    /// the first machines, so programs start at location 512.
    pub memory: [u8; 4096],
    /// 16 general purpose 8-bit registers `V0` through `VF`.
    pub v: [u8; 16],
    /// 16-bit register used to index into memory.
    pub i: u16,
    /// Delay timer.
    pub delay: u8,
    /// Sound timer.
    pub sound: u8,
    /// The program counter is an index into RAM pointing to the start of the
    /// next instruction.
    pub pc: u16,
    /// Stack pointer: the number of return addresses on the call stack.
    pub sp: u8,
    /// Call stack.
    pub stack: [u16; 16],
    /// 16 key keypad.
    pub keypad: Keypad,
    /// 64 x 32 pixel monochrome display.
    pub screen: Screen,
    /// The byte that `Cxkk` takes for random. The host stores a fresh one
    /// here as often as it wants the program to see one.
    pub random: u8,
}

impl View for CPU {
    type V = Machine;

    open spec fn view(&self) -> Machine {
        Machine {
            memory: self.memory@,
            v: self.v@,
            i: self.i as int,
            delay: self.delay,
            sound: self.sound,
            pc: self.pc as int,
            sp: self.sp as int,
            stack: Seq::new(16, |k: int| self.stack@[k] as int),
            keys: self.keypad@,
            screen: self.screen@,
            random: self.random,
        }
    }
}

impl CPU {
    /// A machine with everything at zero, every key up, a blank display and
    /// `RANDOM_START` for a random byte. Call `reset` before running a
    /// program on it.
    pub fn new() -> (cpu: CPU)
        ensures
            cpu@ == (Machine {
                memory: Seq::new(4096, |a: int| 0u8),
                v: Seq::new(16, |k: int| 0u8),
                i: 0,
                delay: 0,
                sound: 0,
                pc: 0,
                sp: 0,
                stack: Seq::new(16, |k: int| 0int),
                keys: Seq::new(16, |k: int| false),
                screen: blank(),
                random: RANDOM_START,
            }),
    {
        CPU {
            memory: [0;4096],
            v: [0;16],
            i: 0,
            delay: 0,
            sound: 0,
            pc: 0,
            sp: 0,
            stack: [0;16],
            keypad: Keypad::new(),
            screen: Screen::new(),
            random: RANDOM_START,
        }
    }

    /// The program counter.
    pub fn get_pc(&self) -> (pc: u16)
        ensures
            pc == self@.pc,
    {
        self.pc
    }

    /// Resets the machine and its display to their initial states: the font
    /// at the base of memory and zero above it, registers and stack at zero,
    /// both timers at 255, the program counter at 512.
    pub fn reset(&mut self)
        ensures
            final(self)@ == old(self)@.reset(),
            final(self)@.pc == 512,
            final(self)@.sp == 0,
            final(self)@.delay == 255 && final(self)@.sound == 255,
            forall|k: int| 0 <= k < 16 ==> final(self)@.v[k] == 0,
    {
        let mut a: usize = 0;
        while a < 4096
            invariant
                a <= 4096,
                forall|b: int| 0 <= b < a ==> self.memory@[b] == 0,
                self.keypad == old(self).keypad,
                self.random == old(self).random,
            decreases 4096 - a,
        {
            self.memory[a] = 0;
            a += 1;
        }
        let mut g: usize = 0;
        while g < 80
            invariant
                g <= 80,
                forall|b: int| 0 <= b < g ==> self.memory@[b] == SPRITES@[b],
                forall|b: int| 80 <= b < 4096 ==> self.memory@[b] == 0,
                self.keypad == old(self).keypad,
                self.random == old(self).random,
            decreases 80 - g,
        {
            self.memory[g] = SPRITES[g];
            g += 1;
        }
        let mut k: usize = 0;
        while k < 16
            invariant
                k <= 16,
                forall|j: int| 0 <= j < k ==> self.v@[j] == 0 && self.stack@[j] == 0,
                forall|b: int| 0 <= b < 80 ==> self.memory@[b] == SPRITES@[b],
                forall|b: int| 80 <= b < 4096 ==> self.memory@[b] == 0,
                self.keypad == old(self).keypad,
                self.random == old(self).random,
            decreases 16 - k,
        {
            self.v[k] = 0;
            self.stack[k] = 0;
            k += 1;
        }
        self.i = 0;
        self.screen.clear();
        self.delay = TIMER_START;
        self.sound = TIMER_START;
        self.pc = PROGRAM_START;
        self.sp = 0;
    }

    /// One tick of the timers: each timer that is not zero goes down by one.
    pub fn decrement_timers(&mut self)
        ensures
            final(self)@ == old(self)@.tick(),
    {
        if self.delay > 0 {
            self.delay -= 1;
        }
        if self.sound > 0 {
            self.sound -= 1;
        }
    }

    /// Copies a program image into memory from address 512 on, without
    /// interpreting it. An image of odd length, or one that does not fit
    /// between address 512 and the end of memory, is refused and leaves the
    /// machine as it was.
    pub fn load_rom(&mut self, data: &[u8]) -> (result: Result<(), RomError>)
        ensures
            result == Err::<(), RomError>(RomError::OddLength) <==> data@.len() % 2 == 1,
            result == Err::<(), RomError>(RomError::TooLarge) <==> data@.len() % 2 == 0
                && data@.len() > MAX_ROM_SIZE,
            result == Ok::<(), RomError>(()) <==> data@.len() % 2 == 0 && data@.len()
                <= MAX_ROM_SIZE,
            result is Ok ==> final(self)@ == old(self)@.with_rom(data@),
            result is Err ==> final(self)@ == old(self)@,
    {
        if data.len() % 2 == 1 {
            return Err(RomError::OddLength);
        }
        if data.len() > MAX_ROM_SIZE {
            return Err(RomError::TooLarge);
        }
        let ghost before = self@;
        let mut a: usize = 0;
        while a < data.len()
            invariant
                a <= data@.len() <= MAX_ROM_SIZE,
                self@ == before.with_rom(data@.take(a as int)),
            decreases data@.len() - a,
        {
            self.memory[512 + a] = data[a];
            a += 1;
        }
        proof {
            assert(data@.take(a as int) =~= data@);
        }
        Ok(())
    }

    /// Reads the instruction at the program counter: two bytes, the most
    /// significant first.
    pub fn read_instruction(&self) -> (code: u16)
        requires
            self@.pc + 1 < MEMORY_SIZE,
        ensures
            code == self@.fetch(),
    {
        let high: u8 = self.memory[self.pc as usize];
        let low: u8 = self.memory[(self.pc + 1) as usize];
        proof {
            assert(((high as u16) << 8) | (low as u16) == high * 256 + low) by (bit_vector);
        }
        ((high as u16) << 8) | (low as u16)
    }

    /// Carries out one instruction and leaves the program counter on the
    /// next one to fetch. Opcodes that stand for no instruction, or for a
    /// routine of the host machine, are passed over and reported. `Fx0A`
    /// with every key up changes nothing and reports that it waits.
    pub fn process_instruction(&mut self, instruction: u16) -> (outcome: Outcome)
        requires
            old(self)@.can_step(spec_decode(instruction)),
        ensures
            final(self)@ == old(self)@.step(spec_decode(instruction)),
            outcome == old(self)@.outcome(spec_decode(instruction)),
    {
        let decoded = decode(instruction);
        self.execute(decoded)
    }

    /// Carries out one instruction if the machine can, as
    /// `process_instruction` does, and reports what became of it. Where the
    /// machine cannot (see [`Machine::can_step`]), nothing changes and the
    /// result is `None`.
    pub fn try_process_instruction(&mut self, instruction: u16) -> (outcome: Option<Outcome>)
        ensures
            outcome is Some <==> old(self)@.can_step(spec_decode(instruction)),
            outcome is Some ==> final(self)@ == old(self)@.step(spec_decode(instruction)),
            outcome is Some ==> outcome == Some(old(self)@.outcome(spec_decode(instruction))),
            outcome is None ==> final(self)@ == old(self)@,
    {
        if self.can_process(instruction) {
            Some(self.process_instruction(instruction))
        } else {
            None
        }
    }

    /// Carries out one decoded instruction.
    fn execute(&mut self, instruction: Instruction) -> (outcome: Outcome)
        requires
            instruction.well_formed(),
            old(self)@.can_step(instruction),
        ensures
            final(self)@ == old(self)@.step(instruction),
            outcome == old(self)@.outcome(instruction),
    {
        match instruction {
            Instruction::Return => {
                self.run_return();
                Outcome::Executed
            },
            Instruction::MachineRoutine { nnn } => {
                self.run_machine_routine(nnn);
                Outcome::UnsupportedRoutine
            },
            Instruction::Jump { nnn } => {
                self.run_jump(nnn);
                Outcome::Executed
            },
            Instruction::Call { nnn } => {
                self.run_call(nnn);
                Outcome::Executed
            },
            Instruction::SkipEqualByte { x, kk } => {
                self.run_skip_equal_byte(x, kk);
                Outcome::Executed
            },
            Instruction::SkipNotEqualByte { x, kk } => {
                self.run_skip_not_equal_byte(x, kk);
                Outcome::Executed
            },
            Instruction::SkipEqual { x, y } => {
                self.run_skip_equal(x, y);
                Outcome::Executed
            },
            Instruction::SkipNotEqual { x, y } => {
                self.run_skip_not_equal(x, y);
                Outcome::Executed
            },
            Instruction::JumpOffset { nnn } => {
                self.run_jump_offset(nnn);
                Outcome::Executed
            },
            Instruction::SkipKeyDown { x } => {
                self.run_skip_key_down(x);
                Outcome::Executed
            },
            Instruction::SkipKeyUp { x } => {
                self.run_skip_key_up(x);
                Outcome::Executed
            },
            Instruction::Unknown => {
                self.run_unknown();
                Outcome::UnknownInstruction
            },
            Instruction::LoadByte { x, kk } => {
                self.run_load_byte(x, kk);
                Outcome::Executed
            },
            Instruction::AddByte { x, kk } => {
                self.run_add_byte(x, kk);
                Outcome::Executed
            },
            Instruction::Move { x, y } => {
                self.run_move(x, y);
                Outcome::Executed
            },
            Instruction::Or { x, y } => {
                self.run_or(x, y);
                Outcome::Executed
            },
            Instruction::And { x, y } => {
                self.run_and(x, y);
                Outcome::Executed
            },
            Instruction::Xor { x, y } => {
                self.run_xor(x, y);
                Outcome::Executed
            },
            Instruction::Add { x, y } => {
                self.run_add(x, y);
                Outcome::Executed
            },
            Instruction::Subtract { x, y } => {
                self.run_subtract(x, y);
                Outcome::Executed
            },
            Instruction::ShiftRight { x, y } => {
                self.run_shift_right(x, y);
                Outcome::Executed
            },
            Instruction::SubtractFrom { x, y } => {
                self.run_subtract_from(x, y);
                Outcome::Executed
            },
            Instruction::ShiftLeft { x, y } => {
                self.run_shift_left(x, y);
                Outcome::Executed
            },
            Instruction::Random { x, kk } => {
                self.run_random(x, kk);
                Outcome::Executed
            },
            Instruction::ReadDelay { x } => {
                self.run_read_delay(x);
                Outcome::Executed
            },
            Instruction::ClearScreen => {
                self.run_clear_screen();
                Outcome::Executed
            },
            Instruction::LoadIndex { nnn } => {
                self.run_load_index(nnn);
                Outcome::Executed
            },
            Instruction::Draw { x, y, n } => {
                self.run_draw(x, y, n);
                Outcome::Executed
            },
            Instruction::WaitKey { x } => self.run_wait_key(x),
            Instruction::SetDelay { x } => {
                self.run_set_delay(x);
                Outcome::Executed
            },
            Instruction::SetSound { x } => {
                self.run_set_sound(x);
                Outcome::Executed
            },
            Instruction::AddIndex { x } => {
                self.run_add_index(x);
                Outcome::Executed
            },
            Instruction::LoadGlyph { x } => {
                self.run_load_glyph(x);
                Outcome::Executed
            },
            Instruction::StoreDecimal { x } => {
                self.run_store_decimal(x);
                Outcome::Executed
            },
            Instruction::StoreRegisters { x } => {
                self.run_store_registers(x);
                Outcome::Executed
            },
            Instruction::LoadRegisters { x } => {
                self.run_load_registers(x);
                Outcome::Executed
            },
        }
    }

    /// `00EE`: returns from a subroutine.
    fn run_return(&mut self)
        requires
            old(self)@.can_step(Instruction::Return),
        ensures
            final(self)@ == old(self)@.step(Instruction::Return),
    {
        self.sp -= 1;
        self.pc = self.stack[self.sp as usize];
    }

    /// `0nnn`: passes over a routine of the host machine.
    fn run_machine_routine(&mut self, nnn: u16)
        requires
            nnn < 0x1000,
            old(self)@.can_step(Instruction::MachineRoutine { nnn }),
        ensures
            final(self)@ == old(self)@.step(Instruction::MachineRoutine { nnn }),
    {
        self.proceed();
    }

    /// `1nnn`: jumps to `nnn`.
    fn run_jump(&mut self, nnn: u16)
        requires
            nnn < 0x1000,
            old(self)@.can_step(Instruction::Jump { nnn }),
        ensures
            final(self)@ == old(self)@.step(Instruction::Jump { nnn }),
    {
        self.jump(nnn);
    }

    /// `2nnn`: calls the subroutine at `nnn`.
    fn run_call(&mut self, nnn: u16)
        requires
            nnn < 0x1000,
            old(self)@.can_step(Instruction::Call { nnn }),
        ensures
            final(self)@ == old(self)@.step(Instruction::Call { nnn }),
    {
        self.stack[self.sp as usize] = self.pc + 2;
        self.sp += 1;
        self.pc = nnn;
    }

    /// `3xkk`: skips if `Vx == kk`.
    fn run_skip_equal_byte(&mut self, x: u8, kk: u8)
        requires
            x < 16,
            old(self)@.can_step(Instruction::SkipEqualByte { x, kk }),
        ensures
            final(self)@ == old(self)@.step(Instruction::SkipEqualByte { x, kk }),
    {
        self.advance(self.v[x as usize] == kk);
    }

    /// `4xkk`: skips if `Vx != kk`.
    fn run_skip_not_equal_byte(&mut self, x: u8, kk: u8)
        requires
            x < 16,
            old(self)@.can_step(Instruction::SkipNotEqualByte { x, kk }),
        ensures
            final(self)@ == old(self)@.step(Instruction::SkipNotEqualByte { x, kk }),
    {
        self.advance(self.v[x as usize] != kk);
    }

    /// `5xy0`: skips if `Vx == Vy`.
    fn run_skip_equal(&mut self, x: u8, y: u8)
        requires
            x < 16,
            y < 16,
            old(self)@.can_step(Instruction::SkipEqual { x, y }),
        ensures
            final(self)@ == old(self)@.step(Instruction::SkipEqual { x, y }),
    {
        self.advance(self.v[x as usize] == self.v[y as usize]);
    }

    /// `9xy0`: skips if `Vx != Vy`.
    fn run_skip_not_equal(&mut self, x: u8, y: u8)
        requires
            x < 16,
            y < 16,
            old(self)@.can_step(Instruction::SkipNotEqual { x, y }),
        ensures
            final(self)@ == old(self)@.step(Instruction::SkipNotEqual { x, y }),
    {
        self.advance(self.v[x as usize] != self.v[y as usize]);
    }

    /// `Bnnn`: jumps to `nnn + V0`.
    fn run_jump_offset(&mut self, nnn: u16)
        requires
            nnn < 0x1000,
            old(self)@.can_step(Instruction::JumpOffset { nnn }),
        ensures
            final(self)@ == old(self)@.step(Instruction::JumpOffset { nnn }),
    {
        self.jump(nnn + self.v[0] as u16);
    }

    /// `Ex9E`: skips if key `Vx` is down.
    fn run_skip_key_down(&mut self, x: u8)
        requires
            x < 16,
            old(self)@.can_step(Instruction::SkipKeyDown { x }),
        ensures
            final(self)@ == old(self)@.step(Instruction::SkipKeyDown { x }),
    {
        self.advance(self.keypad.is_key_down(self.v[x as usize]));
    }

    /// `ExA1`: skips if key `Vx` is up.
    fn run_skip_key_up(&mut self, x: u8)
        requires
            x < 16,
            old(self)@.can_step(Instruction::SkipKeyUp { x }),
        ensures
            final(self)@ == old(self)@.step(Instruction::SkipKeyUp { x }),
    {
        self.advance(!self.keypad.is_key_down(self.v[x as usize]));
    }

    /// Passes over an opcode that stands for no instruction.
    fn run_unknown(&mut self)
        requires
            old(self)@.can_step(Instruction::Unknown),
        ensures
            final(self)@ == old(self)@.step(Instruction::Unknown),
    {
        self.proceed();
    }

    /// `6xkk`: `Vx := kk`.
    fn run_load_byte(&mut self, x: u8, kk: u8)
        requires
            x < 16,
            old(self)@.can_step(Instruction::LoadByte { x, kk }),
        ensures
            final(self)@ == old(self)@.step(Instruction::LoadByte { x, kk }),
    {
        self.set_register(x, kk);
        self.proceed();
    }

    /// `7xkk`: `Vx := Vx + kk`, wrapping.
    fn run_add_byte(&mut self, x: u8, kk: u8)
        requires
            x < 16,
            old(self)@.can_step(Instruction::AddByte { x, kk }),
        ensures
            final(self)@ == old(self)@.step(Instruction::AddByte { x, kk }),
    {
        self.set_register(x, wrapping_sum(self.v[x as usize], kk));
        self.proceed();
    }

    /// `8xy0`: `Vx := Vy`.
    fn run_move(&mut self, x: u8, y: u8)
        requires
            x < 16,
            y < 16,
            old(self)@.can_step(Instruction::Move { x, y }),
        ensures
            final(self)@ == old(self)@.step(Instruction::Move { x, y }),
    {
        self.set_register(x, self.v[y as usize]);
        self.proceed();
    }

    /// `8xy1`: `Vx := Vx | Vy`.
    fn run_or(&mut self, x: u8, y: u8)
        requires
            x < 16,
            y < 16,
            old(self)@.can_step(Instruction::Or { x, y }),
        ensures
            final(self)@ == old(self)@.step(Instruction::Or { x, y }),
    {
        self.set_register(x, self.v[x as usize] | self.v[y as usize]);
        self.proceed();
    }

    /// `8xy2`: `Vx := Vx & Vy`.
    fn run_and(&mut self, x: u8, y: u8)
        requires
            x < 16,
            y < 16,
            old(self)@.can_step(Instruction::And { x, y }),
        ensures
            final(self)@ == old(self)@.step(Instruction::And { x, y }),
    {
        self.set_register(x, self.v[x as usize] & self.v[y as usize]);
        self.proceed();
    }

    /// `8xy3`: `Vx := Vx ^ Vy`.
    fn run_xor(&mut self, x: u8, y: u8)
        requires
            x < 16,
            y < 16,
            old(self)@.can_step(Instruction::Xor { x, y }),
        ensures
            final(self)@ == old(self)@.step(Instruction::Xor { x, y }),
    {
        self.set_register(x, self.v[x as usize] ^ self.v[y as usize]);
        self.proceed();
    }

    /// `8xy4`: `Vx := Vx + Vy`, then `VF :=` carry.
    fn run_add(&mut self, x: u8, y: u8)
        requires
            x < 16,
            y < 16,
            old(self)@.can_step(Instruction::Add { x, y }),
        ensures
            final(self)@ == old(self)@.step(Instruction::Add { x, y }),
    {
        let left: u8 = self.v[x as usize];
        let right: u8 = self.v[y as usize];
        self.set_register(x, wrapping_sum(left, right));
        self.set_flag(left as u16 + right as u16 > 255);
        self.proceed();
    }

    /// `8xy5`: `Vx := Vx - Vy`, then `VF :=` 1 if nothing was borrowed.
    fn run_subtract(&mut self, x: u8, y: u8)
        requires
            x < 16,
            y < 16,
            old(self)@.can_step(Instruction::Subtract { x, y }),
        ensures
            final(self)@ == old(self)@.step(Instruction::Subtract { x, y }),
    {
        let left: u8 = self.v[x as usize];
        let right: u8 = self.v[y as usize];
        self.set_register(x, wrapping_difference(left, right));
        self.set_flag(left >= right);
        self.proceed();
    }

    /// `8xy6`: `VF := Vy & 1`, then `Vx := Vy >> 1`.
    fn run_shift_right(&mut self, x: u8, y: u8)
        requires
            x < 16,
            y < 16,
            old(self)@.can_step(Instruction::ShiftRight { x, y }),
        ensures
            final(self)@ == old(self)@.step(Instruction::ShiftRight { x, y }),
    {
        let (_, out) = shifted_right(self.v[y as usize]);
        self.set_flag(out);
        // Where `Vy` is `VF`, the shift sees the flag that was just written.
        let (value, _) = shifted_right(self.v[y as usize]);
        self.set_register(x, value);
        self.proceed();
    }

    /// `8xy7`: `Vx := Vy - Vx`, then `VF :=` 1 if nothing was borrowed.
    fn run_subtract_from(&mut self, x: u8, y: u8)
        requires
            x < 16,
            y < 16,
            old(self)@.can_step(Instruction::SubtractFrom { x, y }),
        ensures
            final(self)@ == old(self)@.step(Instruction::SubtractFrom { x, y }),
    {
        let left: u8 = self.v[y as usize];
        let right: u8 = self.v[x as usize];
        self.set_register(x, wrapping_difference(left, right));
        self.set_flag(left >= right);
        self.proceed();
    }

    /// `8xyE`: `VF := Vy >> 7`, then `Vx := Vy << 1`.
    fn run_shift_left(&mut self, x: u8, y: u8)
        requires
            x < 16,
            y < 16,
            old(self)@.can_step(Instruction::ShiftLeft { x, y }),
        ensures
            final(self)@ == old(self)@.step(Instruction::ShiftLeft { x, y }),
    {
        let (_, out) = shifted_left(self.v[y as usize]);
        self.set_flag(out);
        // Where `Vy` is `VF`, the shift sees the flag that was just written.
        let (value, _) = shifted_left(self.v[y as usize]);
        self.set_register(x, value);
        self.proceed();
    }

    /// `Cxkk`: `Vx := random & kk`.
    fn run_random(&mut self, x: u8, kk: u8)
        requires
            x < 16,
            old(self)@.can_step(Instruction::Random { x, kk }),
        ensures
            final(self)@ == old(self)@.step(Instruction::Random { x, kk }),
    {
        self.set_register(x, self.random & kk);
        self.proceed();
    }

    /// `Fx07`: `Vx := delay`.
    fn run_read_delay(&mut self, x: u8)
        requires
            x < 16,
            old(self)@.can_step(Instruction::ReadDelay { x }),
        ensures
            final(self)@ == old(self)@.step(Instruction::ReadDelay { x }),
    {
        self.set_register(x, self.delay);
        self.proceed();
    }

    /// `00E0`: clears the display.
    fn run_clear_screen(&mut self)
        requires
            old(self)@.can_step(Instruction::ClearScreen),
        ensures
            final(self)@ == old(self)@.step(Instruction::ClearScreen),
    {
        self.screen.clear();
        self.proceed();
    }

    /// `Annn`: `I := nnn`.
    fn run_load_index(&mut self, nnn: u16)
        requires
            nnn < 0x1000,
            old(self)@.can_step(Instruction::LoadIndex { nnn }),
        ensures
            final(self)@ == old(self)@.step(Instruction::LoadIndex { nnn }),
    {
        self.set_index(nnn);
        self.proceed();
    }

    /// `Dxyn`: draws the `n` bytes at `I` at `(Vx, Vy)`, then `VF :=` collision.
    fn run_draw(&mut self, x: u8, y: u8, n: u8)
        requires
            x < 16,
            y < 16,
            n < 16,
            old(self)@.can_step(Instruction::Draw { x, y, n }),
        ensures
            final(self)@ == old(self)@.step(Instruction::Draw { x, y, n }),
    {
        let collision = self.draw(self.v[x as usize], self.v[y as usize], n);
        self.set_flag(collision);
        self.proceed();
    }

    /// `Fx0A`: `Vx :=` the first key that is down, or waits.
    fn run_wait_key(&mut self, x: u8) -> (outcome: Outcome)
        requires
            x < 16,
            old(self)@.can_step(Instruction::WaitKey { x }),
        ensures
            final(self)@ == old(self)@.step(Instruction::WaitKey { x }),
            outcome == old(self)@.outcome(Instruction::WaitKey { x }),
    {
        match self.keypad.get_first_key_down() {
            Some(key) => {
                self.set_register(x, key);
                self.proceed();
            },
            None => {
                return Outcome::AwaitingKey;
            },
        }
        Outcome::Executed
    }

    /// `Fx15`: `delay := Vx`.
    fn run_set_delay(&mut self, x: u8)
        requires
            x < 16,
            old(self)@.can_step(Instruction::SetDelay { x }),
        ensures
            final(self)@ == old(self)@.step(Instruction::SetDelay { x }),
    {
        self.delay = self.v[x as usize];
        self.proceed();
    }

    /// `Fx18`: `sound := Vx`.
    fn run_set_sound(&mut self, x: u8)
        requires
            x < 16,
            old(self)@.can_step(Instruction::SetSound { x }),
        ensures
            final(self)@ == old(self)@.step(Instruction::SetSound { x }),
    {
        self.sound = self.v[x as usize];
        self.proceed();
    }

    /// `Fx1E`: `I := I + Vx`.
    fn run_add_index(&mut self, x: u8)
        requires
            x < 16,
            old(self)@.can_step(Instruction::AddIndex { x }),
        ensures
            final(self)@ == old(self)@.step(Instruction::AddIndex { x }),
    {
        self.set_index(self.i + self.v[x as usize] as u16);
        self.proceed();
    }

    /// `Fx29`: `I := 5 * Vx`.
    fn run_load_glyph(&mut self, x: u8)
        requires
            x < 16,
            old(self)@.can_step(Instruction::LoadGlyph { x }),
        ensures
            final(self)@ == old(self)@.step(Instruction::LoadGlyph { x }),
    {
        self.set_index(self.v[x as usize] as u16 * 5);
        self.proceed();
    }

    /// `Fx33`: stores the decimal digits of `Vx` at `I`.
    fn run_store_decimal(&mut self, x: u8)
        requires
            x < 16,
            old(self)@.can_step(Instruction::StoreDecimal { x }),
        ensures
            final(self)@ == old(self)@.step(Instruction::StoreDecimal { x }),
    {
        self.store_decimal(self.v[x as usize]);
        self.proceed();
    }

    /// `Fx55`: stores the registers below `Vx` at `I`.
    fn run_store_registers(&mut self, x: u8)
        requires
            x < 16,
            old(self)@.can_step(Instruction::StoreRegisters { x }),
        ensures
            final(self)@ == old(self)@.step(Instruction::StoreRegisters { x }),
    {
        self.store_registers(x);
        self.proceed();
    }

    /// `Fx65`: loads the registers below `Vx` from `I`.
    fn run_load_registers(&mut self, x: u8)
        requires
            x < 16,
            old(self)@.can_step(Instruction::LoadRegisters { x }),
        ensures
            final(self)@ == old(self)@.step(Instruction::LoadRegisters { x }),
    {
        self.load_registers(x);
        self.proceed();
    }

    /// Whether `process_instruction` can carry out `instruction` on the
    /// machine as it stands. A host tests this before each instruction and
    /// stops the program where it does not hold.
    pub fn can_process(&self, instruction: u16) -> (ok: bool)
        ensures
            ok == self@.can_step(spec_decode(instruction)),
    {
        let room: u16 = 0xFFFF - self.pc;
        match decode(instruction) {
            Instruction::Return => 1 <= self.sp && self.sp <= 16,
            Instruction::Jump { nnn } => true,
            Instruction::JumpOffset { nnn } => true,
            Instruction::Call { nnn } => self.sp < 16 && room >= 2,
            Instruction::SkipEqualByte { x, kk } => room >= Self::width(self.v[x as usize] == kk),
            Instruction::SkipNotEqualByte { x, kk } => room >= Self::width(
                self.v[x as usize] != kk,
            ),
            Instruction::SkipEqual { x, y } => room >= Self::width(
                self.v[x as usize] == self.v[y as usize],
            ),
            Instruction::SkipNotEqual { x, y } => room >= Self::width(
                self.v[x as usize] != self.v[y as usize],
            ),
            Instruction::SkipKeyDown { x } => {
                let key: u8 = self.v[x as usize];
                key < 16 && room >= Self::width(self.keypad.is_key_down(key))
            },
            Instruction::SkipKeyUp { x } => {
                let key: u8 = self.v[x as usize];
                key < 16 && room >= Self::width(!self.keypad.is_key_down(key))
            },
            Instruction::WaitKey { x } => self.keypad.get_first_key_down().is_none() || room >= 2,
            Instruction::Draw { x, y, n } => room >= 2 && self.i as usize + n as usize <= 4096,
            Instruction::AddIndex { x } => room >= 2 && self.v[x as usize] as u16 <= 0xFFFF
                - self.i,
            Instruction::StoreDecimal { x } => room >= 2 && self.i < 4094,
            Instruction::StoreRegisters { x } => room >= 2 && (x == 0 || self.i as usize
                + x as usize <= 4096),
            Instruction::LoadRegisters { x } => room >= 2 && (x == 0 || self.i as usize
                + x as usize <= 4096),
            _ => room >= 2,
        }
    }

    /// How far an instruction moves the program counter: over itself, and
    /// over the next one too if it skips.
    fn width(skip: bool) -> (bytes: u16)
        ensures
            bytes == if skip { 4int } else { 2int },
    {
        if skip {
            4
        } else {
            2
        }
    }

    /// Moves the program counter to the next instruction.
    fn proceed(&mut self)
        requires
            old(self)@.pc + 2 <= 0xFFFF,
        ensures
            final(self)@ == old(self)@.proceed(),
    {
        self.pc += 2;
    }

    /// Moves the program counter to the next instruction, or past it.
    fn advance(&mut self, skip: bool)
        requires
            old(self)@.proceed_or_skip(skip).pc <= 0xFFFF,
        ensures
            final(self)@ == old(self)@.proceed_or_skip(skip),
    {
        self.pc += if skip { 4 } else { 2 };
    }

    /// Moves the program counter to `target`.
    fn jump(&mut self, target: u16)
        ensures
            final(self)@ == (Machine { pc: target as int, ..old(self)@ }),
    {
        self.pc = target;
    }

    /// Stores `value` in register `Vx`.
    fn set_register(&mut self, x: u8, value: u8)
        requires
            x < 16,
        ensures
            final(self)@ == old(self)@.set_reg(x, value),
    {
        self.v[x as usize] = value;
    }

    /// Stores 1 or 0 in `VF`.
    fn set_flag(&mut self, on: bool)
        ensures
            final(self)@ == old(self)@.set_flag(on),
    {
        self.v[0xF] = if on { 1 } else { 0 };
    }

    /// Stores `value` in the index register.
    fn set_index(&mut self, value: u16)
        ensures
            final(self)@ == (Machine { i: value as int, ..old(self)@ }),
    {
        self.i = value;
    }

    /// Draws the `n` bytes of memory at `I` as a sprite at `(column, row)`
    /// and returns whether it collided.
    fn draw(&mut self, column: u8, row: u8, n: u8) -> (collision: bool)
        requires
            old(self)@.i + n <= 4096,
        ensures
            final(self)@ == (Machine {
                screen: drawn(
                    old(self)@.screen,
                    old(self)@.memory.subrange(old(self)@.i, old(self)@.i + n),
                    column as int,
                    row as int,
                ),
                ..old(self)@
            }),
            collision == collides(
                old(self)@.screen,
                old(self)@.memory.subrange(old(self)@.i, old(self)@.i + n),
                column as int,
                row as int,
            ),
    {
        let start: usize = self.i as usize;
        let end: usize = start + n as usize;
        self.screen.draw_sprite(
            column as usize,
            row as usize,
            slice_subrange(self.memory.as_slice(), start, end),
        )
    }

    /// Stores the decimal digits of `value` at `I`, `I + 1` and `I + 2`: the
    /// units first, then the tens, then the hundreds.
    fn store_decimal(&mut self, value: u8)
        requires
            old(self)@.i + 2 < 4096,
        ensures
            final(self)@ == (Machine {
                memory: old(self)@.memory.update(old(self)@.i, value % 10).update(
                    old(self)@.i + 1,
                    (value / 10) % 10,
                ).update(old(self)@.i + 2, (value / 100) % 10),
                ..old(self)@
            }),
    {
        let at: usize = self.i as usize;
        self.memory[at] = value % 10;
        self.memory[at + 1] = (value / 10) % 10;
        self.memory[at + 2] = (value / 100) % 10;
    }

    /// Stores the `count` registers `V0` to `V(count - 1)` in memory from `I`
    /// on and moves `I` past them.
    fn store_registers(&mut self, count: u8)
        requires
            count < 16,
            count > 0 ==> old(self)@.i + count <= 4096,
        ensures
            final(self)@ == (Machine {
                memory: Seq::new(
                    4096,
                    |a: int|
                        if old(self)@.i <= a < old(self)@.i + count {
                            old(self)@.v[a - old(self)@.i]
                        } else {
                            old(self)@.memory[a]
                        },
                ),
                i: old(self)@.i + count,
                ..old(self)@
            }),
    {
        let ghost before = self@;
        let mut k: u8 = 0;
        while k < count
            invariant
                k <= count < 16,
                count > 0 ==> before.i + count <= 4096,
                self@ == (Machine {
                    memory: Seq::new(
                        4096,
                        |a: int|
                            if before.i <= a < before.i + k {
                                before.v[a - before.i]
                            } else {
                                before.memory[a]
                            },
                    ),
                    i: before.i + k,
                    ..before
                }),
            decreases count - k,
        {
            self.memory[self.i as usize] = self.v[k as usize];
            self.i += 1;
            k += 1;
        }
    }

    /// Loads the `count` registers `V0` to `V(count - 1)` from memory at `I`
    /// on and moves `I` past what was read.
    fn load_registers(&mut self, count: u8)
        requires
            count < 16,
            count > 0 ==> old(self)@.i + count <= 4096,
        ensures
            final(self)@ == (Machine {
                v: Seq::new(
                    16,
                    |k: int|
                        if k < count {
                            old(self)@.memory[old(self)@.i + k]
                        } else {
                            old(self)@.v[k]
                        },
                ),
                i: old(self)@.i + count,
                ..old(self)@
            }),
    {
        let ghost before = self@;
        let mut k: u8 = 0;
        while k < count
            invariant
                k <= count < 16,
                count > 0 ==> before.i + count <= 4096,
                self@ == (Machine {
                    v: Seq::new(
                        16,
                        |j: int| if j < k { before.memory[before.i + j] } else { before.v[j] },
                    ),
                    i: before.i + k,
                    ..before
                }),
            decreases count - k,
        {
            self.v[k as usize] = self.memory[self.i as usize];
            self.i += 1;
            k += 1;
        }
    }
}

/// The opcode `8xy4` adds `Vy` to `Vx`: `VF` becomes 1 if the sum is over 255
/// and 0 if not, and `Vx`, unless it is `VF` itself, becomes the sum modulo
/// 256.
pub proof fn lemma_add_with_carry(cpu: CPU, x: u8, y: u8)
    requires
        x < 16,
        y < 16,
    ensures
        spec_decode(opcode(8, x as int, y as int, 4)) == (Instruction::Add { x, y }),
        cpu@.step(Instruction::Add { x, y }).reg(0xF) == 1 <==> cpu@.reg(x) + cpu@.reg(y) > 255,
        cpu@.step(Instruction::Add { x, y }).reg(0xF) == 0 <==> cpu@.reg(x) + cpu@.reg(y) <= 255,
        x != 0xF ==> cpu@.step(Instruction::Add { x, y }).reg(x) == (cpu@.reg(x) + cpu@.reg(y))
            % 256,
{
    lemma_opcode_parts(8, x as int, y as int, 4);
}

/// The opcode `8xy5` subtracts `Vy` from `Vx`: `VF` becomes 1 if `Vx >= Vy`,
/// so that nothing is borrowed, and 0 if not, and `Vx`, unless it is `VF`
/// itself, becomes the difference modulo 256.
pub proof fn lemma_subtract_with_borrow(cpu: CPU, x: u8, y: u8)
    requires
        x < 16,
        y < 16,
    ensures
        spec_decode(opcode(8, x as int, y as int, 5)) == (Instruction::Subtract { x, y }),
        cpu@.step(Instruction::Subtract { x, y }).reg(0xF) == 1 <==> cpu@.reg(x) >= cpu@.reg(y),
        cpu@.step(Instruction::Subtract { x, y }).reg(0xF) == 0 <==> cpu@.reg(x) < cpu@.reg(y),
        x != 0xF ==> cpu@.step(Instruction::Subtract { x, y }).reg(x) == (cpu@.reg(x) - cpu@.reg(
            y,
        )) % 256,
{
    lemma_opcode_parts(8, x as int, y as int, 5);
}

/// A return (`00EE`) right after a call (`2nnn`) puts the program counter on
/// the instruction after the call and the stack pointer where it was before
/// the call.
pub proof fn lemma_call_then_return(cpu: CPU, a: int, b: int, c: int)
    requires
        0 <= a < 16,
        0 <= b < 16,
        0 <= c < 16,
        cpu@.can_step(spec_decode(opcode(2, a, b, c))),
    ensures
        spec_decode(opcode(2, a, b, c)) == (Instruction::Call {
            nnn: (a * 0x100 + b * 0x10 + c) as u16,
        }),
        spec_decode(0x00EE) == Instruction::Return,
        cpu@.step(spec_decode(opcode(2, a, b, c))).pc == a * 0x100 + b * 0x10 + c,
        cpu@.step(spec_decode(opcode(2, a, b, c))).sp == cpu@.sp + 1,
        cpu@.step(spec_decode(opcode(2, a, b, c))).can_step(spec_decode(0x00EE)),
        cpu@.step(spec_decode(opcode(2, a, b, c))).step(spec_decode(0x00EE)).pc == cpu@.pc + 2,
        cpu@.step(spec_decode(opcode(2, a, b, c))).step(spec_decode(0x00EE)).sp == cpu@.sp,
{
    lemma_opcode_parts(2, a, b, c);
}

/// The six skip opcodes `3xkk`, `4xkk`, `5xy0`, `9xy0`, `Ex9E` and `ExA1`
/// decode to the six skip instructions.
pub proof fn lemma_decode_skips(x: u8, y: u8, k1: int, k2: int)
    requires
        x < 16,
        y < 16,
        0 <= k1 < 16,
        0 <= k2 < 16,
    ensures
        spec_decode(opcode(3, x as int, k1, k2)) == (Instruction::SkipEqualByte {
            x,
            kk: (k1 * 0x10 + k2) as u8,
        }),
        spec_decode(opcode(4, x as int, k1, k2)) == (Instruction::SkipNotEqualByte {
            x,
            kk: (k1 * 0x10 + k2) as u8,
        }),
        spec_decode(opcode(5, x as int, y as int, 0)) == (Instruction::SkipEqual { x, y }),
        spec_decode(opcode(9, x as int, y as int, 0)) == (Instruction::SkipNotEqual { x, y }),
        spec_decode(opcode(0xE, x as int, 9, 0xE)) == (Instruction::SkipKeyDown { x }),
        spec_decode(opcode(0xE, x as int, 0xA, 1)) == (Instruction::SkipKeyUp { x }),
{
    lemma_opcode_parts(3, x as int, k1, k2);
    lemma_opcode_parts(4, x as int, k1, k2);
    lemma_opcode_parts(5, x as int, y as int, 0);
    lemma_opcode_parts(9, x as int, y as int, 0);
    lemma_opcode_parts(0xE, x as int, 9, 0xE);
    lemma_opcode_parts(0xE, x as int, 0xA, 1);
}

/// A skip instruction moves the program counter by 4 when its condition
/// holds and by 2 when it does not, and changes nothing else.
pub proof fn lemma_skip_width(cpu: CPU, instruction: Instruction)
    requires
        instruction is SkipEqualByte || instruction is SkipNotEqualByte || instruction is SkipEqual
            || instruction is SkipNotEqual || instruction is SkipKeyDown
            || instruction is SkipKeyUp,
    ensures
        cpu@.skips(instruction) ==> cpu@.step(instruction).pc == cpu@.pc + 4,
        !cpu@.skips(instruction) ==> cpu@.step(instruction).pc == cpu@.pc + 2,
        cpu@.step(instruction) == (Machine { pc: cpu@.step(instruction).pc, ..cpu@ }),
{
}

} // verus!
