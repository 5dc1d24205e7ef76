//! The processor: registers, timers, keypad and the fetch-decode-execute
//! cycle over memory, stack and display.

use crate::machine::{flag, opcode_at, Fault, Instruction, Machine, Tick, START_ADDR};
use crate::memory::{initial_memory, overwrite, Memory, MEMORY_SIZE};
use crate::quirks::{default_quirks, Quirk, Quirks};
use crate::stack::Stack;
use crate::virtual_buffer::{blank, VirtualDisplay};
use vstd::prelude::*;

verus! {

/// The magnification of the display that a new machine is built with.
pub const WINDOW_SCALE: usize = 20;

/// Why a program could not be loaded.
#[derive(Clone, Copy, Debug, PartialEq, Eq, Structural)]
pub enum LoadError {
    /// The program does not fit between the start address and the end of
    /// memory.
    TooLarge,
}

/// The most bytes a program can have.
pub const MAX_PROGRAM_SIZE: usize = 3584;

/// The number of a general register: `0x0` to `0xF`.
#[derive(Clone, Copy, Debug)]
struct Register {
    index: u8,
}

impl Register {
    #[verifier::type_invariant]
    spec fn inv(&self) -> bool {
        self.index < 16
    }
}

/// The main emulator state. Its view is the `Machine` it stands for.
#[derive(Debug)]
pub struct Chip8 {
    /// The RAM.
    memory: Memory,
    /// The sixteen general registers.
    v_registers: [u8; 16],
    /// The delay timer.
    delay_timer: u8,
    /// The sound timer.
    sound_timer: u8,
    /// The program counter.
    program_counter: u16,
    /// The index register, `I`.
    index_register: u16,
    /// The call stack.
    stack: Stack,
    /// The display.
    window: VirtualDisplay,
    /// Which keys are down.
    keys: [bool; 16],
    /// The register that receives the next released key, while the
    /// processor waits for one.
    key_wait_register: Option<Register>,
    /// The quirks in force.
    quirks: Quirks,
}

impl View for Chip8 {
    type V = Machine;

    closed spec fn view(&self) -> Machine {
        Machine {
            memory: self.memory@,
            v: self.v_registers@,
            delay_timer: self.delay_timer,
            sound_timer: self.sound_timer,
            pc: self.program_counter,
            index: self.index_register,
            stack: self.stack@,
            display: self.window@,
            scale: self.window.scale(),
            keys: self.keys@,
            key_wait: match self.key_wait_register {
                Some(register) => Some(register.index),
                None => None,
            },
            quirks: self.quirks@,
        }
    }
}

/// The machine as it is switched on: the font in memory, everything else
/// zero, the program counter at the start address.
pub open spec fn initial_machine() -> Machine {
    Machine {
        memory: initial_memory(),
        v: Seq::new(16, |i: int| 0u8),
        delay_timer: 0,
        sound_timer: 0,
        pc: START_ADDR,
        index: 0,
        stack: Seq::empty(),
        display: blank(),
        scale: WINDOW_SCALE as nat,
        keys: Seq::new(16, |i: int| false),
        key_wait: None,
        quirks: default_quirks(),
    }
}

/// Draws a byte with `rand::random` from the thread's generator. Nothing is
/// claimed of the byte: callers hold for every value.
#[verifier::external_body]
fn random_byte() -> (byte: u8) {
    rand::random::<u8>()
}

impl Chip8 {
    /// Creates a machine with the default quirks and nothing loaded.
    pub fn new() -> (chip: Self)
        ensures
            chip@ == initial_machine(),
            chip@.wf(),
    {
        assert((64 * WINDOW_SCALE) * (32 * WINDOW_SCALE) == 819200) by (nonlinear_arith)
            requires
                WINDOW_SCALE == 20,
        ;
        let chip = Self {
            window: VirtualDisplay::new(WINDOW_SCALE),
            v_registers: [0; 16],
            delay_timer: 0,
            sound_timer: 0,
            program_counter: START_ADDR,
            index_register: 0,
            stack: Stack::new(),
            memory: Memory::new(),
            keys: [false; 16],
            key_wait_register: None,
            quirks: Quirks::default(),
        };
        proof {
            assert(chip@.v =~= initial_machine().v);
            assert(chip@.keys =~= initial_machine().keys);
            chip.lemma_wf();
        }
        chip
    }

    /// The view of a machine is well formed.
    proof fn lemma_wf(&self)
        requires
            self.key_wait_register matches Some(register) ==> register.index < 16,
        ensures
            self@.wf(),
    {
        self.memory.lemma_len();
        self.stack.lemma_bounded();
        self.window.lemma_len();
    }

    /// Reads the opcode at the program counter and moves the program
    /// counter behind it.
    fn fetch(&mut self) -> (opcode: Result<u16, Fault>)
        ensures
            old(self)@.can_fetch() ==> opcode == Ok::<u16, Fault>(
                opcode_at(old(self)@.memory, old(self)@.pc as int),
            ) && final(self)@ == (Machine { pc: (old(self)@.pc + 2) as u16, ..old(self)@ }),
            !old(self)@.can_fetch() ==> opcode == Err::<u16, Fault>(Fault::FetchOutOfBounds)
                && final(self)@ == old(self)@,
    {
        let pc = self.program_counter as usize;
        if pc + 1 >= MEMORY_SIZE {
            return Err(Fault::FetchOutOfBounds);
        }
        let high = self.memory.get(pc) as u16;
        let low = self.memory.get(pc + 1) as u16;
        let opcode = (high << 8) | low;
        assert(opcode == high * 0x100 + low) by (bit_vector)
            requires
                opcode == (high << 8) | low,
                high < 0x100,
                low < 0x100,
        ;
        self.program_counter += 2;
        Ok(opcode)
    }

    /// Reads register `x`.
    fn reg(&self, x: u8) -> (value: u8)
        requires
            x < 16,
        ensures
            value == self@.v[x as int],
    {
        self.v_registers[x as usize]
    }

    /// Writes register `x`.
    fn set_reg(&mut self, x: u8, value: u8)
        requires
            x < 16,
        ensures
            final(self)@ == old(self)@.with_v(x as int, value),
    {
        self.v_registers[x as usize] = value;
    }

    /// Writes the flag register.
    fn set_flag(&mut self, value: u8)
        ensures
            final(self)@ == old(self)@.with_flag(value),
    {
        self.v_registers[0xF] = value;
    }

    /// Continues at `addr`.
    fn jump(&mut self, addr: u16)
        ensures
            final(self)@ == (Machine { pc: addr, ..old(self)@ }),
    {
        self.program_counter = addr;
    }

    /// Writes the index register.
    fn set_index(&mut self, value: u16)
        ensures
            final(self)@ == (Machine { index: value, ..old(self)@ }),
    {
        self.index_register = value;
    }

    /// Moves the program counter past the next instruction if `condition`
    /// holds.
    fn skip_if(&mut self, condition: bool)
        ensures
            final(self)@ == old(self)@.skip_if(condition),
    {
        if condition {
            self.program_counter = self.program_counter.wrapping_add(2);
        }
    }

    /// Clears the flag register after OR, AND and XOR if the quirk asks for
    /// it.
    fn after_logic(&mut self)
        ensures
            final(self)@ == old(self)@.after_logic(),
    {
        if self.quirks.contains(Quirk::VfReset) {
            self.v_registers[0xF] = 0;
        }
    }

    /// Advances the index register after a bulk save or load of `v0..=vX`
    /// if the quirk asks for it.
    fn advance_index(&mut self, x: u8)
        requires
            old(self)@.index + x < MEMORY_SIZE,
        ensures
            final(self)@ == (Machine { index: old(self)@.index_after_bulk(x), ..old(self)@ }),
    {
        if self.quirks.contains(Quirk::Memory) {
            self.index_register += x as u16 + 1;
        }
    }

    /// The register that a shift reads.
    fn shift_source(&self, x: u8, y: u8) -> (source: u8)
        requires
            x < 16,
            y < 16,
        ensures
            source == self@.shift_source(x, y),
    {
        if self.quirks.contains(Quirk::Shifting) {
            self.v_registers[x as usize]
        } else {
            self.v_registers[y as usize]
        }
    }

    /// Returns from a subroutine.
    fn ret(&mut self) -> (outcome: Result<(), Fault>)
        ensures
            match old(self)@.apply(Instruction::Return, 0) {
                Ok(next) => outcome is Ok && final(self)@ == next,
                Err(fault) => outcome == Err::<(), Fault>(fault) && final(self)@ == old(self)@,
            },
    {
        match self.stack.pop() {
            Ok(addr) => {
                self.program_counter = addr;
                Ok(())
            },
            Err(_) => Err(Fault::StackUnderflow),
        }
    }

    /// Calls the subroutine at `addr`.
    fn call(&mut self, addr: u16) -> (outcome: Result<(), Fault>)
        ensures
            match old(self)@.apply(Instruction::Call { addr }, 0) {
                Ok(next) => outcome is Ok && final(self)@ == next,
                Err(fault) => outcome == Err::<(), Fault>(fault) && final(self)@ == old(self)@,
            },
    {
        match self.stack.push(self.program_counter) {
            Ok(()) => {
                self.program_counter = addr;
                Ok(())
            },
            Err(_) => Err(Fault::StackOverflow),
        }
    }

    /// Continues at `addr` plus `v0`, or plus `vX` under the jumping quirk,
    /// where `X` is the highest nibble of `addr`.
    fn jump_offset(&mut self, addr: u16)
        requires
            addr < 0x1000,
        ensures
            Ok::<Machine, Fault>(final(self)@) == old(self)@.apply(
                Instruction::JumpOffset { addr },
                0,
            ),
    {
        let offset = if self.quirks.contains(Quirk::Jumping) {
            self.v_registers[(addr / 0x100) as usize]
        } else {
            self.v_registers[0]
        };
        self.program_counter = offset as u16 + addr;
    }

    /// Draws the sprite of `rows` bytes that lies at the index register at
    /// the coordinates held in `vX` and `vY`, and sets the flag register to
    /// the collision.
    fn draw(&mut self, x: u8, y: u8, rows: u8) -> (outcome: Result<(), Fault>)
        requires
            x < 16,
            y < 16,
        ensures
            match old(self)@.apply(Instruction::Draw { x, y, rows }, 0) {
                Ok(next) => outcome is Ok && final(self)@ == next,
                Err(fault) => outcome == Err::<(), Fault>(fault) && final(self)@ == old(self)@,
            },
    {
        let x_coord = self.v_registers[x as usize] as usize;
        let y_coord = self.v_registers[y as usize] as usize;
        let sprite_addr = self.index_register as usize;
        let num_rows = rows as usize;
        if sprite_addr + num_rows > MEMORY_SIZE {
            return Err(Fault::MemoryOutOfBounds);
        }
        let sprite = self.memory.slice(sprite_addr, sprite_addr + num_rows);
        let clip = self.quirks.contains(Quirk::Clipping);
        if self.window.draw_sprite(x_coord, y_coord, num_rows, sprite, clip) {
            self.v_registers[0xF] = 1;
        } else {
            self.v_registers[0xF] = 0;
        }
        Ok(())
    }

    /// Skips the next instruction if the key numbered `vX` is down
    /// (`down`), or if it is up (`!down`).
    fn skip_on_key(&mut self, x: u8, down: bool) -> (outcome: Result<(), Fault>)
        requires
            x < 16,
        ensures
            old(self)@.v[x as int] >= 16 ==> outcome == Err::<(), Fault>(Fault::KeyOutOfRange)
                && final(self)@ == old(self)@,
            old(self)@.v[x as int] < 16 ==> outcome is Ok && final(self)@ == old(self)@.skip_if(
                old(self)@.keys[old(self)@.v[x as int] as int] == down,
            ),
    {
        let key = self.v_registers[x as usize] as usize;
        if key >= 16 {
            return Err(Fault::KeyOutOfRange);
        }
        self.skip_if(self.keys[key] == down);
        Ok(())
    }

    /// Stores the three decimal digits of `vX` at the index register.
    fn bcd(&mut self, x: u8) -> (outcome: Result<(), Fault>)
        requires
            x < 16,
        ensures
            match old(self)@.apply(Instruction::Bcd { x }, 0) {
                Ok(next) => outcome is Ok && final(self)@ == next,
                Err(fault) => outcome == Err::<(), Fault>(fault) && final(self)@ == old(self)@,
            },
    {
        let vx = self.v_registers[x as usize];
        let i = self.index_register as usize;
        if i + 2 >= MEMORY_SIZE {
            return Err(Fault::MemoryOutOfBounds);
        }
        self.memory.set(i, vx / 100);
        self.memory.set(i + 1, (vx / 10) % 10);
        self.memory.set(i + 2, vx % 10);
        Ok(())
    }

    /// Stores `v0..=vX` in memory from the index register on.
    fn save(&mut self, x: u8) -> (outcome: Result<(), Fault>)
        requires
            x < 16,
        ensures
            match old(self)@.apply(Instruction::Save { x }, 0) {
                Ok(next) => outcome is Ok && final(self)@ == next,
                Err(fault) => outcome == Err::<(), Fault>(fault) && final(self)@ == old(self)@,
            },
    {
        let start = self.index_register as usize;
        let last = x as usize;
        if start + last >= MEMORY_SIZE {
            return Err(Fault::MemoryOutOfBounds);
        }
        proof {
            self.memory.lemma_len();
            assert(self@.memory =~= overwrite(
                self@.memory,
                start as int,
                self@.v.subrange(0, 0),
            ));
        }
        let mut reg: usize = 0;
        while reg <= last
            invariant
                reg <= last + 1 <= 16,
                start + last < MEMORY_SIZE,
                start == old(self)@.index,
                old(self)@.memory.len() == MEMORY_SIZE,
                self@ == (Machine {
                    memory: overwrite(
                        old(self)@.memory,
                        start as int,
                        old(self)@.v.subrange(0, reg as int),
                    ),
                    ..old(self)@
                }),
            decreases last + 1 - reg,
        {
            self.memory.set(start + reg, self.v_registers[reg]);
            reg += 1;
            assert(self@.memory =~= overwrite(
                old(self)@.memory,
                start as int,
                old(self)@.v.subrange(0, reg as int),
            ));
        }
        self.advance_index(x);
        Ok(())
    }

    /// Fills `v0..=vX` from memory at the index register.
    fn restore(&mut self, x: u8) -> (outcome: Result<(), Fault>)
        requires
            x < 16,
        ensures
            match old(self)@.apply(Instruction::Restore { x }, 0) {
                Ok(next) => outcome is Ok && final(self)@ == next,
                Err(fault) => outcome == Err::<(), Fault>(fault) && final(self)@ == old(self)@,
            },
    {
        let start = self.index_register as usize;
        let last = x as usize;
        if start + last >= MEMORY_SIZE {
            return Err(Fault::MemoryOutOfBounds);
        }
        proof {
            assert(self@.v =~= Seq::new(
                16,
                |i: int|
                    if i < 0 {
                        self@.memory[start + i]
                    } else {
                        self@.v[i]
                    },
            ));
        }
        let mut reg: usize = 0;
        while reg <= last
            invariant
                reg <= last + 1 <= 16,
                start + last < MEMORY_SIZE,
                start == old(self)@.index,
                self@ == (Machine {
                    v: Seq::new(
                        16,
                        |i: int|
                            if i < reg {
                                old(self)@.memory[start + i]
                            } else {
                                old(self)@.v[i]
                            },
                    ),
                    ..old(self)@
                }),
            decreases last + 1 - reg,
        {
            self.v_registers[reg] = self.memory.get(start + reg);
            reg += 1;
            assert(self@.v =~= Seq::new(
                16,
                |i: int|
                    if i < reg {
                        old(self)@.memory[start + i]
                    } else {
                        old(self)@.v[i]
                    },
            ));
        }
        assert(self@.v =~= Seq::new(
            16,
            |i: int|
                if i <= x {
                    old(self)@.memory[old(self)@.index + i]
                } else {
                    old(self)@.v[i]
                },
        ));
        self.advance_index(x);
        Ok(())
    }

    /// `vX += value`, wrapping; the flag register is not touched.
    fn add_value(&mut self, x: u8, value: u8)
        requires
            x < 16,
        ensures
            Ok::<Machine, Fault>(final(self)@) == old(self)@.apply(
                Instruction::AddValue { x, value },
                0,
            ),
    {
        self.set_reg(x, self.reg(x).wrapping_add(value));
    }

    /// `vX |= vY`.
    fn or(&mut self, x: u8, y: u8)
        requires
            x < 16,
            y < 16,
        ensures
            Ok::<Machine, Fault>(final(self)@) == old(self)@.apply(Instruction::Or { x, y }, 0),
    {
        self.set_reg(x, self.reg(x) | self.reg(y));
        self.after_logic();
    }

    /// `vX &= vY`.
    fn and(&mut self, x: u8, y: u8)
        requires
            x < 16,
            y < 16,
        ensures
            Ok::<Machine, Fault>(final(self)@) == old(self)@.apply(Instruction::And { x, y }, 0),
    {
        self.set_reg(x, self.reg(x) & self.reg(y));
        self.after_logic();
    }

    /// `vX ^= vY`.
    fn xor(&mut self, x: u8, y: u8)
        requires
            x < 16,
            y < 16,
        ensures
            Ok::<Machine, Fault>(final(self)@) == old(self)@.apply(Instruction::Xor { x, y }, 0),
    {
        self.set_reg(x, self.reg(x) ^ self.reg(y));
        self.after_logic();
    }

    /// `vX += vY`; the flag register receives the carry.
    fn add_registers(&mut self, x: u8, y: u8)
        requires
            x < 16,
            y < 16,
        ensures
            Ok::<Machine, Fault>(final(self)@) == old(self)@.apply(Instruction::Add { x, y }, 0),
    {
        let vx = self.reg(x);
        let vy = self.reg(y);
        self.set_reg(x, vx.wrapping_add(vy));
        self.set_flag(
            if vx.checked_add(vy).is_none() {
                1
            } else {
                0
            },
        );
    }

    /// `vX = minuend - subtrahend`, wrapping; the flag register is 1 if
    /// nothing was borrowed.
    fn subtract(&mut self, x: u8, minuend: u8, subtrahend: u8)
        requires
            x < 16,
        ensures
            final(self)@ == old(self)@.with_v(
                x as int,
                ((minuend - subtrahend) % 0x100) as u8,
            ).with_flag(flag(minuend >= subtrahend)),
    {
        self.set_reg(x, minuend.wrapping_sub(subtrahend));
        self.set_flag(
            if minuend >= subtrahend {
                1
            } else {
                0
            },
        );
    }

    /// Shifts right by one; the flag register receives the lowest bit of
    /// what was shifted.
    fn shift_right(&mut self, x: u8, y: u8)
        requires
            x < 16,
            y < 16,
        ensures
            Ok::<Machine, Fault>(final(self)@) == old(self)@.apply(
                Instruction::ShiftRight { x, y },
                0,
            ),
    {
        let source = self.shift_source(x, y);
        let shifted = source >> 1;
        let out = source & 1;
        assert(shifted == source / 2 && out == source % 2) by (bit_vector)
            requires
                shifted == source >> 1,
                out == source & 1,
        ;
        self.set_reg(x, shifted);
        self.set_flag(out);
    }

    /// Shifts left by one; the flag register receives the highest bit of
    /// what was shifted.
    fn shift_left(&mut self, x: u8, y: u8)
        requires
            x < 16,
            y < 16,
        ensures
            Ok::<Machine, Fault>(final(self)@) == old(self)@.apply(
                Instruction::ShiftLeft { x, y },
                0,
            ),
    {
        let source = self.shift_source(x, y);
        let shifted = source << 1;
        let out = source >> 7;
        assert(shifted == source * 2 % 0x100 && out == source / 0x80) by (bit_vector)
            requires
                shifted == source << 1,
                out == source >> 7,
        ;
        self.set_reg(x, shifted);
        self.set_flag(out);
    }

    /// `I += vX`, wrapping.
    fn add_index(&mut self, x: u8)
        requires
            x < 16,
        ensures
            Ok::<Machine, Fault>(final(self)@) == old(self)@.apply(Instruction::AddIndex { x }, 0),
    {
        self.set_index(self.index_register.wrapping_add(self.reg(x) as u16));
    }

    /// Points the index register at the font glyph for `vX`.
    fn font_glyph(&mut self, x: u8)
        requires
            x < 16,
        ensures
            Ok::<Machine, Fault>(final(self)@) == old(self)@.apply(
                Instruction::FontGlyph { x },
                0,
            ),
    {
        self.set_index(self.reg(x) as u16 * 5);
    }

    /// Latches register `x` to receive the next key that is released.
    fn wait_key(&mut self, x: u8)
        requires
            x < 16,
        ensures
            final(self)@ == (Machine { key_wait: Some(x), ..old(self)@ }),
    {
        self.key_wait_register = Some(Register { index: x });
    }

    /// Sets the delay timer.
    fn set_delay(&mut self, value: u8)
        ensures
            final(self)@ == (Machine { delay_timer: value, ..old(self)@ }),
    {
        self.delay_timer = value;
    }

    /// Sets the sound timer.
    fn set_sound(&mut self, value: u8)
        ensures
            final(self)@ == (Machine { sound_timer: value, ..old(self)@ }),
    {
        self.sound_timer = value;
    }

    /// Switches every pixel off.
    fn clear_screen(&mut self)
        ensures
            final(self)@ == (Machine { display: blank(), ..old(self)@ }),
    {
        self.window.clear();
    }

    /// Carries out one decoded instruction. The program counter already
    /// points behind it.
    fn run(&mut self, instruction: Instruction, random_byte: u8) -> (outcome: Result<(), Fault>)
        requires
            instruction.wf(),
        ensures
            match old(self)@.apply(instruction, random_byte) {
                Ok(next) => outcome is Ok && final(self)@ == next,
                Err(fault) => outcome == Err::<(), Fault>(fault) && final(self)@ == old(self)@,
            },
    {
        match instruction {
            Instruction::Nop => Ok(()),
            Instruction::ClearScreen => {
                self.clear_screen();
                Ok(())
            },
            Instruction::Return => self.ret(),
            Instruction::Jump { addr } => {
                self.jump(addr);
                Ok(())
            },
            Instruction::Call { addr } => self.call(addr),
            Instruction::SkipIfEqual { x, value } => {
                self.skip_if(self.reg(x) == value);
                Ok(())
            },
            Instruction::SkipIfNotEqual { x, value } => {
                self.skip_if(self.reg(x) != value);
                Ok(())
            },
            Instruction::SkipIfRegistersEqual { x, y } => {
                self.skip_if(self.reg(x) == self.reg(y));
                Ok(())
            },
            Instruction::Load { x, value } => {
                self.set_reg(x, value);
                Ok(())
            },
            Instruction::AddValue { x, value } => {
                self.add_value(x, value);
                Ok(())
            },
            Instruction::Copy { x, y } => {
                self.set_reg(x, self.reg(y));
                Ok(())
            },
            Instruction::Or { x, y } => {
                self.or(x, y);
                Ok(())
            },
            Instruction::And { x, y } => {
                self.and(x, y);
                Ok(())
            },
            Instruction::Xor { x, y } => {
                self.xor(x, y);
                Ok(())
            },
            Instruction::Add { x, y } => {
                self.add_registers(x, y);
                Ok(())
            },
            Instruction::Sub { x, y } => {
                self.subtract(x, self.reg(x), self.reg(y));
                Ok(())
            },
            Instruction::ShiftRight { x, y } => {
                self.shift_right(x, y);
                Ok(())
            },
            Instruction::SubFrom { x, y } => {
                self.subtract(x, self.reg(y), self.reg(x));
                Ok(())
            },
            Instruction::ShiftLeft { x, y } => {
                self.shift_left(x, y);
                Ok(())
            },
            Instruction::SkipIfRegistersDiffer { x, y } => {
                self.skip_if(self.reg(x) != self.reg(y));
                Ok(())
            },
            Instruction::LoadIndex { addr } => {
                self.set_index(addr);
                Ok(())
            },
            Instruction::JumpOffset { addr } => {
                self.jump_offset(addr);
                Ok(())
            },
            Instruction::Random { x, mask } => {
                self.set_reg(x, random_byte & mask);
                Ok(())
            },
            Instruction::Draw { x, y, rows } => self.draw(x, y, rows),
            Instruction::SkipIfKey { x } => self.skip_on_key(x, true),
            Instruction::SkipIfNotKey { x } => self.skip_on_key(x, false),
            Instruction::ReadDelay { x } => {
                self.set_reg(x, self.delay_timer);
                Ok(())
            },
            Instruction::WaitKey { x } => {
                self.wait_key(x);
                Ok(())
            },
            Instruction::SetDelay { x } => {
                self.set_delay(self.reg(x));
                Ok(())
            },
            Instruction::SetSound { x } => {
                self.set_sound(self.reg(x));
                Ok(())
            },
            Instruction::AddIndex { x } => {
                self.add_index(x);
                Ok(())
            },
            Instruction::FontGlyph { x } => {
                self.font_glyph(x);
                Ok(())
            },
            Instruction::Bcd { x } => self.bcd(x),
            Instruction::Save { x } => self.save(x),
            Instruction::Restore { x } => self.restore(x),
        }
    }

    /// Executes the instruction that `opcode` stands for. The program
    /// counter already points behind it. `random_byte` is what a random
    /// instruction uses; no other instruction looks at it. An opcode that
    /// stands for no instruction is reported and changes nothing, and so
    /// does an instruction that cannot be carried out.
    pub fn execute(&mut self, opcode: u16, random_byte: u8) -> (outcome: Result<Tick, Fault>)
        ensures
            (final(self)@, outcome) == old(self)@.execute(opcode, random_byte),
            final(self)@.wf(),
    {
        let outcome = match Instruction::decode(opcode) {
            None => Ok(Tick::UnknownOpcode(opcode)),
            Some(instruction) => match self.run(instruction, random_byte) {
                Ok(()) => Ok(Tick::Executed),
                Err(fault) => Err(fault),
            },
        };
        proof {
            match self.key_wait_register {
                Some(register) => {
                    use_type_invariant(&register);
                },
                None => {},
            }
            self.lemma_wf();
        }
        outcome
    }

    /// Ticks the processor: fetches the opcode at the program counter,
    /// moves the program counter behind it and executes it. While the
    /// machine waits for a key this does nothing at all. A tick that cannot
    /// be carried out is reported as a fault and leaves the machine as it
    /// was.
    ///
    /// The byte that a random instruction uses is drawn here; every other
    /// instruction is carried out as with the byte 0.
    pub fn tick_cpu(&mut self) -> (outcome: Result<Tick, Fault>)
        ensures
            exists|random: u8| (final(self)@, outcome) == old(self)@.tick(random),
            !old(self)@.draws_random() ==> (final(self)@, outcome) == old(self)@.tick(0),
            final(self)@.wf(),
    {
        proof {
            match self.key_wait_register {
                Some(register) => {
                    use_type_invariant(&register);
                },
                None => {},
            }
            self.lemma_wf();
        }
        if self.key_wait_register.is_some() {
            assert((self@, Ok::<Tick, Fault>(Tick::AwaitingKey)) == old(self)@.tick(0));
            return Ok(Tick::AwaitingKey);
        }
        let pc = self.program_counter;
        let opcode = match self.fetch() {
            Ok(opcode) => opcode,
            Err(fault) => {
                assert((self@, Err::<Tick, Fault>(fault)) == old(self)@.tick(0));
                return Err(fault);
            },
        };
        let random = if opcode / 0x1000 == 0xC {
            random_byte()
        } else {
            0
        };
        let outcome = match self.execute(opcode, random) {
            Ok(tick) => Ok(tick),
            Err(fault) => {
                self.program_counter = pc;
                Err(fault)
            },
        };
        proof {
            match self.key_wait_register {
                Some(register) => {
                    use_type_invariant(&register);
                },
                None => {},
            }
            self.lemma_wf();
            assert(self@ == old(self)@.tick(random).0);
            assert((self@, outcome) == old(self)@.tick(random));
            if !old(self)@.draws_random() {
                crate::machine::law_random_unused(
                    Machine { pc: (old(self)@.pc + 2) as u16, ..old(self)@ },
                    opcode,
                    random,
                    0,
                );
            }
        }
        outcome
    }

    /// Registers a key as pressed. Keys are numbered `0x0..=0xF`; any other
    /// number is discarded and `false` is returned.
    pub fn press_key(&mut self, key_index: usize) -> (accepted: bool)
        ensures
            accepted == (key_index <= 0xF),
            final(self)@ == old(self)@.press_key(key_index as int),
            final(self)@.wf(),
    {
        proof {
            match self.key_wait_register {
                Some(register) => {
                    use_type_invariant(&register);
                },
                None => {},
            }
            self.lemma_wf();
        }
        if key_index > 0xF {
            return false;
        }
        self.keys[key_index] = true;
        proof {
            match self.key_wait_register {
                Some(register) => {
                    use_type_invariant(&register);
                },
                None => {},
            }
            self.lemma_wf();
        }
        true
    }

    /// Registers a key as released. If the processor waits for a key, the
    /// waiting register receives the key's number and the processor runs
    /// on. Keys are numbered `0x0..=0xF`; any other number is discarded and
    /// `false` is returned.
    pub fn release_key(&mut self, key_index: usize) -> (accepted: bool)
        ensures
            accepted == (key_index <= 0xF),
            final(self)@ == old(self)@.release_key(key_index as int),
            final(self)@.wf(),
    {
        proof {
            match self.key_wait_register {
                Some(register) => {
                    use_type_invariant(&register);
                },
                None => {},
            }
            self.lemma_wf();
        }
        if key_index > 0xF {
            return false;
        }
        self.keys[key_index] = false;
        if let Some(register) = self.key_wait_register {
            proof {
                use_type_invariant(&register);
            }
            self.v_registers[register.index as usize] = key_index as u8;
            self.key_wait_register = None;
        }
        proof {
            match self.key_wait_register {
                Some(register) => {
                    use_type_invariant(&register);
                },
                None => {},
            }
            self.lemma_wf();
        }
        true
    }

    /// Loads a program at the start address. Earlier contents elsewhere
    /// stay. A program that does not fit is refused and nothing is written.
    pub fn load(&mut self, data: &[u8]) -> (loaded: Result<(), LoadError>)
        ensures
            data@.len() <= MAX_PROGRAM_SIZE ==> loaded == Ok::<(), LoadError>(()) && final(self)@
                == (Machine {
                memory: overwrite(old(self)@.memory, START_ADDR as int, data@),
                ..old(self)@
            }),
            data@.len() > MAX_PROGRAM_SIZE ==> loaded == Err::<(), LoadError>(LoadError::TooLarge)
                && final(self)@ == old(self)@,
            final(self)@.wf(),
    {
        proof {
            match self.key_wait_register {
                Some(register) => {
                    use_type_invariant(&register);
                },
                None => {},
            }
            self.lemma_wf();
        }
        let start = START_ADDR as usize;
        let stored = self.memory.store(start, data);
        proof {
            match self.key_wait_register {
                Some(register) => {
                    use_type_invariant(&register);
                },
                None => {},
            }
            self.lemma_wf();
        }
        match stored {
            Ok(()) => Ok(()),
            Err(_) => Err(LoadError::TooLarge),
        }
    }

    /// Ticks the two timers, at 60 Hz: each counts down by one unless it is
    /// zero. Returns whether the tone is to sound: whether the sound timer
    /// was running when the tick came.
    pub fn tick_timers(&mut self) -> (tone: bool)
        ensures
            tone == (old(self)@.sound_timer > 0),
            final(self)@ == old(self)@.tick_timers(),
            final(self)@.wf(),
    {
        proof {
            match self.key_wait_register {
                Some(register) => {
                    use_type_invariant(&register);
                },
                None => {},
            }
            self.lemma_wf();
        }
        if self.delay_timer > 0 {
            self.delay_timer -= 1;
        }
        let tone = self.sound_timer > 0;
        if tone {
            self.sound_timer -= 1;
        }
        proof {
            match self.key_wait_register {
                Some(register) => {
                    use_type_invariant(&register);
                },
                None => {},
            }
            self.lemma_wf();
        }
        tone
    }

    /// This machine with `quirks` in place of those it had.
    pub fn override_quirks(self, quirks: Quirks) -> (chip: Self)
        ensures
            chip@ == (Machine { quirks: quirks@, ..self@ }),
            chip@.wf(),
    {
        let mut chip = self;
        chip.quirks = quirks;
        proof {
            match chip.key_wait_register {
                Some(register) => {
                    use_type_invariant(&register);
                },
                None => {},
            }
            chip.lemma_wf();
        }
        chip
    }

    /// This machine with `quirks` switched on besides those it had.
    pub fn add_quirks(self, quirks: Quirks) -> (chip: Self)
        ensures
            chip@ == (Machine { quirks: self@.quirks.union(quirks@), ..self@ }),
            chip@.wf(),
    {
        let mut chip = self;
        chip.quirks = chip.quirks.union(quirks);
        proof {
            match chip.key_wait_register {
                Some(register) => {
                    use_type_invariant(&register);
                },
                None => {},
            }
            chip.lemma_wf();
        }
        chip
    }

    /// The display.
    pub fn window(&self) -> (window: &VirtualDisplay)
        ensures
            window@ == self@.display,
            window.scale() == self@.scale,
    {
        &self.window
    }

    /// The sixteen general registers.
    pub fn registers(&self) -> (registers: &[u8; 16])
        ensures
            registers@ == self@.v,
    {
        &self.v_registers
    }

    /// The program counter.
    pub fn program_counter(&self) -> (pc: u16)
        ensures
            pc == self@.pc,
    {
        self.program_counter
    }

    /// The index register.
    pub fn index_register(&self) -> (index: u16)
        ensures
            index == self@.index,
    {
        self.index_register
    }

    /// The delay timer.
    pub fn delay_timer(&self) -> (value: u8)
        ensures
            value == self@.delay_timer,
    {
        self.delay_timer
    }

    /// The sound timer.
    pub fn sound_timer(&self) -> (value: u8)
        ensures
            value == self@.sound_timer,
    {
        self.sound_timer
    }

    /// Whether the sound timer is running, that is whether the tone sounds.
    pub fn is_sound_active(&self) -> (active: bool)
        ensures
            active == (self@.sound_timer > 0),
    {
        self.sound_timer > 0
    }

    /// The memory.
    pub fn memory(&self) -> (memory: &Memory)
        ensures
            memory@ == self@.memory,
    {
        &self.memory
    }

    /// The call stack.
    pub fn stack(&self) -> (stack: &Stack)
        ensures
            stack@ == self@.stack,
    {
        &self.stack
    }

    /// Which of the sixteen keys are down.
    pub fn keys(&self) -> (keys: &[bool; 16])
        ensures
            keys@ == self@.keys,
    {
        &self.keys
    }

    /// The register that waits for a key, while the processor waits for one.
    pub fn key_wait_register(&self) -> (register: Option<u8>)
        ensures
            register == self@.key_wait,
            register matches Some(x) ==> x < 16,
    {
        match self.key_wait_register {
            Some(register) => {
                proof {
                    use_type_invariant(&register);
                }
                Some(register.index)
            },
            None => None,
        }
    }

    /// The quirks in force.
    pub fn quirks(&self) -> (quirks: Quirks)
        ensures
            quirks@ == self@.quirks,
    {
        self.quirks
    }
}

} // verus!
