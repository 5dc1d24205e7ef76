//! The machine as a mathematical object: its state, its instructions and
//! what each of them does. The emulator's contracts are stated over this
//! model.

use crate::memory::{overwrite, MEMORY_SIZE};
use crate::quirks::Quirk;
use crate::stack::STACK_DEPTH;
use crate::virtual_buffer::{blank, draw, VIRTUAL_PIXELS};
use vstd::prelude::*;

verus! {

/// The address at which programs are loaded and start to run.
pub const START_ADDR: u16 = 0x200;

/// The index of the flag register, `vF`.
pub const FLAG: usize = 0xF;

/// An instruction that the machine could not carry out. A fault leaves the
/// machine exactly as it was before the tick.
#[derive(Clone, Copy, Debug, PartialEq, Eq, Structural)]
pub enum Fault {
    /// The program counter points at the last byte of memory or beyond it.
    FetchOutOfBounds,
    /// The instruction reads or writes memory beyond the address space.
    MemoryOutOfBounds,
    /// A call was made with sixteen return addresses on the stack.
    StackOverflow,
    /// A return was made with no return address on the stack.
    StackUnderflow,
    /// A key was tested whose number, taken from a register, is above `0xF`.
    KeyOutOfRange,
}

/// What a tick of the processor did.
#[derive(Clone, Copy, Debug, PartialEq, Eq, Structural)]
pub enum Tick {
    /// An instruction was carried out.
    Executed,
    /// The machine waits for a key to be released; nothing was fetched.
    AwaitingKey,
    /// The opcode stands for no instruction; it was passed over.
    UnknownOpcode(u16),
}

/// A decoded instruction. `x` and `y` number registers, `addr` is a 12-bit
/// address, `value` and `mask` are bytes, `rows` is a sprite's height.
#[derive(Clone, Copy, Debug, PartialEq, Eq, Structural)]
pub enum Instruction {
    /// `0000`: do nothing.
    Nop,
    /// `00E0`: switch every pixel off.
    ClearScreen,
    /// `00EE`: return from a subroutine.
    Return,
    /// `1nnn`: continue at `addr`.
    Jump { addr: u16 },
    /// `2nnn`: call the subroutine at `addr`.
    Call { addr: u16 },
    /// `3xkk`: skip the next instruction if `vX == value`.
    SkipIfEqual { x: u8, value: u8 },
    /// `4xkk`: skip the next instruction if `vX != value`.
    SkipIfNotEqual { x: u8, value: u8 },
    /// `5xy0`: skip the next instruction if `vX == vY`.
    SkipIfRegistersEqual { x: u8, y: u8 },
    /// `6xkk`: `vX = value`.
    Load { x: u8, value: u8 },
    /// `7xkk`: `vX += value`, wrapping, flag untouched.
    AddValue { x: u8, value: u8 },
    /// `8xy0`: `vX = vY`.
    Copy { x: u8, y: u8 },
    /// `8xy1`: `vX |= vY`.
    Or { x: u8, y: u8 },
    /// `8xy2`: `vX &= vY`.
    And { x: u8, y: u8 },
    /// `8xy3`: `vX ^= vY`.
    Xor { x: u8, y: u8 },
    /// `8xy4`: `vX += vY`, the flag is the carry.
    Add { x: u8, y: u8 },
    /// `8xy5`: `vX -= vY`, the flag says that nothing was borrowed.
    Sub { x: u8, y: u8 },
    /// `8xy6`: shift right by one, the flag is the bit shifted out.
    ShiftRight { x: u8, y: u8 },
    /// `8xy7`: `vX = vY - vX`, the flag says that nothing was borrowed.
    SubFrom { x: u8, y: u8 },
    /// `8xyE`: shift left by one, the flag is the bit shifted out.
    ShiftLeft { x: u8, y: u8 },
    /// `9xy0`: skip the next instruction if `vX != vY`.
    SkipIfRegistersDiffer { x: u8, y: u8 },
    /// `Annn`: `I = addr`.
    LoadIndex { addr: u16 },
    /// `Bnnn`: continue at `addr` plus a register.
    JumpOffset { addr: u16 },
    /// `Cxkk`: `vX = random byte & mask`.
    Random { x: u8, mask: u8 },
    /// `Dxyn`: draw the sprite of `rows` bytes at `I` at `(vX, vY)`.
    Draw { x: u8, y: u8, rows: u8 },
    /// `Ex9E`: skip the next instruction if the key numbered `vX` is down.
    SkipIfKey { x: u8 },
    /// `ExA1`: skip the next instruction if the key numbered `vX` is up.
    SkipIfNotKey { x: u8 },
    /// `Fx07`: `vX = delay timer`.
    ReadDelay { x: u8 },
    /// `Fx0A`: wait until a key is released, then store its number in `vX`.
    WaitKey { x: u8 },
    /// `Fx15`: `delay timer = vX`.
    SetDelay { x: u8 },
    /// `Fx18`: `sound timer = vX`.
    SetSound { x: u8 },
    /// `Fx1E`: `I += vX`.
    AddIndex { x: u8 },
    /// `Fx29`: `I` = address of the font glyph for `vX`.
    FontGlyph { x: u8 },
    /// `Fx33`: store the decimal digits of `vX` at `I`, `I + 1`, `I + 2`.
    Bcd { x: u8 },
    /// `Fx55`: store `v0..=vX` in memory from `I` on.
    Save { x: u8 },
    /// `Fx65`: fill `v0..=vX` from memory at `I`.
    Restore { x: u8 },
}

impl Instruction {
    /// Register numbers and sprite heights are nibbles, addresses have
    /// twelve bits.
    pub open spec fn wf(self) -> bool {
        match self {
            Instruction::Nop | Instruction::ClearScreen | Instruction::Return => true,
            Instruction::Jump { addr }
            | Instruction::Call { addr }
            | Instruction::LoadIndex { addr }
            | Instruction::JumpOffset { addr } => addr < 0x1000,
            Instruction::SkipIfEqual { x, .. }
            | Instruction::SkipIfNotEqual { x, .. }
            | Instruction::Load { x, .. }
            | Instruction::AddValue { x, .. }
            | Instruction::Random { x, .. }
            | Instruction::SkipIfKey { x }
            | Instruction::SkipIfNotKey { x }
            | Instruction::ReadDelay { x }
            | Instruction::WaitKey { x }
            | Instruction::SetDelay { x }
            | Instruction::SetSound { x }
            | Instruction::AddIndex { x }
            | Instruction::FontGlyph { x }
            | Instruction::Bcd { x }
            | Instruction::Save { x }
            | Instruction::Restore { x } => x < 16,
            Instruction::SkipIfRegistersEqual { x, y }
            | Instruction::Copy { x, y }
            | Instruction::Or { x, y }
            | Instruction::And { x, y }
            | Instruction::Xor { x, y }
            | Instruction::Add { x, y }
            | Instruction::Sub { x, y }
            | Instruction::ShiftRight { x, y }
            | Instruction::SubFrom { x, y }
            | Instruction::ShiftLeft { x, y }
            | Instruction::SkipIfRegistersDiffer { x, y } => x < 16 && y < 16,
            Instruction::Draw { x, y, rows } => x < 16 && y < 16 && rows < 16,
        }
    }

    /// Decodes `opcode`: the first nibble selects the family; the families
    /// `0`, `5`, `8`, `9`, `E` and `F` are told apart further by the last
    /// nibble or the last byte.
    pub fn decode(opcode: u16) -> (instruction: Option<Instruction>)
        ensures
            instruction == decode(opcode),
            instruction matches Some(i) ==> i.wf(),
    {
        let family = (opcode & 0xF000) >> 12;
        let x_nibble = (opcode & 0x0F00) >> 8;
        let y_nibble = (opcode & 0x00F0) >> 4;
        let low = opcode & 0x000F;
        let byte = opcode & 0x00FF;
        let addr = opcode & 0x0FFF;
        assert(family == opcode / 0x1000 && x_nibble == opcode / 0x100 % 0x10 && y_nibble
            == opcode / 0x10 % 0x10 && low == opcode % 0x10 && byte == opcode % 0x100 && addr
            == opcode % 0x1000) by (bit_vector)
            requires
                family == (opcode & 0xF000) >> 12,
                x_nibble == (opcode & 0x0F00) >> 8,
                y_nibble == (opcode & 0x00F0) >> 4,
                low == opcode & 0x000F,
                byte == opcode & 0x00FF,
                addr == opcode & 0x0FFF,
        ;
        let x = x_nibble as u8;
        let y = y_nibble as u8;
        let value = byte as u8;
        match family {
            0x0 => match opcode {
                0x0000 => Some(Instruction::Nop),
                0x00E0 => Some(Instruction::ClearScreen),
                0x00EE => Some(Instruction::Return),
                _ => None,
            },
            0x1 => Some(Instruction::Jump { addr }),
            0x2 => Some(Instruction::Call { addr }),
            0x3 => Some(Instruction::SkipIfEqual { x, value }),
            0x4 => Some(Instruction::SkipIfNotEqual { x, value }),
            0x5 => match low {
                0x0 => Some(Instruction::SkipIfRegistersEqual { x, y }),
                _ => None,
            },
            0x6 => Some(Instruction::Load { x, value }),
            0x7 => Some(Instruction::AddValue { x, value }),
            0x8 => match low {
                0x0 => Some(Instruction::Copy { x, y }),
                0x1 => Some(Instruction::Or { x, y }),
                0x2 => Some(Instruction::And { x, y }),
                0x3 => Some(Instruction::Xor { x, y }),
                0x4 => Some(Instruction::Add { x, y }),
                0x5 => Some(Instruction::Sub { x, y }),
                0x6 => Some(Instruction::ShiftRight { x, y }),
                0x7 => Some(Instruction::SubFrom { x, y }),
                0xE => Some(Instruction::ShiftLeft { x, y }),
                _ => None,
            },
            0x9 => match low {
                0x0 => Some(Instruction::SkipIfRegistersDiffer { x, y }),
                _ => None,
            },
            0xA => Some(Instruction::LoadIndex { addr }),
            0xB => Some(Instruction::JumpOffset { addr }),
            0xC => Some(Instruction::Random { x, mask: value }),
            0xD => Some(Instruction::Draw { x, y, rows: low as u8 }),
            0xE => match byte {
                0x9E => Some(Instruction::SkipIfKey { x }),
                0xA1 => Some(Instruction::SkipIfNotKey { x }),
                _ => None,
            },
            _ => match byte {
                0x07 => Some(Instruction::ReadDelay { x }),
                0x0A => Some(Instruction::WaitKey { x }),
                0x15 => Some(Instruction::SetDelay { x }),
                0x18 => Some(Instruction::SetSound { x }),
                0x1E => Some(Instruction::AddIndex { x }),
                0x29 => Some(Instruction::FontGlyph { x }),
                0x33 => Some(Instruction::Bcd { x }),
                0x55 => Some(Instruction::Save { x }),
                0x65 => Some(Instruction::Restore { x }),
                _ => None,
            },
        }
    }
}

/// The instruction that `opcode` stands for, if any.
pub open spec fn decode(opcode: u16) -> Option<Instruction> {
    let family = opcode / 0x1000;
    let x = (opcode / 0x100 % 0x10) as u8;
    let y = (opcode / 0x10 % 0x10) as u8;
    let low = opcode % 0x10;
    let byte = opcode % 0x100;
    let value = byte as u8;
    let addr = (opcode % 0x1000) as u16;
    if family == 0x0 {
        if opcode == 0x0000 {
            Some(Instruction::Nop)
        } else if opcode == 0x00E0 {
            Some(Instruction::ClearScreen)
        } else if opcode == 0x00EE {
            Some(Instruction::Return)
        } else {
            None
        }
    } else if family == 0x1 {
        Some(Instruction::Jump { addr })
    } else if family == 0x2 {
        Some(Instruction::Call { addr })
    } else if family == 0x3 {
        Some(Instruction::SkipIfEqual { x, value })
    } else if family == 0x4 {
        Some(Instruction::SkipIfNotEqual { x, value })
    } else if family == 0x5 {
        if low == 0 {
            Some(Instruction::SkipIfRegistersEqual { x, y })
        } else {
            None
        }
    } else if family == 0x6 {
        Some(Instruction::Load { x, value })
    } else if family == 0x7 {
        Some(Instruction::AddValue { x, value })
    } else if family == 0x8 {
        if low == 0x0 {
            Some(Instruction::Copy { x, y })
        } else if low == 0x1 {
            Some(Instruction::Or { x, y })
        } else if low == 0x2 {
            Some(Instruction::And { x, y })
        } else if low == 0x3 {
            Some(Instruction::Xor { x, y })
        } else if low == 0x4 {
            Some(Instruction::Add { x, y })
        } else if low == 0x5 {
            Some(Instruction::Sub { x, y })
        } else if low == 0x6 {
            Some(Instruction::ShiftRight { x, y })
        } else if low == 0x7 {
            Some(Instruction::SubFrom { x, y })
        } else if low == 0xE {
            Some(Instruction::ShiftLeft { x, y })
        } else {
            None
        }
    } else if family == 0x9 {
        if low == 0 {
            Some(Instruction::SkipIfRegistersDiffer { x, y })
        } else {
            None
        }
    } else if family == 0xA {
        Some(Instruction::LoadIndex { addr })
    } else if family == 0xB {
        Some(Instruction::JumpOffset { addr })
    } else if family == 0xC {
        Some(Instruction::Random { x, mask: value })
    } else if family == 0xD {
        Some(Instruction::Draw { x, y, rows: low as u8 })
    } else if family == 0xE {
        if byte == 0x9E {
            Some(Instruction::SkipIfKey { x })
        } else if byte == 0xA1 {
            Some(Instruction::SkipIfNotKey { x })
        } else {
            None
        }
    } else {
        if byte == 0x07 {
            Some(Instruction::ReadDelay { x })
        } else if byte == 0x0A {
            Some(Instruction::WaitKey { x })
        } else if byte == 0x15 {
            Some(Instruction::SetDelay { x })
        } else if byte == 0x18 {
            Some(Instruction::SetSound { x })
        } else if byte == 0x1E {
            Some(Instruction::AddIndex { x })
        } else if byte == 0x29 {
            Some(Instruction::FontGlyph { x })
        } else if byte == 0x33 {
            Some(Instruction::Bcd { x })
        } else if byte == 0x55 {
            Some(Instruction::Save { x })
        } else if byte == 0x65 {
            Some(Instruction::Restore { x })
        } else {
            None
        }
    }
}

/// The state of the machine.
pub struct Machine {
    /// The 4096 bytes of memory.
    pub memory: Seq<u8>,
    /// The sixteen general registers, `v0` to `vF`.
    pub v: Seq<u8>,
    /// The delay timer.
    pub delay_timer: u8,
    /// The sound timer.
    pub sound_timer: u8,
    /// The program counter.
    pub pc: u16,
    /// The index register, `I`.
    pub index: u16,
    /// The return addresses, oldest first.
    pub stack: Seq<u16>,
    /// The 2048 logical pixels, row by row.
    pub display: Seq<bool>,
    /// The magnification at which the display is stored for the host.
    pub scale: nat,
    /// Which of the sixteen keys are down.
    pub keys: Seq<bool>,
    /// The register that waits for a key, while the machine waits for one.
    pub key_wait: Option<u8>,
    /// The quirks the machine was built with.
    pub quirks: Set<Quirk>,
}

/// The 16-bit opcode that lies at `pc`, high byte first.
pub open spec fn opcode_at(memory: Seq<u8>, pc: int) -> u16 {
    (memory[pc] * 0x100 + memory[pc + 1]) as u16
}

/// `1` for `true`, `0` for `false`: how a condition is stored in the flag
/// register.
pub open spec fn flag(b: bool) -> u8 {
    if b {
        1
    } else {
        0
    }
}

impl Machine {
    /// Every component has the size that the machine fixes for it.
    pub open spec fn wf(self) -> bool {
        &&& self.memory.len() == MEMORY_SIZE
        &&& self.v.len() == 16
        &&& self.stack.len() <= STACK_DEPTH
        &&& self.display.len() == VIRTUAL_PIXELS
        &&& self.keys.len() == 16
        &&& (self.key_wait matches Some(x) ==> x < 16)
    }

    /// Whether `quirk` is switched on.
    pub open spec fn has(self, quirk: Quirk) -> bool {
        self.quirks.contains(quirk)
    }

    /// This machine with register `x` set to `value`.
    pub open spec fn with_v(self, x: int, value: u8) -> Machine {
        Machine { v: self.v.update(x, value), ..self }
    }

    /// This machine with the flag register set to `value`.
    pub open spec fn with_flag(self, value: u8) -> Machine {
        self.with_v(FLAG as int, value)
    }

    /// This machine with the program counter moved past one instruction.
    pub open spec fn skip(self) -> Machine {
        Machine { pc: ((self.pc + 2) % 0x10000) as u16, ..self }
    }

    /// This machine, having skipped an instruction if `condition` holds.
    pub open spec fn skip_if(self, condition: bool) -> Machine {
        if condition {
            self.skip()
        } else {
            self
        }
    }

    /// This machine with the flag register cleared if the quirk asks for it.
    pub open spec fn after_logic(self) -> Machine {
        if self.has(Quirk::VfReset) {
            self.with_flag(0)
        } else {
            self
        }
    }

    /// The register that a shift reads: `vX` under the shifting quirk,
    /// else `vY`.
    pub open spec fn shift_source(self, x: u8, y: u8) -> u8 {
        if self.has(Quirk::Shifting) {
            self.v[x as int]
        } else {
            self.v[y as int]
        }
    }

    /// The index register after a bulk save or load of `v0..=vX`.
    pub open spec fn index_after_bulk(self, x: u8) -> u16 {
        if self.has(Quirk::Memory) {
            (self.index + x + 1) as u16
        } else {
            self.index
        }
    }

    /// What `instruction` makes of this machine, whose program counter
    /// already points behind the instruction. `random` is the byte that a
    /// `Random` instruction draws.
    pub open spec fn apply(self, instruction: Instruction, random: u8) -> Result<Machine, Fault> {
        match instruction {
            Instruction::Nop => Ok(self),
            Instruction::ClearScreen => Ok(Machine { display: blank(), ..self }),
            Instruction::Return => if self.stack.len() == 0 {
                Err(Fault::StackUnderflow)
            } else {
                Ok(Machine { pc: self.stack.last(), stack: self.stack.drop_last(), ..self })
            },
            Instruction::Jump { addr } => Ok(Machine { pc: addr, ..self }),
            Instruction::Call { addr } => if self.stack.len() >= STACK_DEPTH {
                Err(Fault::StackOverflow)
            } else {
                Ok(Machine { pc: addr, stack: self.stack.push(self.pc), ..self })
            },
            Instruction::SkipIfEqual { x, value } => Ok(self.skip_if(self.v[x as int] == value)),
            Instruction::SkipIfNotEqual { x, value } => Ok(
                self.skip_if(self.v[x as int] != value),
            ),
            Instruction::SkipIfRegistersEqual { x, y } => Ok(
                self.skip_if(self.v[x as int] == self.v[y as int]),
            ),
            Instruction::Load { x, value } => Ok(self.with_v(x as int, value)),
            Instruction::AddValue { x, value } => Ok(
                self.with_v(x as int, ((self.v[x as int] + value) % 0x100) as u8),
            ),
            Instruction::Copy { x, y } => Ok(self.with_v(x as int, self.v[y as int])),
            Instruction::Or { x, y } => Ok(
                self.with_v(x as int, self.v[x as int] | self.v[y as int]).after_logic(),
            ),
            Instruction::And { x, y } => Ok(
                self.with_v(x as int, self.v[x as int] & self.v[y as int]).after_logic(),
            ),
            Instruction::Xor { x, y } => Ok(
                self.with_v(x as int, self.v[x as int] ^ self.v[y as int]).after_logic(),
            ),
            Instruction::Add { x, y } => {
                let sum = self.v[x as int] + self.v[y as int];
                Ok(self.with_v(x as int, (sum % 0x100) as u8).with_flag(flag(sum > 0xFF)))
            },
            Instruction::Sub { x, y } => {
                let vx = self.v[x as int];
                let vy = self.v[y as int];
                Ok(self.with_v(x as int, ((vx - vy) % 0x100) as u8).with_flag(flag(vx >= vy)))
            },
            Instruction::ShiftRight { x, y } => {
                let source = self.shift_source(x, y);
                Ok(self.with_v(x as int, source / 2).with_flag(source % 2))
            },
            Instruction::SubFrom { x, y } => {
                let vx = self.v[x as int];
                let vy = self.v[y as int];
                Ok(self.with_v(x as int, ((vy - vx) % 0x100) as u8).with_flag(flag(vy >= vx)))
            },
            Instruction::ShiftLeft { x, y } => {
                let source = self.shift_source(x, y);
                Ok(self.with_v(x as int, (source * 2 % 0x100) as u8).with_flag(source / 0x80))
            },
            Instruction::SkipIfRegistersDiffer { x, y } => Ok(
                self.skip_if(self.v[x as int] != self.v[y as int]),
            ),
            Instruction::LoadIndex { addr } => Ok(Machine { index: addr, ..self }),
            Instruction::JumpOffset { addr } => {
                let offset = if self.has(Quirk::Jumping) {
                    self.v[(addr / 0x100) as int]
                } else {
                    self.v[0]
                };
                Ok(Machine { pc: (offset + addr) as u16, ..self })
            },
            Instruction::Random { x, mask } => Ok(self.with_v(x as int, random & mask)),
            Instruction::Draw { x, y, rows } => if self.index + rows > MEMORY_SIZE {
                Err(Fault::MemoryOutOfBounds)
            } else {
                let sprite = self.memory.subrange(self.index as int, self.index + rows);
                let (display, collision) = draw(
                    self.display,
                    self.v[x as int] as int,
                    self.v[y as int] as int,
                    rows as nat,
                    sprite,
                    self.has(Quirk::Clipping),
                );
                Ok(Machine { display, ..self }.with_flag(flag(collision)))
            },
            Instruction::SkipIfKey { x } => if self.v[x as int] >= 16 {
                Err(Fault::KeyOutOfRange)
            } else {
                Ok(self.skip_if(self.keys[self.v[x as int] as int]))
            },
            Instruction::SkipIfNotKey { x } => if self.v[x as int] >= 16 {
                Err(Fault::KeyOutOfRange)
            } else {
                Ok(self.skip_if(!self.keys[self.v[x as int] as int]))
            },
            Instruction::ReadDelay { x } => Ok(self.with_v(x as int, self.delay_timer)),
            Instruction::WaitKey { x } => Ok(Machine { key_wait: Some(x), ..self }),
            Instruction::SetDelay { x } => Ok(Machine { delay_timer: self.v[x as int], ..self }),
            Instruction::SetSound { x } => Ok(Machine { sound_timer: self.v[x as int], ..self }),
            Instruction::AddIndex { x } => Ok(
                Machine { index: ((self.index + self.v[x as int]) % 0x10000) as u16, ..self },
            ),
            Instruction::FontGlyph { x } => Ok(
                Machine { index: (self.v[x as int] * 5) as u16, ..self },
            ),
            Instruction::Bcd { x } => if self.index + 2 >= MEMORY_SIZE {
                Err(Fault::MemoryOutOfBounds)
            } else {
                let vx = self.v[x as int];
                Ok(
                    Machine {
                        memory: self.memory.update(self.index as int, vx / 100).update(
                            self.index + 1,
                            vx / 10 % 10,
                        ).update(self.index + 2, vx % 10),
                        ..self
                    },
                )
            },
            Instruction::Save { x } => if self.index + x >= MEMORY_SIZE {
                Err(Fault::MemoryOutOfBounds)
            } else {
                Ok(
                    Machine {
                        memory: overwrite(
                            self.memory,
                            self.index as int,
                            self.v.subrange(0, x + 1),
                        ),
                        index: self.index_after_bulk(x),
                        ..self
                    },
                )
            },
            Instruction::Restore { x } => if self.index + x >= MEMORY_SIZE {
                Err(Fault::MemoryOutOfBounds)
            } else {
                Ok(
                    Machine {
                        v: Seq::new(
                            16,
                            |i: int|
                                if i <= x {
                                    self.memory[self.index + i]
                                } else {
                                    self.v[i]
                                },
                        ),
                        index: self.index_after_bulk(x),
                        ..self
                    },
                )
            },
        }
    }

    /// What `opcode` makes of this machine, whose program counter already
    /// points behind the opcode: the instruction's effect, or no change for
    /// an opcode that stands for no instruction or cannot be carried out.
    pub open spec fn execute(self, opcode: u16, random: u8) -> (Machine, Result<Tick, Fault>) {
        match decode(opcode) {
            None => (self, Ok(Tick::UnknownOpcode(opcode))),
            Some(instruction) => match self.apply(instruction, random) {
                Ok(next) => (next, Ok(Tick::Executed)),
                Err(fault) => (self, Err(fault)),
            },
        }
    }

    /// Whether the program counter points at a whole opcode within memory.
    pub open spec fn can_fetch(self) -> bool {
        self.pc + 1 < MEMORY_SIZE
    }

    /// One tick of the processor: nothing while a key is awaited, else
    /// fetch, advance the program counter by two, and execute. A tick that
    /// faults changes nothing.
    pub open spec fn tick(self, random: u8) -> (Machine, Result<Tick, Fault>) {
        if self.key_wait is Some {
            (self, Ok(Tick::AwaitingKey))
        } else if !self.can_fetch() {
            (self, Err(Fault::FetchOutOfBounds))
        } else {
            let opcode = opcode_at(self.memory, self.pc as int);
            let fetched = Machine { pc: (self.pc + 2) as u16, ..self };
            let (next, outcome) = fetched.execute(opcode, random);
            if outcome is Ok {
                (next, outcome)
            } else {
                (self, outcome)
            }
        }
    }

    /// Whether the next tick executes an instruction that draws a random
    /// byte.
    pub open spec fn draws_random(self) -> bool {
        &&& self.key_wait is None
        &&& self.can_fetch()
        &&& opcode_at(self.memory, self.pc as int) / 0x1000 == 0xC
    }

    /// One tick of the two timers: each counts down by one and stops at zero.
    pub open spec fn tick_timers(self) -> Machine {
        Machine {
            delay_timer: if self.delay_timer > 0 {
                (self.delay_timer - 1) as u8
            } else {
                0
            },
            sound_timer: if self.sound_timer > 0 {
                (self.sound_timer - 1) as u8
            } else {
                0
            },
            ..self
        }
    }

    /// This machine after key `key` went down. A number above `0xF` names no
    /// key and changes nothing.
    pub open spec fn press_key(self, key: int) -> Machine {
        if 0 <= key < 16 {
            Machine { keys: self.keys.update(key, true), ..self }
        } else {
            self
        }
    }

    /// This machine after key `key` came up: if a register waits for a key,
    /// it receives the key's number and the machine runs on. A number above
    /// `0xF` names no key and changes nothing.
    pub open spec fn release_key(self, key: int) -> Machine {
        if 0 <= key < 16 {
            let released = Machine { keys: self.keys.update(key, false), ..self };
            match self.key_wait {
                Some(x) => Machine { key_wait: None, ..released.with_v(x as int, key as u8) },
                None => released,
            }
        } else {
            self
        }
    }
}

/// Only the opcodes `Cxkk` look at the random byte.
pub proof fn law_random_unused(m: Machine, opcode: u16, random: u8, other: u8)
    requires
        opcode / 0x1000 != 0xC,
    ensures
        m.execute(opcode, random) == m.execute(opcode, other),
{
}

} // verus!
