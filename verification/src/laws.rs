//! Laws of the machine: what follows from the meaning of its instructions.

use crate::emulator::initial_machine;
use crate::machine::{decode, flag, opcode_at, Fault, Instruction, Machine, Tick, FLAG, START_ADDR};
use crate::memory::{font, initial_memory, overwrite, FONT_SIZE, MEMORY_SIZE};
use crate::quirks::Quirk;
use crate::sprite::law_draw_flips;
use vstd::prelude::*;

verus! {

/// The opcode of the family `8` that applies operation `op` to the
/// registers `x` and `y`: `8xy0` to `8xyE`.
pub open spec fn register_opcode(op: int, x: u8, y: u8) -> u16 {
    (0x8000 + x * 0x100 + y * 0x10 + op) as u16
}

/// The opcode of the family `F` that applies operation `op` to register
/// `x`: `Fx07` to `Fx65`.
pub open spec fn system_opcode(op: int, x: u8) -> u16 {
    (0xF000 + x * 0x100 + op) as u16
}

/// The machine after one tick for each byte of `randoms`, each tick drawing
/// its byte if it draws one.
pub open spec fn ticks(m: Machine, randoms: Seq<u8>) -> Machine
    decreases randoms.len(),
{
    if randoms.len() == 0 {
        m
    } else {
        ticks(m, randoms.drop_last()).tick(randoms.last()).0
    }
}

/// The four nibbles of an opcode can be read back from it.
proof fn lemma_nibbles(opcode: u16, family: u16, x: u16, y: u16, low: u16)
    by (bit_vector)
    requires
        family < 16,
        x < 16,
        y < 16,
        low < 16,
        opcode == family * 0x1000 + x * 0x100 + y * 0x10 + low,
    ensures
        opcode / 0x1000 == family,
        opcode / 0x100 % 0x10 == x,
        opcode / 0x10 % 0x10 == y,
        opcode % 0x10 == low,
        opcode % 0x100 == y * 0x10 + low,
        opcode % 0x1000 == x * 0x100 + y * 0x10 + low,
{
}

/// Every decoded instruction is well formed.
pub proof fn law_decode_wf(opcode: u16)
    ensures
        decode(opcode) matches Some(instruction) ==> instruction.wf(),
{
}

/// Add with carry, `8xy4`: the flag register becomes 1 if and only if the
/// sum of `vX` and `vY` exceeds 255, and else 0; `vX` receives the sum
/// modulo 256, unless `X` is the flag register itself, which keeps the
/// carry. Nothing else changes.
pub proof fn law_add_with_carry(m: Machine, x: u8, y: u8, random: u8)
    requires
        m.wf(),
        x < 16,
        y < 16,
    ensures
        ({
            let (next, outcome) = m.execute(register_opcode(4, x, y), random);
            let sum = m.v[x as int] + m.v[y as int];
            &&& outcome == Ok::<Tick, Fault>(Tick::Executed)
            &&& next.v[FLAG as int] == flag(sum > 255)
            &&& (next.v[FLAG as int] == 1 <==> sum > 255)
            &&& x != FLAG ==> next.v[x as int] == sum % 256
            &&& forall|i: int| 0 <= i < 16 && i != x && i != FLAG ==> next.v[i] == m.v[i]
            &&& next == Machine { v: next.v, ..m }
        }),
{
    lemma_nibbles(register_opcode(4, x, y), 8, x as u16, y as u16, 4);
    assert(decode(register_opcode(4, x, y)) == Some(Instruction::Add { x, y }));
}

/// Subtract, `8xy5`: the flag register becomes 1 if and only if
/// `vX >= vY`, that is if nothing is borrowed, and else 0; `vX` receives
/// the difference modulo 256, unless `X` is the flag register itself.
/// Nothing else changes.
pub proof fn law_subtract(m: Machine, x: u8, y: u8, random: u8)
    requires
        m.wf(),
        x < 16,
        y < 16,
    ensures
        ({
            let (next, outcome) = m.execute(register_opcode(5, x, y), random);
            let vx = m.v[x as int];
            let vy = m.v[y as int];
            &&& outcome == Ok::<Tick, Fault>(Tick::Executed)
            &&& (next.v[FLAG as int] == 1 <==> vx >= vy)
            &&& (next.v[FLAG as int] == 0 <==> vx < vy)
            &&& x != FLAG ==> next.v[x as int] == (vx - vy) % 256
            &&& forall|i: int| 0 <= i < 16 && i != x && i != FLAG ==> next.v[i] == m.v[i]
            &&& next == Machine { v: next.v, ..m }
        }),
{
    lemma_nibbles(register_opcode(5, x, y), 8, x as u16, y as u16, 5);
    assert(decode(register_opcode(5, x, y)) == Some(Instruction::Sub { x, y }));
}

/// Reverse subtract, `8xy7`: as `8xy5` with `vY - vX`.
pub proof fn law_subtract_from(m: Machine, x: u8, y: u8, random: u8)
    requires
        m.wf(),
        x < 16,
        y < 16,
    ensures
        ({
            let (next, outcome) = m.execute(register_opcode(7, x, y), random);
            let vx = m.v[x as int];
            let vy = m.v[y as int];
            &&& outcome == Ok::<Tick, Fault>(Tick::Executed)
            &&& (next.v[FLAG as int] == 1 <==> vy >= vx)
            &&& (next.v[FLAG as int] == 0 <==> vy < vx)
            &&& x != FLAG ==> next.v[x as int] == (vy - vx) % 256
            &&& forall|i: int| 0 <= i < 16 && i != x && i != FLAG ==> next.v[i] == m.v[i]
            &&& next == Machine { v: next.v, ..m }
        }),
{
    lemma_nibbles(register_opcode(7, x, y), 8, x as u16, y as u16, 7);
    assert(decode(register_opcode(7, x, y)) == Some(Instruction::SubFrom { x, y }));
}

/// Shift right, `8xy6`: the flag register receives the lowest bit of the
/// register that is shifted, and `vX` receives its upper seven bits. What is
/// shifted is `vX` under the shifting quirk, and `vY` without it; under the
/// quirk `vY` plays no part.
pub proof fn law_shift_right(m: Machine, x: u8, y: u8, random: u8)
    requires
        m.wf(),
        x < 16,
        y < 16,
    ensures
        ({
            let (next, outcome) = m.execute(register_opcode(6, x, y), random);
            let source = if m.has(Quirk::Shifting) {
                m.v[x as int]
            } else {
                m.v[y as int]
            };
            &&& outcome == Ok::<Tick, Fault>(Tick::Executed)
            &&& next.v[FLAG as int] == source % 2
            &&& x != FLAG ==> next.v[x as int] == source / 2
            &&& forall|i: int| 0 <= i < 16 && i != x && i != FLAG ==> next.v[i] == m.v[i]
            &&& next == Machine { v: next.v, ..m }
        }),
{
    lemma_nibbles(register_opcode(6, x, y), 8, x as u16, y as u16, 6);
    assert(decode(register_opcode(6, x, y)) == Some(Instruction::ShiftRight { x, y }));
}

/// Shift left, `8xyE`: the flag register receives the highest bit of the
/// register that is shifted, and `vX` receives its lower seven bits, moved
/// up by one. What is shifted is `vX` under the shifting quirk, and `vY`
/// without it.
pub proof fn law_shift_left(m: Machine, x: u8, y: u8, random: u8)
    requires
        m.wf(),
        x < 16,
        y < 16,
    ensures
        ({
            let (next, outcome) = m.execute(register_opcode(0xE, x, y), random);
            let source = if m.has(Quirk::Shifting) {
                m.v[x as int]
            } else {
                m.v[y as int]
            };
            &&& outcome == Ok::<Tick, Fault>(Tick::Executed)
            &&& next.v[FLAG as int] == source / 128
            &&& x != FLAG ==> next.v[x as int] == (source * 2) % 256
            &&& forall|i: int| 0 <= i < 16 && i != x && i != FLAG ==> next.v[i] == m.v[i]
            &&& next == Machine { v: next.v, ..m }
        }),
{
    lemma_nibbles(register_opcode(0xE, x, y), 8, x as u16, y as u16, 0xE);
    assert(decode(register_opcode(0xE, x, y)) == Some(Instruction::ShiftLeft { x, y }));
}

/// The logic instructions `8xy1`, `8xy2` and `8xy3` store `vX | vY`,
/// `vX & vY` and `vX ^ vY` in `vX`. Under the flag-reset quirk they then
/// force the flag register to 0, even if `X` is the flag register; without
/// the quirk they leave the flag register alone.
pub proof fn law_logic(m: Machine, x: u8, y: u8, random: u8)
    requires
        m.wf(),
        x < 16,
        y < 16,
    ensures
        ({
            let vx = m.v[x as int];
            let vy = m.v[y as int];
            let or = m.execute(register_opcode(1, x, y), random);
            let and = m.execute(register_opcode(2, x, y), random);
            let xor = m.execute(register_opcode(3, x, y), random);
            &&& or.1 == Ok::<Tick, Fault>(Tick::Executed)
            &&& and.1 == Ok::<Tick, Fault>(Tick::Executed)
            &&& xor.1 == Ok::<Tick, Fault>(Tick::Executed)
            &&& m.has(Quirk::VfReset) ==> {
                &&& or.0 == m.with_v(x as int, vx | vy).with_flag(0)
                &&& and.0 == m.with_v(x as int, vx & vy).with_flag(0)
                &&& xor.0 == m.with_v(x as int, vx ^ vy).with_flag(0)
            }
            &&& !m.has(Quirk::VfReset) ==> {
                &&& or.0 == m.with_v(x as int, vx | vy)
                &&& and.0 == m.with_v(x as int, vx & vy)
                &&& xor.0 == m.with_v(x as int, vx ^ vy)
            }
        }),
{
    lemma_nibbles(register_opcode(1, x, y), 8, x as u16, y as u16, 1);
    lemma_nibbles(register_opcode(2, x, y), 8, x as u16, y as u16, 2);
    lemma_nibbles(register_opcode(3, x, y), 8, x as u16, y as u16, 3);
    assert(decode(register_opcode(1, x, y)) == Some(Instruction::Or { x, y }));
    assert(decode(register_opcode(2, x, y)) == Some(Instruction::And { x, y }));
    assert(decode(register_opcode(3, x, y)) == Some(Instruction::Xor { x, y }));
}

/// Jump with offset, `Bnnn`: the program counter becomes `nnn` plus `v0`,
/// or, under the jumping quirk, `nnn` plus `vX`, where `X` is the highest
/// nibble of `nnn`. Nothing else changes.
pub proof fn law_jump_offset(m: Machine, addr: u16, random: u8)
    requires
        m.wf(),
        addr < 0x1000,
    ensures
        ({
            let (next, outcome) = m.execute((0xB000 + addr) as u16, random);
            let offset = if m.has(Quirk::Jumping) {
                m.v[(addr / 0x100) as int]
            } else {
                m.v[0]
            };
            &&& outcome == Ok::<Tick, Fault>(Tick::Executed)
            &&& next == Machine { pc: (addr + offset) as u16, ..m }
        }),
{
    assert(decode((0xB000 + addr) as u16) == Some(Instruction::JumpOffset { addr }));
}

/// A tick that reports a fault has changed nothing, and a tick that meets
/// an opcode that stands for no instruction has only moved the program
/// counter behind it.
pub proof fn law_anomalies_change_nothing(m: Machine, random: u8)
    ensures
        m.tick(random).1 is Err ==> m.tick(random).0 == m,
        m.tick(random).1 matches Ok(Tick::UnknownOpcode(opcode)) ==> {
            &&& opcode == opcode_at(m.memory, m.pc as int)
            &&& decode(opcode) is None
            &&& m.tick(random).0 == Machine { pc: (m.pc + 2) as u16, ..m }
        },
{
}

/// Bulk save, `Fx55`: the registers `v0..=vX` are copied to memory from the
/// index register on, the rest of memory stays, and under the memory quirk
/// the index register grows by exactly `X + 1`; without it the index
/// register stays. A save that would leave memory is a fault.
pub proof fn law_save(m: Machine, x: u8, random: u8)
    requires
        m.wf(),
        x < 16,
    ensures
        ({
            let (next, outcome) = m.execute(system_opcode(0x55, x), random);
            if m.index + x < MEMORY_SIZE {
                &&& outcome == Ok::<Tick, Fault>(Tick::Executed)
                &&& next.memory.len() == MEMORY_SIZE
                &&& forall|i: int| 0 <= i <= x ==> next.memory[m.index + i] == m.v[i]
                &&& forall|a: int|
                    0 <= a < MEMORY_SIZE && !(m.index <= a <= m.index + x) ==> next.memory[a]
                        == m.memory[a]
                &&& m.has(Quirk::Memory) ==> next.index == m.index + x + 1
                &&& !m.has(Quirk::Memory) ==> next.index == m.index
                &&& next == Machine { memory: next.memory, index: next.index, ..m }
            } else {
                outcome == Err::<Tick, Fault>(Fault::MemoryOutOfBounds) && next == m
            }
        }),
{
    assert(decode(system_opcode(0x55, x)) == Some(Instruction::Save { x }));
}

/// Bulk load, `Fx65`: the registers `v0..=vX` are filled from memory at the
/// index register, the other registers stay, and under the memory quirk the
/// index register grows by exactly `X + 1`.
pub proof fn law_restore(m: Machine, x: u8, random: u8)
    requires
        m.wf(),
        x < 16,
    ensures
        ({
            let (next, outcome) = m.execute(system_opcode(0x65, x), random);
            if m.index + x < MEMORY_SIZE {
                &&& outcome == Ok::<Tick, Fault>(Tick::Executed)
                &&& next.v.len() == 16
                &&& forall|i: int| 0 <= i <= x ==> next.v[i] == m.memory[m.index + i]
                &&& forall|i: int| x < i < 16 ==> next.v[i] == m.v[i]
                &&& m.has(Quirk::Memory) ==> next.index == m.index + x + 1
                &&& !m.has(Quirk::Memory) ==> next.index == m.index
                &&& next == Machine { v: next.v, index: next.index, ..m }
            } else {
                outcome == Err::<Tick, Fault>(Fault::MemoryOutOfBounds) && next == m
            }
        }),
{
    assert(decode(system_opcode(0x65, x)) == Some(Instruction::Restore { x }));
}

/// A program whose first instruction jumps to itself, `1200` at the start
/// address, runs forever on the spot: each tick executes the jump, reports
/// no fault and leaves the whole machine, the program counter with it, as
/// it was.
pub proof fn law_jump_to_self(m: Machine, randoms: Seq<u8>)
    requires
        m.wf(),
        m.key_wait is None,
        m.pc == START_ADDR,
        m.memory[START_ADDR as int] == 0x12,
        m.memory[START_ADDR + 1] == 0x00,
    ensures
        forall|random: u8| #[trigger] m.tick(random) == (m, Ok::<Tick, Fault>(Tick::Executed)),
        ticks(m, randoms) == m,
        ticks(m, randoms).pc == 0x200,
    decreases randoms.len(),
{
    assert(opcode_at(m.memory, m.pc as int) == 0x1200);
    assert(decode(0x1200) == Some(Instruction::Jump { addr: 0x200 }));
    assert forall|random: u8| #[trigger] m.tick(random) == (m, Ok::<Tick, Fault>(Tick::Executed)) by {
        let fetched = Machine { pc: (m.pc + 2) as u16, ..m };
        assert(fetched.execute(0x1200, random).0 == m);
    }
    if randoms.len() > 0 {
        law_jump_to_self(m, randoms.drop_last());
    }
}

/// A machine that was switched on and had the two bytes `12 00` loaded
/// stays at the start address, whatever the number of ticks, and no tick
/// reports a fault.
pub proof fn law_loaded_jump_to_self(randoms: Seq<u8>)
    ensures
        ({
            let m = Machine {
                memory: overwrite(initial_memory(), START_ADDR as int, seq![0x12u8, 0x00u8]),
                ..initial_machine()
            };
            &&& ticks(m, randoms) == m
            &&& ticks(m, randoms).pc == 0x200
            &&& forall|random: u8| #[trigger] m.tick(random).1 == Ok::<Tick, Fault>(Tick::Executed)
        }),
{
    let m = Machine {
        memory: overwrite(initial_memory(), START_ADDR as int, seq![0x12u8, 0x00u8]),
        ..initial_machine()
    };
    law_jump_to_self(m, randoms);
}

/// Entering the wait for a key, `Fx0A`, latches register `X` and changes
/// nothing else.
pub proof fn law_wait_key(m: Machine, x: u8, random: u8)
    requires
        m.wf(),
        x < 16,
    ensures
        m.execute(system_opcode(0x0A, x), random) == (
            Machine { key_wait: Some(x), ..m },
            Ok::<Tick, Fault>(Tick::Executed),
        ),
{
    assert(decode(system_opcode(0x0A, x)) == Some(Instruction::WaitKey { x }));
}

/// While the machine waits for a key, ticks of the processor change
/// nothing, however many there are, and neither do keys that go down.
pub proof fn law_waiting_is_idle(m: Machine, randoms: Seq<u8>)
    requires
        m.key_wait is Some,
    ensures
        forall|random: u8| #[trigger] m.tick(random) == (m, Ok::<Tick, Fault>(Tick::AwaitingKey)),
        ticks(m, randoms) == m,
        forall|key: int| (#[trigger] m.press_key(key)).key_wait == m.key_wait,
        m.tick_timers().key_wait == m.key_wait,
    decreases randoms.len(),
{
    if randoms.len() > 0 {
        law_waiting_is_idle(m, randoms.drop_last());
    }
}

/// The wait for a key ends exactly when a key comes up: the latched
/// register receives the number of that key, the key is up, and the
/// processor fetches again with the next tick.
pub proof fn law_release_resumes(m: Machine, x: u8, key: int, random: u8)
    requires
        m.wf(),
        m.key_wait == Some(x),
        0 <= key < 16,
    ensures
        ({
            let next = m.release_key(key);
            &&& next.key_wait is None
            &&& next.v == m.v.update(x as int, key as u8)
            &&& next.v[x as int] == key
            &&& !next.keys[key]
            &&& next == Machine { key_wait: None, v: next.v, keys: next.keys, ..m }
            &&& next.tick(random).1 != Ok::<Tick, Fault>(Tick::AwaitingKey)
            &&& next.wf()
        }),
{
}

/// Loading a program leaves everything below the start address as it is:
/// the font stays where construction put it.
pub proof fn law_load_keeps_font(data: Seq<u8>)
    ensures
        overwrite(initial_memory(), START_ADDR as int, data).subrange(0, FONT_SIZE as int)
            == font(),
{
    assert(overwrite(initial_memory(), START_ADDR as int, data).subrange(0, FONT_SIZE as int)
        =~= font());
}

/// No instruction changes the quirks, and an instruction leaves a well
/// formed machine well formed.
pub proof fn law_execute_keeps_shape(m: Machine, opcode: u16, random: u8)
    requires
        m.wf(),
    ensures
        m.execute(opcode, random).0.wf(),
        m.execute(opcode, random).0.quirks == m.quirks,
{
    match decode(opcode) {
        Some(Instruction::Draw { x, y, rows }) => {
            if m.index + rows <= MEMORY_SIZE {
                law_draw_flips(
                    m.display,
                    m.v[x as int] as int,
                    m.v[y as int] as int,
                    rows as nat,
                    m.memory.subrange(m.index as int, m.index + rows),
                    m.has(Quirk::Clipping),
                );
            }
        },
        _ => {},
    }
}

/// Neither ticks of the processor, nor ticks of the timers, nor keys change
/// the quirks or the sizes of the machine's parts.
pub proof fn law_shape_is_kept(m: Machine, random: u8, key: int)
    requires
        m.wf(),
    ensures
        m.tick(random).0.wf() && m.tick(random).0.quirks == m.quirks,
        m.tick_timers().wf() && m.tick_timers().quirks == m.quirks,
        m.press_key(key).wf() && m.press_key(key).quirks == m.quirks,
        m.release_key(key).wf() && m.release_key(key).quirks == m.quirks,
{
    if m.key_wait is None && m.can_fetch() {
        law_execute_keeps_shape(
            Machine { pc: (m.pc + 2) as u16, ..m },
            opcode_at(m.memory, m.pc as int),
            random,
        );
    }
}

/// The timers count down by at most one per tick and stop at zero.
pub proof fn law_timers_count_down(m: Machine)
    ensures
        m.delay_timer - 1 <= m.tick_timers().delay_timer <= m.delay_timer,
        m.sound_timer - 1 <= m.tick_timers().sound_timer <= m.sound_timer,
        m.delay_timer == 0 ==> m.tick_timers().delay_timer == 0,
        m.sound_timer == 0 ==> m.tick_timers().sound_timer == 0,
        m.tick_timers() == (Machine {
            delay_timer: m.tick_timers().delay_timer,
            sound_timer: m.tick_timers().sound_timer,
            ..m
        }),
{
}

} // verus!
