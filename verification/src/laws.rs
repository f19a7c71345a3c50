//! What holds of every machine: statements over the model of `machine`,
//! each proved from the definitions there.

use vstd::prelude::*;
use crate::error::Chip8Error;
use crate::input::Stamped;
use crate::instructions::{lemma_decoded_is_wf, spec_decode, Instruction};
use crate::machine::{
    awaited_count, blank_frame, draw_sprite, frame_shaped, sprite_pixel, turned_off, Machine,
};

verus! {

/// An address at which an instruction can stand: even and inside memory.
pub open spec fn on_grid(addr: int) -> bool {
    0 <= addr <= 4095 && addr % 2 == 0
}

impl Machine {
    /// The program counter and every return address on the stack are even
    /// and inside memory.
    pub open spec fn aligned(self) -> bool {
        &&& on_grid(self.program_counter as int)
        &&& forall|i: int| 0 <= i < self.stack_pointer ==> on_grid(#[trigger] self.stack[i] as int)
    }

    /// Whether the instruction at the program counter takes an aligned
    /// machine off the grid. That is so of a jump or call to an odd address;
    /// of a jump by `V0` to an odd address or past the end of memory; of a
    /// call from the last word of memory, whose return address lies outside;
    /// and of any other instruction but a return that stands in the last
    /// word of memory, or in the one before and skips.
    pub open spec fn strays(self) -> bool {
        let instruction = spec_decode(self.opcode()).unwrap();
        match instruction {
            Instruction::Return => false,
            Instruction::Jump(nnn) => nnn % 2 != 0,
            Instruction::Call(nnn) => nnn % 2 != 0 || self.program_counter + 2 > 4095,
            Instruction::JumpV0(nnn) => !on_grid(self.registers[0] + nnn),
            _ => self.program_counter + 2 > 4095 || (self.fetched().skip_taken(instruction)
                && self.program_counter + 4 > 4095),
        }
    }
}

/// The machine at power-on is well formed and aligned.
pub proof fn lemma_initial_aligned()
    ensures
        Machine::initial().wf(),
        Machine::initial().aligned(),
{
}

/// An instruction is only ever executed from a program counter inside
/// memory: where a tick does not fail, the program counter is at most 4094.
pub proof fn lemma_tick_starts_in_memory(m: Machine)
    requires
        m.tick_fault() is None,
    ensures
        0 <= m.program_counter <= 4094,
{
}

/// A tick that succeeds keeps the stack pointer within `0..=16`, the shape of
/// the machine and the validity of an awaited register.
pub proof fn lemma_tick_keeps_wf(m: Machine, random: u8)
    requires
        m.wf(),
        m.tick_fault() is None,
    ensures
        m.ticked(random).wf(),
        0 <= m.ticked(random).stack_pointer <= 16,
{
    lemma_decoded_is_wf(m.opcode());
    let instruction = spec_decode(m.opcode()).unwrap();
    lemma_apply_keeps_wf(m.fetched(), instruction, random);
}

/// An instruction that is not refused keeps a well-formed machine well formed.
pub proof fn lemma_apply_keeps_wf(m: Machine, instruction: Instruction, random: u8)
    requires
        m.wf(),
        instruction.wf(),
        m.fault(instruction) is None,
    ensures
        m.apply(instruction, random).wf(),
{
}

/// On an aligned machine, a tick that succeeds leaves the program counter
/// and the return addresses even and inside memory, unless the instruction
/// strays; and an instruction that strays does not.
pub proof fn lemma_tick_keeps_alignment(m: Machine, random: u8)
    requires
        m.wf(),
        m.aligned(),
        m.tick_fault() is None,
    ensures
        m.ticked(random).aligned() <==> !m.strays(),
{
    lemma_decoded_is_wf(m.opcode());
    let instruction = spec_decode(m.opcode()).unwrap();
    let f = m.fetched();
    let t = m.ticked(random);
    match instruction {
        Instruction::Call(nnn) => {
            if t.aligned() {
                assert(on_grid(t.stack[m.stack_pointer as int] as int));
            }
            if !m.strays() {
                assert forall|i: int| 0 <= i < t.stack_pointer implies on_grid(
                    #[trigger] t.stack[i] as int,
                ) by {
                    if i < m.stack_pointer {
                        assert(on_grid(m.stack[i] as int));
                    }
                }
            }
        },
        Instruction::Return => {
            assert(on_grid(m.stack[m.stack_pointer - 1] as int));
            assert forall|i: int| 0 <= i < t.stack_pointer implies on_grid(
                #[trigger] t.stack[i] as int,
            ) by {
                assert(on_grid(m.stack[i] as int));
            }
        },
        _ => {
            assert(t.stack == m.stack);
            assert(t.stack_pointer == m.stack_pointer);
            assert(t.program_counter == f.program_counter || t.program_counter
                == f.program_counter + 2 || instruction is Jump || instruction is JumpV0);
        },
    }
}

/// A cycle that succeeds on an aligned machine leaves it aligned, unless the
/// instruction executed in the cycle strays. A cycle spent waiting for a key
/// executes none.
pub proof fn lemma_cycle_keeps_alignment(
    m: Machine,
    entries: Seq<Stamped>,
    random: u8,
    clk_freq: u64,
    after: Machine,
)
    requires
        m.wf(),
        m.aligned(),
        m.cycles(entries, random, clk_freq, Ok(()), after),
        m.awaiting_key is None ==> !m.cycle_input(entries).strays(),
    ensures
        after.aligned(),
{
    let input = m.cycle_input(entries);
    assert(input.stack == m.stack);
    if m.awaiting_key is None {
        lemma_with_keys_keeps_wf(m, entries.take(m.cycle_takes(entries) as int));
        lemma_tick_keeps_alignment(input, random);
        let t = input.ticked(random);
        assert(after.stack == t.stack);
    } else {
        assert(after.stack == m.stack);
    }
}

/// Key events keep the keypad at sixteen keys.
pub proof fn lemma_with_keys_keeps_wf(m: Machine, entries: Seq<Stamped>)
    requires
        m.wf(),
    ensures
        m.with_keys(entries).wf(),
    decreases entries.len(),
{
    if entries.len() > 0 {
        lemma_with_keys_keeps_wf(m, entries.drop_last());
    }
}

/// A cycle that succeeds keeps the stack pointer within `0..=16`.
pub proof fn lemma_cycle_keeps_wf(
    m: Machine,
    entries: Seq<Stamped>,
    random: u8,
    clk_freq: u64,
    after: Machine,
)
    requires
        m.wf(),
        m.cycles(entries, random, clk_freq, Ok(()), after),
    ensures
        after.wf(),
        0 <= after.stack_pointer <= 16,
{
    let input = m.cycle_input(entries);
    match m.awaiting_key {
        Some(x) => {
            lemma_with_keys_keeps_wf(
                m,
                entries.take(awaited_count(entries, m.clk) as int),
            );
        },
        None => {
            lemma_with_keys_keeps_wf(m, entries.take(m.cycle_takes(entries) as int));
            lemma_tick_keeps_wf(input, random);
        },
    }
}

/// A cycle is determined by the machine, the queue, the clock frequency and
/// the random byte: the same of each gives the same outcome and the same
/// machine, which is what lets a run be played again from its program, its
/// seed and its input log.
pub proof fn lemma_cycle_is_determined(
    m: Machine,
    entries: Seq<Stamped>,
    random: u8,
    clk_freq: u64,
    res1: Result<(), Chip8Error>,
    after1: Machine,
    res2: Result<(), Chip8Error>,
    after2: Machine,
)
    requires
        m.cycles(entries, random, clk_freq, res1, after1),
        m.cycles(entries, random, clk_freq, res2, after2),
    ensures
        res1 == res2,
        after1 == after2,
{
    if let (Ok(u1), Ok(u2)) = (res1, res2) {
        assert(u1 == u2);
    }
}

/// The delay timer never rises but by an instruction that sets it: over a
/// cycle that executes anything else, or nothing, it stays or falls by one.
/// Both timers are bytes, so they lie in `0..=255` at all times.
pub proof fn lemma_delay_timer_falls(
    m: Machine,
    entries: Seq<Stamped>,
    random: u8,
    clk_freq: u64,
    after: Machine,
)
    requires
        m.wf(),
        m.cycles(entries, random, clk_freq, Ok(()), after),
        m.awaiting_key is None ==> !(spec_decode(m.opcode()) matches Some(
            Instruction::SetDelay(_),
        )),
    ensures
        after.delay_timer <= m.delay_timer,
        m.delay_timer - after.delay_timer <= 1,
        0 <= after.delay_timer <= 255,
        0 <= after.sound_timer <= 255,
{
    let input = m.cycle_input(entries);
    assert(input.delay_timer == m.delay_timer);
    assert(input.opcode() == m.opcode());
}

/// After a draw, `VF` is one if the draw turned off a pixel that was on, and
/// zero if it turned none off.
pub proof fn lemma_draw_sets_flag(m: Machine, x: usize, y: usize, n: u8)
    requires
        m.shaped(),
        x < 16,
        y < 16,
    ensures
        ({
            let after = m.apply(Instruction::Draw(x, y, n), 0);
            let went_off = exists|px: int, py: int|
                0 <= px < 64 && 0 <= py < 32 && #[trigger] turned_off(
                    m.frame_buffer,
                    after.frame_buffer,
                    px,
                    py,
                );
            &&& after.registers[15] == 0 || after.registers[15] == 1
            &&& after.registers[15] == 1 <==> went_off
        }),
{
    let after = m.apply(Instruction::Draw(x, y, n), 0);
    let x0 = m.registers[x as int] as int % 64;
    let y0 = m.registers[y as int] as int % 32;
    let drawn = draw_sprite(
        m.frame_buffer,
        m.memory,
        m.index_register as int,
        n as int,
        x0,
        y0,
    );
    assert(after.frame_buffer == drawn);
}

/// Where the result register of an addition or subtraction is `VF` itself,
/// `VF` holds the flag afterwards, not the result: the carry of `VF + VY`,
/// and whether no borrow was needed for `VF - VY` and for `VY - VF`.
pub proof fn lemma_flag_outlives_result(m: Machine, y: usize)
    requires
        m.shaped(),
        y < 16,
    ensures
        m.apply(Instruction::AddXY(15, y), 0).registers[15] == if m.registers[15]
            + m.registers[y as int] > 255 {
            1u8
        } else {
            0u8
        },
        m.apply(Instruction::SubXY(15, y), 0).registers[15] == if m.registers[15]
            >= m.registers[y as int] {
            1u8
        } else {
            0u8
        },
        m.apply(Instruction::SubYX(15, y), 0).registers[15] == if m.registers[y as int]
            >= m.registers[15] {
            1u8
        } else {
            0u8
        },
{
}

/// Clearing the display twice gives what clearing it once gives.
pub proof fn lemma_clear_idempotent(m: Machine)
    ensures
        m.apply(Instruction::ClearDisplay, 0).apply(Instruction::ClearDisplay, 0) == m.apply(
            Instruction::ClearDisplay,
            0,
        ),
        m.apply(Instruction::ClearDisplay, 0).frame_buffer == blank_frame(),
{
}

/// Drawing the same sprite twice at the same place gives back the display
/// as it was.
pub proof fn lemma_draw_twice_restores(
    frame: Seq<Seq<bool>>,
    memory: Seq<u8>,
    start: int,
    height: int,
    x0: int,
    y0: int,
)
    requires
        frame_shaped(frame),
    ensures
        draw_sprite(draw_sprite(frame, memory, start, height, x0, y0), memory, start, height, x0, y0)
            == frame,
{
    let once = draw_sprite(frame, memory, start, height, x0, y0);
    let twice = draw_sprite(once, memory, start, height, x0, y0);
    assert forall|y: int| 0 <= y < 32 implies #[trigger] twice[y] =~= frame[y] by {
        assert(frame[y].len() == 64);
        assert forall|x: int| 0 <= x < 64 implies twice[y][x] == frame[y][x] by {
            assert(once[y][x] == (frame[y][x] != sprite_pixel(
                memory,
                start,
                height,
                x0,
                y0,
                x,
                y,
            )));
        }
    }
    assert(twice =~= frame);
}

/// The same of the instruction: a draw executed twice over, with neither
/// coordinate register being `VF`, which the first draw overwrites, leaves
/// the display as it was.
pub proof fn lemma_draw_instruction_twice(m: Machine, x: usize, y: usize, n: u8)
    requires
        m.shaped(),
        x < 15,
        y < 15,
    ensures
        m.apply(Instruction::Draw(x, y, n), 0).apply(Instruction::Draw(x, y, n), 0).frame_buffer
            == m.frame_buffer,
{
    let x0 = m.registers[x as int] as int % 64;
    let y0 = m.registers[y as int] as int % 32;
    lemma_draw_twice_restores(m.frame_buffer, m.memory, m.index_register as int, n as int, x0, y0);
}

/// Of the executor, whose contract is `Machine::executes`: a draw whose
/// sprite lies in memory succeeds on every machine, whatever its program
/// counter, and leaves `VF` at one if it turned off a pixel that was on and
/// at zero if it turned none off; so at zero where the display was dark or
/// the sprite has no rows.
pub proof fn lemma_executed_draw_sets_flag(
    m: Machine,
    x: usize,
    y: usize,
    n: u8,
    random: u8,
    res: Result<(), Chip8Error>,
    after: Machine,
)
    requires
        m.shaped(),
        x < 16,
        y < 16,
        n < 16,
        m.index_register + n <= 4096,
        m.executes(Instruction::Draw(x, y, n), random, res, after),
    ensures
        res is Ok,
        after.registers[15] == 0 || after.registers[15] == 1,
        after.registers[15] == 1 <==> exists|px: int, py: int|
            0 <= px < 64 && 0 <= py < 32 && #[trigger] turned_off(
                m.frame_buffer,
                after.frame_buffer,
                px,
                py,
            ),
        n == 0 || m.frame_buffer == blank_frame() ==> after.registers[15] == 0,
{
    lemma_draw_sets_flag(m, x, y, n);
    assert(after == m.apply(Instruction::Draw(x, y, n), 0));
    if after.registers[15] == 1 {
        let (px, py) = choose|px: int, py: int|
            0 <= px < 64 && 0 <= py < 32 && #[trigger] turned_off(
                m.frame_buffer,
                after.frame_buffer,
                px,
                py,
            );
        if n == 0 {
            assert(!sprite_pixel(
                m.memory,
                m.index_register as int,
                0,
                m.registers[x as int] as int % 64,
                m.registers[y as int] as int % 32,
                px,
                py,
            ));
        }
    }
}

/// Of the executor: where the result register of `8XY4`, `8XY5` or `8XY7` is
/// `VF` itself, the instruction succeeds on every machine and `VF` holds the
/// flag afterwards, not the sum or the difference.
pub proof fn lemma_executed_flag_outlives_result(
    m: Machine,
    instruction: Instruction,
    y: usize,
    random: u8,
    res: Result<(), Chip8Error>,
    after: Machine,
)
    requires
        m.shaped(),
        y < 16,
        instruction == Instruction::AddXY(15, y) || instruction == Instruction::SubXY(15, y)
            || instruction == Instruction::SubYX(15, y),
        m.executes(instruction, random, res, after),
    ensures
        res is Ok,
        instruction is AddXY ==> after.registers[15] == if m.registers[15] + m.registers[y as int]
            > 255 {
            1u8
        } else {
            0u8
        },
        instruction is SubXY ==> after.registers[15] == if m.registers[15]
            >= m.registers[y as int] {
            1u8
        } else {
            0u8
        },
        instruction is SubYX ==> after.registers[15] == if m.registers[y as int]
            >= m.registers[15] {
            1u8
        } else {
            0u8
        },
{
    lemma_flag_outlives_result(m, y);
}

/// Of the executor: clearing the display succeeds on every machine, turns
/// every pixel off and touches nothing else; clearing it again changes
/// nothing at all.
pub proof fn lemma_executed_clear_idempotent(
    m: Machine,
    random1: u8,
    res1: Result<(), Chip8Error>,
    once: Machine,
    random2: u8,
    res2: Result<(), Chip8Error>,
    twice: Machine,
)
    requires
        m.executes(Instruction::ClearDisplay, random1, res1, once),
        once.executes(Instruction::ClearDisplay, random2, res2, twice),
    ensures
        res1 is Ok,
        res2 is Ok,
        once == (Machine { frame_buffer: blank_frame(), ..m }),
        forall|px: int, py: int| 0 <= px < 64 && 0 <= py < 32 ==> !once.frame_buffer[py][px],
        twice == once,
{
}

/// Of the executor: a draw executed twice over, with its sprite in memory
/// and neither coordinate register being `VF`, succeeds both times and
/// leaves the display as it was before the first.
pub proof fn lemma_executed_draw_twice(
    m: Machine,
    x: usize,
    y: usize,
    n: u8,
    random1: u8,
    res1: Result<(), Chip8Error>,
    once: Machine,
    random2: u8,
    res2: Result<(), Chip8Error>,
    twice: Machine,
)
    requires
        m.shaped(),
        x < 15,
        y < 15,
        n < 16,
        m.index_register + n <= 4096,
        m.executes(Instruction::Draw(x, y, n), random1, res1, once),
        once.executes(Instruction::Draw(x, y, n), random2, res2, twice),
    ensures
        res1 is Ok,
        res2 is Ok,
        twice.frame_buffer == m.frame_buffer,
{
    lemma_draw_instruction_twice(m, x, y, n);
    assert(once == m.apply(Instruction::Draw(x, y, n), 0));
    assert(once.index_register == m.index_register);
    assert(twice == once.apply(Instruction::Draw(x, y, n), 0));
}

/// A program that was loaded can be read back from memory, byte for byte.
pub proof fn lemma_rom_round_trip(m: Machine, rom: Seq<u8>)
    requires
        m.shaped(),
        0x200 + rom.len() <= 4096,
    ensures
        m.store(0x200, rom).memory.subrange(0x200, 0x200 + rom.len() as int) == rom,
        forall|a: int|
            0 <= a < 0x200 || 0x200 + rom.len() <= a < 4096 ==> m.store(0x200, rom).memory[a]
                == m.memory[a],
{
    assert(m.store(0x200, rom).memory.subrange(0x200, 0x200 + rom.len() as int) =~= rom);
}

} // verus!
