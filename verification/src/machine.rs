use vstd::prelude::*;
use crate::constants::FONTSET;
use crate::error::Chip8Error;
use crate::keypad::Key;
use crate::input::{ready_count, InputEvent, InputKind, Stamped};
use crate::instructions::{spec_decode, Instruction};

verus! {

/// The machine as a mathematical value: what `Chip8State` holds, with
/// sequences in place of arrays. Contracts are stated over this model.
#[verifier::ext_equal]
pub struct Machine {
    /// `V0` to `VF`.
    pub registers: Seq<u8>,
    pub memory: Seq<u8>,
    pub index_register: u16,
    pub program_counter: u16,
    pub stack: Seq<u16>,
    /// The number of return addresses on the stack.
    pub stack_pointer: u8,
    pub delay_timer: u8,
    pub sound_timer: u8,
    /// Which keys are held down, by key digit.
    pub keypad: Seq<bool>,
    /// The display: rows from the top, each a row of pixels from the left.
    pub frame_buffer: Seq<Seq<bool>>,
    /// Completed processor cycles.
    pub clk: u64,
    /// The register that is to receive the next key press, while the
    /// processor is halted by a key-wait instruction.
    pub awaiting_key: Option<usize>,
}

/// A display of 32 rows by 64 columns.
pub open spec fn frame_shaped(frame: Seq<Seq<bool>>) -> bool {
    &&& frame.len() == 32
    &&& forall|y: int| 0 <= y < 32 ==> (#[trigger] frame[y]).len() == 64
}

/// The display with every pixel off.
pub open spec fn blank_frame() -> Seq<Seq<bool>> {
    Seq::new(32, |y: int| Seq::new(64, |x: int| false))
}

/// Bit `col` of a sprite row, counted from the most significant bit, which is
/// the leftmost pixel.
pub open spec fn sprite_bit(row: u8, col: int) -> bool {
    (row as int / pow2_small(7 - col)) % 2 == 1
}

/// `2^k` for the bit positions of a byte.
pub open spec fn pow2_small(k: int) -> int {
    if k <= 0 {
        1
    } else if k == 1 {
        2
    } else if k == 2 {
        4
    } else if k == 3 {
        8
    } else if k == 4 {
        16
    } else if k == 5 {
        32
    } else if k == 6 {
        64
    } else {
        128
    }
}

/// Whether the sprite of `height` rows stored from `memory[start]`, placed
/// with its top left corner at column `x0`, row `y0`, has a set bit on the
/// pixel at column `x`, row `y`. Rows and columns that run past an edge of the
/// display come back in at the opposite edge.
pub open spec fn sprite_pixel(
    memory: Seq<u8>,
    start: int,
    height: int,
    x0: int,
    y0: int,
    x: int,
    y: int,
) -> bool {
    let dy = (y - y0) % 32;
    let dx = (x - x0) % 64;
    dy < height && dx < 8 && sprite_bit(memory[start + dy], dx)
}

/// The display after the sprite is drawn: each pixel under a set bit of the
/// sprite is toggled, every other pixel is kept.
pub open spec fn draw_sprite(
    frame: Seq<Seq<bool>>,
    memory: Seq<u8>,
    start: int,
    height: int,
    x0: int,
    y0: int,
) -> Seq<Seq<bool>> {
    Seq::new(
        32,
        |y: int|
            Seq::new(
                64,
                |x: int| frame[y][x] != sprite_pixel(memory, start, height, x0, y0, x, y),
            ),
    )
}

/// Whether drawing the sprite turns off a pixel that was on.
pub open spec fn sprite_collides(
    frame: Seq<Seq<bool>>,
    memory: Seq<u8>,
    start: int,
    height: int,
    x0: int,
    y0: int,
) -> bool {
    exists|x: int, y: int|
        0 <= x < 64 && 0 <= y < 32 && #[trigger] turned_off(
            frame,
            draw_sprite(frame, memory, start, height, x0, y0),
            x,
            y,
        )
}

/// The pixel at column `x`, row `y` is on in `before` and off in `after`.
pub open spec fn turned_off(before: Seq<Seq<bool>>, after: Seq<Seq<bool>>, x: int, y: int) -> bool {
    before[y][x] && !after[y][x]
}

/// The keypad after an event: the key of the event is down after a press and
/// up after a release.
pub open spec fn key_event(keypad: Seq<bool>, event: InputEvent) -> Seq<bool> {
    keypad.update(event.key.spec_index() as int, event.kind == InputKind::Press)
}

/// The keypad after the given entries, taken oldest first.
pub open spec fn key_events(keypad: Seq<bool>, entries: Seq<Stamped>) -> Seq<bool>
    decreases entries.len(),
{
    if entries.len() == 0 {
        keypad
    } else {
        key_event(key_events(keypad, entries.drop_last()), entries.last().1)
    }
}

/// How many entries a processor that waits for a key takes from the queue at
/// clock `clk`: the entries that are ready, up to and including the first
/// press among them.
pub open spec fn awaited_count(entries: Seq<Stamped>, clk: u64) -> nat
    decreases entries.len(),
{
    if entries.len() == 0 || entries[0].0 > clk {
        0
    } else if entries[0].1.kind == InputKind::Press {
        1
    } else {
        1 + awaited_count(entries.drop_first(), clk)
    }
}

/// The key whose press ends the wait of a processor at clock `clk`, if the
/// entries that are ready hold a press.
pub open spec fn awaited_key(entries: Seq<Stamped>, clk: u64) -> Option<Key> {
    let taken = awaited_count(entries, clk);
    if taken > 0 && entries[taken - 1].1.kind == InputKind::Press {
        Some(entries[taken - 1].1.key)
    } else {
        None
    }
}

/// The first address outside memory that an access to `len` cells from
/// `start` upwards reaches, as the error that reports it; `None` where the
/// cells all lie in memory.
pub open spec fn span_fault(start: u16, len: int) -> Option<Chip8Error> {
    if len > 0 && start + len > 4096 {
        Some(Chip8Error::MemoryAccessOutOfBounds(if start >= 4096 { start } else { 4096 }))
    } else {
        None
    }
}

/// The result and the flag of an arithmetic or shift instruction on the
/// operands `vx` and `vy`: the sum and its carry; a difference and whether no
/// borrow was needed; the operand shifted by one place and the bit that fell off.
pub open spec fn flagged_result(instruction: Instruction, vx: u8, vy: u8) -> (u8, bool) {
    match instruction {
        Instruction::AddXY(_, _) => (((vx + vy) % 256) as u8, vx + vy > 255),
        Instruction::SubXY(_, _) => (((vx - vy) % 256) as u8, vx >= vy),
        Instruction::SubYX(_, _) => (((vy - vx) % 256) as u8, vy >= vx),
        Instruction::ShiftRight(_) => (vx / 2, vx % 2 == 1),
        Instruction::ShiftLeft(_) => (((vx * 2) % 256) as u8, vx >= 128),
        _ => (vx, false),
    }
}

/// The three decimal digits of a byte: hundreds, tens, units.
pub open spec fn bcd(value: u8) -> Seq<u8> {
    seq![(value / 100) % 10, (value / 10) % 10, value % 10]
}

impl Machine {
    /// Every sequence has the length of the array it stands for.
    pub open spec fn shaped(self) -> bool {
        &&& self.registers.len() == 16
        &&& self.memory.len() == 4096
        &&& self.stack.len() == 16
        &&& self.keypad.len() == 16
        &&& frame_shaped(self.frame_buffer)
    }

    /// The stack pointer is at most sixteen and a register awaited by a
    /// key-wait exists.
    pub open spec fn wf(self) -> bool {
        &&& self.shaped()
        &&& self.stack_pointer <= 16
        &&& self.awaiting_key matches Some(x) ==> x < 16
    }

    /// All registers, memory, timers and pixels zero, nothing stacked.
    pub open spec fn zeroed() -> Machine {
        Machine {
            registers: Seq::new(16, |i: int| 0u8),
            memory: Seq::new(4096, |i: int| 0u8),
            index_register: 0,
            program_counter: 0,
            stack: Seq::new(16, |i: int| 0u16),
            stack_pointer: 0,
            delay_timer: 0,
            sound_timer: 0,
            keypad: Seq::new(16, |i: int| false),
            frame_buffer: blank_frame(),
            clk: 0,
            awaiting_key: None,
        }
    }

    /// The machine at power-on: zeroed, but for the font at the bottom of
    /// memory and the program counter at the program start address.
    pub open spec fn initial() -> Machine {
        Machine {
            memory: Seq::new(4096, |a: int| if a < 80 { FONTSET@[a] } else { 0u8 }),
            program_counter: 0x200,
            ..Machine::zeroed()
        }
    }

    pub open spec fn set_register(self, x: int, value: u8) -> Machine {
        Machine { registers: self.registers.update(x, value), ..self }
    }

    /// Writes `VF`: one for a raised flag, zero otherwise.
    pub open spec fn set_flag(self, flag: bool) -> Machine {
        self.set_register(15, if flag { 1u8 } else { 0u8 })
    }

    /// Steps over the next instruction if `condition` holds.
    pub open spec fn skip_if(self, condition: bool) -> Machine {
        if condition {
            Machine { program_counter: (self.program_counter + 2) as u16, ..self }
        } else {
            self
        }
    }

    /// Whether `instruction` is a skip whose condition holds on this machine.
    pub open spec fn skip_taken(self, instruction: Instruction) -> bool {
        let v = self.registers;
        match instruction {
            Instruction::SkipEqual(x, nn) => v[x as int] == nn,
            Instruction::SkipNotEqual(x, nn) => v[x as int] != nn,
            Instruction::SkipEqualXY(x, y) => v[x as int] == v[y as int],
            Instruction::SkipNotEqualXY(x, y) => v[x as int] != v[y as int],
            Instruction::SkipKeyPressed(x) => self.key_down(v[x as int]),
            Instruction::SkipKeyNotPressed(x) => !self.key_down(v[x as int]),
            _ => false,
        }
    }

    /// Whether the key with digit `index` is held down. There is no key with a
    /// digit of sixteen or more, so none such is down.
    pub open spec fn key_down(self, index: u8) -> bool {
        index < 16 && self.keypad[index as int]
    }

    /// The big-endian word at the program counter.
    pub open spec fn opcode(self) -> u16 {
        (self.memory[self.program_counter as int] * 256 + self.memory[self.program_counter + 1]) as u16
    }

    /// The machine with the cells `start..start + values.len()` of memory replaced by `values`.
    pub open spec fn store(self, start: int, values: Seq<u8>) -> Machine {
        Machine {
            memory: Seq::new(
                4096,
                |a: int|
                    if start <= a < start + values.len() {
                        values[a - start]
                    } else {
                        self.memory[a]
                    },
            ),
            ..self
        }
    }

    /// The error that stops the machine when it is asked to execute
    /// `instruction`; `None` where the instruction can be executed.
    pub open spec fn fault(self, instruction: Instruction) -> Option<Chip8Error> {
        match instruction {
            Instruction::Return => if self.stack_pointer == 0 || self.stack_pointer > 16 {
                Some(Chip8Error::StackFault)
            } else {
                None
            },
            Instruction::Call(_) => if self.stack_pointer >= 16 {
                Some(Chip8Error::StackFault)
            } else {
                None
            },
            Instruction::Draw(_, _, n) => span_fault(self.index_register, n as int),
            Instruction::StoreBCD(_) => span_fault(self.index_register, 3),
            Instruction::StoreRegisters(x) => span_fault(self.index_register, x + 1),
            Instruction::LoadMemory(x) => span_fault(self.index_register, x + 1),
            _ => None,
        }
    }

    /// The machine after `instruction`, which was fetched from just below the
    /// program counter. `random` is the byte that a `Random` instruction draws.
    pub open spec fn apply(self, instruction: Instruction, random: u8) -> Machine {
        let v = self.registers;
        let i = self.index_register as int;
        match instruction {
            Instruction::ClearDisplay => Machine { frame_buffer: blank_frame(), ..self },
            Instruction::Return => Machine {
                stack_pointer: (self.stack_pointer - 1) as u8,
                program_counter: self.stack[self.stack_pointer - 1],
                ..self
            },
            Instruction::Jump(nnn) => Machine { program_counter: nnn, ..self },
            Instruction::Call(nnn) => Machine {
                stack: self.stack.update(self.stack_pointer as int, self.program_counter),
                stack_pointer: (self.stack_pointer + 1) as u8,
                program_counter: nnn,
                ..self
            },
            Instruction::SkipEqual(_, _) | Instruction::SkipNotEqual(_, _)
            | Instruction::SkipEqualXY(_, _) | Instruction::SkipNotEqualXY(_, _)
            | Instruction::SkipKeyPressed(_) | Instruction::SkipKeyNotPressed(_) => self.skip_if(
                self.skip_taken(instruction),
            ),
            Instruction::Load(x, nn) => self.set_register(x as int, nn),
            Instruction::Add(x, nn) => self.set_register(x as int, ((v[x as int] + nn) % 256) as u8),
            Instruction::Move(x, y) => self.set_register(x as int, v[y as int]),
            Instruction::Or(x, y) => self.set_register(x as int, v[x as int] | v[y as int]),
            Instruction::And(x, y) => self.set_register(x as int, v[x as int] & v[y as int]),
            Instruction::Xor(x, y) => self.set_register(x as int, v[x as int] ^ v[y as int]),
            Instruction::AddXY(x, y) | Instruction::SubXY(x, y) | Instruction::SubYX(x, y) => {
                let (value, flag) = flagged_result(instruction, v[x as int], v[y as int]);
                self.set_register(x as int, value).set_flag(flag)
            },
            Instruction::ShiftRight(x) | Instruction::ShiftLeft(x) => {
                let (value, flag) = flagged_result(instruction, v[x as int], v[x as int]);
                self.set_register(x as int, value).set_flag(flag)
            },
            Instruction::LoadI(nnn) => Machine { index_register: nnn, ..self },
            Instruction::JumpV0(nnn) => Machine { program_counter: (v[0] + nnn) as u16, ..self },
            Instruction::Random(x, nn) => self.set_register(x as int, random & nn),
            Instruction::Draw(x, y, n) => {
                let x0 = v[x as int] as int % 64;
                let y0 = v[y as int] as int % 32;
                Machine {
                    frame_buffer: draw_sprite(self.frame_buffer, self.memory, i, n as int, x0, y0),
                    ..self
                }.set_flag(sprite_collides(self.frame_buffer, self.memory, i, n as int, x0, y0))
            },
            Instruction::LoadDelay(x) => self.set_register(x as int, self.delay_timer),
            Instruction::WaitKeyPress(x) => Machine { awaiting_key: Some(x), ..self },
            Instruction::SetDelay(x) => Machine { delay_timer: v[x as int], ..self },
            Instruction::SetSound(x) => Machine { sound_timer: v[x as int], ..self },
            Instruction::AddI(x) => Machine {
                index_register: ((i + v[x as int]) % 0x10000) as u16,
                ..self
            },
            Instruction::LoadFont(x) => Machine { index_register: (5 * v[x as int]) as u16, ..self },
            Instruction::StoreBCD(x) => self.store(i, bcd(v[x as int])),
            Instruction::StoreRegisters(x) => self.store(i, v.take(x + 1)),
            Instruction::LoadMemory(x) => Machine {
                registers: Seq::new(
                    16,
                    |j: int| if j <= x { self.memory[i + j] } else { v[j] },
                ),
                ..self
            },
        }
    }

    /// What executing `instruction` may give: success with the machine that
    /// `apply` describes, where nothing stops the instruction, and else the
    /// error that `fault` names, with the machine left as it was.
    pub open spec fn executes(
        self,
        instruction: Instruction,
        random: u8,
        res: Result<(), Chip8Error>,
        after: Machine,
    ) -> bool {
        match res {
            Ok(()) => self.fault(instruction) is None && after == self.apply(instruction, random),
            Err(e) => self.fault(instruction) == Some(e) && after == self,
        }
    }

    /// The machine after the given queue entries have moved its keys.
    pub open spec fn with_keys(self, entries: Seq<Stamped>) -> Machine {
        Machine { keypad: key_events(self.keypad, entries), ..self }
    }

    /// The machine with the program counter moved past the word it points at.
    pub open spec fn fetched(self) -> Machine {
        Machine { program_counter: (self.program_counter + 2) as u16, ..self }
    }

    /// The error that stops a fetch, decode and execute at the program
    /// counter: a word that does not lie in memory, a word that is no
    /// instruction, or what stops the instruction. `None` where the
    /// instruction at the program counter can be executed.
    pub open spec fn tick_fault(self) -> Option<Chip8Error> {
        if span_fault(self.program_counter, 2) is Some {
            span_fault(self.program_counter, 2)
        } else {
            match spec_decode(self.opcode()) {
                None => Some(Chip8Error::UnimplementedOpcode(self.opcode())),
                Some(instruction) => self.fetched().fault(instruction),
            }
        }
    }

    /// Whether the next tick draws a random byte: the processor runs, and the
    /// word at the program counter lies in memory and is a `Random`
    /// instruction.
    pub open spec fn draws(self) -> bool {
        &&& self.awaiting_key is None
        &&& span_fault(self.program_counter, 2) is None
        &&& spec_decode(self.opcode()) matches Some(Instruction::Random(_, _))
    }

    /// The machine after the instruction at the program counter.
    pub open spec fn ticked(self, random: u8) -> Machine {
        self.fetched().apply(spec_decode(self.opcode()).unwrap(), random)
    }

    /// What fetching, decoding and executing the instruction at the program
    /// counter may give: success with the machine after the instruction, or
    /// the error of `tick_fault`. After an error the machine is as before,
    /// but that the program counter has moved past a word that was fetched.
    pub open spec fn runs(self, random: u8, res: Result<(), Chip8Error>, after: Machine) -> bool {
        match res {
            Ok(()) => self.tick_fault() is None && after == self.ticked(random),
            Err(e) => {
                &&& self.tick_fault() == Some(e)
                &&& after == if span_fault(self.program_counter, 2) is Some {
                    self
                } else {
                    self.fetched()
                }
            },
        }
    }

    /// The machine after a cycle spent waiting for a key press for register
    /// `x`: the entries taken have moved the keys, and a press among them has
    /// put its key digit into the register and ended the wait.
    pub open spec fn waited(self, x: usize, entries: Seq<Stamped>) -> Machine {
        let taken = entries.take(awaited_count(entries, self.clk) as int);
        match awaited_key(entries, self.clk) {
            Some(key) => Machine {
                awaiting_key: None,
                ..self.with_keys(taken).set_register(x as int, key.spec_index())
            },
            None => self.with_keys(taken),
        }
    }

    /// How many queue entries a tick takes: those of the wait while the
    /// processor waits for a key, and none while it runs.
    pub open spec fn tick_takes(self, entries: Seq<Stamped>) -> nat {
        match self.awaiting_key {
            Some(_) => awaited_count(entries, self.clk),
            None => 0,
        }
    }

    /// What a tick may give. While the processor waits for a key, the tick
    /// is spent on the wait and cannot fail; nothing is fetched. Else the
    /// tick runs the instruction at the program counter.
    pub open spec fn ticks(
        self,
        entries: Seq<Stamped>,
        random: u8,
        res: Result<(), Chip8Error>,
        after: Machine,
    ) -> bool {
        match self.awaiting_key {
            Some(x) => res is Ok && after == self.waited(x, entries),
            None => self.runs(random, res, after),
        }
    }

    /// Whether the timers count down in this cycle of a processor clocked at
    /// `clk_freq` Hz: every `clk_freq / 60` cycles, and in every cycle of a
    /// processor slower than the timers.
    pub open spec fn timer_due(self, clk_freq: u64) -> bool {
        clk_freq / 60 == 0 || self.clk % (clk_freq / 60) == 0
    }

    /// The end of a cycle: the timers count down if they are due, and the
    /// clock moves on by one.
    pub open spec fn cycle_end(self, clk_freq: u64) -> Machine {
        let m = if self.timer_due(clk_freq) {
            self.timers_ticked()
        } else {
            self
        };
        Machine { clk: (m.clk + 1) as u64, ..m }
    }

    /// How many queue entries the next cycle takes.
    pub open spec fn cycle_takes(self, entries: Seq<Stamped>) -> nat {
        match self.awaiting_key {
            Some(_) => awaited_count(entries, self.clk),
            None => ready_count(entries, self.clk),
        }
    }

    /// The machine once the input of the next cycle is in: while it waits
    /// for a key, after the wait; else with the keys moved.
    pub open spec fn cycle_input(self, entries: Seq<Stamped>) -> Machine {
        match self.awaiting_key {
            Some(x) => self.waited(x, entries),
            None => self.with_keys(entries.take(ready_count(entries, self.clk) as int)),
        }
    }

    /// What a whole cycle may give. A processor that waits for a key takes
    /// its input and executes nothing; a running one takes its input, then
    /// fetches, decodes and executes. A cycle that succeeds ends with
    /// `cycle_end`; after an error the timers and the clock stand still.
    pub open spec fn cycles(
        self,
        entries: Seq<Stamped>,
        random: u8,
        clk_freq: u64,
        res: Result<(), Chip8Error>,
        after: Machine,
    ) -> bool {
        let input = self.cycle_input(entries);
        match self.awaiting_key {
            Some(_) => res is Ok && after == input.cycle_end(clk_freq),
            None => match res {
                Ok(()) => input.tick_fault() is None && after == input.ticked(random).cycle_end(
                    clk_freq,
                ),
                Err(_) => input.runs(random, res, after),
            },
        }
    }

    /// The machine after the timers count down once: each timer that is not
    /// zero loses one.
    pub open spec fn timers_ticked(self) -> Machine {
        Machine {
            delay_timer: if self.delay_timer > 0 {
                (self.delay_timer - 1) as u8
            } else {
                0
            },
            sound_timer: if self.sound_timer > 0 {
                (self.sound_timer - 1) as u8
            } else {
                0
            },
            ..self
        }
    }
}

} // verus!
