use vstd::prelude::*;
use crate::constants::{
    DISPLAY_HEIGHT, DISPLAY_WIDTH, FLAG_REGISTER, FONTSET_START_ADDRESS, FONT_SIZE, MEMORY_SIZE,
};
use crate::error::Chip8Error;
use crate::instructions::Instruction;
use crate::machine::{
    bcd, blank_frame, draw_sprite, flagged_result, pow2_small, span_fault, sprite_bit,
    sprite_collides, sprite_pixel, turned_off, Machine,
};
use crate::state::Chip8State;

verus! {

/// The pixel at column `x`, row `y`.
spec fn pixel(frame: Seq<Seq<bool>>, x: int, y: int) -> bool {
    frame[y][x]
}

/// Whether a draw that has finished `rows` rows of a sprite, and `cols`
/// columns of the row after them, has come by the pixel at column `x`, row `y`.
spec fn reached(x0: int, y0: int, rows: int, cols: int, x: int, y: int) -> bool {
    let dy = (y - y0) % 32;
    let dx = (x - x0) % 64;
    dy < rows || (dy == rows && dx < cols)
}

/// Whether such a draw has toggled the pixel.
spec fn toggled(
    memory: Seq<u8>,
    start: int,
    height: int,
    x0: int,
    y0: int,
    rows: int,
    cols: int,
    x: int,
    y: int,
) -> bool {
    reached(x0, y0, rows, cols, x, y) && sprite_pixel(memory, start, height, x0, y0, x, y)
}

/// Whether such a draw has turned the pixel off.
spec fn erased(
    frame: Seq<Seq<bool>>,
    memory: Seq<u8>,
    start: int,
    height: int,
    x0: int,
    y0: int,
    rows: int,
    cols: int,
    x: int,
    y: int,
) -> bool {
    0 <= x < 64 && 0 <= y < 32 && frame[y][x] && toggled(
        memory,
        start,
        height,
        x0,
        y0,
        rows,
        cols,
        x,
        y,
    )
}

/// Shifting a byte right by `k` and masking the lowest bit reads the bit of weight `2^k`.
proof fn lemma_shift_reads_bit(row: u8, k: u8)
    requires
        k < 8,
    ensures
        ((row >> k) & 1 == 1) == ((row as int / pow2_small(k as int)) % 2 == 1),
{
    assert({
        &&& ((row >> 0u8) & 1 == 1) == (row % 2 == 1)
        &&& ((row >> 1u8) & 1 == 1) == ((row / 2) % 2 == 1)
        &&& ((row >> 2u8) & 1 == 1) == ((row / 4) % 2 == 1)
        &&& ((row >> 3u8) & 1 == 1) == ((row / 8) % 2 == 1)
        &&& ((row >> 4u8) & 1 == 1) == ((row / 16) % 2 == 1)
        &&& ((row >> 5u8) & 1 == 1) == ((row / 32) % 2 == 1)
        &&& ((row >> 6u8) & 1 == 1) == ((row / 64) % 2 == 1)
        &&& ((row >> 7u8) & 1 == 1) == ((row / 128) % 2 == 1)
    }) by (bit_vector);
}

/// The shifts and masks of the arithmetic instructions, as arithmetic.
proof fn lemma_shifts(value: u8)
    ensures
        value >> 1 == value / 2,
        value << 1 == (value * 2) % 256,
        (value & 1 != 0) == (value % 2 == 1),
        ((value >> 7) & 1 != 0) == (value >= 128),
{
    assert(value >> 1 == value / 2) by (bit_vector);
    assert(value << 1 == (value * 2) % 256) by (bit_vector);
    assert((value & 1 != 0) == (value % 2 == 1)) by (bit_vector);
    assert(((value >> 7) & 1 != 0) == (value >= 128)) by (bit_vector);
}

/// The one pixel that a draw comes by when it moves on from column `xs` of row `ys`.
proof fn lemma_reached_next(x0: int, y0: int, ys: int, xs: int, px: int, py: int)
    requires
        0 <= x0 < 64,
        0 <= y0 < 32,
        0 <= ys < 32,
        0 <= xs < 8,
        0 <= px < 64,
        0 <= py < 32,
    ensures
        reached(x0, y0, ys, xs + 1, px, py) == (reached(x0, y0, ys, xs, px, py) || (px == (x0 + xs)
            % 64 && py == (y0 + ys) % 32)),
        !(reached(x0, y0, ys, xs, px, py) && px == (x0 + xs) % 64 && py == (y0 + ys) % 32),
{
}

/// One step of the inner loop of a draw keeps the loop's account of the
/// display and of the pixels turned off.
proof fn lemma_draw_step(
    frame: Seq<Seq<bool>>,
    before: Seq<Seq<bool>>,
    after: Seq<Seq<bool>>,
    memory: Seq<u8>,
    start: int,
    height: int,
    x0: int,
    y0: int,
    ys: int,
    xs: int,
    bit: bool,
    fb: bool,
    flipped: bool,
)
    requires
        0 <= x0 < 64,
        0 <= y0 < 32,
        0 <= ys < height <= 32,
        0 <= xs < 8,
        bit == sprite_bit(memory[start + ys], xs),
        fb == pixel(before, (x0 + xs) % 64, (y0 + ys) % 32),
        forall|x: int, y: int|
            0 <= x < 64 && 0 <= y < 32 ==> #[trigger] pixel(before, x, y) == (frame[y][x]
                != toggled(memory, start, height, x0, y0, ys, xs, x, y)),
        flipped == exists|x: int, y: int| #[trigger]
            erased(frame, memory, start, height, x0, y0, ys, xs, x, y),
        forall|x: int, y: int|
            0 <= x < 64 && 0 <= y < 32 ==> #[trigger] pixel(after, x, y) == if x == (x0 + xs) % 64
                && y == (y0 + ys) % 32 {
                fb != bit
            } else {
                pixel(before, x, y)
            },
    ensures
        forall|x: int, y: int|
            0 <= x < 64 && 0 <= y < 32 ==> #[trigger] pixel(after, x, y) == (frame[y][x]
                != toggled(memory, start, height, x0, y0, ys, xs + 1, x, y)),
        (flipped || (bit && fb)) == exists|x: int, y: int| #[trigger]
            erased(frame, memory, start, height, x0, y0, ys, xs + 1, x, y),
{
    let tx = (x0 + xs) % 64;
    let ty = (y0 + ys) % 32;
    lemma_reached_next(x0, y0, ys, xs, tx, ty);
    assert(sprite_pixel(memory, start, height, x0, y0, tx, ty) == bit);
    assert(pixel(before, tx, ty) == frame[ty][tx]);
    assert forall|x: int, y: int| 0 <= x < 64 && 0 <= y < 32 implies #[trigger] pixel(after, x, y)
        == (frame[y][x] != toggled(memory, start, height, x0, y0, ys, xs + 1, x, y)) by {
        lemma_reached_next(x0, y0, ys, xs, x, y);
        assert(pixel(before, x, y) == (frame[y][x] != toggled(
            memory,
            start,
            height,
            x0,
            y0,
            ys,
            xs,
            x,
            y,
        )));
    }
    if flipped {
        let (wx, wy) = choose|wx: int, wy: int| #[trigger]
            erased(frame, memory, start, height, x0, y0, ys, xs, wx, wy);
        lemma_reached_next(x0, y0, ys, xs, wx, wy);
        assert(erased(frame, memory, start, height, x0, y0, ys, xs + 1, wx, wy));
    }
    if bit && fb {
        assert(erased(frame, memory, start, height, x0, y0, ys, xs + 1, tx, ty));
    }
    if exists|wx: int, wy: int| #[trigger]
        erased(frame, memory, start, height, x0, y0, ys, xs + 1, wx, wy) {
        let (wx, wy) = choose|wx: int, wy: int| #[trigger]
            erased(frame, memory, start, height, x0, y0, ys, xs + 1, wx, wy);
        lemma_reached_next(x0, y0, ys, xs, wx, wy);
        if wx == tx && wy == ty {
            assert(bit && fb);
        } else {
            assert(erased(frame, memory, start, height, x0, y0, ys, xs, wx, wy));
        }
    }
}

/// Computes the result and the flag of an arithmetic or shift instruction.
fn flagged(instruction: Instruction, vx: u8, vy: u8) -> (res: (u8, bool))
    requires
        instruction.is_flagged(),
    ensures
        res == flagged_result(instruction, vx, vy),
{
    proof {
        lemma_shifts(vx);
    }
    match instruction {
        Instruction::AddXY(_, _) => (vx.wrapping_add(vy), vx as u16 + vy as u16 > 255),
        Instruction::SubXY(_, _) => (vx.wrapping_sub(vy), vx >= vy),
        Instruction::SubYX(_, _) => (vy.wrapping_sub(vx), vy >= vx),
        Instruction::ShiftRight(_) => (vx >> 1, (vx & 1) != 0),
        _ => (vx << 1, ((vx >> 7) & 1) != 0),
    }
}

impl Chip8State {
    fn set_register(&mut self, x: usize, value: u8)
        requires
            x < 16,
        ensures
            final(self)@ == old(self)@.set_register(x as int, value),
    {
        self.registers[x] = value;
        assert(self@ =~~= old(self)@.set_register(x as int, value));
    }

    fn set_flag_register(&mut self, flag: bool)
        ensures
            final(self)@ == old(self)@.set_flag(flag),
    {
        self.set_register(FLAG_REGISTER, if flag { 1 } else { 0 });
    }

    fn set_program_counter(&mut self, addr: u16)
        ensures
            final(self)@ == (Machine { program_counter: addr, ..old(self)@ }),
    {
        self.program_counter = addr;
    }

    fn set_index_register(&mut self, addr: u16)
        ensures
            final(self)@ == (Machine { index_register: addr, ..old(self)@ }),
    {
        self.index_register = addr;
    }

    fn set_delay_timer(&mut self, value: u8)
        ensures
            final(self)@ == (Machine { delay_timer: value, ..old(self)@ }),
    {
        self.delay_timer = value;
    }

    fn set_sound_timer(&mut self, value: u8)
        ensures
            final(self)@ == (Machine { sound_timer: value, ..old(self)@ }),
    {
        self.sound_timer = value;
    }

    /// Halts the processor until a key press arrives for register `x`.
    fn await_key(&mut self, x: usize)
        ensures
            final(self)@ == (Machine { awaiting_key: Some(x), ..old(self)@ }),
    {
        self.awaiting_key = Some(x);
    }

    fn skip_if(&mut self, condition: bool)
        requires
            condition ==> old(self).program_counter + 2 <= u16::MAX,
        ensures
            final(self)@ == old(self)@.skip_if(condition),
    {
        if condition {
            self.increment_pc();
        }
    }

    /// Whether the key with digit `index` is held down.
    pub fn key(&self, index: u8) -> (down: bool)
        ensures
            down == self@.key_down(index),
    {
        (index as usize) < 16 && self.keypad[index as usize]
    }

    /// Checks that the `len` cells from the index register upwards lie in memory.
    fn check_span(&self, len: usize) -> (res: Result<(), Chip8Error>)
        requires
            len <= 256,
        ensures
            match res {
                Ok(()) => span_fault(self.index_register, len as int) is None,
                Err(e) => span_fault(self.index_register, len as int) == Some(e),
            },
    {
        let start = self.index_register as usize;
        if len > 0 && start + len > MEMORY_SIZE {
            Err(
                Chip8Error::MemoryAccessOutOfBounds(
                    if start >= MEMORY_SIZE {
                        self.index_register
                    } else {
                        MEMORY_SIZE as u16
                    },
                ),
            )
        } else {
            Ok(())
        }
    }

    fn clear_framebuffer(&mut self)
        ensures
            final(self)@ == (Machine { frame_buffer: blank_frame(), ..old(self)@ }),
    {
        self.frame_buffer = [[false; 64]; 32];
        assert(self@ =~~= (Machine { frame_buffer: blank_frame(), ..old(self)@ }));
    }

    /// Draws the sprite of `height` rows at the index register with its top
    /// left corner at column `x0`, row `y0`, and reports whether a pixel went off.
    fn draw(&mut self, x0: usize, y0: usize, height: u8) -> (collision: bool)
        requires
            x0 < 64,
            y0 < 32,
            height <= 32,
            height > 0 ==> old(self).index_register + height <= 4096,
        ensures
            final(self)@ == (Machine {
                frame_buffer: draw_sprite(
                    old(self)@.frame_buffer,
                    old(self)@.memory,
                    old(self).index_register as int,
                    height as int,
                    x0 as int,
                    y0 as int,
                ),
                ..old(self)@
            }),
            collision == sprite_collides(
                old(self)@.frame_buffer,
                old(self)@.memory,
                old(self).index_register as int,
                height as int,
                x0 as int,
                y0 as int,
            ),
    {
        let ghost frame = self@.frame_buffer;
        let ghost memory = self@.memory;
        let ghost start = self.index_register as int;
        let vi = self.index_register as usize;
        let mut flipped = false;
        let mut ys: usize = 0;
        while ys < height as usize
            invariant
                x0 < 64,
                y0 < 32,
                height <= 32,
                ys <= height,
                vi == start,
                height > 0 ==> start + height <= 4096,
                memory == old(self)@.memory,
                frame == old(self)@.frame_buffer,
                self@ == (Machine { frame_buffer: self@.frame_buffer, ..old(self)@ }),
                forall|x: int, y: int|
                    0 <= x < 64 && 0 <= y < 32 ==> #[trigger] pixel(self@.frame_buffer, x, y) == (
                    frame[y][x] != toggled(memory, start, height as int, x0 as int, y0 as int, ys as int, 0, x, y)),
                flipped == exists|x: int, y: int| #[trigger]
                    erased(frame, memory, start, height as int, x0 as int, y0 as int, ys as int, 0, x, y),
            decreases height - ys,
        {
            let y = (y0 + ys) % DISPLAY_HEIGHT;
            let pixels = self.memory[vi + ys];
            let mut xs: usize = 0;
            while xs < 8
                invariant
                    x0 < 64,
                    y0 < 32,
                    height <= 32,
                    ys < height,
                    xs <= 8,
                    y == (y0 + ys) % 32,
                    pixels == memory[start + ys],
                    memory == old(self)@.memory,
                    frame == old(self)@.frame_buffer,
                    self@ == (Machine { frame_buffer: self@.frame_buffer, ..old(self)@ }),
                    forall|x: int, y: int|
                        0 <= x < 64 && 0 <= y < 32 ==> #[trigger] pixel(self@.frame_buffer, x, y)
                            == (frame[y][x] != toggled(
                            memory,
                            start,
                            height as int,
                            x0 as int,
                            y0 as int,
                            ys as int,
                            xs as int,
                            x,
                            y,
                        )),
                    flipped == exists|x: int, y: int| #[trigger]
                        erased(
                            frame,
                            memory,
                            start,
                            height as int,
                            x0 as int,
                            y0 as int,
                            ys as int,
                            xs as int,
                            x,
                            y,
                        ),
                decreases 8 - xs,
            {
                let x = (x0 + xs) % DISPLAY_WIDTH;
                let shift: u8 = 7 - xs as u8;
                let bit = (pixels >> shift) & 1 == 1;
                let fb = self.frame_buffer[y][x];
                let ghost before = self@.frame_buffer;
                let ghost flipped_before = flipped;
                proof {
                    lemma_shift_reads_bit(pixels, shift);
                    assert(fb == pixel(before, x as int, y as int));
                }
                if bit {
                    if fb {
                        flipped = true;
                    }
                    self.frame_buffer[y][x] = !fb;
                }
                proof {
                    let after = self@.frame_buffer;
                    assert(self@ =~~= (Machine { frame_buffer: after, ..old(self)@ }));
                    assert forall|px: int, py: int| 0 <= px < 64 && 0 <= py < 32 implies #[trigger] pixel(
                        after,
                        px,
                        py,
                    ) == if px == x && py == y {
                        fb != bit
                    } else {
                        pixel(before, px, py)
                    } by {}
                    lemma_draw_step(
                        frame,
                        before,
                        after,
                        memory,
                        start,
                        height as int,
                        x0 as int,
                        y0 as int,
                        ys as int,
                        xs as int,
                        bit,
                        fb,
                        flipped_before,
                    );
                }
                xs += 1;
            }
            proof {
                assert forall|px: int, py: int|
                    toggled(memory, start, height as int, x0 as int, y0 as int, ys as int, 8, px, py)
                        == toggled(memory, start, height as int, x0 as int, y0 as int, ys + 1, 0, px, py) by {}
                if flipped {
                    let (wx, wy) = choose|wx: int, wy: int| #[trigger]
                        erased(frame, memory, start, height as int, x0 as int, y0 as int, ys as int, 8, wx, wy);
                    assert(erased(frame, memory, start, height as int, x0 as int, y0 as int, ys + 1, 0, wx, wy));
                }
                if exists|wx: int, wy: int| #[trigger]
                    erased(frame, memory, start, height as int, x0 as int, y0 as int, ys + 1, 0, wx, wy) {
                    let (wx, wy) = choose|wx: int, wy: int| #[trigger]
                        erased(frame, memory, start, height as int, x0 as int, y0 as int, ys + 1, 0, wx, wy);
                    assert(erased(frame, memory, start, height as int, x0 as int, y0 as int, ys as int, 8, wx, wy));
                }
            }
            ys += 1;
        }
        proof {
            let drawn = draw_sprite(frame, memory, start, height as int, x0 as int, y0 as int);
            assert forall|px: int, py: int| 0 <= px < 64 && 0 <= py < 32 implies self@.frame_buffer[py][px]
                == drawn[py][px] by {
                assert(pixel(self@.frame_buffer, px, py) == (frame[py][px] != toggled(
                    memory,
                    start,
                    height as int,
                    x0 as int,
                    y0 as int,
                    height as int,
                    0,
                    px,
                    py,
                )));
            }
            assert(self@.frame_buffer =~~= drawn);
            if flipped {
                let (wx, wy) = choose|wx: int, wy: int| #[trigger]
                    erased(frame, memory, start, height as int, x0 as int, y0 as int, height as int, 0, wx, wy);
                assert(turned_off(frame, drawn, wx, wy));
            }
            if sprite_collides(frame, memory, start, height as int, x0 as int, y0 as int) {
                let (wx, wy) = choose|wx: int, wy: int|
                    0 <= wx < 64 && 0 <= wy < 32 && #[trigger] turned_off(frame, drawn, wx, wy);
                assert(erased(frame, memory, start, height as int, x0 as int, y0 as int, height as int, 0, wx, wy));
            }
        }
        flipped
    }

    /// Writes the decimal digits of `V[x]` to the three cells at the index register.
    fn store_bcd(&mut self, x: usize)
        requires
            x < 16,
            old(self).index_register + 3 <= 4096,
        ensures
            final(self)@ == old(self)@.store(
                old(self).index_register as int,
                bcd(old(self)@.registers[x as int]),
            ),
    {
        let vx = self.registers[x];
        let vi = self.index_register as usize;
        self.memory[vi] = (vx / 100) % 10;
        self.memory[vi + 1] = (vx / 10) % 10;
        self.memory[vi + 2] = vx % 10;
        assert(self@ =~~= old(self)@.store(
            old(self).index_register as int,
            bcd(old(self)@.registers[x as int]),
        ));
    }

    /// Copies `V0..=V[x]` to memory from the index register upwards.
    fn store_registers(&mut self, x: usize)
        requires
            x < 16,
            old(self).index_register + x + 1 <= 4096,
        ensures
            final(self)@ == old(self)@.store(
                old(self).index_register as int,
                old(self)@.registers.take(x + 1),
            ),
    {
        let vi = self.index_register as usize;
        let mut j: usize = 0;
        while j <= x
            invariant
                x < 16,
                j <= x + 1,
                vi == old(self).index_register,
                vi + x + 1 <= 4096,
                self@ == old(self)@.store(vi as int, old(self)@.registers.take(j as int)),
            decreases x + 1 - j,
        {
            let vj = self.registers[j];
            self.memory[vi + j] = vj;
            j += 1;
            assert(self@ =~~= old(self)@.store(vi as int, old(self)@.registers.take(j as int)));
        }
    }

    /// Copies memory from the index register upwards to `V0..=V[x]`.
    fn load_memory(&mut self, x: usize)
        requires
            x < 16,
            old(self).index_register + x + 1 <= 4096,
        ensures
            final(self)@ == (Machine {
                registers: Seq::new(
                    16,
                    |j: int|
                        if j <= x {
                            old(self)@.memory[old(self).index_register + j]
                        } else {
                            old(self)@.registers[j]
                        },
                ),
                ..old(self)@
            }),
    {
        let vi = self.index_register as usize;
        let mut j: usize = 0;
        while j <= x
            invariant
                x < 16,
                j <= x + 1,
                vi == old(self).index_register,
                vi + x + 1 <= 4096,
                self@ == (Machine {
                    registers: Seq::new(
                        16,
                        |k: int|
                            if k < j {
                                old(self)@.memory[vi + k]
                            } else {
                                old(self)@.registers[k]
                            },
                    ),
                    ..old(self)@
                }),
            decreases x + 1 - j,
        {
            let value = self.memory[vi + j];
            self.registers[j] = value;
            j += 1;
            assert(self@ =~~= (Machine {
                registers: Seq::new(
                    16,
                    |k: int|
                        if k < j {
                            old(self)@.memory[vi + k]
                        } else {
                            old(self)@.registers[k]
                        },
                ),
                ..old(self)@
            }));
        }
        assert(self@ =~~= (Machine {
            registers: Seq::new(
                16,
                |j: int|
                    if j <= x {
                        old(self)@.memory[old(self).index_register + j]
                    } else {
                        old(self)@.registers[j]
                    },
            ),
            ..old(self)@
        }));
    }

    /// The instructions that move the program counter, the stack or the
    /// display as a whole, and the key-wait.
    fn execute_control(&mut self, instruction: Instruction) -> (res: Result<(), Chip8Error>)
        requires
            instruction.wf(),
            old(self)@.skip_taken(instruction) ==> old(self).program_counter + 2 <= u16::MAX,
            instruction.is_control(),
        ensures
            old(self)@.executes(instruction, 0, res, final(self)@),
            res is Err ==> *final(self) == *old(self),
    {
        match instruction {
            Instruction::ClearDisplay => {
                self.clear_framebuffer();
            },
            Instruction::Return => {
                if let Err(e) = self.pop_stack() {
                    return Err(e);
                }
            },
            Instruction::Jump(nnn) => {
                self.set_program_counter(nnn);
            },
            Instruction::Call(nnn) => {
                if let Err(e) = self.push_stack(nnn) {
                    return Err(e);
                }
            },
            Instruction::SkipEqual(x, nn) => {
                let vx = self.registers[x];
                self.skip_if(vx == nn);
            },
            Instruction::SkipNotEqual(x, nn) => {
                let vx = self.registers[x];
                self.skip_if(vx != nn);
            },
            Instruction::SkipEqualXY(x, y) => {
                let vx = self.registers[x];
                let vy = self.registers[y];
                self.skip_if(vx == vy);
            },
            Instruction::SkipNotEqualXY(x, y) => {
                let vx = self.registers[x];
                let vy = self.registers[y];
                self.skip_if(vx != vy);
            },
            Instruction::JumpV0(nnn) => {
                let v0 = self.registers[0];
                let offset = (v0 as u16) + nnn;
                self.set_program_counter(offset);
            },
            Instruction::SkipKeyPressed(x) => {
                let vx = self.registers[x];
                let down = self.key(vx);
                self.skip_if(down);
            },
            Instruction::SkipKeyNotPressed(x) => {
                let vx = self.registers[x];
                let down = self.key(vx);
                self.skip_if(!down);
            },
            Instruction::WaitKeyPress(x) => {
                self.await_key(x);
            },
            _ => {},
        }
        Ok(())
    }

    /// The instructions that write one register and no flag.
    fn execute_transfer(&mut self, instruction: Instruction, random: u8)
        requires
            instruction.wf(),
            instruction.is_transfer(),
        ensures
            final(self)@ == old(self)@.apply(instruction, random),
    {
        match instruction {
            Instruction::Load(x, nn) => {
                self.set_register(x, nn);
            },
            Instruction::Add(x, nn) => {
                let vx = self.registers[x];
                let val = vx.wrapping_add(nn);
                self.set_register(x, val);
            },
            Instruction::Move(x, y) => {
                let vy = self.registers[y];
                self.set_register(x, vy);
            },
            Instruction::Or(x, y) => {
                let vx = self.registers[x];
                let vy = self.registers[y];
                let val = vx | vy;
                self.set_register(x, val);
            },
            Instruction::And(x, y) => {
                let vx = self.registers[x];
                let vy = self.registers[y];
                let val = vx & vy;
                self.set_register(x, val);
            },
            Instruction::Xor(x, y) => {
                let vx = self.registers[x];
                let vy = self.registers[y];
                let val = vx ^ vy;
                self.set_register(x, val);
            },
            Instruction::Random(x, nn) => {
                let val = random & nn;
                self.set_register(x, val);
            },
            Instruction::LoadDelay(x) => {
                let val = self.delay_timer;
                self.set_register(x, val);
            },
            _ => {},
        }
    }

    /// The arithmetic and shift instructions that leave a flag in `VF`. The
    /// flag is written after the result, so it is the flag that stays where
    /// the result register is `VF` itself.
    fn execute_flagged(&mut self, instruction: Instruction)
        requires
            instruction.wf(),
            instruction.is_flagged(),
        ensures
            final(self)@ == old(self)@.apply(instruction, 0),
    {
        let (x, y) = match instruction {
            Instruction::AddXY(x, y) | Instruction::SubXY(x, y) | Instruction::SubYX(x, y) => (x, y),
            Instruction::ShiftRight(x) | Instruction::ShiftLeft(x) => (x, x),
            _ => (0, 0),
        };
        let vx = self.registers[x];
        let vy = self.registers[y];
        let (value, flag) = flagged(instruction, vx, vy);

        self.set_register(x, value);
        self.set_flag_register(flag);
    }

    /// The instructions that work through the index register, the sprite
    /// draw among them, and the two that set a timer.
    fn execute_memory(&mut self, instruction: Instruction) -> (res: Result<(), Chip8Error>)
        requires
            instruction.wf(),
            instruction.is_memory(),
        ensures
            old(self)@.executes(instruction, 0, res, final(self)@),
            res is Err ==> *final(self) == *old(self),
    {
        match instruction {
            Instruction::LoadI(nnn) => {
                self.set_index_register(nnn);
            },
            Instruction::Draw(x, y, n) => {
                if let Err(e) = self.check_span(n as usize) {
                    return Err(e);
                }
                let vx = self.registers[x];
                let vy = self.registers[y];

                let x0 = vx as usize % DISPLAY_WIDTH;
                let y0 = vy as usize % DISPLAY_HEIGHT;
                let flipped = self.draw(x0, y0, n);
                self.set_flag_register(flipped);
            },
            Instruction::SetDelay(x) => {
                let vx = self.registers[x];
                self.set_delay_timer(vx);
            },
            Instruction::SetSound(x) => {
                let vx = self.registers[x];
                self.set_sound_timer(vx);
            },
            Instruction::AddI(x) => {
                let vx = self.registers[x];
                let vi = self.index_register;
                let addr = vi.wrapping_add(vx as u16);
                self.set_index_register(addr);
            },
            Instruction::LoadFont(x) => {
                let vx = self.registers[x];
                let addr = FONTSET_START_ADDRESS + (FONT_SIZE as u16) * (vx as u16);
                self.set_index_register(addr);
            },
            Instruction::StoreBCD(x) => {
                if let Err(e) = self.check_span(3) {
                    return Err(e);
                }
                self.store_bcd(x);
            },
            Instruction::StoreRegisters(x) => {
                if let Err(e) = self.check_span(x + 1) {
                    return Err(e);
                }
                self.store_registers(x);
            },
            Instruction::LoadMemory(x) => {
                if let Err(e) = self.check_span(x + 1) {
                    return Err(e);
                }
                self.load_memory(x);
            },
            _ => {},
        }
        Ok(())
    }

    /// Executes one instruction, which was fetched from just below the
    /// program counter. `random` is the byte that a `Random` instruction uses;
    /// no other instruction looks at it.
    ///
    /// A skip that is taken moves the program counter on by two, which must
    /// fit the counter; nothing is asked of the counter otherwise.
    ///
    /// A call with a full stack and a return with an empty one, or with a
    /// stack pointer beyond the stack, are refused as `StackFault`; a sprite, a decimal conversion or a register transfer
    /// that reaches past the end of memory is refused as
    /// `MemoryAccessOutOfBounds` with the first address outside memory. A
    /// refused instruction changes nothing.
    pub fn execute(&mut self, instruction: Instruction, random: u8) -> (res: Result<
        (),
        Chip8Error,
    >)
        requires
            instruction.wf(),
            old(self)@.skip_taken(instruction) ==> old(self).program_counter + 2 <= u16::MAX,
        ensures
            old(self)@.executes(instruction, random, res, final(self)@),
            res is Err ==> *final(self) == *old(self),
            old(self).wf() ==> final(self).wf(),
    {
        match instruction {
            Instruction::ClearDisplay
            | Instruction::Return
            | Instruction::Jump(_)
            | Instruction::Call(_)
            | Instruction::SkipEqual(_, _)
            | Instruction::SkipNotEqual(_, _)
            | Instruction::SkipEqualXY(_, _)
            | Instruction::SkipNotEqualXY(_, _)
            | Instruction::JumpV0(_)
            | Instruction::SkipKeyPressed(_)
            | Instruction::SkipKeyNotPressed(_)
            | Instruction::WaitKeyPress(_) => self.execute_control(instruction),
            Instruction::Load(_, _)
            | Instruction::Add(_, _)
            | Instruction::Move(_, _)
            | Instruction::Or(_, _)
            | Instruction::And(_, _)
            | Instruction::Xor(_, _)
            | Instruction::Random(_, _)
            | Instruction::LoadDelay(_) => {
                self.execute_transfer(instruction, random);
                Ok(())
            },
            Instruction::AddXY(_, _)
            | Instruction::SubXY(_, _)
            | Instruction::ShiftRight(_)
            | Instruction::SubYX(_, _)
            | Instruction::ShiftLeft(_) => {
                self.execute_flagged(instruction);
                Ok(())
            },
            Instruction::LoadI(_)
            | Instruction::Draw(_, _, _)
            | Instruction::SetDelay(_)
            | Instruction::SetSound(_)
            | Instruction::AddI(_)
            | Instruction::LoadFont(_)
            | Instruction::StoreBCD(_)
            | Instruction::StoreRegisters(_)
            | Instruction::LoadMemory(_) => self.execute_memory(instruction),
        }
    }
}

} // verus!
