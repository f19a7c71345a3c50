use vstd::prelude::*;
use crate::constants::{
    FONTSET, FONTSET_SIZE, FONTSET_START_ADDRESS, MEMORY_SIZE, OPCODE_SIZE, PROGRAM_START_ADDRESS,
    STACK_DEPTH,
};
use crate::error::Chip8Error;
use crate::input::{InputEvent, InputKind};
use crate::machine::{key_event, span_fault, Machine};

verus! {

pub type Address = u16;

pub type Word = u8;

/// The machine's mutable data: registers, memory, stack, timers, display,
/// keypad and cycle counter.
pub struct Chip8State {
    pub registers: [u8; 16],
    pub memory: [u8; 4096],
    pub index_register: u16,
    pub program_counter: u16,
    pub stack: [u16; 16],
    /// The next free slot of `stack`.
    pub stack_pointer: u8,
    pub delay_timer: u8,
    pub sound_timer: u8,
    pub keypad: [bool; 16],
    /// Rows indexed by `y`, columns by `x`.
    pub frame_buffer: [[bool; 64]; 32],
    /// Cycle counter to keep track of the number of CPU cycles executed.
    pub clk: u64,
    /// The register that receives the next key press while a key-wait
    /// instruction holds the processor; `None` while it runs.
    pub awaiting_key: Option<usize>,
}

impl View for Chip8State {
    type V = Machine;

    open spec fn view(&self) -> Machine {
        Machine {
            registers: self.registers@,
            memory: self.memory@,
            index_register: self.index_register,
            program_counter: self.program_counter,
            stack: self.stack@,
            stack_pointer: self.stack_pointer,
            delay_timer: self.delay_timer,
            sound_timer: self.sound_timer,
            keypad: self.keypad@,
            frame_buffer: Seq::new(32, |y: int| self.frame_buffer@[y]@),
            clk: self.clk,
            awaiting_key: self.awaiting_key,
        }
    }
}

impl Default for Chip8State {
    fn default() -> (state: Chip8State)
        ensures
            state@ == Machine::zeroed(),
    {
        let state = Chip8State {
            registers: [0; 16],
            memory: [0; 4096],
            index_register: 0,
            program_counter: 0,
            stack: [0; 16],
            stack_pointer: 0,
            delay_timer: 0,
            sound_timer: 0,
            keypad: [false; 16],
            frame_buffer: [[false; 64]; 32],
            clk: 0,
            awaiting_key: None,
        };
        assert(state@ =~~= Machine::zeroed());
        state
    }
}

impl Chip8State {
    /// The state as a value of the model has the model's shape.
    pub proof fn lemma_view_shaped(&self)
        ensures
            self@.shaped(),
    {
    }

    /// The stack pointer and the awaited register are in range.
    pub open spec fn wf(&self) -> bool {
        self@.wf()
    }

    /// Tests `wf` at run time.
    pub fn is_valid(&self) -> (valid: bool)
        ensures
            valid == self.wf(),
    {
        self.stack_pointer <= 16 && match self.awaiting_key {
            Some(x) => x < 16,
            None => true,
        }
    }

    /// The machine at power-on: the font in memory from address zero, the
    /// program counter at the program start address, all else zero.
    pub fn new() -> (state: Chip8State)
        ensures
            state@ == Machine::initial(),
            state.wf(),
    {
        let mut state = Chip8State::default();
        state.program_counter = PROGRAM_START_ADDRESS;
        let mut i: usize = 0;
        while i < FONTSET_SIZE
            invariant
                i <= 80,
                state@ == (Machine {
                    memory: Seq::new(4096, |a: int| if a < i { FONTSET@[a] } else { 0u8 }),
                    program_counter: 0x200,
                    ..Machine::zeroed()
                }),
            decreases 80 - i,
        {
            state.memory[FONTSET_START_ADDRESS as usize + i] = FONTSET[i];
            i += 1;
            assert(state@ =~~= (Machine {
                memory: Seq::new(4096, |a: int| if a < i { FONTSET@[a] } else { 0u8 }),
                program_counter: 0x200,
                ..Machine::zeroed()
            }));
        }
        state
    }

    /// Copies a program into memory from the program start address upwards.
    /// A program that does not fit below the end of memory is refused with
    /// its length, and memory is left as it was.
    pub fn load_rom(&mut self, bytes: &[u8]) -> (res: Result<(), Chip8Error>)
        ensures
            match res {
                Ok(()) => {
                    &&& 0x200 + bytes@.len() <= 4096
                    &&& final(self)@ == old(self)@.store(0x200, bytes@)
                    &&& final(self)@.memory.subrange(0x200, 0x200 + bytes@.len() as int) == bytes@
                },
                Err(e) => {
                    &&& 0x200 + bytes@.len() > 4096
                    &&& e == Chip8Error::RomTooBig(bytes@.len() as usize)
                    &&& *final(self) == *old(self)
                },
            },
    {
        let start = PROGRAM_START_ADDRESS as usize;
        let len = bytes.len();
        if len > MEMORY_SIZE - start {
            return Err(Chip8Error::RomTooBig(len));
        }
        let mut i: usize = 0;
        while i < len
            invariant
                i <= len,
                len == bytes@.len(),
                start == 0x200,
                start + len <= 4096,
                self@ == old(self)@.store(0x200, bytes@.take(i as int)),
            decreases len - i,
        {
            self.memory[start + i] = bytes[i];
            i += 1;
            assert(self@ =~~= old(self)@.store(0x200, bytes@.take(i as int)));
        }
        assert(bytes@.take(len as int) =~= bytes@);
        assert(self@.memory.subrange(0x200, 0x200 + bytes@.len() as int) =~= bytes@);
        Ok(())
    }

    /// Stacks the program counter as a return address and jumps to `addr`.
    /// With sixteen addresses stacked already the call is a `StackFault`.
    pub fn push_stack(&mut self, addr: Address) -> (res: Result<(), Chip8Error>)
        ensures
            match res {
                Ok(()) => {
                    &&& old(self).stack_pointer < 16
                    &&& final(self)@ == (Machine {
                        stack: old(self)@.stack.update(
                            old(self).stack_pointer as int,
                            old(self).program_counter,
                        ),
                        stack_pointer: (old(self).stack_pointer + 1) as u8,
                        program_counter: addr,
                        ..old(self)@
                    })
                },
                Err(e) => {
                    &&& old(self).stack_pointer >= 16
                    &&& e == Chip8Error::StackFault
                    &&& *final(self) == *old(self)
                },
            },
            old(self).wf() ==> final(self).wf(),
    {
        if self.stack_pointer as usize >= STACK_DEPTH {
            return Err(Chip8Error::StackFault);
        }
        self.stack[self.stack_pointer as usize] = self.program_counter;
        self.stack_pointer += 1;
        self.program_counter = addr;
        assert(self@ =~~= (Machine {
            stack: old(self)@.stack.update(
                old(self).stack_pointer as int,
                old(self).program_counter,
            ),
            stack_pointer: (old(self).stack_pointer + 1) as u8,
            program_counter: addr,
            ..old(self)@
        }));
        Ok(())
    }

    /// Returns to the address stacked last. With nothing stacked, or with a
    /// stack pointer beyond the stack, the return is a `StackFault`.
    pub fn pop_stack(&mut self) -> (res: Result<(), Chip8Error>)
        ensures
            match res {
                Ok(()) => {
                    &&& 0 < old(self).stack_pointer <= 16
                    &&& final(self)@ == (Machine {
                        stack_pointer: (old(self).stack_pointer - 1) as u8,
                        program_counter: old(self)@.stack[old(self).stack_pointer - 1],
                        ..old(self)@
                    })
                },
                Err(e) => {
                    &&& old(self).stack_pointer == 0 || old(self).stack_pointer > 16
                    &&& e == Chip8Error::StackFault
                    &&& *final(self) == *old(self)
                },
            },
            old(self).wf() ==> final(self).wf(),
    {
        if self.stack_pointer == 0 || self.stack_pointer as usize > STACK_DEPTH {
            return Err(Chip8Error::StackFault);
        }
        self.stack_pointer -= 1;
        self.program_counter = self.stack[self.stack_pointer as usize];
        assert(self@ =~~= (Machine {
            stack_pointer: (old(self).stack_pointer - 1) as u8,
            program_counter: old(self)@.stack[old(self).stack_pointer - 1],
            ..old(self)@
        }));
        Ok(())
    }

    /// Moves the program counter to the next instruction.
    pub fn increment_pc(&mut self)
        requires
            old(self).program_counter + 2 <= u16::MAX,
        ensures
            final(self)@ == old(self)@.skip_if(true),
            final(self).program_counter == old(self).program_counter + 2,
    {
        self.program_counter += OPCODE_SIZE;
    }

    /// Reads the word at the program counter, high byte first, and moves the
    /// program counter past it. Where one of the two bytes lies outside
    /// memory, the fetch is refused with the first address that does, and the
    /// program counter stays.
    pub fn fetch(&mut self) -> (res: Result<u16, Chip8Error>)
        ensures
            match res {
                Ok(opcode) => {
                    &&& span_fault(old(self).program_counter, 2) is None
                    &&& opcode == old(self)@.opcode()
                    &&& final(self)@ == old(self)@.fetched()
                },
                Err(e) => {
                    &&& span_fault(old(self).program_counter, 2) == Some(e)
                    &&& *final(self) == *old(self)
                },
            },
    {
        let pc = self.program_counter as usize;
        if pc >= MEMORY_SIZE {
            return Err(Chip8Error::MemoryAccessOutOfBounds(self.program_counter));
        }
        if pc + 1 >= MEMORY_SIZE {
            return Err(Chip8Error::MemoryAccessOutOfBounds(MEMORY_SIZE as u16));
        }
        let hi = self.memory[pc];
        let lo = self.memory[pc + 1];
        self.increment_pc();
        assert(((hi as u16) << 8) | (lo as u16) == hi * 256 + lo) by (bit_vector);
        Ok(((hi as u16) << 8) | (lo as u16))
    }

    /// Counts the timers down once: each timer that is not zero loses one.
    pub fn tick_timers(&mut self)
        ensures
            final(self)@ == old(self)@.timers_ticked(),
    {
        if self.delay_timer > 0 {
            self.delay_timer -= 1;
        }
        if self.sound_timer > 0 {
            self.sound_timer -= 1;
        }
    }

    /// Moves the key of `event`: down for a press, up for a release.
    pub fn set_key(&mut self, event: InputEvent)
        ensures
            final(self)@ == (Machine { keypad: key_event(old(self)@.keypad, event), ..old(self)@ }),
    {
        self.keypad[event.key.index() as usize] = event.kind == InputKind::Press;
        assert(self@ =~~= (Machine { keypad: key_event(old(self)@.keypad, event), ..old(self)@ }));
    }
}

} // verus!
