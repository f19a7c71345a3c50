use vstd::prelude::*;
use std::collections::VecDeque;
use rand::rngs::StdRng;
use crate::cpu::Cpu;
use crate::error::Chip8Error;
use crate::input::InputEvent;
use crate::instructions::{spec_decode, Instruction};
use crate::machine::Machine;

verus! {

/// The whole machine before a run: the processor and the queue through which
/// input reaches it.
pub struct Chip8 {
    pub cpu: Cpu,
    pub input_queue: VecDeque<(u64, InputEvent)>,
}

impl Chip8 {
    /// A machine at power-on, clocked at `cpu_freq` Hz. `inputs` are the
    /// stamped events of an earlier run, to be played again; they are queued
    /// in the order given.
    pub fn new(cpu_freq: u64, rng: StdRng, inputs: Vec<(u64, InputEvent)>) -> (chip8: Chip8)
        ensures
            chip8.cpu.state@ == Machine::initial(),
            chip8.cpu.state.wf(),
            chip8.cpu.clk_freq == cpu_freq,
            chip8.cpu.rng == rng,
            chip8.input_queue@ == inputs@,
    {
        let mut input_queue: VecDeque<(u64, InputEvent)> = VecDeque::new();
        let mut i: usize = 0;
        while i < inputs.len()
            invariant
                i <= inputs.len(),
                input_queue@ == inputs@.take(i as int),
            decreases inputs.len() - i,
        {
            input_queue.push_back(inputs[i]);
            i += 1;
            assert(input_queue@ =~= inputs@.take(i as int));
        }
        assert(inputs@.take(inputs.len() as int) =~= inputs@);
        Chip8 { cpu: Cpu::new(cpu_freq, rng), input_queue }
    }

    /// Loads a program at the program start address. A program that does not
    /// fit in memory is refused as `RomTooBig` with its length.
    pub fn load(&mut self, bytes: &[u8]) -> (res: Result<(), Chip8Error>)
        ensures
            match res {
                Ok(()) => {
                    &&& 0x200 + bytes@.len() <= 4096
                    &&& final(self).cpu.state@ == old(self).cpu.state@.store(0x200, bytes@)
                    &&& final(self).cpu.state@.memory.subrange(0x200, 0x200 + bytes@.len() as int)
                        == bytes@
                },
                Err(e) => {
                    &&& 0x200 + bytes@.len() > 4096
                    &&& e == Chip8Error::RomTooBig(bytes@.len() as usize)
                    &&& final(self).cpu.state == old(self).cpu.state
                },
            },
            final(self).cpu.clk_freq == old(self).cpu.clk_freq,
            final(self).cpu.rng == old(self).cpu.rng,
            final(self).input_queue == old(self).input_queue,
    {
        self.cpu.state.load_rom(bytes)
    }

    /// Decodes an opcode; see `instructions::decode`.
    pub fn decode(opcode: u16) -> (res: Result<Instruction, Chip8Error>)
        ensures
            match res {
                Ok(instruction) => spec_decode(opcode) == Some(instruction) && instruction.wf(),
                Err(e) => spec_decode(opcode) is None && e == Chip8Error::UnimplementedOpcode(
                    opcode,
                ),
            },
    {
        crate::instructions::decode(opcode)
    }

    /// One tick of the processor on the machine's own queue; see `Cpu::tick`.
    pub fn tick(&mut self) -> (res: Result<(), Chip8Error>)
        requires
            old(self).cpu.state.wf(),
        ensures
            exists|random: u8| #[trigger]
                old(self).cpu.state@.ticks(
                    old(self).input_queue@,
                    random,
                    res,
                    final(self).cpu.state@,
                ),
            final(self).input_queue@ == old(self).input_queue@.skip(
                old(self).cpu.state@.tick_takes(old(self).input_queue@) as int,
            ),
            !old(self).cpu.state@.draws() ==> final(self).cpu.rng == old(self).cpu.rng,
            final(self).cpu.state.wf(),
            final(self).cpu.clk_freq == old(self).cpu.clk_freq,
    {
        self.cpu.tick(&mut self.input_queue)
    }

    /// Counts the timers down once: each timer that is not zero loses one.
    pub fn tick_timers(&mut self)
        ensures
            final(self).cpu.state@ == old(self).cpu.state@.timers_ticked(),
            final(self).cpu.clk_freq == old(self).cpu.clk_freq,
            final(self).cpu.rng == old(self).cpu.rng,
            final(self).input_queue == old(self).input_queue,
    {
        self.cpu.tick_timers();
    }
}

} // verus!
