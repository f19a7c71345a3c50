use vstd::prelude::*;
use rand::rngs::StdRng;
use crate::constants::TIMER_FREQ;
use crate::error::Chip8Error;
use crate::input::{lemma_ready_count_step, ready_count, InputEvent, InputKind, InputQueue, Stamped};
use crate::instructions::{decode, Instruction};
use crate::machine::{awaited_count, awaited_key, span_fault, Machine};
use crate::state::Chip8State;

verus! {

/// The random number generator of the `rand` crate that a seed makes
/// reproducible. Nothing is said of what is inside it.
#[verifier::external_type_specification]
#[verifier::external_body]
pub struct ExStdRng(StdRng);

/// Draws the next byte from the generator, through `rand::Rng::gen`. Nothing
/// is claimed of the byte.
#[verifier::external_body]
fn random_byte(rng: &mut StdRng) -> (byte: u8) {
    rand::Rng::gen(rng)
}

/// The processor: the machine state, the clock frequency and the source of
/// random bytes.
pub struct Cpu {
    pub state: Chip8State,
    /// Cycles per second.
    pub clk_freq: u64,
    pub rng: StdRng,
}

/// What taking the oldest entry does to the count and the key of a wait.
proof fn lemma_awaited_step(entries: Seq<Stamped>, clk: u64)
    ensures
        awaited_count(entries, clk) <= entries.len(),
        awaited_count(entries, clk) > 0 <==> entries.len() > 0 && entries[0].0 <= clk,
        entries.len() > 0 && entries[0].0 <= clk && entries[0].1.kind != InputKind::Press ==> {
            &&& awaited_count(entries, clk) == 1 + awaited_count(entries.drop_first(), clk)
            &&& awaited_key(entries, clk) == awaited_key(entries.drop_first(), clk)
        },
        entries.len() > 0 && entries[0].0 <= clk && entries[0].1.kind == InputKind::Press ==> {
            &&& awaited_count(entries, clk) == 1
            &&& awaited_key(entries, clk) == Some(entries[0].1.key)
        },
        awaited_count(entries, clk) == 0 ==> awaited_key(entries, clk) is None,
    decreases entries.len(),
{
    if entries.len() > 0 && entries[0].0 <= clk && entries[0].1.kind != InputKind::Press {
        let rest = entries.drop_first();
        lemma_awaited_step(rest, clk);
        let n = awaited_count(rest, clk);
        if n > 0 {
            assert(entries[n as int] == rest[n - 1]);
        }
    }
}

impl Chip8State {
    /// Takes from the queue every entry that is ready at the machine's clock
    /// and lets each move its key.
    pub fn drain_ready<Q: InputQueue>(&mut self, queue: &mut Q)
        ensures
            final(self)@ == old(self)@.with_keys(
                old(queue).entries().take(ready_count(old(queue).entries(), old(self).clk) as int),
            ),
            final(queue).entries() == old(queue).entries().skip(
                ready_count(old(queue).entries(), old(self).clk) as int,
            ),
    {
        let clk = self.clk;
        let ghost all = queue.entries();
        let ghost taken: int = 0;
        proof {
            lemma_ready_count_step(all, clk);
            assert(all.take(0) =~= Seq::<Stamped>::empty());
            assert(all.skip(0) =~= all);
            assert(self@ =~~= old(self)@.with_keys(all.take(0)));
        }
        loop
            invariant
                clk == old(self).clk,
                all == old(queue).entries(),
                0 <= taken <= all.len(),
                queue.entries() == all.skip(taken),
                taken + ready_count(queue.entries(), clk) == ready_count(all, clk),
                self@ == old(self)@.with_keys(all.take(taken)),
            ensures
                taken == ready_count(all, clk),
                queue.entries() == all.skip(taken),
                self@ == old(self)@.with_keys(all.take(taken)),
            decreases queue.entries().len(),
        {
            let ghost before = queue.entries();
            proof {
                lemma_ready_count_step(before, clk);
            }
            match queue.dequeue(clk) {
                Some(event) => {
                    self.set_key(event);
                    proof {
                        assert(all.take(taken + 1).drop_last() =~= all.take(taken));
                        assert(all.take(taken + 1).last() == all[taken]);
                        assert(before[0] == all[taken]);
                        assert(before.drop_first() =~= all.skip(taken + 1));
                        taken = taken + 1;
                        assert(self@ =~~= old(self)@.with_keys(all.take(taken)));
                    }
                },
                None => {
                    break ;
                },
            }
        }
    }

    /// One cycle of a processor that waits for a key press: takes ready
    /// entries from the queue, each moving its key, until a press has been
    /// taken or no entry is ready. A press ends the wait and leaves its key
    /// digit in the register that the wait was for.
    pub fn wait_for_key<Q: InputQueue>(&mut self, queue: &mut Q)
        requires
            old(self).wf(),
            old(self).awaiting_key is Some,
        ensures
            final(self)@ == old(self)@.waited(
                old(self).awaiting_key->Some_0,
                old(queue).entries(),
            ),
            final(queue).entries() == old(queue).entries().skip(
                awaited_count(old(queue).entries(), old(self).clk) as int,
            ),
            final(self).wf(),
    {
        let x = match self.awaiting_key {
            Some(x) => x,
            None => 0,
        };
        let clk = self.clk;
        let ghost all = queue.entries();
        let ghost taken: int = 0;
        proof {
            assert(all.take(0) =~= Seq::<Stamped>::empty());
            assert(all.skip(0) =~= all);
            assert(self@ =~~= old(self)@.with_keys(all.take(0)));
        }
        loop
            invariant_except_break
                0 <= taken <= all.len(),
                queue.entries() == all.skip(taken),
                taken + awaited_count(queue.entries(), clk) == awaited_count(all, clk),
                awaited_key(queue.entries(), clk) == awaited_key(all, clk),
                self@ == old(self)@.with_keys(all.take(taken)),
            invariant
                x < 16,
                old(self).awaiting_key == Some(x),
                clk == old(self).clk,
                all == old(queue).entries(),
            ensures
                self@ == old(self)@.waited(x, all),
                queue.entries() == all.skip(awaited_count(all, clk) as int),
            decreases queue.entries().len(),
        {
            let ghost before = queue.entries();
            proof {
                lemma_awaited_step(before, clk);
                lemma_awaited_step(all, clk);
            }
            match queue.dequeue(clk) {
                Some(event) => {
                    self.set_key(event);
                    proof {
                        assert(all.take(taken + 1).drop_last() =~= all.take(taken));
                        assert(all.take(taken + 1).last() == all[taken]);
                        assert(before[0] == all[taken]);
                        assert(before.drop_first() =~= all.skip(taken + 1));
                        assert(self@ =~~= old(self)@.with_keys(all.take(taken + 1)));
                    }
                    if event.kind == InputKind::Press {
                        self.registers[x] = event.key.index();
                        self.awaiting_key = None;
                        proof {
                            assert(awaited_count(all, clk) == taken + 1);
                            assert(all[taken] == before[0]);
                            assert(awaited_key(all, clk) == Some(event.key));
                            assert(self@ =~~= old(self)@.waited(x, all));
                        }
                        break ;
                    }
                    proof {
                        taken = taken + 1;
                    }
                },
                None => {
                    proof {
                        assert(awaited_key(all, clk) is None);
                        assert(self@ =~~= old(self)@.waited(x, all));
                    }
                    break ;
                },
            }
        }
    }
}

impl Cpu {
    /// A processor at power-on, clocked at `clk_freq` Hz, that draws its
    /// random bytes from `rng`.
    pub fn new(clk_freq: u64, rng: StdRng) -> (cpu: Cpu)
        ensures
            cpu.state@ == Machine::initial(),
            cpu.state.wf(),
            cpu.clk_freq == clk_freq,
            cpu.rng == rng,
    {
        Cpu { state: Chip8State::new(), clk_freq, rng }
    }

    /// The clock frequency in Hz.
    pub fn frequency(&self) -> (hz: u64)
        ensures
            hz == self.clk_freq,
    {
        self.clk_freq
    }

    /// Reads the word at the program counter and moves the program counter past it.
    fn fetch(&mut self) -> (res: Result<u16, Chip8Error>)
        ensures
            match res {
                Ok(opcode) => {
                    &&& span_fault(old(self).state.program_counter, 2) is None
                    &&& opcode == old(self).state@.opcode()
                    &&& final(self).state@ == old(self).state@.fetched()
                },
                Err(e) => {
                    &&& span_fault(old(self).state.program_counter, 2) == Some(e)
                    &&& final(self).state == old(self).state
                },
            },
            final(self).clk_freq == old(self).clk_freq,
            final(self).rng == old(self).rng,
    {
        self.state.fetch()
    }

    /// Executes one instruction. A `Random` instruction takes its byte from
    /// the generator; for every other instruction the generator is left alone.
    /// Whatever byte is drawn, the outcome is the one that
    /// `Chip8State::execute` gives for that byte.
    fn execute(&mut self, instruction: Instruction) -> (res: Result<(), Chip8Error>)
        requires
            instruction.wf(),
            old(self).state.wf(),
            old(self).state@.skip_taken(instruction) ==> old(self).state.program_counter + 2
                <= u16::MAX,
        ensures
            exists|random: u8| #[trigger]
                old(self).state@.executes(instruction, random, res, final(self).state@),
            res is Err ==> final(self).state == old(self).state,
            !(instruction is Random) ==> final(self).rng == old(self).rng,
            final(self).state.wf(),
            final(self).clk_freq == old(self).clk_freq,
    {
        let random = match instruction {
            Instruction::Random(_, _) => random_byte(&mut self.rng),
            _ => 0,
        };
        let res = self.state.execute(instruction, random);
        assert(old(self).state@.executes(instruction, random, res, self.state@));
        res
    }

    /// Fetches, decodes and executes the instruction at the program counter.
    /// The generator is touched only where that instruction is `Random`.
    fn run_instruction(&mut self) -> (res: Result<(), Chip8Error>)
        requires
            old(self).state.wf(),
            old(self).state.awaiting_key is None,
        ensures
            exists|random: u8| #[trigger] old(self).state@.runs(random, res, final(self).state@),
            !old(self).state@.draws() ==> final(self).rng == old(self).rng,
            final(self).state.wf(),
            final(self).clk_freq == old(self).clk_freq,
    {
        let op = match self.fetch() {
            Ok(op) => op,
            Err(e) => {
                assert(old(self).state@.runs(0, Err(e), self.state@));
                return Err(e);
            },
        };
        let instruction = match decode(op) {
            Ok(instruction) => instruction,
            Err(e) => {
                assert(old(self).state@.runs(0, Err(e), self.state@));
                return Err(e);
            },
        };
        let ghost fetched = self.state@;
        let res = self.execute(instruction);
        proof {
            let random = choose|random: u8| #[trigger]
                fetched.executes(instruction, random, res, self.state@);
            assert(old(self).state@.runs(random, res, self.state@));
        }
        res
    }

    /// One tick of the processor: fetch, decode, execute.
    ///
    /// A processor that a key-wait holds fetches nothing. Its tick is spent
    /// on the wait: it takes ready entries from the queue, each moving its
    /// key, up to the first press, which ends the wait and leaves its key
    /// digit in the awaited register. Such a tick cannot fail.
    ///
    /// A running processor leaves the queue alone. Its tick fails with
    /// `MemoryAccessOutOfBounds` where the word at the program counter does
    /// not lie in memory, with `UnimplementedOpcode` where it is no
    /// instruction, and with what stops the instruction otherwise (see
    /// `Machine::tick_fault`); on every other machine it succeeds, and the
    /// machine is then the one that `Machine::ticked` gives for the byte
    /// drawn from the generator. The generator is left as it was unless the
    /// tick runs a `Random` instruction.
    pub fn tick<Q: InputQueue>(&mut self, queue: &mut Q) -> (res: Result<(), Chip8Error>)
        requires
            old(self).state.wf(),
        ensures
            exists|random: u8| #[trigger]
                old(self).state@.ticks(old(queue).entries(), random, res, final(self).state@),
            final(queue).entries() == old(queue).entries().skip(
                old(self).state@.tick_takes(old(queue).entries()) as int,
            ),
            !old(self).state@.draws() ==> final(self).rng == old(self).rng,
            final(self).state.wf(),
            final(self).clk_freq == old(self).clk_freq,
    {
        let ghost entries = queue.entries();
        if self.state.awaiting_key.is_some() {
            self.state.wait_for_key(queue);
            assert(old(self).state@.ticks(entries, 0, Ok(()), self.state@));
            Ok(())
        } else {
            let res = self.run_instruction();
            proof {
                let random = choose|random: u8| #[trigger]
                    old(self).state@.runs(random, res, self.state@);
                assert(old(self).state@.ticks(entries, random, res, self.state@));
                assert(entries.skip(0) =~= entries);
            }
            res
        }
    }

    /// Counts the timers down once: each timer that is not zero loses one.
    pub fn tick_timers(&mut self)
        ensures
            final(self).state@ == old(self).state@.timers_ticked(),
            final(self).clk_freq == old(self).clk_freq,
            final(self).rng == old(self).rng,
    {
        self.state.tick_timers();
    }

    /// Whether the timers count down in the present cycle.
    fn timer_due(&self) -> (due: bool)
        ensures
            due == self.state@.timer_due(self.clk_freq),
    {
        let ticks_per_timer = self.clk_freq / TIMER_FREQ;
        ticks_per_timer == 0 || self.state.clk % ticks_per_timer == 0
    }

    /// Counts the timers down if they are due and moves the clock on by one.
    fn end_cycle(&mut self)
        requires
            old(self).state.clk < u64::MAX,
        ensures
            final(self).state@ == old(self).state@.cycle_end(old(self).clk_freq),
            final(self).clk_freq == old(self).clk_freq,
            final(self).rng == old(self).rng,
    {
        if self.timer_due() {
            self.tick_timers();
        }
        self.state.clk += 1;
    }

    /// One cycle of the processor.
    ///
    /// A running processor takes from the queue every entry stamped no later
    /// than its clock, each moving its key, then fetches, decodes and executes
    /// one instruction. A processor that a key-wait holds takes ready entries
    /// up to the first press and executes nothing; the press ends the wait.
    /// Either way the timers then count down if they are due and the clock
    /// moves on by one.
    ///
    /// The cycle of a waiting processor always succeeds. That of a running
    /// one fails exactly where `Machine::tick_fault` names an error for the
    /// machine with its keys moved; the timers and the clock then stand still.
    /// See `Machine::cycles`.
    pub fn step<Q: InputQueue>(&mut self, queue: &mut Q) -> (res: Result<(), Chip8Error>)
        requires
            old(self).state.wf(),
            old(self).state.clk < u64::MAX,
        ensures
            exists|random: u8| #[trigger]
                old(self).state@.cycles(
                    old(queue).entries(),
                    random,
                    old(self).clk_freq,
                    res,
                    final(self).state@,
                ),
            final(queue).entries() == old(queue).entries().skip(
                old(self).state@.cycle_takes(old(queue).entries()) as int,
            ),
            !old(self).state@.draws() ==> final(self).rng == old(self).rng,
            final(self).state.wf(),
            final(self).clk_freq == old(self).clk_freq,
    {
        let ghost entries = queue.entries();
        let ghost before = self.state@;
        let ghost hz = self.clk_freq;
        if self.state.awaiting_key.is_none() {
            self.state.drain_ready(queue);
        }
        let ghost input = self.state@;
        let ghost left = queue.entries();
        let res = self.tick(queue);
        let ghost random = choose|random: u8| #[trigger]
            input.ticks(left, random, res, self.state@);
        proof {
            if before.awaiting_key is None {
                assert(left.skip(0) =~= left);
            }
        }
        match res {
            Ok(()) => {
                self.end_cycle();
                assert(before.cycles(entries, random, hz, Ok(()), self.state@));
                Ok(())
            },
            Err(e) => {
                assert(before.cycles(entries, random, hz, res, self.state@));
                Err(e)
            },
        }
    }
}

} // verus!
