//! The contracts of the collaborators of the processor, and what the harness
//! does with each of them in one period of its loop.

use vstd::prelude::*;
use crate::error::Chip8Error;
use crate::input::{InputEvent, InputQueue};

verus! {

/// Something that can sound a tone.
pub trait AudioDriver: Send {
    /// How often the harness looks at the sound timer, in Hz.
    fn frequency(&self) -> u64;

    /// Sounds a short tone.
    fn beep(&mut self) -> Result<(), Chip8Error>;
}

/// Something that can show the display.
pub trait DisplayDriver: Send {
    /// The refresh rate in Hz.
    fn frequency(&self) -> u64;

    /// Shows a snapshot of the display. The two hints are the measured rates
    /// of processor cycles and of frames, in thousandths of a hertz.
    fn draw(
        &mut self,
        frame_buffer: [[bool; 64]; 32],
        cpu_freq: Option<u64>,
        fps: Option<u64>,
    ) -> Result<(), Chip8Error>;
}

/// Something that reports keys going down and up.
pub trait InputDriver: Send {
    /// How often the harness polls, in Hz.
    fn frequency(&self) -> u64;

    /// The next key event, if one has happened. `Interrupt` asks for the run
    /// to end.
    fn poll(&mut self) -> Result<Option<InputEvent>, Chip8Error>;

    /// Takes note of an event and of the clock it was stamped with, before
    /// the event is queued. A driver that keeps no log need not implement it:
    /// what it then gets notes nothing and succeeds.
    fn log_input(&mut self, _clk: u64, _input: InputEvent) -> (res: Result<(), Chip8Error>)
        default_ensures
            res is Ok,
    {
        Ok(())
    }
}

/// Something that can tell that the user wants the run to end.
pub trait InterruptDriver: Send {
    /// `Err(Interrupt)` once the user has asked for the end.
    fn check_interrupt(&mut self) -> Result<(), Chip8Error>;
}

/// A rate in thousandths of a hertz: `count` events in `elapsed_nanos`
/// nanoseconds.
pub open spec fn spec_millihertz(count: u64, elapsed_nanos: u64) -> int {
    count * 1_000_000_000_000 / elapsed_nanos as int
}

/// Measures a rate for the hints of the display driver: in one period of its
/// loop the harness hands the driver a snapshot of the display, the rate of
/// the processor cycles since the snapshot before, and the rate of one frame
/// in the time since then. There is no rate to report where no time has
/// passed, or where the rate does not fit the result.
pub fn millihertz(count: u64, elapsed_nanos: u64) -> (rate: Option<u64>)
    ensures
        match rate {
            Some(r) => elapsed_nanos > 0 && r == spec_millihertz(count, elapsed_nanos),
            None => elapsed_nanos == 0 || spec_millihertz(count, elapsed_nanos) > u64::MAX,
        },
{
    if elapsed_nanos == 0 {
        return None;
    }
    let scaled: u128 = (count as u128) * 1_000_000_000_000;
    let rate: u128 = scaled / (elapsed_nanos as u128);
    if rate > u64::MAX as u128 {
        None
    } else {
        Some(rate as u64)
    }
}

/// One period of the audio loop: a beep while the sound timer runs. With the
/// timer at zero the driver is not called and the period cannot fail.
pub fn audio_tick<A: AudioDriver>(audio: &mut A, sound_timer: u8) -> (res: Result<(), Chip8Error>)
    ensures
        sound_timer == 0 ==> res is Ok,
        sound_timer == 0 ==> *final(audio) == *old(audio),
{
    if sound_timer > 0 {
        audio.beep()
    } else {
        Ok(())
    }
}

/// What becomes of an event that the driver reported, once the driver's log
/// has answered: where the log took the event, it is appended to the queue
/// with the stamp `clk`; where the log failed, nothing is queued and the
/// failure of the log is the outcome.
pub fn enqueue_logged<Q: InputQueue>(
    queue: &mut Q,
    event: InputEvent,
    clk: u64,
    logged: Result<(), Chip8Error>,
) -> (res: Result<(), Chip8Error>)
    ensures
        res == logged,
        final(queue).entries() == if logged is Ok {
            old(queue).entries().push((clk, event))
        } else {
            old(queue).entries()
        },
{
    match logged {
        Ok(noted) => {
            queue.enqueue(event, clk);
            Ok(noted)
        },
        Err(e) => Err(e),
    }
}

/// What the input loop does with the answer of a poll. Where the driver
/// reported no event, nothing is done: the driver is left as it was, the queue
/// too, and the outcome is success. Where it reported one, the event is
/// handed to the driver's log with the stamp `clk`, and what the log answers
/// decides as `enqueue_logged` says: after success the queue holds the event
/// with its stamp at its end, after a failure it is as it was.
pub fn deliver_polled<I: InputDriver, Q: InputQueue>(
    input: &mut I,
    queue: &mut Q,
    polled: Option<InputEvent>,
    clk: u64,
) -> (res: Result<(), Chip8Error>)
    ensures
        match polled {
            None => {
                &&& res is Ok
                &&& final(queue).entries() == old(queue).entries()
                &&& *final(input) == *old(input)
            },
            Some(event) => final(queue).entries() == if res is Ok {
                old(queue).entries().push((clk, event))
            } else {
                old(queue).entries()
            },
        },
{
    match polled {
        Some(event) => {
            let logged = input.log_input(clk, event);
            enqueue_logged(queue, event, clk, logged)
        },
        None => Ok(()),
    }
}

/// One period of the input loop: polls the driver once, and where it reports
/// an event, hands the event to the driver's log and then appends it to the
/// queue with the stamp `clk`, the processor's clock of the moment. Where the
/// poll or the log fails, nothing is queued. What is done for each answer of
/// the poll is said by `deliver_polled`.
pub fn input_tick<I: InputDriver, Q: InputQueue>(input: &mut I, queue: &mut Q, clk: u64) -> (res:
    Result<(), Chip8Error>)
    ensures
        res is Err ==> final(queue).entries() == old(queue).entries(),
        res is Ok ==> final(queue).entries() == old(queue).entries() || exists|event: InputEvent|
            final(queue).entries() == #[trigger] old(queue).entries().push((clk, event)),
{
    match input.poll() {
        Ok(polled) => deliver_polled(input, queue, polled, clk),
        Err(e) => Err(e),
    }
}

} // verus!
