use vstd::prelude::*;
use vstd::string::*;
use std::collections::VecDeque;
use crate::keypad::Key;
use crate::text::{decimal, to_decimal};

verus! {

/// Which way a key moved.
#[derive(Debug, Clone, Copy, PartialEq, Eq, Structural)]
pub enum InputKind {
    Press,
    Release,
}

/// A key of the keypad going down or coming up.
#[derive(Debug, Clone, Copy, PartialEq, Eq, Structural)]
pub struct InputEvent {
    pub key: Key,
    pub kind: InputKind,
}

impl InputKind {
    /// The number that stands for the kind in an input log: 1 for a press,
    /// 0 for a release.
    pub open spec fn spec_code(self) -> u8 {
        match self {
            InputKind::Press => 1,
            InputKind::Release => 0,
        }
    }

    pub fn code(self) -> (code: u8)
        ensures
            code == self.spec_code(),
    {
        match self {
            InputKind::Press => 1,
            InputKind::Release => 0,
        }
    }

    /// The kind that a number stands for: the inverse of `spec_code`.
    pub open spec fn spec_from_code(code: u8) -> Option<InputKind> {
        if code == 0 {
            Some(InputKind::Release)
        } else if code == 1 {
            Some(InputKind::Press)
        } else {
            None
        }
    }

    /// Reads a kind back from its number; only 0 and 1 stand for a kind.
    pub fn from_code(code: u8) -> (kind: Option<InputKind>)
        ensures
            kind == InputKind::spec_from_code(code),
            kind matches Some(k) ==> k.spec_code() == code,
    {
        match code {
            0 => Some(InputKind::Release),
            1 => Some(InputKind::Press),
            _ => None,
        }
    }
}

impl InputEvent {
    /// Builds an event from the two columns that describe it in an input log:
    /// the name of the key and the number of the kind. `None` where either
    /// column holds something else.
    pub fn from_columns(key: char, kind: u8) -> (event: Option<InputEvent>)
        ensures
            event == match (Key::spec_from_char(key), InputKind::spec_from_code(kind)) {
                (Some(key), Some(kind)) => Some(InputEvent { key, kind }),
                _ => None,
            },
            event matches Some(e) ==> e.key.spec_to_char() == key && e.kind.spec_code() == kind,
    {
        match (Key::from_char(key), InputKind::from_code(kind)) {
            (Some(key), Some(kind)) => Some(InputEvent { key, kind }),
            _ => None,
        }
    }
}

/// A line of an input log, without its end: the clock in decimal, the name of
/// the key and the number of the kind, with commas between.
pub open spec fn spec_log_record(clk: u64, event: InputEvent) -> Seq<char> {
    decimal(clk as nat) + seq![',', event.key.spec_to_char(), ',']
        + decimal(event.kind.spec_code() as nat)
}

/// Writes the line of an input log for an event stamped `clk`.
pub fn log_record(clk: u64, event: InputEvent) -> (line: String)
    ensures
        line@ == spec_log_record(clk, event),
{
    let mut line = to_decimal(clk);
    proof {
        reveal_strlit(",");
    }
    line.append(",");
    let key = event.key.to_str();
    line.append(key);
    line.append(",");
    let kind = to_decimal(event.kind.code() as u64);
    line.append(kind.as_str());
    assert(line@ =~= spec_log_record(clk, event));
    line
}

/// A queue entry: the processor clock at which the event was seen, and the event.
pub type Stamped = (u64, InputEvent);

/// The entries at the head of `entries` that a processor at `clk` may take:
/// the number of leading entries stamped no later than `clk`.
pub open spec fn ready_count(entries: Seq<Stamped>, clk: u64) -> nat
    decreases entries.len(),
{
    if entries.len() == 0 || entries[0].0 > clk {
        0
    } else {
        1 + ready_count(entries.drop_first(), clk)
    }
}

/// No entry is stamped earlier than one enqueued before it.
pub open spec fn stamps_ordered(entries: Seq<Stamped>) -> bool {
    forall|i: int, j: int| 0 <= i <= j < entries.len() ==> entries[i].0 <= entries[j].0
}

/// A first-in first-out buffer of stamped input events, filled by the input
/// driver and emptied by the processor.
pub trait InputQueue {
    /// The buffered entries, oldest first.
    spec fn entries(&self) -> Seq<Stamped>;

    /// Appends `event` with the stamp `clk`. Stamps are not compared: an entry
    /// stamped earlier than its predecessor is accepted and keeps its place.
    fn enqueue(&mut self, event: InputEvent, clk: u64)
        ensures
            final(self).entries() == old(self).entries().push((clk, event)),
    ;

    /// Takes the oldest entry if it is stamped no later than `current_clk`;
    /// otherwise takes nothing, even where a later entry has an earlier stamp.
    fn dequeue(&mut self, current_clk: u64) -> (event: Option<InputEvent>)
        ensures
            match event {
                Some(e) => {
                    &&& old(self).entries().len() > 0
                    &&& old(self).entries()[0].0 <= current_clk
                    &&& e == old(self).entries()[0].1
                    &&& final(self).entries() == old(self).entries().drop_first()
                },
                None => {
                    &&& old(self).entries().len() == 0 || old(self).entries()[0].0 > current_clk
                    &&& final(self).entries() == old(self).entries()
                },
            },
    ;
}

impl InputQueue for VecDeque<(u64, InputEvent)> {
    open spec fn entries(&self) -> Seq<Stamped> {
        self@
    }

    fn enqueue(&mut self, event: InputEvent, clk: u64) {
        self.push_back((clk, event));
    }

    fn dequeue(&mut self, current_clk: u64) -> (event: Option<InputEvent>) {
        if self.len() > 0 && self[0].0 <= current_clk {
            match self.pop_front() {
                Some((_, event)) => Some(event),
                None => None,
            }
        } else {
            None
        }
    }
}

/// A dequeue succeeds exactly when `ready_count` is positive, and lowers it by one.
pub proof fn lemma_ready_count_step(entries: Seq<Stamped>, clk: u64)
    ensures
        ready_count(entries, clk) <= entries.len(),
        ready_count(entries, clk) > 0 <==> entries.len() > 0 && entries[0].0 <= clk,
        ready_count(entries, clk) > 0 ==> ready_count(entries.drop_first(), clk) == ready_count(
            entries,
            clk,
        ) - 1,
    decreases entries.len(),
{
    if entries.len() > 0 && entries[0].0 <= clk {
        lemma_ready_count_step(entries.drop_first(), clk);
    }
}

/// What the processor takes from the queue at clock `clk` is a prefix of the
/// queue, every entry of it is stamped no later than `clk`, and the entry
/// after it, if there is one, is stamped later.
pub proof fn lemma_ready_prefix(entries: Seq<Stamped>, clk: u64)
    ensures
        ready_count(entries, clk) <= entries.len(),
        forall|i: int| 0 <= i < ready_count(entries, clk) ==> (#[trigger] entries[i]).0 <= clk,
        ready_count(entries, clk) < entries.len() ==> entries[ready_count(entries, clk) as int].0
            > clk,
    decreases entries.len(),
{
    if entries.len() > 0 && entries[0].0 <= clk {
        let rest = entries.drop_first();
        lemma_ready_prefix(rest, clk);
        assert forall|i: int| 0 <= i < ready_count(entries, clk) implies (#[trigger] entries[i]).0
            <= clk by {
            if i > 0 {
                assert(entries[i] == rest[i - 1]);
            }
        }
        if ready_count(entries, clk) < entries.len() {
            assert(entries[ready_count(entries, clk) as int] == rest[ready_count(rest, clk) as int]);
        }
    }
}

/// Where stamps never go down along the queue, the events that a processor at
/// clock `clk` observes are exactly the enqueued events stamped no later than
/// `clk`, in the order in which they were enqueued, and the events left behind
/// are exactly those stamped later.
pub proof fn lemma_observed_events(entries: Seq<Stamped>, clk: u64)
    requires
        stamps_ordered(entries),
    ensures
        entries.take(ready_count(entries, clk) as int) == entries.filter(|e: Stamped| e.0 <= clk),
        entries.skip(ready_count(entries, clk) as int) == entries.filter(|e: Stamped| e.0 > clk),
    decreases entries.len(),
{
    lemma_ready_prefix(entries, clk);
    let n = ready_count(entries, clk) as int;
    lemma_split_by_stamp(entries, clk, n);
}

/// Stamps stay in order when an entry is enqueued with a stamp no earlier
/// than the last, as an input driver does that stamps with a clock that never
/// runs backwards; and they stay in order when entries leave at the head.
pub proof fn lemma_order_is_kept(entries: Seq<Stamped>, event: InputEvent, clk: u64, taken: int)
    requires
        stamps_ordered(entries),
        0 <= taken <= entries.len(),
    ensures
        entries.len() == 0 || entries.last().0 <= clk ==> stamps_ordered(entries.push((clk, event))),
        stamps_ordered(entries.skip(taken)),
{
    let longer = entries.push((clk, event));
    if entries.len() == 0 || entries.last().0 <= clk {
        assert forall|i: int, j: int| 0 <= i <= j < longer.len() implies longer[i].0
            <= longer[j].0 by {
            if j < entries.len() {
                assert(entries[i].0 <= entries[j].0);
            } else if i < entries.len() {
                assert(entries[i].0 <= entries.last().0);
            }
        }
    }
    let rest = entries.skip(taken);
    assert forall|i: int, j: int| 0 <= i <= j < rest.len() implies rest[i].0 <= rest[j].0 by {
        assert(entries[i + taken].0 <= entries[j + taken].0);
    }
}

/// A queue whose first `n` entries are stamped no later than `clk` and whose
/// other entries are stamped later is split at `n` by that test.
proof fn lemma_split_by_stamp(entries: Seq<Stamped>, clk: u64, n: int)
    requires
        0 <= n <= entries.len(),
        forall|i: int| 0 <= i < n ==> (#[trigger] entries[i]).0 <= clk,
        forall|i: int| n <= i < entries.len() ==> (#[trigger] entries[i]).0 > clk,
    ensures
        entries.take(n) == entries.filter(|e: Stamped| e.0 <= clk),
        entries.skip(n) == entries.filter(|e: Stamped| e.0 > clk),
    decreases entries.len(),
{
    let early = |e: Stamped| e.0 <= clk;
    let late = |e: Stamped| e.0 > clk;
    reveal(Seq::filter);
    if entries.len() == 0 {
        assert(entries.take(n) =~= entries.filter(early));
        assert(entries.skip(n) =~= entries.filter(late));
    } else {
        let front = entries.drop_last();
        let last = entries.last();
        if n == entries.len() {
            lemma_split_by_stamp(front, clk, n - 1);
            assert(early(last));
            assert(entries.take(n) =~= front.take(n - 1).push(last));
            assert(entries.skip(n) =~= front.skip(n - 1));
        } else {
            lemma_split_by_stamp(front, clk, n);
            assert(late(last));
            assert(entries.take(n) =~= front.take(n));
            assert(entries.skip(n) =~= front.skip(n).push(last));
        }
    }
}

} // verus!
