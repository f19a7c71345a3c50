use std::collections::VecDeque;

use chip8_core::input::{log_record, InputEvent, InputKind, InputQueue};
use chip8_core::keypad::Key;
use chip8_core::state::Chip8State;

fn ev(key: Key, kind: InputKind) -> InputEvent {
    InputEvent { key, kind }
}

#[test]
fn dequeue_yields_the_head_once_its_stamp_is_reached() {
    let mut queue: VecDeque<(u64, InputEvent)> = VecDeque::new();
    let a = ev(Key::Key1, InputKind::Press);
    let b = ev(Key::Key2, InputKind::Release);
    queue.enqueue(a, 10);
    queue.enqueue(b, 20);

    assert_eq!(queue.dequeue(9), None);
    assert_eq!(queue.len(), 2);
    assert_eq!(queue.dequeue(10), Some(a));
    assert_eq!(queue.dequeue(10), None);
    assert_eq!(queue.dequeue(19), None);
    assert_eq!(queue.dequeue(u64::MAX), Some(b));
    assert_eq!(queue.dequeue(u64::MAX), None);
    assert!(queue.is_empty());
}

#[test]
fn enqueue_appends_with_clock_first() {
    let mut queue: VecDeque<(u64, InputEvent)> = VecDeque::new();
    let a = ev(Key::KeyA, InputKind::Press);
    queue.enqueue(a, 77);
    assert_eq!(queue.front(), Some(&(77, a)));
}

#[test]
fn ties_leave_in_insertion_order() {
    let mut queue: VecDeque<(u64, InputEvent)> = VecDeque::new();
    let a = ev(Key::Key1, InputKind::Press);
    let b = ev(Key::Key1, InputKind::Release);
    let c = ev(Key::Key1, InputKind::Press);
    queue.enqueue(a, 5);
    queue.enqueue(b, 5);
    queue.enqueue(c, 5);
    assert_eq!(queue.dequeue(5), Some(a));
    assert_eq!(queue.dequeue(5), Some(b));
    assert_eq!(queue.dequeue(5), Some(c));
    assert_eq!(queue.dequeue(5), None);
}

#[test]
fn the_queue_does_not_sort() {
    let mut queue: VecDeque<(u64, InputEvent)> = VecDeque::new();
    let late = ev(Key::Key7, InputKind::Press);
    let early = ev(Key::Key8, InputKind::Press);
    queue.enqueue(late, 9);
    queue.enqueue(early, 3);
    assert_eq!(queue.dequeue(5), None);
    assert_eq!(queue.dequeue(9), Some(late));
    assert_eq!(queue.dequeue(9), Some(early));
}

#[test]
fn drain_observes_the_events_up_to_the_clock_in_order() {
    let mut state = Chip8State::new();
    state.clk = 4;
    let mut queue: VecDeque<(u64, InputEvent)> = VecDeque::new();
    queue.enqueue(ev(Key::Key1, InputKind::Press), 1);
    queue.enqueue(ev(Key::Key2, InputKind::Press), 2);
    queue.enqueue(ev(Key::Key1, InputKind::Release), 4);
    queue.enqueue(ev(Key::Key3, InputKind::Press), 5);
    queue.enqueue(ev(Key::Key4, InputKind::Press), 6);

    state.drain_ready(&mut queue);
    let mut expected = [false; 16];
    expected[2] = true;
    assert_eq!(state.keypad, expected);
    let left: Vec<u64> = queue.iter().map(|entry| entry.0).collect();
    assert_eq!(left, vec![5, 6]);

    state.clk = 6;
    state.drain_ready(&mut queue);
    expected[3] = true;
    expected[4] = true;
    assert_eq!(state.keypad, expected);
    assert!(queue.is_empty());

    state.drain_ready(&mut queue);
    assert_eq!(state.keypad, expected);
}

#[test]
fn wait_takes_up_to_the_first_press() {
    let mut state = Chip8State::new();
    state.awaiting_key = Some(2);
    state.clk = 10;
    state.keypad[1] = true;
    let mut queue: VecDeque<(u64, InputEvent)> = VecDeque::new();
    queue.enqueue(ev(Key::Key1, InputKind::Release), 3);
    queue.enqueue(ev(Key::KeyE, InputKind::Press), 4);
    queue.enqueue(ev(Key::KeyF, InputKind::Press), 5);
    state.wait_for_key(&mut queue);
    assert_eq!(state.awaiting_key, None);
    assert_eq!(state.registers[2], 0xE);
    assert!(!state.keypad[1]);
    assert!(state.keypad[0xE]);
    assert!(!state.keypad[0xF]);
    assert_eq!(queue.len(), 1);
}

#[test]
fn wait_does_not_take_events_from_the_future() {
    let mut state = Chip8State::new();
    state.awaiting_key = Some(0);
    state.clk = 10;
    let mut queue: VecDeque<(u64, InputEvent)> = VecDeque::new();
    queue.enqueue(ev(Key::Key1, InputKind::Press), 11);
    state.wait_for_key(&mut queue);
    assert_eq!(state.awaiting_key, Some(0));
    assert_eq!(state.registers[0], 0);
    assert_eq!(state.keypad, [false; 16]);
    assert_eq!(queue.len(), 1);
}

#[test]
fn log_record_has_three_columns() {
    assert_eq!(log_record(0, ev(Key::Key0, InputKind::Release)), "0,0,0");
    assert_eq!(log_record(300, ev(Key::Key5, InputKind::Press)), "300,5,1");
    assert_eq!(log_record(1234567890123, ev(Key::KeyF, InputKind::Press)), "1234567890123,F,1");
    assert_eq!(
        log_record(u64::MAX, ev(Key::KeyA, InputKind::Release)),
        "18446744073709551615,A,0"
    );
}

#[test]
fn log_columns_read_back() {
    let keys = [
        Key::Key0,
        Key::Key1,
        Key::Key2,
        Key::Key3,
        Key::Key4,
        Key::Key5,
        Key::Key6,
        Key::Key7,
        Key::Key8,
        Key::Key9,
        Key::KeyA,
        Key::KeyB,
        Key::KeyC,
        Key::KeyD,
        Key::KeyE,
        Key::KeyF,
    ];
    for key in keys {
        for kind in [InputKind::Press, InputKind::Release] {
            let event = ev(key, kind);
            assert_eq!(InputEvent::from_columns(key.to_char(), kind.code()), Some(event));
        }
    }
    assert_eq!(InputEvent::from_columns('G', 1), None);
    assert_eq!(InputEvent::from_columns('a', 1), None);
    assert_eq!(InputEvent::from_columns('A', 2), None);
    assert_eq!(InputKind::from_code(0), Some(InputKind::Release));
    assert_eq!(InputKind::from_code(1), Some(InputKind::Press));
    assert_eq!(InputKind::from_code(2), None);
    assert_eq!(InputKind::Press.code(), 1);
    assert_eq!(InputKind::Release.code(), 0);
}
