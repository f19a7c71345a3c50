use std::collections::VecDeque;

use chip8_core::cpu::Cpu;
use chip8_core::error::Chip8Error;
use chip8_core::input::{InputEvent, InputKind, InputQueue};
use chip8_core::keypad::Key;
use rand::rngs::StdRng;
use rand::SeedableRng;

fn cpu_running(clk_freq: u64, rom: &[u8]) -> Cpu {
    let mut cpu = Cpu::new(clk_freq, StdRng::seed_from_u64(7));
    assert_eq!(cpu.state.load_rom(rom), Ok(()));
    cpu
}

fn no_input() -> VecDeque<(u64, InputEvent)> {
    VecDeque::new()
}

fn press(key: Key) -> InputEvent {
    InputEvent { key, kind: InputKind::Press }
}

fn release(key: Key) -> InputEvent {
    InputEvent { key, kind: InputKind::Release }
}

#[test]
fn new_cpu_is_at_power_on() {
    let cpu = Cpu::new(560, StdRng::seed_from_u64(0));
    assert_eq!(cpu.frequency(), 560);
    assert_eq!(cpu.state.program_counter, 0x200);
    assert_eq!(cpu.state.stack_pointer, 0);
    assert_eq!(cpu.state.clk, 0);
    assert_eq!(cpu.state.awaiting_key, None);
    assert_eq!(cpu.state.registers, [0; 16]);
    assert_eq!(&cpu.state.memory[0..5], &[0xF0, 0x90, 0x90, 0x90, 0xF0]);
    assert_eq!(&cpu.state.memory[75..80], &[0xF0, 0x80, 0xF0, 0x80, 0x80]);
    assert!(cpu.state.memory[80..].iter().all(|&b| b == 0));
    assert!(cpu.state.is_valid());
}

#[test]
fn fetch_reads_big_endian_and_advances() {
    let mut cpu = cpu_running(600, &[0xAB, 0xCD, 0x12, 0x34]);
    assert_eq!(cpu.state.fetch(), Ok(0xABCD));
    assert_eq!(cpu.state.program_counter, 0x202);
    assert_eq!(cpu.state.fetch(), Ok(0x1234));
    assert_eq!(cpu.state.program_counter, 0x204);
}

#[test]
fn fetch_past_the_end_of_memory_is_refused() {
    let mut cpu = cpu_running(600, &[]);
    cpu.state.program_counter = 4094;
    assert_eq!(cpu.state.fetch(), Ok(0));
    assert_eq!(cpu.state.program_counter, 4096);

    cpu.state.program_counter = 4095;
    assert_eq!(cpu.state.fetch(), Err(Chip8Error::MemoryAccessOutOfBounds(4096)));
    assert_eq!(cpu.state.program_counter, 4095);

    cpu.state.program_counter = 4096;
    assert_eq!(cpu.state.fetch(), Err(Chip8Error::MemoryAccessOutOfBounds(4096)));

    cpu.state.program_counter = 0xFFFF;
    assert_eq!(cpu.state.fetch(), Err(Chip8Error::MemoryAccessOutOfBounds(0xFFFF)));
    assert_eq!(cpu.state.program_counter, 0xFFFF);
}

#[test]
fn tick_runs_one_instruction() {
    let mut cpu = cpu_running(600, &[0x61, 0x2A, 0x71, 0x01]);
    let mut queue = no_input();
    assert_eq!(cpu.tick(&mut queue), Ok(()));
    assert_eq!(cpu.state.registers[1], 0x2A);
    assert_eq!(cpu.state.program_counter, 0x202);
    assert_eq!(cpu.tick(&mut queue), Ok(()));
    assert_eq!(cpu.state.registers[1], 0x2B);
    assert_eq!(cpu.state.program_counter, 0x204);
    assert_eq!(cpu.state.clk, 0);
}

#[test]
fn tick_refuses_an_unknown_word_after_fetching_it() {
    let mut cpu = cpu_running(600, &[0x51, 0x21]);
    let mut queue = no_input();
    assert_eq!(cpu.tick(&mut queue), Err(Chip8Error::UnimplementedOpcode(0x5121)));
    assert_eq!(cpu.state.program_counter, 0x202);
    assert_eq!(cpu.state.registers, [0; 16]);
}

#[test]
fn tick_reports_a_stack_fault() {
    let mut cpu = cpu_running(600, &[0x00, 0xEE]);
    let mut queue = no_input();
    assert_eq!(cpu.tick(&mut queue), Err(Chip8Error::StackFault));
    assert_eq!(cpu.state.stack_pointer, 0);
}

#[test]
fn carry_flag_is_written_after_the_sum() {
    let mut cpu = cpu_running(600, &[0x80, 0xF4]);
    cpu.state.registers[0] = 0xFF;
    cpu.state.registers[15] = 0x77;
    let mut queue = no_input();
    assert_eq!(cpu.tick(&mut queue), Ok(()));
    assert_eq!(cpu.state.registers[0], 0x76);
    assert_eq!(cpu.state.registers[15], 1);
}

#[test]
fn shift_flag_wins_when_the_register_is_vf() {
    let mut cpu = cpu_running(600, &[0x8F, 0xF6]);
    cpu.state.registers[15] = 0x81;
    let mut queue = no_input();
    assert_eq!(cpu.tick(&mut queue), Ok(()));
    assert_eq!(cpu.state.registers[15], 1);
}

#[test]
fn random_instruction_masks_and_follows_the_seed() {
    let rom = [0xC0, 0x0F, 0x12, 0x00];
    let mut first = cpu_running(600, &rom);
    let mut second = cpu_running(600, &rom);
    let mut queue = no_input();
    let mut seen = Vec::new();
    for _ in 0..64 {
        assert_eq!(first.step(&mut queue), Ok(()));
        assert_eq!(second.step(&mut queue), Ok(()));
        assert_eq!(first.state.registers[0], second.state.registers[0]);
        assert!(first.state.registers[0] <= 0x0F);
        seen.push(first.state.registers[0]);
        assert_eq!(first.step(&mut queue), Ok(()));
        assert_eq!(second.step(&mut queue), Ok(()));
    }
    seen.sort();
    seen.dedup();
    assert!(seen.len() > 4);
}

#[test]
fn random_instruction_with_full_mask_varies() {
    let mut cpu = cpu_running(600, &[0xC0, 0xFF, 0x12, 0x00]);
    let mut queue = no_input();
    let mut seen = Vec::new();
    for _ in 0..128 {
        assert_eq!(cpu.step(&mut queue), Ok(()));
        seen.push(cpu.state.registers[0]);
        assert_eq!(cpu.step(&mut queue), Ok(()));
    }
    seen.sort();
    seen.dedup();
    assert!(seen.len() > 16);
}

#[test]
fn step_counts_the_clock() {
    let mut cpu = cpu_running(600, &[0x12, 0x00]);
    let mut queue = no_input();
    for expected in 1..=25u64 {
        assert_eq!(cpu.step(&mut queue), Ok(()));
        assert_eq!(cpu.state.clk, expected);
        assert_eq!(cpu.state.program_counter, 0x200);
    }
}

#[test]
fn step_stops_the_clock_on_an_error() {
    let mut cpu = cpu_running(600, &[0x60, 0x01, 0xFF, 0xFF]);
    cpu.state.delay_timer = 9;
    let mut queue = no_input();
    assert_eq!(cpu.step(&mut queue), Ok(()));
    assert_eq!(cpu.state.clk, 1);
    assert_eq!(cpu.state.delay_timer, 8);
    assert_eq!(cpu.step(&mut queue), Err(Chip8Error::UnimplementedOpcode(0xFFFF)));
    assert_eq!(cpu.state.clk, 1);
    assert_eq!(cpu.state.delay_timer, 8);
}

#[test]
fn timers_tick_every_tenth_cycle_at_600_hz() {
    // V0 = 5, delay = V0, sound = V0, then spin.
    let mut cpu = cpu_running(600, &[0x60, 0x05, 0xF0, 0x15, 0xF0, 0x18, 0x12, 0x06]);
    let mut queue = no_input();
    let mut delays = Vec::new();
    let mut sounds = Vec::new();
    for _ in 0..60 {
        assert_eq!(cpu.step(&mut queue), Ok(()));
        delays.push(cpu.state.delay_timer);
        sounds.push(cpu.state.sound_timer);
    }
    // Cycle 0 counts down before anything is set; the timers are set in
    // cycles 1 and 2 and count down in cycles 10, 20, 30, 40 and 50.
    for (cycle, &delay) in delays.iter().enumerate() {
        let expected = match cycle {
            0 => 0,
            1..=9 => 5,
            _ => 5u8.saturating_sub((cycle / 10) as u8),
        };
        assert_eq!(delay, expected, "delay timer after cycle {}", cycle);
    }
    for (cycle, &sound) in sounds.iter().enumerate() {
        let expected = match cycle {
            0 | 1 => 0,
            2..=9 => 5,
            _ => 5u8.saturating_sub((cycle / 10) as u8),
        };
        assert_eq!(sound, expected, "sound timer after cycle {}", cycle);
    }
}

#[test]
fn timers_tick_every_cycle_below_60_hz() {
    let mut cpu = cpu_running(30, &[0x12, 0x00]);
    cpu.state.delay_timer = 3;
    cpu.state.sound_timer = 2;
    let mut queue = no_input();
    let mut seen = Vec::new();
    for _ in 0..5 {
        assert_eq!(cpu.step(&mut queue), Ok(()));
        seen.push((cpu.state.delay_timer, cpu.state.sound_timer));
    }
    assert_eq!(seen, vec![(2, 1), (1, 0), (0, 0), (0, 0), (0, 0)]);
}

#[test]
fn timers_tick_every_cycle_at_60_hz() {
    let mut cpu = cpu_running(60, &[0x12, 0x00]);
    cpu.state.delay_timer = 2;
    let mut queue = no_input();
    assert_eq!(cpu.step(&mut queue), Ok(()));
    assert_eq!(cpu.state.delay_timer, 1);
    assert_eq!(cpu.step(&mut queue), Ok(()));
    assert_eq!(cpu.state.delay_timer, 0);
}

#[test]
fn tick_timers_counts_once() {
    let mut cpu = cpu_running(600, &[]);
    cpu.state.delay_timer = 255;
    cpu.state.sound_timer = 0;
    cpu.tick_timers();
    assert_eq!(cpu.state.delay_timer, 254);
    assert_eq!(cpu.state.sound_timer, 0);
}

#[test]
fn delay_timer_never_rises_without_a_write() {
    // Draws, arithmetic and jumps, but no FX15.
    let rom = [
        0x60, 0x03, 0x61, 0x04, 0xA0, 0x00, 0xD0, 0x15, 0x70, 0x07, 0x81, 0x04, 0x12, 0x06,
    ];
    let mut cpu = cpu_running(120, &rom);
    cpu.state.delay_timer = 200;
    let mut queue = no_input();
    let mut last = cpu.state.delay_timer;
    for _ in 0..500 {
        assert_eq!(cpu.step(&mut queue), Ok(()));
        assert!(cpu.state.delay_timer <= last);
        assert!(last - cpu.state.delay_timer <= 1);
        last = cpu.state.delay_timer;
    }
    assert_eq!(last, 0);
}

#[test]
fn program_counter_stays_even_and_in_memory() {
    // A subroutine that draws, called in a loop.
    let rom = [
        0x60, 0x00, // 200: V0 = 0
        0x22, 0x0A, // 202: call 20A
        0x70, 0x01, // 204: V0 += 1
        0x30, 0x40, // 206: skip if V0 == 64
        0x12, 0x02, // 208: jump 202
        0xA0, 0x05, // 20A: I = 5
        0xD0, 0x05, // 20C: draw
        0x00, 0xEE, // 20E: return
    ];
    let mut cpu = cpu_running(600, &rom);
    let mut queue = no_input();
    for _ in 0..300 {
        assert_eq!(cpu.step(&mut queue), Ok(()));
        assert!(cpu.state.program_counter <= 4095);
        assert_eq!(cpu.state.program_counter % 2, 0);
        assert!(cpu.state.stack_pointer <= 16);
        assert!(cpu.state.is_valid());
    }
}

#[test]
fn stack_pointer_never_passes_sixteen() {
    // 200: call 200, over and over.
    let mut cpu = cpu_running(600, &[0x22, 0x00]);
    let mut queue = no_input();
    for depth in 1..=16u8 {
        assert_eq!(cpu.step(&mut queue), Ok(()));
        assert_eq!(cpu.state.stack_pointer, depth);
    }
    assert_eq!(cpu.step(&mut queue), Err(Chip8Error::StackFault));
    assert_eq!(cpu.state.stack_pointer, 16);
    assert!(cpu.state.stack.iter().all(|&addr| addr == 0x202));
}

#[test]
fn a_jump_to_an_odd_address_leaves_the_grid() {
    let mut cpu = cpu_running(600, &[0x12, 0x03]);
    let mut queue = no_input();
    assert_eq!(cpu.step(&mut queue), Ok(()));
    assert_eq!(cpu.state.program_counter, 0x203);
}

#[test]
fn running_off_the_end_of_memory_is_an_error() {
    let mut cpu = cpu_running(600, &[]);
    cpu.state.memory[4094] = 0x60;
    cpu.state.memory[4095] = 0x01;
    cpu.state.program_counter = 4094;
    let mut queue = no_input();
    assert_eq!(cpu.step(&mut queue), Ok(()));
    assert_eq!(cpu.state.program_counter, 4096);
    assert_eq!(cpu.step(&mut queue), Err(Chip8Error::MemoryAccessOutOfBounds(4096)));
    assert_eq!(cpu.state.program_counter, 4096);
}

#[test]
fn step_moves_the_keys_before_the_instruction() {
    // Skip if key 5 is down; V1 = 1; V2 = 2; spin.
    let rom = [0xE0, 0x9E, 0x61, 0x01, 0x62, 0x02, 0x12, 0x06];
    let mut cpu = cpu_running(600, &rom);
    cpu.state.registers[0] = 5;
    let mut queue = no_input();
    queue.enqueue(press(Key::Key5), 0);
    queue.enqueue(press(Key::Key6), 1);
    assert_eq!(cpu.step(&mut queue), Ok(()));
    assert_eq!(cpu.state.program_counter, 0x204);
    assert!(cpu.state.keypad[5]);
    assert!(!cpu.state.keypad[6]);
    assert_eq!(queue.len(), 1);
    assert_eq!(cpu.step(&mut queue), Ok(()));
    assert_eq!(cpu.state.registers[1], 0);
    assert_eq!(cpu.state.registers[2], 2);
    assert!(cpu.state.keypad[6]);
    assert!(queue.is_empty());
}

#[test]
fn step_takes_events_in_order_up_to_the_clock() {
    let mut cpu = cpu_running(600, &[0x12, 0x00]);
    let mut queue = no_input();
    queue.enqueue(press(Key::Key1), 0);
    queue.enqueue(release(Key::Key1), 0);
    queue.enqueue(press(Key::Key2), 2);
    queue.enqueue(press(Key::Key3), 1);
    queue.enqueue(press(Key::Key4), 9);

    assert_eq!(cpu.step(&mut queue), Ok(()));
    assert_eq!(queue.len(), 3);
    assert!(!cpu.state.keypad[1]);

    // At clock 1 the head is stamped 2: nothing is taken, though the entry
    // behind it is stamped 1.
    assert_eq!(cpu.step(&mut queue), Ok(()));
    assert_eq!(queue.len(), 3);
    assert!(!cpu.state.keypad[3]);

    assert_eq!(cpu.step(&mut queue), Ok(()));
    assert_eq!(queue.len(), 1);
    assert!(cpu.state.keypad[2]);
    assert!(cpu.state.keypad[3]);
    assert!(!cpu.state.keypad[4]);
}

#[test]
fn key_wait_ignores_releases_and_takes_the_first_press() {
    let mut cpu = cpu_running(600, &[0xF3, 0x0A, 0x12, 0x02]);
    cpu.state.keypad[9] = true;
    let mut queue = no_input();
    assert_eq!(cpu.step(&mut queue), Ok(()));
    assert_eq!(cpu.state.awaiting_key, Some(3));
    assert_eq!(cpu.state.program_counter, 0x202);

    queue.enqueue(release(Key::Key9), 1);
    queue.enqueue(press(Key::KeyC), 1);
    queue.enqueue(press(Key::KeyD), 1);
    assert_eq!(cpu.step(&mut queue), Ok(()));
    assert_eq!(cpu.state.awaiting_key, None);
    assert_eq!(cpu.state.registers[3], 0xC);
    assert!(!cpu.state.keypad[9]);
    assert!(cpu.state.keypad[0xC]);
    assert!(!cpu.state.keypad[0xD]);
    assert_eq!(queue.len(), 1);
    assert_eq!(cpu.state.program_counter, 0x202);
    assert_eq!(cpu.state.clk, 2);

    assert_eq!(cpu.step(&mut queue), Ok(()));
    assert!(cpu.state.keypad[0xD]);
    assert!(queue.is_empty());
}

#[test]
fn key_wait_holds_while_only_releases_arrive() {
    let mut cpu = cpu_running(600, &[0xF0, 0x0A, 0x60, 0x01]);
    let mut queue = no_input();
    assert_eq!(cpu.step(&mut queue), Ok(()));
    queue.enqueue(release(Key::Key1), 1);
    queue.enqueue(release(Key::Key2), 1);
    queue.enqueue(press(Key::Key3), 50);
    for _ in 0..20 {
        assert_eq!(cpu.step(&mut queue), Ok(()));
        assert_eq!(cpu.state.awaiting_key, Some(0));
        assert_eq!(cpu.state.program_counter, 0x202);
        assert_eq!(cpu.state.registers[0], 0);
    }
    assert_eq!(queue.len(), 1);
}

#[test]
fn tick_of_a_waiting_processor_fetches_nothing() {
    let mut cpu = cpu_running(600, &[0xF0, 0x0A, 0xFF, 0xFF]);
    let mut queue = no_input();
    assert_eq!(cpu.tick(&mut queue), Ok(()));
    assert_eq!(cpu.state.awaiting_key, Some(0));
    // The word after the wait is no instruction; a fetch would fail.
    assert_eq!(cpu.tick(&mut queue), Ok(()));
    assert_eq!(cpu.state.program_counter, 0x202);
    queue.enqueue(press(Key::KeyF), 0);
    assert_eq!(cpu.tick(&mut queue), Ok(()));
    assert_eq!(cpu.state.registers[0], 0xF);
    assert_eq!(cpu.state.awaiting_key, None);
    assert_eq!(cpu.tick(&mut queue), Err(Chip8Error::UnimplementedOpcode(0xFFFF)));
}

#[test]
fn timers_run_on_through_a_key_wait() {
    let mut cpu = cpu_running(60, &[0xF0, 0x0A]);
    cpu.state.delay_timer = 10;
    let mut queue = no_input();
    for _ in 0..4 {
        assert_eq!(cpu.step(&mut queue), Ok(()));
    }
    assert_eq!(cpu.state.delay_timer, 6);
    assert_eq!(cpu.state.clk, 4);
}

#[test]
fn the_generator_is_touched_only_by_random_instructions() {
    let rng = StdRng::seed_from_u64(9);
    let mut cpu = Cpu::new(600, rng.clone());
    assert_eq!(cpu.rng, rng);
    // V0 = 1; V0 += 1; wait for a key; V1 = random; spin.
    assert_eq!(
        cpu.state.load_rom(&[0x60, 0x01, 0x70, 0x01, 0xF0, 0x0A, 0xC1, 0xFF, 0x12, 0x08]),
        Ok(())
    );
    let mut queue = no_input();
    for _ in 0..10 {
        assert_eq!(cpu.step(&mut queue), Ok(()));
        assert_eq!(cpu.rng, rng);
    }
    queue.enqueue(press(Key::Key1), 0);
    assert_eq!(cpu.step(&mut queue), Ok(()));
    assert_eq!(cpu.state.awaiting_key, None);
    assert_eq!(cpu.rng, rng);
    assert_eq!(cpu.step(&mut queue), Ok(()));
    assert_ne!(cpu.rng, rng);
    let drawn = cpu.rng.clone();
    assert_eq!(cpu.step(&mut queue), Ok(()));
    assert_eq!(cpu.rng, drawn);
}
