use chip8_core::error::Chip8Error;
use chip8_core::input::{InputEvent, InputKind};
use chip8_core::keypad::Key;
use chip8_core::state::Chip8State;
use chip8_core::Chip8;
use rand::rngs::StdRng;
use rand::SeedableRng;

fn machine(cpu_freq: u64, inputs: Vec<(u64, InputEvent)>) -> Chip8 {
    Chip8::new(cpu_freq, StdRng::seed_from_u64(42), inputs)
}

#[test]
fn bcd_of_twenty_one() {
    // V0 = 0x15; I = 0x300; store BCD of V0; spin.
    let rom = [0x60, 0x15, 0xA3, 0x00, 0xF0, 0x33, 0x12, 0x06];
    let mut chip8 = machine(600, vec![]);
    assert_eq!(chip8.load(&rom), Ok(()));
    for _ in 0..10 {
        assert_eq!(chip8.cpu.step(&mut chip8.input_queue), Ok(()));
    }
    assert_eq!(chip8.cpu.state.index_register, 0x300);
    assert_eq!(&chip8.cpu.state.memory[0x300..0x303], &[0, 2, 1]);
    assert_eq!(chip8.cpu.state.program_counter, 0x206);
}

#[test]
fn sprite_wraps_at_the_corner() {
    // V0 = 62; V1 = 30; I = font base; draw five rows.
    let rom = [0x60, 0x3E, 0x61, 0x1E, 0xA0, 0x00, 0xD0, 0x15];
    let mut chip8 = machine(600, vec![]);
    assert_eq!(chip8.load(&rom), Ok(()));
    for _ in 0..4 {
        assert_eq!(chip8.cpu.step(&mut chip8.input_queue), Ok(()));
    }
    let frame = chip8.cpu.state.frame_buffer;
    for y in 0..32usize {
        for x in 0..64usize {
            let in_columns = [62, 63, 0, 1].contains(&x);
            let border_row = y == 30 || y == 2;
            let middle_row = y == 31 || y == 0 || y == 1;
            let expected = in_columns && (border_row || (middle_row && (x == 62 || x == 1)));
            assert_eq!(frame[y][x], expected, "pixel at column {}, row {}", x, y);
        }
    }
    assert_eq!(chip8.cpu.state.registers[15], 0);
}

#[test]
fn carry_flag_sequencing() {
    let mut chip8 = machine(600, vec![]);
    assert_eq!(chip8.load(&[0x80, 0xF4]), Ok(()));
    chip8.cpu.state.registers[0] = 0xFF;
    chip8.cpu.state.registers[15] = 0x77;
    assert_eq!(chip8.cpu.step(&mut chip8.input_queue), Ok(()));
    assert_eq!(chip8.cpu.state.registers[0], 0x76);
    assert_eq!(chip8.cpu.state.registers[15], 1);
}

#[test]
fn shift_flag_when_x_is_f() {
    let mut chip8 = machine(600, vec![]);
    assert_eq!(chip8.load(&[0x8F, 0xF6]), Ok(()));
    chip8.cpu.state.registers[15] = 0x81;
    assert_eq!(chip8.cpu.step(&mut chip8.input_queue), Ok(()));
    assert_eq!(chip8.cpu.state.registers[15], 1);
}

#[test]
fn key_wait_replay() {
    let event = InputEvent { key: Key::Key5, kind: InputKind::Press };
    let mut chip8 = machine(600, vec![(300, event)]);
    assert_eq!(chip8.load(&[0xF0, 0x0A, 0x12, 0x00]), Ok(()));

    // Clocks 0 to 299: the wait is entered and holds.
    for clock in 0..300u64 {
        assert_eq!(chip8.cpu.state.clk, clock);
        assert_eq!(chip8.cpu.step(&mut chip8.input_queue), Ok(()));
        assert_eq!(chip8.cpu.state.awaiting_key, Some(0));
        assert_eq!(chip8.cpu.state.registers[0], 0);
        assert_eq!(chip8.cpu.state.program_counter, 0x202);
        assert_eq!(chip8.input_queue.len(), 1);
    }

    // Clock 300: the wait takes the event.
    assert_eq!(chip8.cpu.state.clk, 300);
    assert_eq!(chip8.cpu.step(&mut chip8.input_queue), Ok(()));
    assert_eq!(chip8.cpu.state.registers[0], 5);
    assert_eq!(chip8.cpu.state.awaiting_key, None);
    assert!(chip8.cpu.state.keypad[5]);
    assert!(chip8.input_queue.is_empty());
    assert_eq!(chip8.cpu.state.program_counter, 0x202);

    // And execution goes on to the jump.
    assert_eq!(chip8.cpu.step(&mut chip8.input_queue), Ok(()));
    assert_eq!(chip8.cpu.state.program_counter, 0x200);
    assert_eq!(chip8.cpu.state.clk, 302);
}

#[test]
fn rom_too_big() {
    let mut chip8 = machine(600, vec![]);
    let rom = vec![0xAAu8; 4096];
    let before = chip8.cpu.state.memory;
    assert_eq!(chip8.load(&rom), Err(Chip8Error::RomTooBig(4096)));
    assert_eq!(chip8.cpu.state.memory, before);
    assert_eq!(chip8.cpu.state.clk, 0);
}

#[test]
fn rom_limits() {
    let mut state = Chip8State::new();
    assert_eq!(state.load_rom(&vec![1u8; 3584]), Ok(()));
    assert_eq!(state.memory[0x200], 1);
    assert_eq!(state.memory[4095], 1);
    assert_eq!(state.memory[0x1FF], 0);

    let mut state = Chip8State::new();
    assert_eq!(state.load_rom(&vec![1u8; 3585]), Err(Chip8Error::RomTooBig(3585)));
    assert_eq!(state.memory[0x200], 0);

    let mut state = Chip8State::new();
    assert_eq!(state.load_rom(&[]), Ok(()));
    assert_eq!(state.memory[0x200], 0);
}

#[test]
fn rom_round_trip() {
    let rom: Vec<u8> = (0..1000u32).map(|i| (i * 7 + 3) as u8).collect();
    let mut chip8 = machine(600, vec![]);
    assert_eq!(chip8.load(&rom), Ok(()));
    let memory = chip8.cpu.state.memory;
    assert_eq!(&memory[0x200..0x200 + rom.len()], rom.as_slice());
    assert_eq!(&memory[0..5], &[0xF0, 0x90, 0x90, 0x90, 0xF0]);
    assert!(memory[80..0x200].iter().all(|&b| b == 0));
    assert!(memory[0x200 + rom.len()..].iter().all(|&b| b == 0));
}

#[test]
fn loading_twice_keeps_the_tail_of_the_longer_program() {
    let mut state = Chip8State::new();
    assert_eq!(state.load_rom(&[1, 2, 3, 4]), Ok(()));
    assert_eq!(state.load_rom(&[9, 8]), Ok(()));
    assert_eq!(&state.memory[0x200..0x205], &[9, 8, 3, 4, 0]);
}

#[test]
fn preloaded_inputs_keep_their_order() {
    let a = InputEvent { key: Key::KeyA, kind: InputKind::Press };
    let b = InputEvent { key: Key::KeyB, kind: InputKind::Release };
    let chip8 = machine(480, vec![(5, a), (5, b), (2, a)]);
    let queued: Vec<(u64, InputEvent)> = chip8.input_queue.iter().copied().collect();
    assert_eq!(queued, vec![(5, a), (5, b), (2, a)]);
    assert_eq!(chip8.cpu.frequency(), 480);
}

#[test]
fn default_state_is_all_zero() {
    let state = Chip8State::default();
    assert_eq!(state.program_counter, 0);
    assert_eq!(state.memory, [0u8; 4096]);
    assert_eq!(state.registers, [0u8; 16]);
    assert_eq!(state.stack, [0u16; 16]);
    assert_eq!(state.frame_buffer, [[false; 64]; 32]);
    assert_eq!(state.keypad, [false; 16]);
    assert_eq!((state.index_register, state.stack_pointer), (0, 0));
    assert_eq!((state.delay_timer, state.sound_timer, state.clk), (0, 0, 0));
    assert_eq!(state.awaiting_key, None);
}

#[test]
fn the_machine_ticks_on_its_own_queue() {
    let press = InputEvent { key: Key::Key7, kind: InputKind::Press };
    let mut chip8 = machine(600, vec![(0, press)]);
    assert_eq!(chip8.load(&[0xF2, 0x0A, 0x62, 0x09]), Ok(()));
    chip8.cpu.state.delay_timer = 4;
    assert_eq!(chip8.tick(), Ok(()));
    assert_eq!(chip8.cpu.state.awaiting_key, Some(2));
    assert_eq!(chip8.input_queue.len(), 1);
    assert_eq!(chip8.tick(), Ok(()));
    assert_eq!(chip8.cpu.state.registers[2], 7);
    assert!(chip8.input_queue.is_empty());
    assert_eq!(chip8.tick(), Ok(()));
    assert_eq!(chip8.cpu.state.registers[2], 9);
    assert_eq!(chip8.cpu.state.clk, 0);
    assert_eq!(chip8.cpu.state.delay_timer, 4);
    chip8.tick_timers();
    assert_eq!(chip8.cpu.state.delay_timer, 3);
    assert_eq!(Chip8::decode(0x6209), chip8_core::instructions::decode(0x6209));
    assert_eq!(Chip8::decode(0xFFFF), Err(Chip8Error::UnimplementedOpcode(0xFFFF)));
}
