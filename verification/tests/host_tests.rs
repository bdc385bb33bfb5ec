use chip8_core::host::{
    cpu_step, handle_event, key2btn, lit_pixel_origins, timer_step, Clock, HostEvent, HostKey,
    LoopControl, CPU_HZ, NANOS_PER_SEC, SCALE, TIMER_HZ, WINDOW_HEIGHT, WINDOW_WIDTH,
};
use chip8_core::{Emu, EmuError, SCREEN_HEIGHT, SCREEN_SIZE, SCREEN_WIDTH, START_ADDR};

#[test]
fn steps_match_the_rates() {
    assert_eq!(cpu_step(), 1_428_571);
    assert_eq!(timer_step(), 16_666_666);
    assert_eq!(cpu_step(), (1_000_000_000.0f64 / 700.0) as u64);
    assert_eq!(timer_step(), (1_000_000_000.0f64 / 60.0) as u64);
    assert_eq!(NANOS_PER_SEC / CPU_HZ, cpu_step());
    assert_eq!(NANOS_PER_SEC / TIMER_HZ, timer_step());
}

#[test]
fn window_is_the_scaled_screen() {
    assert_eq!(WINDOW_WIDTH, SCREEN_WIDTH as u32 * SCALE);
    assert_eq!(WINDOW_HEIGHT, SCREEN_HEIGHT as u32 * SCALE);
}

#[test]
fn keypad_layout() {
    let keys = [
        HostKey::Num1, HostKey::Num2, HostKey::Num3, HostKey::Num4,
        HostKey::Q, HostKey::W, HostKey::E, HostKey::R,
        HostKey::A, HostKey::S, HostKey::D, HostKey::F,
        HostKey::Z, HostKey::X, HostKey::C, HostKey::V,
    ];
    let buttons: Vec<usize> = keys.iter().map(|k| key2btn(*k).unwrap()).collect();
    assert_eq!(buttons, vec![0x1, 0x2, 0x3, 0xC, 0x4, 0x5, 0x6, 0xD, 0x7, 0x8, 0x9, 0xE, 0xA, 0x0, 0xB, 0xF]);
    let mut sorted = buttons.clone();
    sorted.sort();
    assert_eq!(sorted, (0..16).collect::<Vec<usize>>());
    assert_eq!(key2btn(HostKey::Unmapped), None);
}

#[test]
fn events_press_and_release_keys() {
    let mut emu = Emu::new();
    assert_eq!(handle_event(HostEvent::KeyDown { key: HostKey::Q, repeat: false }, &mut emu), LoopControl::Continue);
    assert!(emu.keys[0x4]);
    assert_eq!(handle_event(HostEvent::KeyUp { key: HostKey::Q }, &mut emu), LoopControl::Continue);
    assert!(!emu.keys[0x4]);
    assert_eq!(handle_event(HostEvent::KeyDown { key: HostKey::V, repeat: true }, &mut emu), LoopControl::Continue);
    assert!(!emu.keys[0xF]);
    assert_eq!(handle_event(HostEvent::KeyDown { key: HostKey::Unmapped, repeat: false }, &mut emu), LoopControl::Continue);
    assert!(emu.keys.iter().all(|k| !k));
    assert_eq!(handle_event(HostEvent::Other, &mut emu), LoopControl::Continue);
    assert_eq!(handle_event(HostEvent::Quit, &mut emu), LoopControl::Quit);
}

#[test]
fn clock_runs_whole_cycles_and_ticks() {
    let mut emu = Emu::new();
    // 7XNN loops: V0 += 1 then jump back.
    emu.load(&[0x70, 0x01, 0x12, 0x00]);
    emu.dt = 10;
    let mut clock = Clock::new();
    let elapsed = 3 * cpu_step() + 5;
    clock.advance(&mut emu, elapsed).unwrap();
    assert_eq!(emu.v_reg[0], 2);
    assert_eq!(emu.pc, START_ADDR + 2);
    assert_eq!(clock.cpu_acc, 5);
    assert_eq!(emu.dt, 10);
    assert_eq!(clock.timer_acc, elapsed);
    clock.advance(&mut emu, 2 * timer_step()).unwrap();
    assert_eq!(emu.dt, 8);
    assert_eq!(clock.timer_acc, elapsed);
    assert_eq!(clock.cpu_acc, (5 + 2 * timer_step()) % cpu_step());
}

#[test]
fn clock_stops_at_a_failing_cycle() {
    let mut emu = Emu::new();
    emu.load(&[0x60, 0x07, 0xFF, 0xFF, 0x61, 0x01]);
    emu.dt = 3;
    let mut clock = Clock::new();
    assert_eq!(
        clock.advance(&mut emu, 5 * timer_step()),
        Err(EmuError::UnknownOpcode { opcode: 0xFFFF })
    );
    assert_eq!(emu.v_reg[0], 7);
    assert_eq!(emu.v_reg[1], 0);
    assert_eq!(emu.dt, 3);
}

#[test]
fn lit_pixels_become_scaled_squares() {
    let mut screen = [false; SCREEN_SIZE];
    screen[0] = true;
    screen[65] = true;
    screen[SCREEN_SIZE - 1] = true;
    let origins = lit_pixel_origins(&screen);
    assert_eq!(origins, vec![(0, 0), (30, 30), (63 * 30, 31 * 30)]);
    assert!(lit_pixel_origins(&[false; SCREEN_SIZE]).is_empty());
}

#[test]
fn lit_pixels_of_a_machine_display() {
    let mut emu = Emu::new();
    emu.execute(0xD015).unwrap(); // font digit 0 at (0, 0)
    let origins = lit_pixel_origins(emu.get_display());
    assert_eq!(origins.len(), 14);
    assert_eq!(origins[0], (0, 0));
}

#[test]
fn successive_advances_add_up() {
    let mut emu = Emu::new();
    emu.load(&[0x70, 0x01, 0x12, 0x00]);
    emu.dt = 255;
    let mut clock = Clock::new();
    let pieces = [1_000_000u64, 7_777_777, 16_000_000, 3, 40_000_000, 123_456];
    for e in pieces {
        clock.advance(&mut emu, e).unwrap();
    }
    let total: u64 = pieces.iter().sum();
    let cycles = if emu.pc == START_ADDR {
        2 * emu.v_reg[0] as u64
    } else {
        2 * emu.v_reg[0] as u64 - 1
    };
    assert_eq!(cycles, total / cpu_step());
    assert_eq!(clock.cpu_acc, total % cpu_step());
    assert_eq!(255 - emu.dt as u64, total / timer_step());
    assert_eq!(clock.timer_acc, total % timer_step());
}
