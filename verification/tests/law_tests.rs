use chip8_core::{Emu, EmuError, FONTSET, FONTSET_SIZE, RAM_SIZE, SCREEN_SIZE, START_ADDR};

fn same_state(a: &Emu, b: &Emu) -> bool {
    a.pc == b.pc
        && a.ram == b.ram
        && a.screen == b.screen
        && a.v_reg == b.v_reg
        && a.i_reg == b.i_reg
        && a.sp == b.sp
        && a.stack == b.stack
        && a.keys == b.keys
        && a.dt == b.dt
        && a.st == b.st
}

fn copy_of(e: &Emu) -> Emu {
    Emu {
        pc: e.pc,
        ram: e.ram,
        screen: e.screen,
        v_reg: e.v_reg,
        i_reg: e.i_reg,
        sp: e.sp,
        stack: e.stack,
        keys: e.keys,
        dt: e.dt,
        st: e.st,
    }
}

#[test]
fn default_matches_new() {
    let a = Emu::default();
    let b = Emu::new();
    assert!(same_state(&a, &b));
}

#[test]
fn reset_after_activity_equals_new() {
    let mut emu = Emu::new();
    emu.load(&[0x60, 0x12, 0xA2, 0x10, 0xD0, 0x15]);
    for _ in 0..3 {
        emu.tick().unwrap();
    }
    emu.keypress(3, true);
    emu.reset();
    assert!(same_state(&emu, &Emu::new()));
}

#[test]
fn font_occupies_bottom_of_memory() {
    let emu = Emu::new();
    assert_eq!(&emu.ram[..FONTSET_SIZE], &FONTSET[..]);
    assert!(emu.ram[FONTSET_SIZE..].iter().all(|b| *b == 0));
}

#[test]
fn get_display_is_the_frame_buffer() {
    let mut emu = Emu::new();
    emu.screen[5] = true;
    let d = emu.get_display();
    assert_eq!(d.len(), SCREEN_SIZE);
    assert!(d[5]);
    assert!(!d[4]);
}

#[test]
fn load_fills_memory_up_to_the_end() {
    let mut emu = Emu::new();
    let rom: Vec<u8> = (0..(RAM_SIZE - START_ADDR as usize)).map(|k| (k % 251) as u8).collect();
    emu.load(&rom);
    assert_eq!(&emu.ram[START_ADDR as usize..], &rom[..]);
    assert_eq!(&emu.ram[..FONTSET_SIZE], &FONTSET[..]);
}

#[test]
fn keypress_sets_and_clears_one_key() {
    let mut emu = Emu::new();
    emu.keypress(15, true);
    assert!(emu.keys[15]);
    assert!(emu.keys[..15].iter().all(|k| !k));
    emu.keypress(15, false);
    assert!(!emu.keys[15]);
}

#[test]
fn timers_stop_at_zero() {
    let mut emu = Emu::new();
    emu.dt = 1;
    emu.st = 0;
    emu.tick_timers();
    assert_eq!(emu.dt, 0);
    assert_eq!(emu.st, 0);
    emu.tick_timers();
    assert_eq!(emu.dt, 0);
    assert_eq!(emu.st, 0);
}

#[test]
fn random_byte_is_masked_exactly() {
    let mut emu = Emu::new();
    emu.execute_with_random(0xC30F, 0xAB).unwrap();
    assert_eq!(emu.v_reg[3], 0x0B);
    emu.execute_with_random(0xC3F0, 0xAB).unwrap();
    assert_eq!(emu.v_reg[3], 0xA0);
}

#[test]
fn other_instructions_ignore_the_random_byte() {
    let mut a = Emu::new();
    let mut b = Emu::new();
    a.execute_with_random(0x6A42, 0x00).unwrap();
    b.execute_with_random(0x6A42, 0xFF).unwrap();
    assert!(same_state(&a, &b));
}

#[test]
fn call_then_return_restores_pc_and_stack() {
    let mut emu = Emu::new();
    emu.pc = 0x234;
    emu.execute(0x2ABC).unwrap();
    assert_eq!(emu.pc, 0xABC);
    assert_eq!(emu.sp, 1);
    emu.execute(0x00EE).unwrap();
    assert_eq!(emu.pc, 0x234);
    assert_eq!(emu.sp, 0);
}

#[test]
fn failed_instruction_changes_nothing() {
    let mut emu = Emu::new();
    emu.v_reg[4] = 0x33;
    emu.i_reg = (RAM_SIZE - 2) as u16;
    let before = copy_of(&emu);
    assert_eq!(
        emu.execute(0xF455),
        Err(EmuError::MemoryOutOfBounds { addr: RAM_SIZE - 2, len: 5 })
    );
    assert!(same_state(&emu, &before));
    assert_eq!(emu.execute(0x5121), Err(EmuError::UnknownOpcode { opcode: 0x5121 }));
    assert_eq!(emu.execute(0x0123), Err(EmuError::UnknownOpcode { opcode: 0x0123 }));
    assert!(same_state(&emu, &before));
}

#[test]
fn failed_tick_only_moves_past_the_instruction() {
    let mut emu = Emu::new();
    emu.load(&[0x81, 0x2F]);
    let before = copy_of(&emu);
    assert_eq!(emu.tick(), Err(EmuError::UnknownOpcode { opcode: 0x812F }));
    assert_eq!(emu.pc, START_ADDR + 2);
    emu.pc = before.pc;
    assert!(same_state(&emu, &before));
}

#[test]
fn last_fetchable_address_is_ram_size_minus_two() {
    let mut emu = Emu::new();
    emu.pc = (RAM_SIZE - 2) as u16;
    emu.ram[RAM_SIZE - 2] = 0x00;
    emu.ram[RAM_SIZE - 1] = 0x00;
    emu.tick().unwrap();
    assert_eq!(emu.pc, RAM_SIZE as u16);
    assert_eq!(emu.tick(), Err(EmuError::PcOutOfBounds { pc: RAM_SIZE as u16 }));
}

#[test]
fn store_then_load_registers_round_trips() {
    let mut emu = Emu::new();
    for k in 0..16 {
        emu.v_reg[k] = (k as u8) * 7 + 1;
    }
    let saved = emu.v_reg;
    emu.i_reg = 0x400;
    emu.execute(0xFF55).unwrap();
    emu.v_reg = [0; 16];
    emu.execute(0xFF65).unwrap();
    assert_eq!(emu.v_reg, saved);
    assert_eq!(&emu.ram[0x400..0x410], &saved[..]);
}

#[test]
fn load_registers_stops_at_x() {
    let mut emu = Emu::new();
    emu.i_reg = 0;
    emu.v_reg[2] = 0x77;
    emu.execute(0xF165).unwrap();
    assert_eq!(emu.v_reg[0], FONTSET[0]);
    assert_eq!(emu.v_reg[1], FONTSET[1]);
    assert_eq!(emu.v_reg[2], 0x77);
}

#[test]
fn bcd_of_extremes() {
    let mut emu = Emu::new();
    emu.i_reg = 0x500;
    emu.v_reg[0] = 255;
    emu.execute(0xF033).unwrap();
    assert_eq!(&emu.ram[0x500..0x503], [2, 5, 5]);
    emu.v_reg[0] = 7;
    emu.execute(0xF033).unwrap();
    assert_eq!(&emu.ram[0x500..0x503], [0, 0, 7]);
}

#[test]
fn draw_twice_restores_the_screen() {
    let mut emu = Emu::new();
    emu.screen[100] = true;
    emu.screen[2000] = true;
    let before = emu.screen;
    emu.v_reg[3] = 60;
    emu.v_reg[4] = 30;
    emu.execute(0xF029).unwrap(); // I = sprite of digit 0
    emu.execute(0xD345).unwrap();
    assert_ne!(emu.screen, before);
    emu.execute(0xD345).unwrap();
    assert_eq!(emu.screen, before);
    assert_eq!(emu.v_reg[0xF], 1);
}

#[test]
fn draw_zero_rows_touches_nothing() {
    let mut emu = Emu::new();
    emu.screen[0] = true;
    emu.v_reg[0xF] = 1;
    emu.execute(0xD000).unwrap();
    assert!(emu.screen[0]);
    assert_eq!(emu.v_reg[0xF], 0);
}

#[test]
fn draw_font_digit_at_origin() {
    let mut emu = Emu::new();
    emu.v_reg[0] = 1;
    emu.execute(0xF029).unwrap();
    assert_eq!(emu.i_reg, 5);
    emu.v_reg[0] = 0;
    emu.execute(0xD005).unwrap();
    // digit 1: 0x20 0x60 0x20 0x20 0x70
    let lit: Vec<usize> = (0..SCREEN_SIZE).filter(|p| emu.screen[*p]).collect();
    assert_eq!(lit, vec![2, 65, 66, 130, 194, 257, 258, 259]);
    assert_eq!(emu.v_reg[0xF], 0);
}

#[test]
fn wait_key_takes_lowest_pressed_key() {
    let mut emu = Emu::new();
    emu.keypress(9, true);
    emu.keypress(4, true);
    emu.pc = 0x202;
    emu.execute(0xF50A).unwrap();
    assert_eq!(emu.v_reg[5], 4);
    assert_eq!(emu.pc, 0x202);
}

#[test]
fn add_with_flag_register_as_target_keeps_the_flag() {
    let mut emu = Emu::new();
    emu.v_reg[0xF] = 200;
    emu.v_reg[1] = 100;
    emu.execute(0x8F14).unwrap();
    assert_eq!(emu.v_reg[0xF], 1);
    emu.v_reg[0xF] = 5;
    emu.v_reg[1] = 3;
    emu.execute(0x8F14).unwrap();
    assert_eq!(emu.v_reg[0xF], 0);
}

#[test]
fn shifts_report_the_bit_shifted_out() {
    let mut emu = Emu::new();
    emu.v_reg[2] = 0b0100_0010;
    emu.execute(0x8206).unwrap();
    assert_eq!(emu.v_reg[2], 0b0010_0001);
    assert_eq!(emu.v_reg[0xF], 0);
    emu.v_reg[2] = 0b0111_1111;
    emu.execute(0x820E).unwrap();
    assert_eq!(emu.v_reg[2], 0b1111_1110);
    assert_eq!(emu.v_reg[0xF], 0);
}

#[test]
fn index_addition_wraps() {
    let mut emu = Emu::new();
    emu.i_reg = 0xFFFF;
    emu.v_reg[0] = 2;
    emu.execute(0xF01E).unwrap();
    assert_eq!(emu.i_reg, 1);
}

#[test]
fn clear_screen_turns_every_pixel_off() {
    let mut emu = Emu::new();
    for p in 0..SCREEN_SIZE {
        emu.screen[p] = p % 3 == 0;
    }
    emu.execute(0x00E0).unwrap();
    assert!(emu.screen.iter().all(|p| !p));
}

#[test]
fn jump_with_offset_adds_v0() {
    let mut emu = Emu::new();
    emu.v_reg[0] = 0xFF;
    emu.execute(0xBFFF).unwrap();
    assert_eq!(emu.pc, 0xFFF + 0xFF);
}

#[test]
fn bcd_and_store_touch_only_their_bytes() {
    let mut emu = Emu::new();
    emu.ram[0x4FF] = 0x11;
    emu.ram[0x503] = 0x22;
    emu.i_reg = 0x500;
    emu.v_reg[6] = 138;
    emu.execute(0xF633).unwrap();
    assert_eq!(&emu.ram[0x4FF..0x504], [0x11, 1, 3, 8, 0x22]);
    assert_eq!(emu.i_reg, 0x500);
    emu.execute(0xF155).unwrap();
    assert_eq!(&emu.ram[0x4FF..0x504], [0x11, 0, 0, 8, 0x22]);
    assert_eq!(emu.i_reg, 0x500);
    emu.i_reg = (RAM_SIZE - 3) as u16;
    let before = copy_of(&emu);
    assert_eq!(
        emu.execute(0xF355),
        Err(EmuError::MemoryOutOfBounds { addr: RAM_SIZE - 3, len: 4 })
    );
    assert!(same_state(&emu, &before));
    emu.i_reg = (RAM_SIZE - 2) as u16;
    let before = copy_of(&emu);
    assert_eq!(
        emu.execute(0xF033),
        Err(EmuError::MemoryOutOfBounds { addr: RAM_SIZE - 2, len: 3 })
    );
    assert!(same_state(&emu, &before));
}

#[test]
fn wait_key_without_keys_steps_back() {
    let mut emu = Emu::new();
    emu.pc = 0x300;
    let before_v = emu.v_reg;
    emu.execute(0xF70A).unwrap();
    assert_eq!(emu.pc, 0x2FE);
    assert_eq!(emu.v_reg, before_v);
}
