use chip8::cpu::CPU;
use chip8::state::{FaultKind, StepEvent, HEIGHT, WIDTH};

#[test]
fn power_on_state() {
    let cpu = CPU::new();
    assert_eq!(cpu.pc(), 0x200);
    assert_eq!(cpu.stack_depth(), 0);
    assert_eq!(cpu.index_register(), 0);
    assert_eq!(cpu.delay_timer(), 0);
    assert_eq!(cpu.sound_timer(), 0);
    assert!(!cpu.should_draw());
    for k in 0..16 {
        assert_eq!(cpu.reg(k), 0);
    }
    for y in 0..HEIGHT {
        for x in 0..WIDTH {
            assert!(!cpu.pixel(x, y));
        }
    }
}

#[test]
fn font_preloaded() {
    let cpu = CPU::new();
    // glyph 0 starts with 0xF0, glyph F ends with 0x80
    assert_eq!(cpu.mem(0), 0xF0);
    assert_eq!(cpu.mem(4), 0xF0);
    assert_eq!(cpu.mem(5), 0x20);
    assert_eq!(cpu.mem(79), 0x80);
    assert_eq!(cpu.mem(80), 0);
    assert_eq!(cpu.mem(0x1FF), 0);
}

#[test]
fn program_loads_at_0x200() {
    let mut cpu = CPU::new();
    cpu.load_buffer_to_memory(vec![0xAB, 0xCD, 0xEF]);
    assert_eq!(cpu.mem(0x200), 0xAB);
    assert_eq!(cpu.mem(0x201), 0xCD);
    assert_eq!(cpu.mem(0x202), 0xEF);
    assert_eq!(cpu.mem(0x203), 0x00);
    assert_eq!(cpu.mem(0x1FF), 0x00);
}

#[test]
fn add_reg_without_carry() {
    let mut cpu = CPU::new();
    cpu.op_6xnn(0x6005); // reg 0 := 5
    cpu.op_6xnn(0x6103); // reg 1 := 3
    cpu.op_8xy4(0x8014);
    assert_eq!(cpu.reg(0), 8);
    assert_eq!(cpu.reg(0xF), 0);
}

#[test]
fn add_reg_with_carry() {
    let mut cpu = CPU::new();
    cpu.op_6xnn(0x60FF); // reg 0 := 255
    cpu.op_6xnn(0x6102); // reg 1 := 2
    cpu.op_8xy4(0x8014);
    assert_eq!(cpu.reg(0), 1); // (255 + 2) mod 256
    assert_eq!(cpu.reg(0xF), 1);
}

#[test]
fn sub_reg_no_borrow() {
    let mut cpu = CPU::new();
    cpu.op_6xnn(0x600A); // reg 0 := 10
    cpu.op_6xnn(0x6103); // reg 1 := 3
    cpu.op_8xy5(0x8015);
    assert_eq!(cpu.reg(0), 7);
    assert_eq!(cpu.reg(0xF), 1); // no borrow
}

#[test]
fn sub_reg_with_borrow() {
    let mut cpu = CPU::new();
    cpu.op_6xnn(0x6003); // reg 0 := 3
    cpu.op_6xnn(0x610A); // reg 1 := 10
    cpu.op_8xy5(0x8015);
    assert_eq!(cpu.reg(0), 249); // (3 - 10) mod 256
    assert_eq!(cpu.reg(0xF), 0); // borrow
}

#[test]
fn subn_reg_reversed_operands() {
    let mut cpu = CPU::new();
    cpu.op_6xnn(0x6003); // reg 0 := 3
    cpu.op_6xnn(0x610A); // reg 1 := 10
    cpu.op_8xy7(0x8017); // reg 0 := reg1 - reg0 = 7
    assert_eq!(cpu.reg(0), 7);
    assert_eq!(cpu.reg(0xF), 1);
    cpu.op_6xnn(0x600A);
    cpu.op_6xnn(0x6103);
    cpu.op_8xy7(0x8017); // reg 0 := 3 - 10
    assert_eq!(cpu.reg(0), 249);
    assert_eq!(cpu.reg(0xF), 0);
}

#[test]
fn shift_right_flag_is_low_bit() {
    let mut cpu = CPU::new();
    cpu.op_6xnn(0x6005); // reg 0 := 0b101
    cpu.op_8xy6(0x8006);
    assert_eq!(cpu.reg(0), 2);
    assert_eq!(cpu.reg(0xF), 1);
    cpu.op_6xnn(0x6004); // reg 0 := 0b100
    cpu.op_8xy6(0x8006);
    assert_eq!(cpu.reg(0), 2);
    assert_eq!(cpu.reg(0xF), 0);
}

#[test]
fn shift_left_flag_is_high_bit() {
    let mut cpu = CPU::new();
    cpu.op_6xnn(0x6081); // reg 0 := 0x81
    cpu.op_8xye(0x800E);
    assert_eq!(cpu.reg(0), 0x02);
    assert_eq!(cpu.reg(0xF), 1);
    cpu.op_6xnn(0x6041);
    cpu.op_8xye(0x800E);
    assert_eq!(cpu.reg(0), 0x82);
    assert_eq!(cpu.reg(0xF), 0);
}

#[test]
fn bitwise_ops() {
    let mut cpu = CPU::new();
    cpu.op_6xnn(0x60CC);
    cpu.op_6xnn(0x61AA);
    cpu.op_8xy1(0x8011); // or
    assert_eq!(cpu.reg(0), 0xEE);
    cpu.op_6xnn(0x60CC);
    cpu.op_8xy2(0x8012); // and
    assert_eq!(cpu.reg(0), 0x88);
    cpu.op_6xnn(0x60CC);
    cpu.op_8xy3(0x8013); // xor
    assert_eq!(cpu.reg(0), 0x66);
    cpu.op_8xy0(0x8010); // copy
    assert_eq!(cpu.reg(0), 0xAA);
}

#[test]
fn add_imm_wraps_without_flag() {
    let mut cpu = CPU::new();
    cpu.op_6xnn(0x60FE); // reg 0 := 254
    cpu.op_6xnn(0x6F07); // flag := 7, must stay untouched
    cpu.op_7xnn(0x7005); // reg 0 := (254 + 5) mod 256 = 3
    assert_eq!(cpu.reg(0), 3);
    assert_eq!(cpu.reg(0xF), 7);
}

#[test]
fn scenario_load_add() {
    // address space zeroed, program loaded at 0x200, three steps
    let mut cpu = CPU::new();
    cpu.load_buffer_to_memory(vec![0x60, 0x05, 0x61, 0x03, 0x80, 0x14]);
    assert_eq!(cpu.tick(), Ok(StepEvent::Executed));
    assert_eq!(cpu.reg(0), 5);
    assert_eq!(cpu.tick(), Ok(StepEvent::Executed));
    assert_eq!(cpu.reg(1), 3);
    assert_eq!(cpu.tick(), Ok(StepEvent::Executed));
    assert_eq!(cpu.reg(0), 8);
    assert_eq!(cpu.reg(0xF), 0);
    assert_eq!(cpu.pc(), 0x206);
}

#[test]
fn scenario_clear_screen() {
    let mut cpu = CPU::new();
    // put some pixels on first: one row of font glyph 0 at the origin
    cpu.draw(0xD001).unwrap();
    assert!(cpu.pixel(0, 0));
    cpu.set_draw(false);
    cpu.load_buffer_to_memory(vec![0x00, 0xE0]);
    assert_eq!(cpu.tick(), Ok(StepEvent::Executed));
    for y in 0..HEIGHT {
        for x in 0..WIDTH {
            assert!(!cpu.pixel(x, y));
        }
    }
    assert!(cpu.should_draw());
}

#[test]
fn scenario_store_bcd() {
    let mut cpu = CPU::new();
    cpu.load_buffer_to_memory(vec![0x6A, 0xB6, 0xA3, 0x00, 0xFA, 0x33]);
    assert_eq!(cpu.tick(), Ok(StepEvent::Executed)); // reg A := 182
    assert_eq!(cpu.tick(), Ok(StepEvent::Executed)); // index := 0x300
    assert_eq!(cpu.tick(), Ok(StepEvent::Executed)); // store-bcd
    assert_eq!(cpu.mem(0x300), 1);
    assert_eq!(cpu.mem(0x301), 8);
    assert_eq!(cpu.mem(0x302), 2);
}

#[test]
fn draw_twice_restores_and_collides() {
    let mut cpu = CPU::new();
    // glyph 0 (5 rows) at the origin; index register is 0
    cpu.draw(0xD005).unwrap();
    assert_eq!(cpu.reg(0xF), 0);
    assert!(cpu.pixel(0, 0) && cpu.pixel(1, 0) && cpu.pixel(2, 0) && cpu.pixel(3, 0));
    assert!(!cpu.pixel(4, 0));
    assert!(cpu.pixel(0, 1) && !cpu.pixel(1, 1) && !cpu.pixel(2, 1) && cpu.pixel(3, 1));
    // drawing the same sprite again restores every pixel and reports the
    // collision
    cpu.draw(0xD005).unwrap();
    assert_eq!(cpu.reg(0xF), 1);
    for y in 0..HEIGHT {
        for x in 0..WIDTH {
            assert!(!cpu.pixel(x, y));
        }
    }
    assert!(cpu.should_draw());
}

#[test]
fn draw_zero_height_changes_nothing() {
    let mut cpu = CPU::new();
    cpu.draw(0xD000).unwrap();
    assert_eq!(cpu.reg(0xF), 0);
    for y in 0..HEIGHT {
        for x in 0..WIDTH {
            assert!(!cpu.pixel(x, y));
        }
    }
    assert!(cpu.should_draw());
}

#[test]
fn draw_wraps_at_column_60() {
    let mut cpu = CPU::new();
    // program: reg A := 60, reg B := 0, index := 0x208, draw 1 row;
    // the sprite byte 0xFF sits at 0x208
    cpu.load_buffer_to_memory(vec![
        0x6A, 0x3C, 0x6B, 0x00, 0xA2, 0x08, 0xDA, 0xB1, 0xFF,
    ]);
    for _ in 0..4 {
        assert_eq!(cpu.tick(), Ok(StepEvent::Executed));
    }
    for x in 60..64 {
        assert!(cpu.pixel(x, 0));
    }
    for x in 0..4 {
        assert!(cpu.pixel(x, 0));
    }
    for x in 4..60 {
        assert!(!cpu.pixel(x, 0));
    }
    for x in 0..64 {
        assert!(!cpu.pixel(x, 1));
    }
}

#[test]
fn draw_wraps_vertically() {
    let mut cpu = CPU::new();
    // origin row 30, glyph 0 is 5 rows: rows 30, 31, 0, 1, 2
    cpu.op_6xnn(0x6000); // reg 0 := 0 (column)
    cpu.op_6xnn(0x611E); // reg 1 := 30 (row)
    cpu.draw(0xD015).unwrap();
    assert!(cpu.pixel(0, 30));
    assert!(cpu.pixel(0, 31));
    assert!(cpu.pixel(0, 0));
    assert!(cpu.pixel(0, 1));
    assert!(cpu.pixel(0, 2));
    assert!(!cpu.pixel(0, 3));
}

#[test]
fn call_then_return_restores_pc() {
    let mut cpu = CPU::new();
    // a program whose first word calls 0x300, where a return sits
    let mut prog = vec![0u8; 0x102];
    prog[0x00] = 0x23; // 0x200: call 0x300
    prog[0x01] = 0x00;
    prog[0x100] = 0x00; // 0x300: return
    prog[0x101] = 0xEE;
    cpu.load_buffer_to_memory(prog);
    assert_eq!(cpu.tick(), Ok(StepEvent::Executed));
    assert_eq!(cpu.pc(), 0x300);
    assert_eq!(cpu.stack_depth(), 1);
    assert_eq!(cpu.tick(), Ok(StepEvent::Executed));
    assert_eq!(cpu.pc(), 0x202);
    assert_eq!(cpu.stack_depth(), 0);
}

#[test]
fn stack_underflow_is_fatal() {
    let mut cpu = CPU::new();
    cpu.load_buffer_to_memory(vec![0x00, 0xEE]);
    let r = cpu.tick();
    assert!(r.is_err());
    let f = r.unwrap_err();
    assert_eq!(f.kind, FaultKind::StackUnderflow);
    assert_eq!(f.pc, 0x200);
    assert_eq!(f.op, 0x00EE);
}

#[test]
fn stack_overflow_is_fatal() {
    let mut cpu = CPU::new();
    for _ in 0..64 {
        cpu.op_2nnn(0x2300).unwrap();
    }
    assert_eq!(cpu.stack_depth(), 64);
    assert_eq!(cpu.op_2nnn(0x2300), Err(FaultKind::StackOverflow));
}

#[test]
fn fetch_out_of_range_is_fatal() {
    let mut cpu = CPU::new();
    cpu.load_buffer_to_memory(vec![0x1F, 0xFF]); // jump to 0xFFF
    assert_eq!(cpu.tick(), Ok(StepEvent::Executed));
    assert_eq!(cpu.pc(), 0xFFF);
    let f = cpu.tick().unwrap_err();
    assert_eq!(f.kind, FaultKind::FetchOutOfRange);
    assert_eq!(f.pc, 0xFFF);
    assert_eq!(f.op, 0);
}

#[test]
fn store_bcd_out_of_range_is_fatal() {
    let mut cpu = CPU::new();
    cpu.load_buffer_to_memory(vec![0xAF, 0xFE, 0xF0, 0x33]); // index := 0xFFE
    assert_eq!(cpu.tick(), Ok(StepEvent::Executed));
    let f = cpu.tick().unwrap_err();
    assert_eq!(f.kind, FaultKind::OutOfRange);
    assert_eq!(f.pc, 0x202);
    assert_eq!(f.op, 0xF033);
}

#[test]
fn unrecognized_opcode_is_skipped() {
    let mut cpu = CPU::new();
    cpu.load_buffer_to_memory(vec![0xE0, 0x00, 0x60, 0x2A]);
    assert_eq!(cpu.tick(), Ok(StepEvent::Unrecognized(0xE000)));
    assert_eq!(cpu.pc(), 0x202);
    // execution continues unharmed
    assert_eq!(cpu.tick(), Ok(StepEvent::Executed));
    assert_eq!(cpu.reg(0), 0x2A);
}

#[test]
fn skips_by_immediate_and_register() {
    let mut cpu = CPU::new();
    cpu.op_6xnn(0x6007);
    let pc = cpu.pc();
    cpu.op_3xnn(0x3007); // equal: skip
    assert_eq!(cpu.pc(), pc + 2);
    cpu.op_3xnn(0x3008); // not equal: no skip
    assert_eq!(cpu.pc(), pc + 2);
    cpu.op_4xnn(0x4008); // not equal: skip
    assert_eq!(cpu.pc(), pc + 4);
    cpu.op_6xnn(0x6107);
    cpu.op_5xy0(0x5010); // registers equal: skip
    assert_eq!(cpu.pc(), pc + 6);
    cpu.op_9xy0(0x9010); // registers equal: no skip
    assert_eq!(cpu.pc(), pc + 6);
    cpu.op_6xnn(0x6108);
    cpu.op_9xy0(0x9010); // registers differ: skip
    assert_eq!(cpu.pc(), pc + 8);
}

#[test]
fn key_skips_read_the_latch() {
    let mut cpu = CPU::new();
    cpu.op_6xnn(0x6004); // reg 0 := key 4
    cpu.set_keypad(1, 4);
    let pc = cpu.pc();
    cpu.op_ex9e(0xE09E).unwrap(); // pressed: skip
    assert_eq!(cpu.pc(), pc + 2);
    cpu.op_exa1(0xE0A1).unwrap(); // pressed: no skip
    assert_eq!(cpu.pc(), pc + 2);
    cpu.set_keypad(0, 4);
    cpu.op_ex9e(0xE09E).unwrap(); // released: no skip
    assert_eq!(cpu.pc(), pc + 2);
    cpu.op_exa1(0xE0A1).unwrap(); // released: skip
    assert_eq!(cpu.pc(), pc + 4);
}

#[test]
fn key_skip_with_bad_register_is_fatal() {
    let mut cpu = CPU::new();
    cpu.op_6xnn(0x6010); // reg 0 := 16, outside the latch
    assert_eq!(cpu.op_ex9e(0xE09E), Err(FaultKind::OutOfRange));
    assert_eq!(cpu.op_exa1(0xE0A1), Err(FaultKind::OutOfRange));
}

#[test]
fn await_key_blocks_then_stores() {
    let mut cpu = CPU::new();
    cpu.load_buffer_to_memory(vec![0xF5, 0x0A]);
    // no key pressed: the same instruction re-executes, pc never moves
    for _ in 0..5 {
        assert_eq!(cpu.tick(), Ok(StepEvent::Executed));
        assert_eq!(cpu.pc(), 0x200);
    }
    // key 7 goes down: stored into register 5, pc advances
    cpu.set_keypad(1, 7);
    assert_eq!(cpu.tick(), Ok(StepEvent::Executed));
    assert_eq!(cpu.reg(5), 7);
    assert_eq!(cpu.pc(), 0x202);
}

#[test]
fn await_key_prefers_lowest_index() {
    let mut cpu = CPU::new();
    cpu.set_keypad(1, 9);
    cpu.set_keypad(1, 3);
    cpu.op_fx0a(0xF20A);
    assert_eq!(cpu.reg(2), 3);
}

#[test]
fn timers_count_down_to_zero() {
    let mut cpu = CPU::new();
    cpu.op_6xnn(0x6002); // reg 0 := 2
    cpu.op_fx15(0xF015); // delay := 2
    cpu.op_fx18(0xF018); // sound := 2
    assert_eq!(cpu.delay_timer(), 2);
    assert_eq!(cpu.sound_timer(), 2);
    cpu.tick_timer();
    assert_eq!(cpu.delay_timer(), 1);
    cpu.tick_timer();
    cpu.tick_timer();
    cpu.tick_timer();
    assert_eq!(cpu.delay_timer(), 0);
    assert_eq!(cpu.sound_timer(), 0);
    cpu.op_fx07(0xF107); // reg 1 := delay timer
    assert_eq!(cpu.reg(1), 0);
}

#[test]
fn index_ops() {
    let mut cpu = CPU::new();
    cpu.op_annn(0xA123);
    assert_eq!(cpu.index_register(), 0x123);
    cpu.op_6xnn(0x6005);
    cpu.op_fx1e(0xF01E); // index += 5
    assert_eq!(cpu.index_register(), 0x128);
    cpu.op_6xnn(0x600B);
    cpu.op_fx29(0xF029); // glyph for digit 11
    assert_eq!(cpu.index_register(), 55);
    // the glyph address really holds glyph B
    assert_eq!(cpu.mem(55), 0xE0);
}

#[test]
fn add_to_index_wraps_in_address_space() {
    let mut cpu = CPU::new();
    cpu.op_annn(0xAFFF);
    cpu.op_6xnn(0x6002);
    cpu.op_fx1e(0xF01E); // 0xFFF + 2, masked to 12 bits
    assert_eq!(cpu.index_register(), 1);
}

#[test]
fn jumps() {
    let mut cpu = CPU::new();
    cpu.op_1nnn(0x1456);
    assert_eq!(cpu.pc(), 0x456);
    cpu.op_6xnn(0x6010); // reg 0 := 0x10
    cpu.op_bnnn(0xB300); // pc := reg0 + 0x300
    assert_eq!(cpu.pc(), 0x310);
}

#[test]
fn store_and_load_registers_roundtrip() {
    let mut cpu = CPU::new();
    cpu.op_6xnn(0x6011);
    cpu.op_6xnn(0x6122);
    cpu.op_6xnn(0x6233);
    cpu.op_annn(0xA400);
    cpu.op_fx55(0xF255).unwrap(); // registers 0..2 to memory
    assert_eq!(cpu.mem(0x400), 0x11);
    assert_eq!(cpu.mem(0x401), 0x22);
    assert_eq!(cpu.mem(0x402), 0x33);
    assert_eq!(cpu.mem(0x403), 0x00);
    cpu.op_6xnn(0x6000);
    cpu.op_6xnn(0x6100);
    cpu.op_6xnn(0x6200);
    cpu.op_fx65(0xF265).unwrap(); // memory back into registers 0..2
    assert_eq!(cpu.reg(0), 0x11);
    assert_eq!(cpu.reg(1), 0x22);
    assert_eq!(cpu.reg(2), 0x33);
    assert_eq!(cpu.reg(3), 0x00);
}

#[test]
fn store_registers_out_of_range_is_fatal() {
    let mut cpu = CPU::new();
    cpu.op_annn(0xAFFE);
    assert_eq!(cpu.op_fx55(0xF555), Err(FaultKind::OutOfRange));
    assert_eq!(cpu.op_fx65(0xF565), Err(FaultKind::OutOfRange));
}

#[test]
fn random_and_masks_the_byte() {
    let mut cpu = CPU::new();
    for _ in 0..20 {
        cpu.op_cxnn(0xC00F);
        assert_eq!(cpu.reg(0) & 0xF0, 0);
    }
    // deterministic core: the mask really combines with the byte
    cpu.op_cxnn_masked(0xC10F, 0xAB);
    assert_eq!(cpu.reg(1), 0x0B);
    cpu.op_cxnn_masked(0xC1F0, 0xAB);
    assert_eq!(cpu.reg(1), 0xA0);
}

#[test]
fn draw_flag_handshake() {
    let mut cpu = CPU::new();
    assert!(!cpu.should_draw());
    cpu.draw(0xD001).unwrap();
    assert!(cpu.should_draw());
    cpu.set_draw(false);
    assert!(!cpu.should_draw());
}
