use chip8::{Chip8Error, Cpu, Display, Keyboard, Ram};

fn parts() -> (Cpu, Ram, Display, Keyboard) {
    (Cpu::new(), Ram::new(), Display::new(), Keyboard::new())
}

fn exec_with(
    cpu: &mut Cpu,
    ram: &mut Ram,
    display: &mut Display,
    kb: &Keyboard,
    word: u16,
    rnd: u8,
) -> Result<(), Chip8Error> {
    let d = cpu.decode_instruction(word);
    cpu.execute_instruction(ram, display, kb, word, d, rnd)
}

fn exec(
    cpu: &mut Cpu,
    ram: &mut Ram,
    display: &mut Display,
    kb: &Keyboard,
    word: u16,
) -> Result<(), Chip8Error> {
    exec_with(cpu, ram, display, kb, word, 0)
}

#[test]
fn decode_extracts_fields() {
    let cpu = Cpu::new();
    let d = cpu.decode_instruction(0x1234);
    assert_eq!(d.op, 0x1);
    assert_eq!(d.nnn, 0x234);
    assert_eq!(d.x, 0x2);
    assert_eq!(d.y, 0x3);
    assert_eq!(d.n, 0x4);
    assert_eq!(d.nn, 0x34);
}

#[test]
fn clear_screen_resets_all_cells() {
    let (mut cpu, mut ram, mut display, kb) = parts();
    display.draw_byte(0xFF, 0, 0);
    display.draw_byte(0xA5, 17, 30);
    assert!(display.get_buffer().iter().any(|&c| c == 1));
    assert_eq!(exec(&mut cpu, &mut ram, &mut display, &kb, 0x00E0), Ok(()));
    assert!(display.get_buffer().iter().all(|&c| c == 0));
    assert_eq!(cpu.get_pc(), 0x202);
}

#[test]
fn return_with_empty_stack_underflows() {
    let (mut cpu, mut ram, mut display, kb) = parts();
    assert_eq!(
        exec(&mut cpu, &mut ram, &mut display, &kb, 0x00EE),
        Err(Chip8Error::CallStackUnderflow)
    );
    assert_eq!(cpu.get_pc(), 0x200);
    assert_eq!(cpu.get_stack_depth(), 0);
}

#[test]
fn call_pushes_and_return_pops() {
    let (mut cpu, mut ram, mut display, kb) = parts();
    assert_eq!(exec(&mut cpu, &mut ram, &mut display, &kb, 0x2300), Ok(()));
    assert_eq!(cpu.get_pc(), 0x300);
    assert_eq!(cpu.get_stack_depth(), 1);
    assert_eq!(exec(&mut cpu, &mut ram, &mut display, &kb, 0x00EE), Ok(()));
    assert_eq!(cpu.get_pc(), 0x202);
    assert_eq!(cpu.get_stack_depth(), 0);
}

#[test]
fn call_at_full_depth_overflows() {
    let (mut cpu, mut ram, mut display, kb) = parts();
    for _ in 0..16 {
        assert_eq!(exec(&mut cpu, &mut ram, &mut display, &kb, 0x2300), Ok(()));
    }
    assert_eq!(cpu.get_stack_depth(), 16);
    assert_eq!(
        exec(&mut cpu, &mut ram, &mut display, &kb, 0x2300),
        Err(Chip8Error::CallStackOverflow)
    );
    assert_eq!(cpu.get_stack_depth(), 16);
}

#[test]
fn load_immediate_sets_register() {
    let (mut cpu, mut ram, mut display, kb) = parts();
    assert_eq!(exec(&mut cpu, &mut ram, &mut display, &kb, 0x6A05), Ok(()));
    assert_eq!(cpu.read_vx(0xA), 5);
    assert_eq!(cpu.get_pc(), 0x202);
}

#[test]
fn add_immediate_wraps_without_flag() {
    let (mut cpu, mut ram, mut display, kb) = parts();
    exec(&mut cpu, &mut ram, &mut display, &kb, 0x6F01).unwrap();
    exec(&mut cpu, &mut ram, &mut display, &kb, 0x6AFF).unwrap();
    assert_eq!(exec(&mut cpu, &mut ram, &mut display, &kb, 0x7A01), Ok(()));
    assert_eq!(cpu.read_vx(0xA), 0x00);
    // The flag register keeps its prior value: the asymmetry with 0x8xy4.
    assert_eq!(cpu.read_vx(0xF), 0x01);
}

#[test]
fn add_registers_sets_carry_on_overflow() {
    let (mut cpu, mut ram, mut display, kb) = parts();
    exec(&mut cpu, &mut ram, &mut display, &kb, 0x6AFF).unwrap();
    exec(&mut cpu, &mut ram, &mut display, &kb, 0x6B02).unwrap();
    assert_eq!(exec(&mut cpu, &mut ram, &mut display, &kb, 0x8AB4), Ok(()));
    assert_eq!(cpu.read_vx(0xA), 0x01);
    assert_eq!(cpu.read_vx(0xF), 1);
}

#[test]
fn add_registers_without_overflow_leaves_flag() {
    let (mut cpu, mut ram, mut display, kb) = parts();
    exec(&mut cpu, &mut ram, &mut display, &kb, 0x6F00).unwrap();
    exec(&mut cpu, &mut ram, &mut display, &kb, 0x6A01).unwrap();
    exec(&mut cpu, &mut ram, &mut display, &kb, 0x6B01).unwrap();
    assert_eq!(exec(&mut cpu, &mut ram, &mut display, &kb, 0x8AB4), Ok(()));
    assert_eq!(cpu.read_vx(0xA), 0x02);
    assert_eq!(cpu.read_vx(0xF), 0);
}

#[test]
fn subtract_registers_reports_borrow() {
    let (mut cpu, mut ram, mut display, kb) = parts();
    exec(&mut cpu, &mut ram, &mut display, &kb, 0x6A03).unwrap();
    exec(&mut cpu, &mut ram, &mut display, &kb, 0x6B05).unwrap();
    assert_eq!(exec(&mut cpu, &mut ram, &mut display, &kb, 0x8AB5), Ok(()));
    assert_eq!(cpu.read_vx(0xA), 0xFE); // 3 - 5 wrapped
    assert_eq!(cpu.read_vx(0xF), 1); // borrow occurred
    exec(&mut cpu, &mut ram, &mut display, &kb, 0x6A09).unwrap();
    exec(&mut cpu, &mut ram, &mut display, &kb, 0x6B04).unwrap();
    assert_eq!(exec(&mut cpu, &mut ram, &mut display, &kb, 0x8AB5), Ok(()));
    assert_eq!(cpu.read_vx(0xA), 5);
    assert_eq!(cpu.read_vx(0xF), 0);
}

#[test]
fn reverse_subtract_registers() {
    let (mut cpu, mut ram, mut display, kb) = parts();
    exec(&mut cpu, &mut ram, &mut display, &kb, 0x6A02).unwrap();
    exec(&mut cpu, &mut ram, &mut display, &kb, 0x6B07).unwrap();
    assert_eq!(exec(&mut cpu, &mut ram, &mut display, &kb, 0x8AB7), Ok(()));
    assert_eq!(cpu.read_vx(0xA), 5); // 7 - 2
    assert_eq!(cpu.read_vx(0xF), 0);
    exec(&mut cpu, &mut ram, &mut display, &kb, 0x6A07).unwrap();
    exec(&mut cpu, &mut ram, &mut display, &kb, 0x6B02).unwrap();
    assert_eq!(exec(&mut cpu, &mut ram, &mut display, &kb, 0x8AB7), Ok(()));
    assert_eq!(cpu.read_vx(0xA), 0xFB); // 2 - 7 wrapped
    assert_eq!(cpu.read_vx(0xF), 1);
}

#[test]
fn assign_and_or_less_logic_ops() {
    let (mut cpu, mut ram, mut display, kb) = parts();
    exec(&mut cpu, &mut ram, &mut display, &kb, 0x6A0C).unwrap();
    exec(&mut cpu, &mut ram, &mut display, &kb, 0x6B0A).unwrap();
    assert_eq!(exec(&mut cpu, &mut ram, &mut display, &kb, 0x8AB2), Ok(()));
    assert_eq!(cpu.read_vx(0xA), 0x08); // 0x0C & 0x0A
    exec(&mut cpu, &mut ram, &mut display, &kb, 0x6A0C).unwrap();
    assert_eq!(exec(&mut cpu, &mut ram, &mut display, &kb, 0x8AB3), Ok(()));
    assert_eq!(cpu.read_vx(0xA), 0x06); // 0x0C ^ 0x0A
    assert_eq!(exec(&mut cpu, &mut ram, &mut display, &kb, 0x8AB0), Ok(()));
    assert_eq!(cpu.read_vx(0xA), 0x0A); // assigned from VB
}

#[test]
fn shifts_expose_edge_bits() {
    let (mut cpu, mut ram, mut display, kb) = parts();
    exec(&mut cpu, &mut ram, &mut display, &kb, 0x6A85).unwrap(); // 1000 0101
    assert_eq!(exec(&mut cpu, &mut ram, &mut display, &kb, 0x8A06), Ok(()));
    assert_eq!(cpu.read_vx(0xA), 0x42);
    assert_eq!(cpu.read_vx(0xF), 1); // least significant bit before the shift
    exec(&mut cpu, &mut ram, &mut display, &kb, 0x6A85).unwrap();
    assert_eq!(exec(&mut cpu, &mut ram, &mut display, &kb, 0x8A0E), Ok(()));
    assert_eq!(cpu.read_vx(0xA), 0x0A);
    assert_eq!(cpu.read_vx(0xF), 1); // most significant bit before the shift
}

#[test]
fn unsupported_logic_nibble_is_refused() {
    let (mut cpu, mut ram, mut display, kb) = parts();
    assert_eq!(
        exec(&mut cpu, &mut ram, &mut display, &kb, 0x8AB1),
        Err(Chip8Error::UnsupportedInstruction { pc: 0x200, instruction: 0x8AB1 })
    );
    assert_eq!(cpu.get_pc(), 0x200);
}

#[test]
fn unsupported_words_are_refused() {
    let (mut cpu, mut ram, mut display, kb) = parts();
    for word in [0x00E1u16, 0x0000, 0xE003, 0xF0FF] {
        assert_eq!(
            exec(&mut cpu, &mut ram, &mut display, &kb, word),
            Err(Chip8Error::UnsupportedInstruction { pc: 0x200, instruction: word })
        );
        assert_eq!(cpu.get_pc(), 0x200);
    }
}

#[test]
fn conditional_skips() {
    let (mut cpu, mut ram, mut display, kb) = parts();
    exec(&mut cpu, &mut ram, &mut display, &kb, 0x6A05).unwrap();
    exec(&mut cpu, &mut ram, &mut display, &kb, 0x6B05).unwrap();
    let base = cpu.get_pc();
    assert_eq!(exec(&mut cpu, &mut ram, &mut display, &kb, 0x3A05), Ok(()));
    assert_eq!(cpu.get_pc(), base + 4); // equal immediate: skip
    let base = cpu.get_pc();
    assert_eq!(exec(&mut cpu, &mut ram, &mut display, &kb, 0x3A06), Ok(()));
    assert_eq!(cpu.get_pc(), base + 2);
    let base = cpu.get_pc();
    assert_eq!(exec(&mut cpu, &mut ram, &mut display, &kb, 0x4A06), Ok(()));
    assert_eq!(cpu.get_pc(), base + 4); // unequal immediate: skip
    let base = cpu.get_pc();
    assert_eq!(exec(&mut cpu, &mut ram, &mut display, &kb, 0x5AB0), Ok(()));
    assert_eq!(cpu.get_pc(), base + 4); // registers equal: skip
    let base = cpu.get_pc();
    assert_eq!(exec(&mut cpu, &mut ram, &mut display, &kb, 0x9AB0), Ok(()));
    assert_eq!(cpu.get_pc(), base + 2); // registers equal: no skip
}

#[test]
fn jumps_absolute_and_offset() {
    let (mut cpu, mut ram, mut display, kb) = parts();
    assert_eq!(exec(&mut cpu, &mut ram, &mut display, &kb, 0x1ABC), Ok(()));
    assert_eq!(cpu.get_pc(), 0xABC);
    exec(&mut cpu, &mut ram, &mut display, &kb, 0x6005).unwrap();
    assert_eq!(exec(&mut cpu, &mut ram, &mut display, &kb, 0xB300), Ok(()));
    assert_eq!(cpu.get_pc(), 0x305);
}

#[test]
fn index_register_ops() {
    let (mut cpu, mut ram, mut display, kb) = parts();
    assert_eq!(exec(&mut cpu, &mut ram, &mut display, &kb, 0xA123), Ok(()));
    assert_eq!(cpu.get_i(), 0x123);
    exec(&mut cpu, &mut ram, &mut display, &kb, 0x6A10).unwrap();
    assert_eq!(exec(&mut cpu, &mut ram, &mut display, &kb, 0xFA1E), Ok(()));
    assert_eq!(cpu.get_i(), 0x133);
    exec(&mut cpu, &mut ram, &mut display, &kb, 0x6A07).unwrap();
    assert_eq!(exec(&mut cpu, &mut ram, &mut display, &kb, 0xFA29), Ok(()));
    assert_eq!(cpu.get_i(), 35); // glyph 7 lives at 7 * 5
}

#[test]
fn delay_timer_round_trip_and_decrement() {
    let (mut cpu, mut ram, mut display, kb) = parts();
    exec(&mut cpu, &mut ram, &mut display, &kb, 0x6A42).unwrap();
    assert_eq!(exec(&mut cpu, &mut ram, &mut display, &kb, 0xFA15), Ok(()));
    assert_eq!(cpu.get_delay_timer(), 0x42);
    assert_eq!(exec(&mut cpu, &mut ram, &mut display, &kb, 0xFB07), Ok(()));
    assert_eq!(cpu.read_vx(0xB), 0x42);
    cpu.decrement_timer();
    assert_eq!(cpu.get_delay_timer(), 0x41);
    cpu.set_delay_timer(0);
    cpu.decrement_timer();
    assert_eq!(cpu.get_delay_timer(), 0); // stops at zero
}

#[test]
fn sound_timer_is_a_stub() {
    let (mut cpu, mut ram, mut display, kb) = parts();
    exec(&mut cpu, &mut ram, &mut display, &kb, 0x6A10).unwrap();
    assert_eq!(exec(&mut cpu, &mut ram, &mut display, &kb, 0xFA18), Ok(()));
    assert_eq!(cpu.get_pc(), 0x204);
}

#[test]
fn random_register_is_masked() {
    let (mut cpu, mut ram, mut display, kb) = parts();
    assert_eq!(exec_with(&mut cpu, &mut ram, &mut display, &kb, 0xCA0F, 0xAB), Ok(()));
    assert_eq!(cpu.read_vx(0xA), 0x0B); // 0xAB & 0x0F
    assert_eq!(exec_with(&mut cpu, &mut ram, &mut display, &kb, 0xCA00, 0xFF), Ok(()));
    assert_eq!(cpu.read_vx(0xA), 0x00);
}

#[test]
fn key_skips_follow_keyboard_state() {
    let (mut cpu, mut ram, mut display, mut kb) = parts();
    kb.set_key_pressed(Some(4));
    exec(&mut cpu, &mut ram, &mut display, &kb, 0x6A04).unwrap();
    let base = cpu.get_pc();
    assert_eq!(exec(&mut cpu, &mut ram, &mut display, &kb, 0xEA9E), Ok(()));
    assert_eq!(cpu.get_pc(), base + 4); // key 4 pressed: skip
    let base = cpu.get_pc();
    assert_eq!(exec(&mut cpu, &mut ram, &mut display, &kb, 0xEAA1), Ok(()));
    assert_eq!(cpu.get_pc(), base + 2);
    kb.set_key_pressed(None);
    let base = cpu.get_pc();
    assert_eq!(exec(&mut cpu, &mut ram, &mut display, &kb, 0xEA9E), Ok(()));
    assert_eq!(cpu.get_pc(), base + 2);
    let base = cpu.get_pc();
    assert_eq!(exec(&mut cpu, &mut ram, &mut display, &kb, 0xEAA1), Ok(()));
    assert_eq!(cpu.get_pc(), base + 4); // no key: "not pressed" skips
}

#[test]
fn key_wait_stalls_then_stores() {
    let (mut cpu, mut ram, mut display, mut kb) = parts();
    assert_eq!(exec(&mut cpu, &mut ram, &mut display, &kb, 0xFA0A), Ok(()));
    assert_eq!(cpu.get_pc(), 0x200); // no key: the instruction re-executes
    assert_eq!(exec(&mut cpu, &mut ram, &mut display, &kb, 0xFA0A), Ok(()));
    assert_eq!(cpu.get_pc(), 0x200);
    kb.set_key_pressed(Some(9));
    assert_eq!(exec(&mut cpu, &mut ram, &mut display, &kb, 0xFA0A), Ok(()));
    assert_eq!(cpu.read_vx(0xA), 9);
    assert_eq!(cpu.get_pc(), 0x202);
}

#[test]
fn draw_sets_pixels_then_erases_with_collision() {
    let (mut cpu, mut ram, mut display, kb) = parts();
    ram.write_byte(0x300, 0xFF).unwrap();
    exec(&mut cpu, &mut ram, &mut display, &kb, 0xA300).unwrap();
    assert_eq!(exec(&mut cpu, &mut ram, &mut display, &kb, 0xD011), Ok(()));
    let buffer = display.get_buffer();
    for col in 0..8 {
        assert_eq!(buffer[Display::get_index_from_coords(col, 0)], 1);
    }
    assert_eq!(buffer[Display::get_index_from_coords(8, 0)], 0);
    assert_eq!(cpu.read_vx(0xF), 0); // nothing was erased
    assert_eq!(exec(&mut cpu, &mut ram, &mut display, &kb, 0xD011), Ok(()));
    let buffer = display.get_buffer();
    for col in 0..8 {
        assert_eq!(buffer[Display::get_index_from_coords(col, 0)], 0);
    }
    assert_eq!(cpu.read_vx(0xF), 1); // the second blit erased set cells
}

#[test]
fn draw_wraps_at_both_edges() {
    let (mut cpu, mut ram, mut display, kb) = parts();
    ram.write_byte(0x300, 0x80).unwrap(); // single pixel, most significant bit
    exec(&mut cpu, &mut ram, &mut display, &kb, 0xA300).unwrap();
    exec(&mut cpu, &mut ram, &mut display, &kb, 0x6A3F).unwrap(); // x = 63
    exec(&mut cpu, &mut ram, &mut display, &kb, 0x6B1F).unwrap(); // y = 31
    assert_eq!(exec(&mut cpu, &mut ram, &mut display, &kb, 0xDAB1), Ok(()));
    let buffer = display.get_buffer();
    assert_eq!(buffer[Display::get_index_from_coords(63, 31)], 1);
    ram.write_byte(0x300, 0x40).unwrap(); // second bit: wraps to column 0
    assert_eq!(exec(&mut cpu, &mut ram, &mut display, &kb, 0xDAB1), Ok(()));
    let buffer = display.get_buffer();
    assert_eq!(buffer[Display::get_index_from_coords(0, 31)], 1);
    assert_eq!(buffer[Display::get_index_from_coords(63, 31)], 1); // untouched by second draw
}

#[test]
fn register_block_store_load_round_trip() {
    let (mut cpu, mut ram, mut display, kb) = parts();
    exec(&mut cpu, &mut ram, &mut display, &kb, 0x6001).unwrap();
    exec(&mut cpu, &mut ram, &mut display, &kb, 0x6102).unwrap();
    exec(&mut cpu, &mut ram, &mut display, &kb, 0x6203).unwrap();
    exec(&mut cpu, &mut ram, &mut display, &kb, 0x6304).unwrap();
    exec(&mut cpu, &mut ram, &mut display, &kb, 0xA300).unwrap();
    assert_eq!(exec(&mut cpu, &mut ram, &mut display, &kb, 0xF355), Ok(()));
    assert_eq!(cpu.get_i(), 0x300); // the index register is left unchanged
    for x in 0..4u8 {
        assert_eq!(ram.read_byte(0x300 + x as u16).unwrap(), x + 1);
    }
    for w in [0x6000u16, 0x6100, 0x6200, 0x6300] {
        exec(&mut cpu, &mut ram, &mut display, &kb, w).unwrap();
    }
    assert_eq!(exec(&mut cpu, &mut ram, &mut display, &kb, 0xF365), Ok(()));
    assert_eq!(cpu.get_i(), 0x300);
    for x in 0..4u8 {
        assert_eq!(cpu.read_vx(x), x + 1);
    }
    assert_eq!(cpu.read_vx(4), 0); // registers above x are untouched
}

#[test]
fn bcd_writes_three_digits() {
    let (mut cpu, mut ram, mut display, kb) = parts();
    exec(&mut cpu, &mut ram, &mut display, &kb, 0x6A9D).unwrap(); // 157
    exec(&mut cpu, &mut ram, &mut display, &kb, 0xA300).unwrap();
    assert_eq!(exec(&mut cpu, &mut ram, &mut display, &kb, 0xFA33), Ok(()));
    assert_eq!(ram.read_byte(0x300).unwrap(), 1);
    assert_eq!(ram.read_byte(0x301).unwrap(), 5);
    assert_eq!(ram.read_byte(0x302).unwrap(), 7);
}

#[test]
fn memory_access_out_of_bounds_is_refused() {
    let mut ram = Ram::new();
    assert_eq!(
        ram.read_byte(4096),
        Err(Chip8Error::MemoryOutOfBounds { address: 4096 })
    );
    assert_eq!(
        ram.write_byte(5000, 7),
        Err(Chip8Error::MemoryOutOfBounds { address: 5000 })
    );
    assert_eq!(ram.read_byte(4095), Ok(0));
}

#[test]
fn bcd_near_end_of_memory_fails_without_mutation() {
    let (mut cpu, mut ram, mut display, kb) = parts();
    ram.write_byte(4095, 0xEE).unwrap();
    exec(&mut cpu, &mut ram, &mut display, &kb, 0x6A9D).unwrap();
    exec(&mut cpu, &mut ram, &mut display, &kb, 0xAFFF).unwrap(); // I = 4095
    assert_eq!(
        exec(&mut cpu, &mut ram, &mut display, &kb, 0xFA33),
        Err(Chip8Error::MemoryOutOfBounds { address: 4096 })
    );
    assert_eq!(ram.read_byte(4095).unwrap(), 0xEE); // no partial write
    assert_eq!(cpu.get_pc(), 0x204); // unmoved by the failing instruction
}

#[test]
fn block_store_near_end_of_memory_fails_without_mutation() {
    let (mut cpu, mut ram, mut display, kb) = parts();
    ram.write_byte(4095, 0xEE).unwrap();
    exec(&mut cpu, &mut ram, &mut display, &kb, 0xAFFE).unwrap(); // I = 4094
    assert_eq!(
        exec(&mut cpu, &mut ram, &mut display, &kb, 0xF355),
        Err(Chip8Error::MemoryOutOfBounds { address: 4096 })
    );
    assert_eq!(ram.read_byte(4095).unwrap(), 0xEE);
    assert_eq!(ram.read_byte(4094).unwrap(), 0);
}

#[test]
fn sprite_fetch_out_of_bounds_fails_without_drawing() {
    let (mut cpu, mut ram, mut display, kb) = parts();
    exec(&mut cpu, &mut ram, &mut display, &kb, 0xAFFE).unwrap(); // I = 4094
    assert_eq!(
        exec(&mut cpu, &mut ram, &mut display, &kb, 0xD013),
        Err(Chip8Error::MemoryOutOfBounds { address: 4096 })
    );
    assert!(display.get_buffer().iter().all(|&c| c == 0));
    assert_eq!(cpu.read_vx(0xF), 0);
}
