use chip8::interp::{Chip8Error, Chip8Interpreter};
use chip8::timer::Timer;

#[test]
fn drawing_twice_restores_the_display() {
    let mut c = Chip8Interpreter::new();
    c.handle_opcode(0x6985).unwrap();
    c.handle_opcode(0xA300).unwrap();
    c.handle_opcode(0xF933).unwrap();
    c.handle_opcode(0x600A).unwrap();
    c.handle_opcode(0x6107).unwrap();
    c.handle_opcode(0xD013).unwrap();
    assert_eq!(c.register(15), 0, "the first draw on a dark screen collides with nothing");
    let mut lit: usize = 0;
    for y in 0..32 {
        for x in 0..64 {
            if c.pixel(x, y) {
                lit += 1;
            }
        }
    }
    assert!(lit > 0, "the decimal digits of 133 light some cells");
    c.handle_opcode(0xD013).unwrap();
    assert_eq!(c.register(15), 1, "redrawing hits every cell the first draw lit");
    for y in 0..32 {
        for x in 0..64 {
            assert!(!c.pixel(x, y), "two XOR draws cancel exactly");
        }
    }
}

#[test]
fn loading_a_second_image_overrides_the_first() {
    let rom_a = vec![0x6A, 0x11, 0x6B, 0x22, 0x12, 0x00];
    let rom_b = vec![0x00, 0xE0, 0x12, 0x02];
    let mut twice = Chip8Interpreter::new();
    twice.load_rom(&rom_a).unwrap();
    for _ in 0..5 {
        twice.execute_cycle().unwrap();
    }
    twice.load_rom(&rom_b).unwrap();
    let mut once = Chip8Interpreter::new();
    once.load_rom(&rom_b).unwrap();
    assert_eq!(twice.program_counter(), once.program_counter());
    assert_eq!(twice.address_register(), once.address_register());
    assert_eq!(twice.stack_depth(), once.stack_depth());
    assert_eq!(twice.is_runnable(), once.is_runnable());
    assert_eq!(twice.delay_value(), once.delay_value());
    assert_eq!(twice.sound_value(), once.sound_value());
    assert_eq!(twice.debug_level(), once.debug_level());
    for i in 0..16 {
        assert_eq!(twice.register(i), once.register(i));
    }
    for a in 0..4096 {
        assert_eq!(twice.memory_byte(a), once.memory_byte(a));
    }
    for y in 0..32 {
        for x in 0..64 {
            assert_eq!(twice.pixel(x, y), once.pixel(x, y));
        }
    }
}

#[test]
fn timer_decay_ignores_how_time_is_sliced() {
    let mut one_call = Timer::new(1000);
    one_call.value = 60;
    one_call.advance(6000);
    let mut many_calls = Timer::new(1000);
    many_calls.value = 60;
    for _ in 0..6000 {
        many_calls.advance(1);
    }
    assert_eq!(one_call.value, many_calls.value);
    assert_eq!(one_call.accumulator, many_calls.accumulator);
    assert_eq!(one_call.value, 55, "the accumulator must climb past a period per decrement");
}

#[test]
fn timer_saturates_at_zero_under_long_advances() {
    let mut t = Timer::new(10);
    t.value = 2;
    t.advance(1000);
    assert_eq!(t.value, 0);
    t.advance(1000);
    assert_eq!(t.value, 0);
}

#[test]
fn arithmetic_flags_on_the_boundary() {
    let mut c = Chip8Interpreter::new();
    c.handle_opcode(0x60FF).unwrap();
    c.handle_opcode(0x6101).unwrap();
    c.handle_opcode(0x8014).unwrap();
    assert_eq!(c.register(15), 1, "0xFF plus 0x01 carries");
    assert_eq!(c.register(0), 0x00);
    c.handle_opcode(0x6001).unwrap();
    c.handle_opcode(0x6102).unwrap();
    c.handle_opcode(0x8015).unwrap();
    assert_eq!(c.register(15), 0, "subtracting a larger value borrows");
    assert_eq!(c.register(0), 0xFF, "and the difference wraps");
}

#[test]
fn bcd_decomposes_231() {
    let mut c = Chip8Interpreter::new();
    c.handle_opcode(0x60E7).unwrap();
    c.handle_opcode(0xA400).unwrap();
    c.handle_opcode(0xF033).unwrap();
    assert_eq!(c.memory_byte(0x400), 2);
    assert_eq!(c.memory_byte(0x401), 3);
    assert_eq!(c.memory_byte(0x402), 1);
    assert_eq!(c.register(0), 231, "decomposition reads the register without changing it");
}

#[test]
fn clear_then_jump_loops_at_the_entry_point() {
    let mut c = Chip8Interpreter::new();
    c.load_rom(&vec![0x00, 0xE0, 0x12, 0x00]).unwrap();
    for _ in 0..3 {
        c.execute_cycle().unwrap();
    }
    for y in 0..32 {
        for x in 0..64 {
            assert!(!c.pixel(x, y));
        }
    }
    assert_eq!(c.program_counter(), 0x202, "the third cycle has refetched the clear");
    c.execute_cycle().unwrap();
    assert_eq!(c.program_counter(), 0x200, "each jump lands back on the entry point");
}

#[test]
fn empty_image_boots_then_fails_to_decode() {
    let mut c = Chip8Interpreter::new();
    assert_eq!(c.load_rom(&vec![]), Ok(()));
    assert!(c.is_runnable());
    assert_eq!(c.program_counter(), 0x200, "an empty image still boots at the entry point");
    assert_eq!(
        c.execute_cycle(),
        Err(Chip8Error::UnknownOpcode(0x0000)),
        "the all-zero word matches no template, by design",
    );
    assert_eq!(c.program_counter(), 0x202, "the counter has moved past the faulting word");
}
