use chip8::decode::{decode, Op};
use chip8::interp::{Chip8Error, Chip8Interpreter};

#[test]
fn decode_finds_each_template() {
    assert_eq!(decode(0x00E0), Some(Op::ClearDisplay));
    assert_eq!(decode(0x00EE), Some(Op::Return));
    assert_eq!(decode(0x1234), Some(Op::Jump));
    assert_eq!(decode(0x2ABC), Some(Op::Call));
    assert_eq!(decode(0x3A55), Some(Op::SkipEqImm));
    assert_eq!(decode(0x4A55), Some(Op::SkipNeImm));
    assert_eq!(decode(0x5AB0), Some(Op::SkipEqReg));
    assert_eq!(decode(0x6A55), Some(Op::LoadImm));
    assert_eq!(decode(0x7A55), Some(Op::AddImm));
    assert_eq!(decode(0x8AB0), Some(Op::Move));
    assert_eq!(decode(0x8AB1), Some(Op::Or));
    assert_eq!(decode(0x8AB2), Some(Op::And));
    assert_eq!(decode(0x8AB3), Some(Op::Xor));
    assert_eq!(decode(0x8AB4), Some(Op::AddReg));
    assert_eq!(decode(0x8AB5), Some(Op::SubReg));
    assert_eq!(decode(0x8AB6), Some(Op::ShiftRight));
    assert_eq!(decode(0x8AB7), Some(Op::SubFrom));
    assert_eq!(decode(0x8ABE), Some(Op::ShiftLeft));
    assert_eq!(decode(0x9AB0), Some(Op::SkipNeReg));
    assert_eq!(decode(0xA123), Some(Op::LoadAddress));
    assert_eq!(decode(0xB123), Some(Op::JumpPlus));
    assert_eq!(decode(0xCA55), Some(Op::Random));
    assert_eq!(decode(0xDAB5), Some(Op::Draw));
    assert_eq!(decode(0xEA9E), Some(Op::SkipKeyPressed));
    assert_eq!(decode(0xEAA1), Some(Op::SkipKeyNotPressed));
    assert_eq!(decode(0xFA07), Some(Op::ReadDelay));
    assert_eq!(decode(0xFA0A), Some(Op::WaitKey));
    assert_eq!(decode(0xFA15), Some(Op::SetDelay));
    assert_eq!(decode(0xFA18), Some(Op::SetSound));
    assert_eq!(decode(0xFA1E), Some(Op::AddAddress));
    assert_eq!(decode(0xFA29), Some(Op::FontAddress));
    assert_eq!(decode(0xFA33), Some(Op::StoreBcd));
    assert_eq!(decode(0xFA55), Some(Op::StoreRegisters));
    assert_eq!(decode(0xFA65), Some(Op::LoadRegisters));
}

#[test]
fn decode_rejects_non_instructions() {
    assert_eq!(decode(0x0000), None);
    assert_eq!(decode(0x5AB1), None);
    assert_eq!(decode(0x8AB8), None);
    assert_eq!(decode(0xE000), None);
    assert_eq!(decode(0xFAFF), None);
}

#[test]
fn load_immediate_and_move() {
    let mut c = Chip8Interpreter::new();
    c.handle_opcode(0x60AB).unwrap();
    assert_eq!(c.register(0), 0xAB);
    c.handle_opcode(0x8100).unwrap();
    assert_eq!(c.register(1), 0xAB);
}

#[test]
fn add_immediate_wraps_without_carry() {
    let mut c = Chip8Interpreter::new();
    c.handle_opcode(0x60F0).unwrap();
    c.handle_opcode(0x7020).unwrap();
    assert_eq!(c.register(0), 0x10);
    assert_eq!(c.register(15), 0, "add-immediate must not touch the flag");
}

#[test]
fn bitwise_or_and_xor() {
    let mut c = Chip8Interpreter::new();
    c.handle_opcode(0x60F0).unwrap();
    c.handle_opcode(0x610F).unwrap();
    c.handle_opcode(0x8011).unwrap();
    assert_eq!(c.register(0), 0xFF);
    c.handle_opcode(0x60CC).unwrap();
    c.handle_opcode(0x61AA).unwrap();
    c.handle_opcode(0x8012).unwrap();
    assert_eq!(c.register(0), 0x88);
    c.handle_opcode(0x60CC).unwrap();
    c.handle_opcode(0x8013).unwrap();
    assert_eq!(c.register(0), 0x66);
}

#[test]
fn add_registers_carry_set_and_clear() {
    let mut c = Chip8Interpreter::new();
    c.handle_opcode(0x60FF).unwrap();
    c.handle_opcode(0x6101).unwrap();
    c.handle_opcode(0x8014).unwrap();
    assert_eq!(c.register(0), 0x00);
    assert_eq!(c.register(15), 1);
    c.handle_opcode(0x6010).unwrap();
    c.handle_opcode(0x6120).unwrap();
    c.handle_opcode(0x8014).unwrap();
    assert_eq!(c.register(0), 0x30);
    assert_eq!(c.register(15), 0);
}

#[test]
fn subtract_larger_from_smaller_wraps_with_borrow() {
    let mut c = Chip8Interpreter::new();
    c.handle_opcode(0x6005).unwrap();
    c.handle_opcode(0x610A).unwrap();
    c.handle_opcode(0x8015).unwrap();
    assert_eq!(c.register(15), 0, "borrow leaves the no-borrow flag clear");
    assert_eq!(c.register(0), 251);
}

#[test]
fn subtract_smaller_from_larger_sets_flag() {
    let mut c = Chip8Interpreter::new();
    c.handle_opcode(0x600A).unwrap();
    c.handle_opcode(0x6105).unwrap();
    c.handle_opcode(0x8015).unwrap();
    assert_eq!(c.register(15), 1);
    assert_eq!(c.register(0), 5);
}

#[test]
fn subtract_reversed_operands() {
    let mut c = Chip8Interpreter::new();
    c.handle_opcode(0x600A).unwrap();
    c.handle_opcode(0x6102).unwrap();
    c.handle_opcode(0x8017).unwrap();
    assert_eq!(c.register(0), 248);
    assert_eq!(c.register(15), 0);
    c.handle_opcode(0x6002).unwrap();
    c.handle_opcode(0x610A).unwrap();
    c.handle_opcode(0x8017).unwrap();
    assert_eq!(c.register(0), 8);
    assert_eq!(c.register(15), 1);
}

#[test]
fn shifts_move_edge_bits_into_flag() {
    let mut c = Chip8Interpreter::new();
    c.handle_opcode(0x6005).unwrap();
    c.handle_opcode(0x8006).unwrap();
    assert_eq!(c.register(0), 2);
    assert_eq!(c.register(15), 1);
    c.handle_opcode(0x6081).unwrap();
    c.handle_opcode(0x800E).unwrap();
    assert_eq!(c.register(0), 2);
    assert_eq!(c.register(15), 1);
    c.handle_opcode(0x6040).unwrap();
    c.handle_opcode(0x800E).unwrap();
    assert_eq!(c.register(0), 0x80);
    assert_eq!(c.register(15), 0);
}

#[test]
fn conditional_skips_move_the_program_counter() {
    let mut c = Chip8Interpreter::new();
    let base = c.program_counter();
    c.handle_opcode(0x6042).unwrap();
    c.handle_opcode(0x3042).unwrap();
    assert_eq!(c.program_counter(), base + 2);
    c.handle_opcode(0x3043).unwrap();
    assert_eq!(c.program_counter(), base + 2);
    c.handle_opcode(0x4043).unwrap();
    assert_eq!(c.program_counter(), base + 4);
    c.handle_opcode(0x6142).unwrap();
    c.handle_opcode(0x5010).unwrap();
    assert_eq!(c.program_counter(), base + 6);
    c.handle_opcode(0x9010).unwrap();
    assert_eq!(c.program_counter(), base + 6);
    c.handle_opcode(0x6199).unwrap();
    c.handle_opcode(0x9010).unwrap();
    assert_eq!(c.program_counter(), base + 8);
}

#[test]
fn jump_and_jump_plus_register() {
    let mut c = Chip8Interpreter::new();
    c.handle_opcode(0x1ABC).unwrap();
    assert_eq!(c.program_counter(), 0xABC);
    c.handle_opcode(0x6004).unwrap();
    c.handle_opcode(0xB210).unwrap();
    assert_eq!(c.program_counter(), 0x214);
}

#[test]
fn call_pushes_and_return_pops() {
    let mut c = Chip8Interpreter::new();
    c.handle_opcode(0x2ABC).unwrap();
    assert_eq!(c.program_counter(), 0xABC);
    assert_eq!(c.stack_depth(), 1);
    c.handle_opcode(0x00EE).unwrap();
    assert_eq!(c.program_counter(), 0x200);
    assert_eq!(c.stack_depth(), 0);
}

#[test]
fn return_on_empty_stack_is_an_error() {
    let mut c = Chip8Interpreter::new();
    assert_eq!(c.handle_opcode(0x00EE), Err(Chip8Error::StackUnderflow));
    assert_eq!(c.program_counter(), 0x200);
}

#[test]
fn unknown_opcode_is_a_typed_error() {
    let mut c = Chip8Interpreter::new();
    assert_eq!(c.handle_opcode(0x0000), Err(Chip8Error::UnknownOpcode(0x0000)));
    assert_eq!(c.handle_opcode(0x5AB1), Err(Chip8Error::UnknownOpcode(0x5AB1)));
}

#[test]
fn address_register_load_add_and_font_lookup() {
    let mut c = Chip8Interpreter::new();
    c.handle_opcode(0xA123).unwrap();
    assert_eq!(c.address_register(), 0x123);
    c.handle_opcode(0x6010).unwrap();
    c.handle_opcode(0xF01E).unwrap();
    assert_eq!(c.address_register(), 0x133);
    c.handle_opcode(0x6002).unwrap();
    c.handle_opcode(0xF029).unwrap();
    assert_eq!(c.address_register(), 10);
    assert_eq!(c.memory_byte(10), 0xF0, "the glyph for digit 2 starts with a full row");
}

#[test]
fn bcd_out_of_bounds_is_an_error() {
    let mut c = Chip8Interpreter::new();
    c.handle_opcode(0xAFFF).unwrap();
    assert_eq!(c.handle_opcode(0xF033), Err(Chip8Error::OutOfBounds));
}

#[test]
fn store_and_load_register_blocks() {
    let mut c = Chip8Interpreter::new();
    c.handle_opcode(0x6011).unwrap();
    c.handle_opcode(0x6122).unwrap();
    c.handle_opcode(0x6233).unwrap();
    c.handle_opcode(0xA300).unwrap();
    c.handle_opcode(0xF255).unwrap();
    assert_eq!(c.memory_byte(0x300), 0x11);
    assert_eq!(c.memory_byte(0x301), 0x22);
    assert_eq!(c.memory_byte(0x302), 0x33);
    assert_eq!(c.address_register(), 0x303, "storing moves the address past the block");
    c.handle_opcode(0x6000).unwrap();
    c.handle_opcode(0x6100).unwrap();
    c.handle_opcode(0x6200).unwrap();
    c.handle_opcode(0xA300).unwrap();
    c.handle_opcode(0xF265).unwrap();
    assert_eq!(c.register(0), 0x11);
    assert_eq!(c.register(1), 0x22);
    assert_eq!(c.register(2), 0x33);
    assert_eq!(c.address_register(), 0x303);
}

#[test]
fn register_block_out_of_bounds_is_an_error() {
    let mut c = Chip8Interpreter::new();
    c.handle_opcode(0xAFFF).unwrap();
    assert_eq!(c.handle_opcode(0xF555), Err(Chip8Error::OutOfBounds));
    assert_eq!(c.handle_opcode(0xF565), Err(Chip8Error::OutOfBounds));
    assert_eq!(c.address_register(), 0xFFF, "a failed block transfer changes nothing");
}

#[test]
fn keyboard_skips_read_the_low_nibble() {
    let mut c = Chip8Interpreter::new();
    c.update_key(3, true);
    c.handle_opcode(0x6013).unwrap();
    let base = c.program_counter();
    c.handle_opcode(0xE09E).unwrap();
    assert_eq!(c.program_counter(), base + 2, "key 3 is down, so the skip fires");
    c.handle_opcode(0xE0A1).unwrap();
    assert_eq!(c.program_counter(), base + 2, "key 3 is down, so the not-pressed skip stays");
    c.update_key(3, false);
    c.handle_opcode(0xE0A1).unwrap();
    assert_eq!(c.program_counter(), base + 4);
}

#[test]
fn wait_key_busy_waits_then_stores_lowest_key() {
    let mut c = Chip8Interpreter::new();
    let base = c.program_counter();
    c.handle_opcode(0xF00A).unwrap();
    assert_eq!(c.program_counter(), base - 2, "no key: refetch the same instruction");
    c.update_key(7, true);
    c.update_key(3, true);
    c.handle_opcode(0xF20A).unwrap();
    assert_eq!(c.register(2), 3, "the lowest pressed key wins");
    assert_eq!(c.program_counter(), base - 2, "a stored key does not move the counter");
}

#[test]
fn timer_write_and_read_back() {
    let mut c = Chip8Interpreter::new();
    c.handle_opcode(0x6007).unwrap();
    c.handle_opcode(0xF015).unwrap();
    assert_eq!(c.delay_value(), 7);
    c.handle_opcode(0xF107).unwrap();
    assert_eq!(c.register(1), 7);
    c.handle_opcode(0xF018).unwrap();
    assert_eq!(c.sound_value(), 7);
    assert!(c.should_beep());
}

#[test]
fn random_load_respects_the_mask() {
    let mut c = Chip8Interpreter::new();
    c.handle_opcode(0x6AFF).unwrap();
    c.handle_opcode(0xCA00).unwrap();
    assert_eq!(c.register(10), 0, "a zero mask forces a zero result");
    for _ in 0..32 {
        c.handle_opcode(0xCA0F).unwrap();
        assert!(c.register(10) < 16, "a nibble mask keeps the result under 16");
    }
}
