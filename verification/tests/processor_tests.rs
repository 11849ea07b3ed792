use chip8::chip8::Chip8;
use chip8::exceptions::Exception;
use chip8::exceptions::ExceptionType;
use chip8::instruction::decode;
use chip8::instruction::Instruction;

fn exec(c8: &mut Chip8, instr: Instruction) -> Result<(), Exception> {
    c8.processor.execute(instr, &mut c8.ram, &mut c8.display, &c8.keyboard, 0)
}

fn reg(c8: &Chip8, r: u8) -> u8 {
    c8.processor.register(r).unwrap()
}

#[test]
fn decode_covers_the_table() {
    assert_eq!(decode(0x00E0), Some(Instruction::Cls));
    assert_eq!(decode(0x00EE), Some(Instruction::Ret));
    assert_eq!(decode(0x0321), Some(Instruction::Sys(0x321)));
    assert_eq!(decode(0x1234), Some(Instruction::Jump(0x234)));
    assert_eq!(decode(0x2ABC), Some(Instruction::Call(0xABC)));
    assert_eq!(decode(0x3A7F), Some(Instruction::SkipEqImm(0xA, 0x7F)));
    assert_eq!(decode(0x4A7F), Some(Instruction::SkipNeImm(0xA, 0x7F)));
    assert_eq!(decode(0x5AB0), Some(Instruction::SkipEqReg(0xA, 0xB)));
    assert_eq!(decode(0x6A7F), Some(Instruction::LoadImm(0xA, 0x7F)));
    assert_eq!(decode(0x7A7F), Some(Instruction::AddImm(0xA, 0x7F)));
    assert_eq!(decode(0x8AB0), Some(Instruction::Copy(0xA, 0xB)));
    assert_eq!(decode(0x8AB1), Some(Instruction::Or(0xA, 0xB)));
    assert_eq!(decode(0x8AB2), Some(Instruction::And(0xA, 0xB)));
    assert_eq!(decode(0x8AB3), Some(Instruction::Xor(0xA, 0xB)));
    assert_eq!(decode(0x8AB4), Some(Instruction::AddCarry(0xA, 0xB)));
    assert_eq!(decode(0x8AB5), Some(Instruction::Sub(0xA, 0xB)));
    assert_eq!(decode(0x8AB6), Some(Instruction::ShiftRight(0xA, 0xB)));
    assert_eq!(decode(0x8AB7), Some(Instruction::SubNeg(0xA, 0xB)));
    assert_eq!(decode(0x8ABE), Some(Instruction::ShiftLeft(0xA, 0xB)));
    assert_eq!(decode(0x9AB0), Some(Instruction::SkipNeReg(0xA, 0xB)));
    assert_eq!(decode(0xA123), Some(Instruction::LoadIndex(0x123)));
    assert_eq!(decode(0xB123), Some(Instruction::JumpOffset(0x123)));
    assert_eq!(decode(0xCA55), Some(Instruction::Random(0xA, 0x55)));
    assert_eq!(decode(0xDAB7), Some(Instruction::Draw(0xA, 0xB, 7)));
    assert_eq!(decode(0xEA9E), Some(Instruction::SkipKeyDown(0xA)));
    assert_eq!(decode(0xEAA1), Some(Instruction::SkipKeyUp(0xA)));
    assert_eq!(decode(0xFA07), Some(Instruction::LoadDelay(0xA)));
    assert_eq!(decode(0xFA0A), Some(Instruction::WaitKey(0xA)));
    assert_eq!(decode(0xFA15), Some(Instruction::SetDelay(0xA)));
    assert_eq!(decode(0xFA18), Some(Instruction::SetSound(0xA)));
    assert_eq!(decode(0xFA1E), Some(Instruction::AddIndex(0xA)));
    assert_eq!(decode(0xFA29), Some(Instruction::LoadFont(0xA)));
    assert_eq!(decode(0xFA33), Some(Instruction::StoreBcd(0xA)));
    assert_eq!(decode(0xFA55), Some(Instruction::StoreRegs(0xA)));
    assert_eq!(decode(0xFA65), Some(Instruction::LoadRegs(0xA)));
    assert_eq!(decode(0x8AB8), None);
    assert_eq!(decode(0xE000), None);
    assert_eq!(decode(0xFFFF), None);
}

#[test]
fn add_with_carry_wraps_and_sets_flag() {
    let mut c8 = Chip8::new();
    exec(&mut c8, Instruction::LoadImm(0, 0xFF)).unwrap();
    exec(&mut c8, Instruction::LoadImm(1, 0x01)).unwrap();
    exec(&mut c8, Instruction::AddCarry(0, 1)).unwrap();
    assert_eq!(reg(&c8, 0), 0x00);
    assert_eq!(reg(&c8, 15), 1);
}

#[test]
fn add_without_carry_clears_flag() {
    let mut c8 = Chip8::new();
    exec(&mut c8, Instruction::LoadImm(0, 0x01)).unwrap();
    exec(&mut c8, Instruction::LoadImm(1, 0x01)).unwrap();
    exec(&mut c8, Instruction::AddCarry(0, 1)).unwrap();
    assert_eq!(reg(&c8, 0), 0x02);
    assert_eq!(reg(&c8, 15), 0);
}

#[test]
fn subtract_without_borrow_sets_flag() {
    let mut c8 = Chip8::new();
    exec(&mut c8, Instruction::LoadImm(0, 5)).unwrap();
    exec(&mut c8, Instruction::LoadImm(1, 3)).unwrap();
    exec(&mut c8, Instruction::Sub(0, 1)).unwrap();
    assert_eq!(reg(&c8, 0), 2);
    assert_eq!(reg(&c8, 15), 1);
}

#[test]
fn subtract_with_borrow_wraps_and_clears_flag() {
    let mut c8 = Chip8::new();
    exec(&mut c8, Instruction::LoadImm(0, 3)).unwrap();
    exec(&mut c8, Instruction::LoadImm(1, 5)).unwrap();
    exec(&mut c8, Instruction::Sub(0, 1)).unwrap();
    assert_eq!(reg(&c8, 0), 254);
    assert_eq!(reg(&c8, 15), 0);
}

#[test]
fn subtract_reversed_follows_same_borrow_rule() {
    let mut c8 = Chip8::new();
    exec(&mut c8, Instruction::LoadImm(0, 3)).unwrap();
    exec(&mut c8, Instruction::LoadImm(1, 5)).unwrap();
    exec(&mut c8, Instruction::SubNeg(0, 1)).unwrap();
    assert_eq!(reg(&c8, 0), 2);
    assert_eq!(reg(&c8, 15), 1);
    exec(&mut c8, Instruction::LoadImm(2, 9)).unwrap();
    exec(&mut c8, Instruction::LoadImm(3, 4)).unwrap();
    exec(&mut c8, Instruction::SubNeg(2, 3)).unwrap();
    assert_eq!(reg(&c8, 2), 251);
    assert_eq!(reg(&c8, 15), 0);
}

#[test]
fn add_immediate_wraps_without_touching_flags() {
    let mut c8 = Chip8::new();
    exec(&mut c8, Instruction::LoadImm(0, 0xF0)).unwrap();
    exec(&mut c8, Instruction::AddImm(0, 0x20)).unwrap();
    assert_eq!(reg(&c8, 0), 0x10);
    assert_eq!(reg(&c8, 15), 0);
}

#[test]
fn bitwise_operations_reset_the_flags_register() {
    let mut c8 = Chip8::new();
    // leave a carry behind first, so the reset is observable
    exec(&mut c8, Instruction::LoadImm(0, 0xFF)).unwrap();
    exec(&mut c8, Instruction::LoadImm(1, 0xFF)).unwrap();
    exec(&mut c8, Instruction::AddCarry(0, 1)).unwrap();
    assert_eq!(reg(&c8, 15), 1);
    exec(&mut c8, Instruction::LoadImm(0, 0b1100)).unwrap();
    exec(&mut c8, Instruction::LoadImm(1, 0b1010)).unwrap();
    exec(&mut c8, Instruction::Or(0, 1)).unwrap();
    assert_eq!(reg(&c8, 0), 0b1110);
    assert_eq!(reg(&c8, 15), 0);
    exec(&mut c8, Instruction::AddCarry(2, 2)).unwrap();
    exec(&mut c8, Instruction::LoadImm(0, 0b1100)).unwrap();
    exec(&mut c8, Instruction::And(0, 1)).unwrap();
    assert_eq!(reg(&c8, 0), 0b1000);
    assert_eq!(reg(&c8, 15), 0);
    exec(&mut c8, Instruction::LoadImm(0, 0b1100)).unwrap();
    exec(&mut c8, Instruction::Xor(0, 1)).unwrap();
    assert_eq!(reg(&c8, 0), 0b0110);
    assert_eq!(reg(&c8, 15), 0);
}

#[test]
fn shifts_capture_the_shifted_out_bit() {
    let mut c8 = Chip8::new();
    exec(&mut c8, Instruction::LoadImm(0, 5)).unwrap();
    exec(&mut c8, Instruction::ShiftRight(0, 1)).unwrap();
    assert_eq!(reg(&c8, 0), 2);
    assert_eq!(reg(&c8, 15), 1);
    exec(&mut c8, Instruction::LoadImm(0, 0x81)).unwrap();
    exec(&mut c8, Instruction::ShiftLeft(0, 1)).unwrap();
    assert_eq!(reg(&c8, 0), 2);
    assert_eq!(reg(&c8, 15), 1);
    exec(&mut c8, Instruction::LoadImm(0, 4)).unwrap();
    exec(&mut c8, Instruction::ShiftRight(0, 1)).unwrap();
    assert_eq!(reg(&c8, 0), 2);
    assert_eq!(reg(&c8, 15), 0);
}

#[test]
fn copy_and_load_move_values() {
    let mut c8 = Chip8::new();
    exec(&mut c8, Instruction::LoadImm(3, 0x42)).unwrap();
    exec(&mut c8, Instruction::Copy(7, 3)).unwrap();
    assert_eq!(reg(&c8, 7), 0x42);
}

#[test]
fn random_and_masks_with_the_immediate() {
    let mut c8 = Chip8::new();
    c8.processor
        .execute(
            Instruction::Random(0, 0x0F),
            &mut c8.ram,
            &mut c8.display,
            &c8.keyboard,
            0xAB,
        )
        .unwrap();
    assert_eq!(reg(&c8, 0), 0x0B);
    assert_eq!(reg(&c8, 0) & !0x0F, 0);
}

#[test]
fn register_operand_out_of_range_is_a_fault() {
    let mut c8 = Chip8::new();
    let e = exec(&mut c8, Instruction::LoadImm(16, 1)).unwrap_err();
    assert_eq!(e.exception_type, ExceptionType::BadArgument);
    let e = exec(&mut c8, Instruction::AddCarry(0, 16)).unwrap_err();
    assert_eq!(e.exception_type, ExceptionType::BadArgument);
}

#[test]
fn seventeen_nested_calls_overflow_the_stack() {
    let mut c8 = Chip8::new();
    for depth in 1..=16u16 {
        exec(&mut c8, Instruction::Call(0x300)).unwrap();
        assert_eq!(c8.processor.stack_pointer(), depth);
    }
    let e = exec(&mut c8, Instruction::Call(0x300)).unwrap_err();
    assert_eq!(e.exception_type, ExceptionType::StackPointerOutOfRange);
    assert_eq!(c8.processor.stack_pointer(), 16);
}

#[test]
fn return_with_empty_stack_is_a_fault() {
    let mut c8 = Chip8::new();
    let e = exec(&mut c8, Instruction::Ret).unwrap_err();
    assert_eq!(e.exception_type, ExceptionType::StackPointerOutOfRange);
}

#[test]
fn call_then_return_resumes_after_the_call_site() {
    let mut c8 = Chip8::new();
    // the counter sits at 514, as if a call at 512 had just been fetched
    exec(&mut c8, Instruction::Jump(514)).unwrap();
    exec(&mut c8, Instruction::Call(0x30A)).unwrap();
    assert_eq!(c8.processor.program_counter(), 0x30A);
    assert_eq!(c8.processor.stack_pointer(), 1);
    exec(&mut c8, Instruction::Ret).unwrap();
    assert_eq!(c8.processor.program_counter(), 514);
    assert_eq!(c8.processor.stack_pointer(), 0);
}

#[test]
fn sys_jump_stays_inside_the_program_area() {
    let mut c8 = Chip8::new();
    exec(&mut c8, Instruction::Sys(0x300)).unwrap();
    assert_eq!(c8.processor.program_counter(), 0x300);
    let e = exec(&mut c8, Instruction::Sys(100)).unwrap_err();
    assert_eq!(e.exception_type, ExceptionType::AddressOutOfRange);
}

#[test]
fn jump_with_offset_adds_register_zero() {
    let mut c8 = Chip8::new();
    exec(&mut c8, Instruction::LoadImm(0, 0x10)).unwrap();
    exec(&mut c8, Instruction::JumpOffset(0x300)).unwrap();
    assert_eq!(c8.processor.program_counter(), 0x310);
}

#[test]
fn skips_advance_by_two_only_when_their_condition_holds() {
    let mut c8 = Chip8::new();
    let base = c8.processor.program_counter();
    exec(&mut c8, Instruction::LoadImm(0, 7)).unwrap();
    exec(&mut c8, Instruction::SkipEqImm(0, 7)).unwrap();
    assert_eq!(c8.processor.program_counter(), base + 2);
    exec(&mut c8, Instruction::SkipEqImm(0, 8)).unwrap();
    assert_eq!(c8.processor.program_counter(), base + 2);
    exec(&mut c8, Instruction::SkipNeImm(0, 8)).unwrap();
    assert_eq!(c8.processor.program_counter(), base + 4);
    exec(&mut c8, Instruction::LoadImm(1, 7)).unwrap();
    exec(&mut c8, Instruction::SkipEqReg(0, 1)).unwrap();
    assert_eq!(c8.processor.program_counter(), base + 6);
    exec(&mut c8, Instruction::SkipNeReg(0, 1)).unwrap();
    assert_eq!(c8.processor.program_counter(), base + 6);
}

#[test]
fn key_skips_consult_the_keypad() {
    let mut c8 = Chip8::new();
    let base = c8.processor.program_counter();
    exec(&mut c8, Instruction::LoadImm(0, 4)).unwrap();
    c8.set_key(4, true).unwrap();
    exec(&mut c8, Instruction::SkipKeyDown(0)).unwrap();
    assert_eq!(c8.processor.program_counter(), base + 2);
    exec(&mut c8, Instruction::SkipKeyUp(0)).unwrap();
    assert_eq!(c8.processor.program_counter(), base + 2);
    c8.set_key(4, false).unwrap();
    exec(&mut c8, Instruction::SkipKeyUp(0)).unwrap();
    assert_eq!(c8.processor.program_counter(), base + 4);
}

#[test]
fn timers_load_store_and_tick() {
    let mut c8 = Chip8::new();
    exec(&mut c8, Instruction::LoadImm(0, 2)).unwrap();
    exec(&mut c8, Instruction::SetDelay(0)).unwrap();
    exec(&mut c8, Instruction::SetSound(0)).unwrap();
    assert_eq!(c8.processor.delay_timer(), 2);
    assert_eq!(c8.processor.sound_timer(), 2);
    assert!(c8.tick_timers());
    assert_eq!(c8.processor.delay_timer(), 1);
    assert!(c8.tick_timers());
    assert_eq!(c8.processor.sound_timer(), 0);
    assert!(!c8.tick_timers());
    assert_eq!(c8.processor.delay_timer(), 0);
    exec(&mut c8, Instruction::LoadDelay(5)).unwrap();
    assert_eq!(reg(&c8, 5), 0);
}

#[test]
fn index_register_loads_adds_and_wraps() {
    let mut c8 = Chip8::new();
    exec(&mut c8, Instruction::LoadIndex(0xFFF)).unwrap();
    assert_eq!(c8.processor.index(), 0xFFF);
    exec(&mut c8, Instruction::LoadImm(0, 7)).unwrap();
    exec(&mut c8, Instruction::AddIndex(0)).unwrap();
    assert_eq!(c8.processor.index(), 0x1006);
}

#[test]
fn font_glyph_addresses_step_by_five() {
    let mut c8 = Chip8::new();
    exec(&mut c8, Instruction::LoadFont(0)).unwrap();
    assert_eq!(c8.processor.index(), 431);
    exec(&mut c8, Instruction::LoadFont(3)).unwrap();
    assert_eq!(c8.processor.index(), 446);
    // the glyph bytes themselves were preloaded at construction
    assert_eq!(c8.ram.read(431).unwrap(), 0xF0);
    assert_eq!(c8.ram.read(510).unwrap(), 0x80);
    assert_eq!(c8.ram.read(511).unwrap(), 0x00);
    assert_eq!(c8.ram.read(430).unwrap(), 0x00);
}

#[test]
fn bcd_store_decomposes_into_digits() {
    let mut c8 = Chip8::new();
    exec(&mut c8, Instruction::LoadImm(0, 254)).unwrap();
    exec(&mut c8, Instruction::LoadIndex(0x300)).unwrap();
    exec(&mut c8, Instruction::StoreBcd(0)).unwrap();
    assert_eq!(c8.ram.read(0x300).unwrap(), 2);
    assert_eq!(c8.ram.read(0x301).unwrap(), 5);
    assert_eq!(c8.ram.read(0x302).unwrap(), 4);
    exec(&mut c8, Instruction::LoadIndex(4094)).unwrap();
    let e = exec(&mut c8, Instruction::StoreBcd(0)).unwrap_err();
    assert_eq!(e.exception_type, ExceptionType::AddressOutOfRange);
}

#[test]
fn register_block_store_and_load_round_trip() {
    let mut c8 = Chip8::new();
    for r in 0..4u8 {
        exec(&mut c8, Instruction::LoadImm(r, 10 + r)).unwrap();
    }
    exec(&mut c8, Instruction::LoadIndex(0x320)).unwrap();
    exec(&mut c8, Instruction::StoreRegs(3)).unwrap();
    for r in 0..4u16 {
        assert_eq!(c8.ram.read(0x320 + r).unwrap(), 10 + r as u8);
    }
    // memory past the block is untouched
    assert_eq!(c8.ram.read(0x324).unwrap(), 0);
    for r in 0..4u8 {
        exec(&mut c8, Instruction::LoadImm(r, 0)).unwrap();
    }
    exec(&mut c8, Instruction::LoadRegs(3)).unwrap();
    for r in 0..4u8 {
        assert_eq!(reg(&c8, r), 10 + r);
    }
    exec(&mut c8, Instruction::LoadIndex(4093)).unwrap();
    let e = exec(&mut c8, Instruction::StoreRegs(3)).unwrap_err();
    assert_eq!(e.exception_type, ExceptionType::AddressOutOfRange);
    let e = exec(&mut c8, Instruction::LoadRegs(3)).unwrap_err();
    assert_eq!(e.exception_type, ExceptionType::AddressOutOfRange);
}

#[test]
fn draw_instruction_reads_the_sprite_at_the_index_register() {
    let mut c8 = Chip8::new();
    c8.ram.write(0x340, 0xFF).unwrap();
    exec(&mut c8, Instruction::LoadIndex(0x340)).unwrap();
    exec(&mut c8, Instruction::LoadImm(0, 1)).unwrap();
    exec(&mut c8, Instruction::LoadImm(1, 2)).unwrap();
    exec(&mut c8, Instruction::Draw(0, 1, 1)).unwrap();
    assert_eq!(reg(&c8, 15), 0);
    assert_eq!(c8.display.pixel(1, 2), Some(true));
    assert_eq!(c8.display.pixel(8, 2), Some(true));
    assert_eq!(c8.display.pixel(9, 2), Some(false));
    exec(&mut c8, Instruction::Draw(0, 1, 1)).unwrap();
    assert_eq!(reg(&c8, 15), 1);
    assert_eq!(c8.display.pixel(1, 2), Some(false));
    exec(&mut c8, Instruction::LoadIndex(4090)).unwrap();
    let e = exec(&mut c8, Instruction::Draw(0, 1, 7)).unwrap_err();
    assert_eq!(e.exception_type, ExceptionType::AddressOutOfRange);
}
