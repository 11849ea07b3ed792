use chip8::chip8::Chip8;
use chip8::exceptions::ExceptionType;
use chip8::instruction::Instruction;

fn reg(c8: &Chip8, r: u8) -> u8 {
    c8.processor.register(r).unwrap()
}

#[test]
fn fresh_machine_starts_at_the_program_start() {
    let c8 = Chip8::new();
    assert_eq!(c8.processor.program_counter(), 512);
    assert_eq!(c8.processor.stack_pointer(), 0);
    assert_eq!(c8.processor.index(), 0);
    for r in 0..16u8 {
        assert_eq!(reg(&c8, r), 0);
    }
    assert_eq!(c8.keyboard.get(0), Some(0));
    assert_eq!(c8.keyboard.get(16), None);
}

#[test]
fn rom_bytes_land_verbatim_at_512() {
    let mut c8 = Chip8::new();
    c8.load_rom(&vec![0xDE, 0xAD, 0xBE, 0xEF]).unwrap();
    assert_eq!(c8.ram.read(512).unwrap(), 0xDE);
    assert_eq!(c8.ram.read(515).unwrap(), 0xEF);
    assert_eq!(c8.ram.read(516).unwrap(), 0x00);
}

#[test]
fn rom_larger_than_memory_is_refused_whole() {
    let mut c8 = Chip8::new();
    let big = vec![0u8; 4096 - 512 + 1];
    let e = c8.load_rom(&big).unwrap_err();
    assert_eq!(e.exception_type, ExceptionType::AddressOutOfRange);
    assert_eq!(c8.ram.read(512).unwrap(), 0);
    let exact = vec![7u8; 4096 - 512];
    c8.load_rom(&exact).unwrap();
    assert_eq!(c8.ram.read(4095).unwrap(), 7);
}

#[test]
fn load_add_scenario_leaves_the_sum_without_carry() {
    // V0 = 0x0A, V1 = 0x05, V0 += V1
    let mut c8 = Chip8::new();
    c8.load_rom(&vec![0x60, 0x0A, 0x61, 0x05, 0x80, 0x14]).unwrap();
    c8.step().unwrap();
    c8.step().unwrap();
    c8.step().unwrap();
    assert_eq!(reg(&c8, 0), 0x0F);
    assert_eq!(reg(&c8, 1), 0x05);
    assert_eq!(reg(&c8, 15), 0);
    assert_eq!(c8.processor.program_counter(), 518);
}

#[test]
fn clear_then_jump_loop_presents_nothing_further() {
    // 00E0 clear, then 1200: jump back to the start of the program
    let mut c8 = Chip8::new();
    c8.load_rom(&vec![0x00, 0xE0, 0x12, 0x00]).unwrap();
    // put something on the screen first, so the first clear has work to do
    c8.ram.write(0x340, 0x80).unwrap();
    c8.processor
        .execute(
            Instruction::LoadIndex(0x340),
            &mut c8.ram,
            &mut c8.display,
            &c8.keyboard,
            0,
        )
        .unwrap();
    c8.processor
        .execute(
            Instruction::Draw(1, 1, 1),
            &mut c8.ram,
            &mut c8.display,
            &c8.keyboard,
            0,
        )
        .unwrap();
    assert!(c8.update());
    let mut presentations = 0;
    for _ in 0..20 {
        c8.step().unwrap();
        if c8.update() {
            presentations += 1;
        }
    }
    // the first clear wipes the drawn pixel and presents once; the loop
    // keeps clearing an already-blank screen, which changes nothing
    assert_eq!(presentations, 1);
    assert_eq!(c8.display.pixel(0, 0), Some(false));
}

#[test]
fn call_and_return_resume_after_the_call_site() {
    // 512: call 522; 514: loop; 522: return
    let mut c8 = Chip8::new();
    c8.load_rom(&vec![
        0x22, 0x0A, 0x12, 0x02, 0x00, 0x00, 0x00, 0x00, 0x00, 0x00, 0x00, 0xEE,
    ])
    .unwrap();
    c8.step().unwrap();
    assert_eq!(c8.processor.program_counter(), 522);
    assert_eq!(c8.processor.stack_pointer(), 1);
    c8.step().unwrap();
    assert_eq!(c8.processor.program_counter(), 514);
    assert_eq!(c8.processor.stack_pointer(), 0);
}

#[test]
fn wait_for_key_suspends_the_cycle_until_a_key_goes_down() {
    let mut c8 = Chip8::new();
    c8.load_rom(&vec![0xF0, 0x0A]).unwrap();
    for _ in 0..3 {
        c8.step().unwrap();
        assert_eq!(c8.processor.program_counter(), 512);
    }
    c8.set_key(7, true).unwrap();
    c8.step().unwrap();
    assert_eq!(c8.processor.program_counter(), 514);
    assert_eq!(reg(&c8, 0), 7);
}

#[test]
fn wait_for_key_resolves_to_the_lowest_pressed_key() {
    let mut c8 = Chip8::new();
    c8.load_rom(&vec![0xF0, 0x0A]).unwrap();
    c8.set_key(9, true).unwrap();
    c8.set_key(2, true).unwrap();
    c8.step().unwrap();
    assert_eq!(reg(&c8, 0), 2);
}

#[test]
fn random_and_keeps_only_masked_bits() {
    let mut c8 = Chip8::new();
    c8.load_rom(&vec![0xC0, 0x0F, 0x12, 0x00]).unwrap();
    for _ in 0..8 {
        c8.step().unwrap();
        assert_eq!(reg(&c8, 0) & !0x0F, 0);
        c8.step().unwrap();
    }
}

#[test]
fn unknown_opcode_is_a_bad_instruction_fault() {
    let mut c8 = Chip8::new();
    c8.load_rom(&vec![0xFF, 0xFF]).unwrap();
    let e = c8.step().unwrap_err();
    assert_eq!(e.exception_type, ExceptionType::BadInstruction);
    assert_eq!(c8.processor.program_counter(), 514);
}

#[test]
fn running_off_the_address_space_is_a_fault() {
    let mut c8 = Chip8::new();
    c8.processor
        .execute(
            Instruction::Jump(4095),
            &mut c8.ram,
            &mut c8.display,
            &c8.keyboard,
            0,
        )
        .unwrap();
    let e = c8.step().unwrap_err();
    assert_eq!(e.exception_type, ExceptionType::AddressOutOfRange);
    assert_eq!(c8.processor.program_counter(), 4095);
}

#[test]
fn keypad_state_follows_events() {
    let mut c8 = Chip8::new();
    c8.set_key(3, true).unwrap();
    assert_eq!(c8.keyboard.get(3), Some(1));
    c8.set_key(3, false).unwrap();
    assert_eq!(c8.keyboard.get(3), Some(0));
    let e = c8.set_key(16, true).unwrap_err();
    assert_eq!(e.exception_type, ExceptionType::BadArgument);
    assert_eq!(c8.keyboard.first_pressed(), None);
    c8.set_key(11, true).unwrap();
    assert_eq!(c8.keyboard.first_pressed(), Some(11));
}
