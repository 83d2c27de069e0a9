use chip8::cpu::{
    add_carry, add_to_address, is_key_down, pressed_key, shift_left, shift_right, sub_borrow,
    Program,
};
use chip8::fault::Fault;
use chip8::isa::{Address, Instruction, Register};
use chip8::state::{BUILT_IN_SPRITES, MEMORY_SIZE, PROG_START};

const NO_KEYS: [bool; 16] = [false; 16];

fn load(bytes: &[u8]) -> Program {
    match Program::from(bytes.to_vec()) {
        Ok(program) => program,
        Err(fault) => panic!("{:?}", fault),
    }
}

fn run_one(program: &mut Program, instruction: Instruction) {
    assert!(program.pc() <= usize::MAX - 4);
    assert_eq!(program.exec(instruction, &NO_KEYS, 0), Ok(()));
}

fn set(program: &mut Program, x: usize, value: u8) {
    run_one(program, Instruction::LDI { vx: Register(x), imm: value });
}

fn lit_pixels(program: &Program) -> Vec<(usize, usize)> {
    let mut lit = Vec::new();
    for (row, pixels) in program.framebuffer().iter().enumerate() {
        for (col, pixel) in pixels.iter().enumerate() {
            if *pixel {
                lit.push((row, col));
            }
        }
    }
    lit
}

#[test]
fn load_places_glyphs_program_and_zeros() {
    let program = load(&[0xAA, 0xBB, 0xCC]);
    let mem = program.memory();
    assert_eq!(mem.len(), MEMORY_SIZE);
    for (a, byte) in BUILT_IN_SPRITES.iter().enumerate() {
        assert_eq!(mem.read(a), Some(*byte));
    }
    for a in 80..PROG_START {
        assert_eq!(mem.read(a), Some(0));
    }
    assert_eq!(mem.read(0x200), Some(0xAA));
    assert_eq!(mem.read(0x201), Some(0xBB));
    assert_eq!(mem.read(0x202), Some(0xCC));
    for a in 0x203..MEMORY_SIZE {
        assert_eq!(mem.read(a), Some(0));
    }
    assert_eq!(mem.read(MEMORY_SIZE), None);
}

#[test]
fn load_starts_with_cleared_state() {
    let program = load(&[0x12, 0x00]);
    assert_eq!(program.pc(), 0x200);
    assert_eq!(program.registers(), &[0u8; 16]);
    assert_eq!(program.address_register(), 0);
    assert_eq!(program.delay_timer(), 0);
    assert_eq!(program.sound_timer(), 0);
    assert!(program.stack().is_empty());
    assert!(lit_pixels(&program).is_empty());
}

#[test]
fn load_accepts_a_program_that_fills_memory() {
    let program = load(&vec![0x11u8; MEMORY_SIZE - PROG_START]);
    assert_eq!(program.memory().read(MEMORY_SIZE - 1), Some(0x11));
}

#[test]
fn load_rejects_a_program_that_does_not_fit() {
    let result = Program::from(vec![0u8; MEMORY_SIZE - PROG_START + 1]);
    assert_eq!(result.err(), Some(Fault::OutOfBounds { addr: PROG_START }));
}

#[test]
fn fetch_decodes_the_word_at_an_address() {
    let program = load(&[0x60, 0x05, 0x8A, 0xB9]);
    let mem = program.memory();
    assert_eq!(mem.get_instruction(0x200), Ok(Instruction::LDI { vx: Register(0), imm: 5 }));
    assert_eq!(
        mem.get_instruction(0x202),
        Err(Fault::DecodeFailure { addr: 0x202, raw: 0x8AB9 })
    );
    assert_eq!(mem.get_instruction(0x201), Ok(Instruction::SYS { addr: Address(0x58A) }));
}

#[test]
fn fetch_outside_memory_is_out_of_bounds() {
    let program = load(&[]);
    let mem = program.memory();
    assert_eq!(mem.get_instruction(0xFFE), Ok(Instruction::SYS { addr: Address(0) }));
    assert_eq!(mem.get_instruction(0xFFF), Err(Fault::OutOfBounds { addr: 0xFFF }));
    assert_eq!(mem.get_instruction(0x1000), Err(Fault::OutOfBounds { addr: 0x1000 }));
    assert_eq!(mem.get_instruction(usize::MAX), Err(Fault::OutOfBounds { addr: usize::MAX }));
}

#[test]
fn set_then_add_then_jump_to_self_parks_at_the_jump() {
    let mut program = load(&[0x60, 0x05, 0x70, 0x03, 0x12, 0x04]);
    assert_eq!(program.step(&NO_KEYS), Ok(()));
    assert_eq!(program.registers()[0], 5);
    assert_eq!(program.pc(), 0x202);
    assert_eq!(program.step(&NO_KEYS), Ok(()));
    assert_eq!(program.registers()[0], 8);
    assert_eq!(program.pc(), 0x204);
    assert_eq!(program.step(&NO_KEYS), Ok(()));
    assert_eq!(program.registers()[0], 8);
    assert_eq!(program.pc(), 0x204);
    for _ in 0..100 {
        assert_eq!(program.step(&NO_KEYS), Ok(()));
        assert_eq!(program.registers()[0], 8);
        assert_eq!(program.pc(), 0x204);
    }
}

#[test]
fn run_performs_the_given_number_of_cycles() {
    let mut program = load(&[0x60, 0x05, 0x70, 0x03, 0x12, 0x04]);
    assert_eq!(program.run(&NO_KEYS, 0), Ok(()));
    assert_eq!(program.pc(), 0x200);
    assert_eq!(program.run(&NO_KEYS, 2), Ok(()));
    assert_eq!(program.registers()[0], 8);
    assert_eq!(program.pc(), 0x204);
    assert_eq!(program.run(&NO_KEYS, 1000), Ok(()));
    assert_eq!(program.registers()[0], 8);
    assert_eq!(program.pc(), 0x204);
}

#[test]
fn run_stops_at_the_first_fault_and_keeps_the_state() {
    let mut program = load(&[0x60, 0x05, 0x8A, 0xB9, 0x61, 0x07]);
    assert_eq!(
        program.run(&NO_KEYS, 10),
        Err(Fault::DecodeFailure { addr: 0x202, raw: 0x8AB9 })
    );
    assert_eq!(program.pc(), 0x202);
    assert_eq!(program.registers()[0], 5);
    assert_eq!(program.registers()[1], 0);
    assert_eq!(
        program.step(&NO_KEYS),
        Err(Fault::DecodeFailure { addr: 0x202, raw: 0x8AB9 })
    );
}

#[test]
fn step_past_the_end_of_memory_is_out_of_bounds() {
    let mut program = load(&[0x1F, 0xFF]);
    assert_eq!(program.step(&NO_KEYS), Ok(()));
    assert_eq!(program.pc(), 0xFFF);
    assert_eq!(program.step(&NO_KEYS), Err(Fault::OutOfBounds { addr: 0xFFF }));
    assert_eq!(program.pc(), 0xFFF);
}

#[test]
fn return_with_empty_stack_is_stack_underflow() {
    let mut program = load(&[0x00, 0xEE]);
    assert_eq!(program.step(&NO_KEYS), Err(Fault::StackUnderflow));
    assert_eq!(program.pc(), 0x200);
    assert!(program.stack().is_empty());
}

#[test]
fn call_pushes_the_program_counter_and_return_pops_it() {
    let mut program = load(&[0x24, 0x00]);
    run_one(&mut program, Instruction::CALL { addr: Address(0x400) });
    assert_eq!(program.stack(), &vec![0x200usize]);
    assert_eq!(program.pc(), 0x400);
    run_one(&mut program, Instruction::RET);
    assert!(program.stack().is_empty());
    assert_eq!(program.pc(), 0x200);
}

#[test]
fn call_then_return_by_steps() {
    let mut bytes = vec![0u8; 0x202];
    bytes[0] = 0x24;
    bytes[1] = 0x00;
    bytes[0x200] = 0x00;
    bytes[0x201] = 0xEE;
    let mut program = load(&bytes);
    assert_eq!(program.step(&NO_KEYS), Ok(()));
    assert_eq!(program.stack(), &vec![0x200usize]);
    assert_eq!(program.pc(), 0x400);
    assert_eq!(program.step(&NO_KEYS), Ok(()));
    assert!(program.stack().is_empty());
    assert_eq!(program.pc(), 0x200);
}

#[test]
fn nested_calls_return_in_reverse_order() {
    let mut program = load(&[]);
    run_one(&mut program, Instruction::CALL { addr: Address(0x300) });
    run_one(&mut program, Instruction::CALL { addr: Address(0x500) });
    assert_eq!(program.stack(), &vec![0x200usize, 0x300]);
    run_one(&mut program, Instruction::RET);
    assert_eq!(program.pc(), 0x300);
    run_one(&mut program, Instruction::RET);
    assert_eq!(program.pc(), 0x200);
    assert_eq!(program.exec(Instruction::RET, &NO_KEYS, 0), Err(Fault::StackUnderflow));
    assert_eq!(program.pc(), 0x200);
}

#[test]
fn jump_sets_the_program_counter_without_advance() {
    let mut program = load(&[]);
    run_one(&mut program, Instruction::JP { addr: Address(0x345) });
    assert_eq!(program.pc(), 0x345);
}

#[test]
fn jump_with_offset_adds_v0() {
    let mut program = load(&[]);
    set(&mut program, 0, 0x10);
    run_one(&mut program, Instruction::JPO { addr: Address(0x300) });
    assert_eq!(program.pc(), 0x310);
    set(&mut program, 0, 0xFF);
    run_one(&mut program, Instruction::JPO { addr: Address(0xFFF) });
    assert_eq!(program.pc(), 0x10FE);
}

#[test]
fn sys_sets_the_program_counter_and_advances() {
    let mut program = load(&[]);
    run_one(&mut program, Instruction::SYS { addr: Address(0x300) });
    assert_eq!(program.pc(), 0x302);
}

#[test]
fn skip_equal_advances_by_four_when_equal_and_two_otherwise() {
    let mut program = load(&[]);
    set(&mut program, 1, 7);
    set(&mut program, 2, 7);
    set(&mut program, 3, 8);
    let pc = program.pc();
    run_one(&mut program, Instruction::SE { vx: Register(1), vy: Register(2) });
    assert_eq!(program.pc(), pc + 4);
    let pc = program.pc();
    run_one(&mut program, Instruction::SE { vx: Register(1), vy: Register(3) });
    assert_eq!(program.pc(), pc + 2);
    let pc = program.pc();
    run_one(&mut program, Instruction::SE { vx: Register(5), vy: Register(5) });
    assert_eq!(program.pc(), pc + 4);
}

#[test]
fn skip_forms_by_steps_from_memory() {
    // V1 = 7; skip-equal-immediate V1, 7 skips the word at 0x204.
    let mut program = load(&[0x61, 0x07, 0x31, 0x07, 0x8A, 0xB9, 0x41, 0x07, 0x91, 0x00]);
    assert_eq!(program.run(&NO_KEYS, 2), Ok(()));
    assert_eq!(program.pc(), 0x206);
    // skip-not-equal-immediate V1, 7 does not skip.
    assert_eq!(program.step(&NO_KEYS), Ok(()));
    assert_eq!(program.pc(), 0x208);
    // skip-not-equal V1, V0 skips: 7 != 0.
    assert_eq!(program.step(&NO_KEYS), Ok(()));
    assert_eq!(program.pc(), 0x20C);
}

#[test]
fn immediate_skips_compare_with_the_operand() {
    let mut program = load(&[]);
    set(&mut program, 4, 0x42);
    let pc = program.pc();
    run_one(&mut program, Instruction::SEI { vx: Register(4), imm: 0x42 });
    assert_eq!(program.pc(), pc + 4);
    run_one(&mut program, Instruction::SEI { vx: Register(4), imm: 0x43 });
    assert_eq!(program.pc(), pc + 6);
    run_one(&mut program, Instruction::SNEI { vx: Register(4), imm: 0x43 });
    assert_eq!(program.pc(), pc + 10);
    run_one(&mut program, Instruction::SNEI { vx: Register(4), imm: 0x42 });
    assert_eq!(program.pc(), pc + 12);
    run_one(&mut program, Instruction::SNE { vx: Register(4), vy: Register(4) });
    assert_eq!(program.pc(), pc + 14);
    run_one(&mut program, Instruction::SNE { vx: Register(4), vy: Register(5) });
    assert_eq!(program.pc(), pc + 18);
}

#[test]
fn add_sets_flag_on_overflow_and_wraps() {
    let mut program = load(&[]);
    set(&mut program, 1, 250);
    set(&mut program, 2, 10);
    run_one(&mut program, Instruction::ADD { vx: Register(1), vy: Register(2) });
    assert_eq!(program.registers()[1], 4);
    assert_eq!(program.registers()[0xF], 1);
    assert_eq!(program.registers()[2], 10);
}

#[test]
fn add_clears_flag_without_overflow() {
    let mut program = load(&[]);
    set(&mut program, 0xF, 9);
    set(&mut program, 1, 200);
    set(&mut program, 2, 55);
    run_one(&mut program, Instruction::ADD { vx: Register(1), vy: Register(2) });
    assert_eq!(program.registers()[1], 255);
    assert_eq!(program.registers()[0xF], 0);
    set(&mut program, 3, 1);
    run_one(&mut program, Instruction::ADD { vx: Register(1), vy: Register(3) });
    assert_eq!(program.registers()[1], 0);
    assert_eq!(program.registers()[0xF], 1);
}

#[test]
fn sub_sets_flag_when_no_borrow_and_wraps() {
    let mut program = load(&[]);
    set(&mut program, 1, 10);
    set(&mut program, 2, 250);
    run_one(&mut program, Instruction::SUB { vx: Register(1), vy: Register(2) });
    assert_eq!(program.registers()[1], 16);
    assert_eq!(program.registers()[0xF], 0);
    set(&mut program, 3, 250);
    set(&mut program, 4, 10);
    run_one(&mut program, Instruction::SUB { vx: Register(3), vy: Register(4) });
    assert_eq!(program.registers()[3], 240);
    assert_eq!(program.registers()[0xF], 1);
    set(&mut program, 5, 9);
    set(&mut program, 6, 9);
    run_one(&mut program, Instruction::SUB { vx: Register(5), vy: Register(6) });
    assert_eq!(program.registers()[5], 0);
    assert_eq!(program.registers()[0xF], 0);
}

#[test]
fn sub_reverse_subtracts_vx_from_vy() {
    let mut program = load(&[]);
    set(&mut program, 1, 10);
    set(&mut program, 2, 250);
    run_one(&mut program, Instruction::SUBN { vx: Register(1), vy: Register(2) });
    assert_eq!(program.registers()[1], 240);
    assert_eq!(program.registers()[0xF], 1);
    set(&mut program, 3, 250);
    set(&mut program, 4, 10);
    run_one(&mut program, Instruction::SUBN { vx: Register(3), vy: Register(4) });
    assert_eq!(program.registers()[3], 16);
    assert_eq!(program.registers()[0xF], 0);
}

#[test]
fn shifts_report_the_bit_shifted_out() {
    let mut program = load(&[]);
    set(&mut program, 1, 0b1000_0101);
    run_one(&mut program, Instruction::SHR { vx: Register(1), vy: Register(0) });
    assert_eq!(program.registers()[1], 0b0100_0010);
    assert_eq!(program.registers()[0xF], 1);
    run_one(&mut program, Instruction::SHR { vx: Register(1), vy: Register(0) });
    assert_eq!(program.registers()[1], 0b0010_0001);
    assert_eq!(program.registers()[0xF], 0);
    set(&mut program, 2, 0b1000_0101);
    run_one(&mut program, Instruction::SHL { vx: Register(2), vy: Register(0) });
    assert_eq!(program.registers()[2], 0b0000_1010);
    assert_eq!(program.registers()[0xF], 1);
    run_one(&mut program, Instruction::SHL { vx: Register(2), vy: Register(0) });
    assert_eq!(program.registers()[2], 0b0001_0100);
    assert_eq!(program.registers()[0xF], 0);
}

#[test]
fn flagged_result_stays_in_vf_when_vx_is_vf() {
    let mut program = load(&[]);
    set(&mut program, 0xF, 200);
    set(&mut program, 1, 100);
    run_one(&mut program, Instruction::ADD { vx: Register(0xF), vy: Register(1) });
    assert_eq!(program.registers()[0xF], 44);
}

#[test]
fn flagged_operand_is_read_before_the_flag_is_written() {
    let mut program = load(&[]);
    set(&mut program, 0xF, 100);
    set(&mut program, 1, 200);
    run_one(&mut program, Instruction::ADD { vx: Register(1), vy: Register(0xF) });
    assert_eq!(program.registers()[1], 44);
    assert_eq!(program.registers()[0xF], 1);
}

#[test]
fn logic_and_copy_leave_the_flag_alone() {
    let mut program = load(&[]);
    set(&mut program, 0xF, 7);
    set(&mut program, 1, 0b1100);
    set(&mut program, 2, 0b1010);
    run_one(&mut program, Instruction::OR { vx: Register(1), vy: Register(2) });
    assert_eq!(program.registers()[1], 0b1110);
    set(&mut program, 1, 0b1100);
    run_one(&mut program, Instruction::AND { vx: Register(1), vy: Register(2) });
    assert_eq!(program.registers()[1], 0b1000);
    set(&mut program, 1, 0b1100);
    run_one(&mut program, Instruction::XOR { vx: Register(1), vy: Register(2) });
    assert_eq!(program.registers()[1], 0b0110);
    run_one(&mut program, Instruction::LD { vx: Register(3), vy: Register(2) });
    assert_eq!(program.registers()[3], 0b1010);
    assert_eq!(program.registers()[0xF], 7);
    assert_eq!(program.pc(), 0x200 + 2 * 9);
}

#[test]
fn add_immediate_wraps_without_flag() {
    let mut program = load(&[]);
    set(&mut program, 1, 250);
    run_one(&mut program, Instruction::ADDI { vx: Register(1), imm: 10 });
    assert_eq!(program.registers()[1], 4);
    assert_eq!(program.registers()[0xF], 0);
}

#[test]
fn random_byte_is_masked_by_the_immediate() {
    let mut program = load(&[]);
    assert_eq!(
        program.exec(Instruction::RND { vx: Register(3), imm: 0x3C }, &NO_KEYS, 0xFF),
        Ok(())
    );
    assert_eq!(program.registers()[3], 0x3C);
    assert_eq!(
        program.exec(Instruction::RND { vx: Register(3), imm: 0xF0 }, &NO_KEYS, 0xA5),
        Ok(())
    );
    assert_eq!(program.registers()[3], 0xA0);
    assert_eq!(program.pc(), 0x204);
}

#[test]
fn random_step_stays_under_the_mask() {
    let mut bytes = Vec::new();
    for _ in 0..64 {
        bytes.extend_from_slice(&[0xC1, 0x0F, 0xC2, 0x00]);
    }
    let mut program = load(&bytes);
    for _ in 0..64 {
        assert_eq!(program.step(&NO_KEYS), Ok(()));
        assert!(program.registers()[1] <= 0x0F);
        assert_eq!(program.step(&NO_KEYS), Ok(()));
        assert_eq!(program.registers()[2], 0);
    }
    assert_eq!(program.pc(), 0x200 + 4 * 64);
}

#[test]
fn address_register_operations() {
    let mut program = load(&[]);
    run_one(&mut program, Instruction::LDA { addr: Address(0xABC) });
    assert_eq!(program.address_register(), 0xABC);
    set(&mut program, 1, 0xFF);
    run_one(&mut program, Instruction::ADDIR { vx: Register(1) });
    assert_eq!(program.address_register(), 0xBBB);
    assert_eq!(program.registers()[0xF], 0);
    set(&mut program, 2, 0xA);
    run_one(&mut program, Instruction::LDSPR { vx: Register(2) });
    assert_eq!(program.address_register(), 50);
    assert_eq!(program.memory().read(50), Some(0xF0));
    assert_eq!(program.memory().read(54), Some(0x90));
    set(&mut program, 2, 0xFF);
    run_one(&mut program, Instruction::LDSPR { vx: Register(2) });
    assert_eq!(program.address_register(), 1275);
}

#[test]
fn add_to_address_register_wraps_at_sixteen_bits() {
    let mut program = load(&[]);
    set(&mut program, 1, 0xFF);
    run_one(&mut program, Instruction::LDA { addr: Address(0xFFF) });
    for _ in 0..241 {
        run_one(&mut program, Instruction::ADDIR { vx: Register(1) });
    }
    assert_eq!(program.address_register(), ((0xFFFu32 + 241 * 255) % 65536) as u16);
    assert_eq!(program.address_register(), 14);
}

#[test]
fn timers_copy_to_and_from_registers_and_tick_down_to_zero() {
    let mut program = load(&[]);
    set(&mut program, 1, 2);
    set(&mut program, 2, 1);
    run_one(&mut program, Instruction::SETDT { vx: Register(1) });
    run_one(&mut program, Instruction::LDST { vx: Register(2) });
    assert_eq!(program.delay_timer(), 2);
    assert_eq!(program.sound_timer(), 1);
    run_one(&mut program, Instruction::LDDT { vx: Register(3) });
    assert_eq!(program.registers()[3], 2);
    assert_eq!(program.delay_timer(), 2);
    program.tick_timers();
    assert_eq!((program.delay_timer(), program.sound_timer()), (1, 0));
    program.tick_timers();
    assert_eq!((program.delay_timer(), program.sound_timer()), (0, 0));
    program.tick_timers();
    assert_eq!((program.delay_timer(), program.sound_timer()), (0, 0));
}

#[test]
fn steps_do_not_tick_the_timers() {
    let mut program = load(&[0x61, 0x09, 0xF1, 0x15, 0x12, 0x04]);
    assert_eq!(program.run(&NO_KEYS, 50), Ok(()));
    assert_eq!(program.delay_timer(), 9);
}

#[test]
fn register_dump_then_load_restores_registers() {
    let mut program = load(&[]);
    for x in 0..16 {
        set(&mut program, x, (x as u8) * 16 + 1);
    }
    let before = *program.registers();
    run_one(&mut program, Instruction::LDA { addr: Address(0x300) });
    run_one(&mut program, Instruction::STR { vx: Register(15) });
    for x in 0..16 {
        assert_eq!(program.memory().read(0x300 + x), Some(before[x]));
        set(&mut program, x, 0xEE);
    }
    run_one(&mut program, Instruction::LDR { vx: Register(15) });
    assert_eq!(program.registers(), &before);
    assert_eq!(program.address_register(), 0x300);
}

#[test]
fn register_dump_and_load_stop_at_vx_inclusive() {
    let mut program = load(&[]);
    set(&mut program, 0, 0x11);
    set(&mut program, 1, 0x22);
    set(&mut program, 2, 0x33);
    set(&mut program, 3, 0x44);
    run_one(&mut program, Instruction::LDA { addr: Address(0x300) });
    run_one(&mut program, Instruction::STR { vx: Register(2) });
    assert_eq!(program.memory().read(0x2FF), Some(0));
    assert_eq!(program.memory().read(0x300), Some(0x11));
    assert_eq!(program.memory().read(0x301), Some(0x22));
    assert_eq!(program.memory().read(0x302), Some(0x33));
    assert_eq!(program.memory().read(0x303), Some(0));
    run_one(&mut program, Instruction::LDA { addr: Address(0x301) });
    run_one(&mut program, Instruction::LDR { vx: Register(1) });
    assert_eq!(&program.registers()[0..4], &[0x22, 0x33, 0x33, 0x44]);
}

#[test]
fn register_dump_and_load_past_memory_are_out_of_bounds() {
    let mut program = load(&[]);
    set(&mut program, 0, 0x11);
    run_one(&mut program, Instruction::LDA { addr: Address(0xFFF) });
    run_one(&mut program, Instruction::STR { vx: Register(0) });
    assert_eq!(program.memory().read(0xFFF), Some(0x11));
    let pc = program.pc();
    assert_eq!(
        program.exec(Instruction::STR { vx: Register(1) }, &NO_KEYS, 0),
        Err(Fault::OutOfBounds { addr: 0xFFF })
    );
    assert_eq!(
        program.exec(Instruction::LDR { vx: Register(1) }, &NO_KEYS, 0),
        Err(Fault::OutOfBounds { addr: 0xFFF })
    );
    assert_eq!(program.pc(), pc);
    assert_eq!(program.registers()[0], 0x11);
}

#[test]
fn decimal_digits_are_stored_hundreds_first() {
    let mut program = load(&[]);
    set(&mut program, 1, 254);
    run_one(&mut program, Instruction::LDA { addr: Address(0x300) });
    run_one(&mut program, Instruction::LDBCD { vx: Register(1) });
    assert_eq!(program.memory().read(0x300), Some(2));
    assert_eq!(program.memory().read(0x301), Some(5));
    assert_eq!(program.memory().read(0x302), Some(4));
    set(&mut program, 1, 7);
    run_one(&mut program, Instruction::LDBCD { vx: Register(1) });
    assert_eq!(program.memory().read(0x300), Some(0));
    assert_eq!(program.memory().read(0x301), Some(0));
    assert_eq!(program.memory().read(0x302), Some(7));
    run_one(&mut program, Instruction::LDA { addr: Address(0xFFE) });
    assert_eq!(
        program.exec(Instruction::LDBCD { vx: Register(1) }, &NO_KEYS, 0),
        Err(Fault::OutOfBounds { addr: 0xFFE })
    );
}

#[test]
fn draw_renders_a_glyph_most_significant_bit_leftmost() {
    let mut program = load(&[]);
    set(&mut program, 0, 2);
    set(&mut program, 1, 3);
    set(&mut program, 2, 7);
    run_one(&mut program, Instruction::LDSPR { vx: Register(2) });
    // Glyph 7: f0 10 20 40 40.
    run_one(&mut program, Instruction::DRW { vx: Register(0), vy: Register(1), size: 5 });
    assert_eq!(
        lit_pixels(&program),
        vec![(3, 2), (3, 3), (3, 4), (3, 5), (4, 5), (5, 4), (6, 3), (7, 3)]
    );
    assert_eq!(program.registers()[0xF], 0);
}

#[test]
fn drawing_twice_restores_the_display_and_reports_collision() {
    let mut program = load(&[]);
    set(&mut program, 0, 10);
    set(&mut program, 1, 20);
    set(&mut program, 2, 0xB);
    run_one(&mut program, Instruction::LDSPR { vx: Register(2) });
    run_one(&mut program, Instruction::DRW { vx: Register(0), vy: Register(1), size: 5 });
    assert_eq!(program.registers()[0xF], 0);
    let once = *program.framebuffer();
    assert_eq!(lit_pixels(&program).len(), 3 + 2 + 3 + 2 + 3);
    set(&mut program, 0, 12);
    set(&mut program, 4, 3);
    run_one(&mut program, Instruction::LDSPR { vx: Register(4) });
    run_one(&mut program, Instruction::DRW { vx: Register(0), vy: Register(1), size: 5 });
    assert_eq!(program.registers()[0xF], 1);
    run_one(&mut program, Instruction::DRW { vx: Register(0), vy: Register(1), size: 5 });
    assert_eq!(program.registers()[0xF], 1);
    assert_eq!(program.framebuffer(), &once);
    set(&mut program, 0, 10);
    run_one(&mut program, Instruction::LDSPR { vx: Register(2) });
    run_one(&mut program, Instruction::DRW { vx: Register(0), vy: Register(1), size: 5 });
    assert_eq!(program.registers()[0xF], 1);
    assert!(lit_pixels(&program).is_empty());
}

#[test]
fn draw_clips_at_the_right_and_bottom_edges() {
    let mut program = load(&[]);
    set(&mut program, 0, 62);
    set(&mut program, 1, 30);
    set(&mut program, 2, 8);
    run_one(&mut program, Instruction::LDSPR { vx: Register(2) });
    // Glyph 8: f0 90 f0 90 f0; only two columns and two rows fit.
    run_one(&mut program, Instruction::DRW { vx: Register(0), vy: Register(1), size: 5 });
    assert_eq!(lit_pixels(&program), vec![(30, 62), (30, 63), (31, 62)]);
    assert_eq!(program.registers()[0xF], 0);
}

#[test]
fn draw_outside_the_display_changes_no_pixel() {
    let mut program = load(&[]);
    set(&mut program, 0, 64);
    set(&mut program, 1, 0);
    run_one(&mut program, Instruction::DRW { vx: Register(0), vy: Register(1), size: 5 });
    assert!(lit_pixels(&program).is_empty());
    set(&mut program, 0, 0);
    set(&mut program, 1, 32);
    run_one(&mut program, Instruction::DRW { vx: Register(0), vy: Register(1), size: 5 });
    assert!(lit_pixels(&program).is_empty());
    set(&mut program, 0, 255);
    set(&mut program, 1, 255);
    run_one(&mut program, Instruction::DRW { vx: Register(0), vy: Register(1), size: 15 });
    assert!(lit_pixels(&program).is_empty());
    assert_eq!(program.registers()[0xF], 0);
}

#[test]
fn draw_of_no_rows_clears_the_flag() {
    let mut program = load(&[]);
    set(&mut program, 0xF, 1);
    run_one(&mut program, Instruction::DRW { vx: Register(0), vy: Register(1), size: 0 });
    assert!(lit_pixels(&program).is_empty());
    assert_eq!(program.registers()[0xF], 0);
}

#[test]
fn draw_past_memory_is_out_of_bounds() {
    let mut program = load(&[]);
    run_one(&mut program, Instruction::LDA { addr: Address(0xFFC) });
    run_one(&mut program, Instruction::DRW { vx: Register(0), vy: Register(1), size: 4 });
    let pc = program.pc();
    assert_eq!(
        program.exec(
            Instruction::DRW { vx: Register(0), vy: Register(1), size: 5 },
            &NO_KEYS,
            0
        ),
        Err(Fault::OutOfBounds { addr: 0xFFC })
    );
    assert_eq!(program.pc(), pc);
}

#[test]
fn clear_display_unsets_every_pixel() {
    let mut program = load(&[]);
    run_one(&mut program, Instruction::DRW { vx: Register(0), vy: Register(1), size: 5 });
    assert!(!lit_pixels(&program).is_empty());
    let pc = program.pc();
    run_one(&mut program, Instruction::CLS);
    assert!(lit_pixels(&program).is_empty());
    assert_eq!(program.pc(), pc + 2);
}

#[test]
fn key_skips_consult_the_keypad() {
    let mut keys = [false; 16];
    keys[0xA] = true;
    let mut program = load(&[]);
    set(&mut program, 1, 0xA);
    set(&mut program, 2, 0xB);
    set(&mut program, 3, 0x1A);
    let pc = program.pc();
    assert_eq!(program.exec(Instruction::SKP { vx: Register(1) }, &keys, 0), Ok(()));
    assert_eq!(program.pc(), pc + 4);
    assert_eq!(program.exec(Instruction::SKP { vx: Register(2) }, &keys, 0), Ok(()));
    assert_eq!(program.pc(), pc + 6);
    assert_eq!(program.exec(Instruction::SKNP { vx: Register(1) }, &keys, 0), Ok(()));
    assert_eq!(program.pc(), pc + 8);
    assert_eq!(program.exec(Instruction::SKNP { vx: Register(2) }, &keys, 0), Ok(()));
    assert_eq!(program.pc(), pc + 12);
    assert_eq!(program.exec(Instruction::SKP { vx: Register(3) }, &keys, 0), Ok(()));
    assert_eq!(program.pc(), pc + 14);
}

#[test]
fn wait_for_key_holds_until_a_key_is_down() {
    let mut program = load(&[0xF5, 0x0A, 0x12, 0x02]);
    for _ in 0..10 {
        assert_eq!(program.step(&NO_KEYS), Ok(()));
        assert_eq!(program.pc(), 0x200);
        assert_eq!(program.registers()[5], 0);
    }
    let mut keys = [false; 16];
    keys[0xC] = true;
    keys[0x7] = true;
    assert_eq!(program.step(&keys), Ok(()));
    assert_eq!(program.pc(), 0x202);
    assert_eq!(program.registers()[5], 0x7);
}

#[test]
fn keypad_queries() {
    let mut keys = [false; 16];
    assert_eq!(pressed_key(&keys), None);
    keys[15] = true;
    assert_eq!(pressed_key(&keys), Some(15));
    keys[0] = true;
    assert_eq!(pressed_key(&keys), Some(0));
    assert!(is_key_down(&keys, 0));
    assert!(is_key_down(&keys, 15));
    assert!(!is_key_down(&keys, 1));
    assert!(!is_key_down(&keys, 16));
    assert!(!is_key_down(&keys, 255));
}

#[test]
fn byte_sum_reports_overflow_and_low_bits() {
    assert_eq!(add_carry(250, 10), (true, 4));
    assert_eq!(add_carry(200, 55), (false, 255));
    assert_eq!(add_carry(255, 1), (true, 0));
    assert_eq!(add_carry(255, 255), (true, 254));
    assert_eq!(add_carry(0, 0), (false, 0));
}

#[test]
fn byte_difference_reports_no_borrow_and_low_bits() {
    assert_eq!(sub_borrow(10, 250), (false, 16));
    assert_eq!(sub_borrow(250, 10), (true, 240));
    assert_eq!(sub_borrow(9, 9), (false, 0));
    assert_eq!(sub_borrow(0, 255), (false, 1));
    assert_eq!(sub_borrow(255, 0), (true, 255));
}

#[test]
fn byte_shifts_report_the_bit_shifted_out() {
    assert_eq!(shift_right(0b0000_0101), (true, 0b0000_0010));
    assert_eq!(shift_right(0b1111_1110), (false, 0b0111_1111));
    assert_eq!(shift_right(0), (false, 0));
    assert_eq!(shift_left(0b1000_0001), (true, 0b0000_0010));
    assert_eq!(shift_left(0b0111_1111), (false, 0b1111_1110));
    assert_eq!(shift_left(0), (false, 0));
}

#[test]
fn address_sum_wraps_at_sixteen_bits() {
    assert_eq!(add_to_address(0x0FFF, 0xFF), 0x10FE);
    assert_eq!(add_to_address(0xFFFF, 1), 0);
    assert_eq!(add_to_address(0xFF80, 0xFF), 0x7F);
    assert_eq!(add_to_address(0, 0), 0);
}
