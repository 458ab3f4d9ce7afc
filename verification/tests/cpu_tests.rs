use chip8_core::{CpuError, CPU};

fn fresh_cpu() -> CPU {
    CPU {
        registers: [0; 16],
        position_in_memory: 0,
        memory: [0; 4096],
        stack: [0; 16],
        stack_pointer: 0,
    }
}

fn load_words(cpu: &mut CPU, base: usize, words: &[u16]) {
    let mut pc = base;
    for &w in words {
        cpu.memory[pc] = (w >> 8) as u8;
        cpu.memory[pc + 1] = w as u8;
        pc += 2;
    }
}

#[test]
fn read_opcode_combines_big_endian() {
    let mut cpu = fresh_cpu();
    cpu.memory[0] = 0x12;
    cpu.memory[1] = 0x34;
    assert_eq!(cpu.read_curr_opcode(), Ok(0x1234));
}

#[test]
fn read_opcode_rejects_out_of_bounds_fetch() {
    let mut cpu = fresh_cpu();
    cpu.position_in_memory = 4095;
    assert_eq!(cpu.read_curr_opcode(), Err(CpuError::OutOfBounds));
}

#[test]
fn add_without_carry() {
    let mut cpu = fresh_cpu();
    cpu.registers[0] = 5;
    cpu.registers[1] = 10;
    cpu.registers[15] = 0xAB;
    cpu.add_xy(0, 1);
    assert_eq!(cpu.registers[0], 15);
    assert_eq!(cpu.registers[15], 0);
}

#[test]
fn add_with_carry_wraps_mod_256() {
    let mut cpu = fresh_cpu();
    cpu.registers[3] = 200;
    cpu.registers[4] = 100;
    cpu.add_xy(3, 4);
    assert_eq!(cpu.registers[3], 44);
    assert_eq!(cpu.registers[15], 1);
}

#[test]
fn add_at_boundary_just_fits() {
    let mut cpu = fresh_cpu();
    cpu.registers[0] = 255;
    cpu.registers[1] = 0;
    cpu.add_xy(0, 1);
    assert_eq!(cpu.registers[0], 255);
    assert_eq!(cpu.registers[15], 0);
    cpu.registers[1] = 1;
    cpu.add_xy(0, 1);
    assert_eq!(cpu.registers[0], 0);
    assert_eq!(cpu.registers[15], 1);
}

#[test]
fn sub_without_borrow_sets_flag() {
    let mut cpu = fresh_cpu();
    cpu.registers[0] = 15;
    cpu.registers[1] = 10;
    cpu.sub_xy(0, 1);
    assert_eq!(cpu.registers[0], 5);
    assert_eq!(cpu.registers[15], 1);
}

#[test]
fn sub_with_borrow_wraps_mod_256() {
    let mut cpu = fresh_cpu();
    cpu.registers[0] = 5;
    cpu.registers[1] = 10;
    cpu.sub_xy(0, 1);
    assert_eq!(cpu.registers[0], 251);
    assert_eq!(cpu.registers[15], 0);
}

#[test]
fn sub_of_equal_values_does_not_borrow() {
    let mut cpu = fresh_cpu();
    cpu.registers[6] = 77;
    cpu.registers[7] = 77;
    cpu.sub_xy(6, 7);
    assert_eq!(cpu.registers[6], 0);
    assert_eq!(cpu.registers[15], 1);
}

#[test]
fn logic_ops_leave_flag_register_alone() {
    let mut cpu = fresh_cpu();
    cpu.registers[15] = 0xAB;
    cpu.registers[0] = 0b1100;
    cpu.registers[1] = 0b1010;
    cpu.mov_xy(2, 1);
    assert_eq!(cpu.registers[2], 0b1010);
    assert_eq!(cpu.registers[15], 0xAB);
    cpu.or_xy(2, 0);
    assert_eq!(cpu.registers[2], 0b1110);
    assert_eq!(cpu.registers[15], 0xAB);
    cpu.and_xy(2, 0);
    assert_eq!(cpu.registers[2], 0b1100);
    assert_eq!(cpu.registers[15], 0xAB);
    cpu.xor_xy(2, 1);
    assert_eq!(cpu.registers[2], 0b0110);
    assert_eq!(cpu.registers[15], 0xAB);
}

#[test]
fn call_then_ret_restores_counter_and_stack_pointer() {
    let mut cpu = fresh_cpu();
    cpu.position_in_memory = 0x200;
    assert_eq!(cpu.call(0x100), Ok(()));
    assert_eq!(cpu.position_in_memory, 0x100);
    assert_eq!(cpu.stack_pointer, 1);
    assert_eq!(cpu.ret(), Ok(()));
    assert_eq!(cpu.position_in_memory, 0x200);
    assert_eq!(cpu.stack_pointer, 0);
}

#[test]
fn sixteen_calls_fit_the_seventeenth_overflows() {
    let mut cpu = fresh_cpu();
    for _ in 0..16 {
        assert_eq!(cpu.call(0x100), Ok(()));
    }
    assert_eq!(cpu.stack_pointer, 16);
    assert_eq!(cpu.call(0x100), Err(CpuError::StackOverflow));
    assert_eq!(cpu.stack_pointer, 16);
}

#[test]
fn ret_on_empty_stack_underflows() {
    let mut cpu = fresh_cpu();
    assert_eq!(cpu.ret(), Err(CpuError::StackUnderflow));
}

#[test]
fn exec_0_halts_returns_and_rejects() {
    let mut cpu = fresh_cpu();
    assert_eq!(cpu.exec_0(0x0000, 0), Ok(true));
    assert_eq!(cpu.exec_0(0x00EE, 0), Err(CpuError::StackUnderflow));
    assert_eq!(
        cpu.exec_0(0x0123, 6),
        Err(CpuError::UnsupportedInstruction { word: 0x0123, addr: 6 })
    );
    cpu.call(0x300).unwrap();
    assert_eq!(cpu.exec_0(0x00EE, 0x300), Ok(false));
    assert_eq!(cpu.position_in_memory, 0);
    assert_eq!(cpu.stack_pointer, 0);
}

#[test]
fn exec_8xy_dispatches_and_rejects_high_sub_ops() {
    let mut cpu = fresh_cpu();
    cpu.registers[1] = 42;
    assert_eq!(cpu.exec_8xy(0, 1, 0x0, 0x8010, 0), Ok(()));
    assert_eq!(cpu.registers[0], 42);
    assert_eq!(
        cpu.exec_8xy(0, 1, 0x6, 0x8016, 4),
        Err(CpuError::UnsupportedInstruction { word: 0x8016, addr: 4 })
    );
}

#[test]
fn opcode_8xy_builds_the_word() {
    assert_eq!(CPU::opcode_8xy(0, 1, 0x4), 0x8014);
    assert_eq!(CPU::opcode_8xy(0xA, 0xB, 0x5), 0x8AB5);
}

#[test]
fn run_add_sub_subroutine_called_twice() {
    let mut cpu = fresh_cpu();
    cpu.registers[0] = 5;
    cpu.registers[1] = 10;
    load_words(&mut cpu, 0x000, &[0x2100, 0x2100, 0x0000]);
    load_words(
        &mut cpu,
        0x100,
        &[
            CPU::opcode_8xy(0, 1, 0x4),
            CPU::opcode_8xy(0, 1, 0x5),
            0x00EE,
        ],
    );
    assert_eq!(cpu.run(), Ok(()));
    assert_eq!(cpu.registers[0], 5);
    assert_eq!(cpu.registers[1], 10);
    assert_eq!(cpu.registers[15], 1);
    assert_eq!(cpu.stack_pointer, 0);
}

#[test]
fn run_call_returns_to_word_after_call() {
    let mut cpu = fresh_cpu();
    cpu.registers[2] = 3;
    load_words(&mut cpu, 0x000, &[0x2100, CPU::opcode_8xy(4, 2, 0x0), 0x0000]);
    load_words(&mut cpu, 0x100, &[0x00EE]);
    assert_eq!(cpu.run(), Ok(()));
    // The MOVE after the CALL did execute, so RETURN came back to 0x002.
    assert_eq!(cpu.registers[4], 3);
    assert_eq!(cpu.stack_pointer, 0);
}

#[test]
fn run_reports_unsupported_word_and_fetch_address() {
    let mut cpu = fresh_cpu();
    load_words(&mut cpu, 0x000, &[0x2004]);
    load_words(&mut cpu, 0x004, &[0x1234]);
    assert_eq!(
        cpu.run(),
        Err(CpuError::UnsupportedInstruction { word: 0x1234, addr: 4 })
    );
}

#[test]
fn run_unsupported_family_at_start() {
    let mut cpu = fresh_cpu();
    load_words(&mut cpu, 0x000, &[0x1234]);
    assert_eq!(
        cpu.run(),
        Err(CpuError::UnsupportedInstruction { word: 0x1234, addr: 0 })
    );
}

#[test]
fn run_self_call_overflows_the_stack() {
    let mut cpu = fresh_cpu();
    // CALL 0x000 at 0x000 calls itself forever; the seventeenth push overflows.
    load_words(&mut cpu, 0x000, &[0x2000]);
    assert_eq!(cpu.run(), Err(CpuError::StackOverflow));
    assert_eq!(cpu.stack_pointer, 16);
}

#[test]
fn run_bare_return_underflows_the_stack() {
    let mut cpu = fresh_cpu();
    load_words(&mut cpu, 0x000, &[0x00EE]);
    assert_eq!(cpu.run(), Err(CpuError::StackUnderflow));
}

#[test]
fn run_off_the_end_of_memory_is_out_of_bounds() {
    let mut cpu = fresh_cpu();
    cpu.position_in_memory = 4095;
    assert_eq!(cpu.run(), Err(CpuError::OutOfBounds));
}

#[test]
fn run_halts_immediately_on_zero_memory() {
    let mut cpu = fresh_cpu();
    assert_eq!(cpu.run(), Ok(()));
    assert_eq!(cpu.position_in_memory, 2);
}

#[test]
fn add_into_flag_register_keeps_only_the_carry() {
    let mut cpu = fresh_cpu();
    cpu.registers[15] = 200;
    cpu.registers[1] = 100;
    cpu.add_xy(15, 1);
    // The destination is the flag register itself: the carry wins.
    assert_eq!(cpu.registers[15], 1);
}
