use chip8::cpu::CPU;
use chip8::{StepError, StepOutcome};

fn boot(program: &[u8]) -> CPU {
    let mut cpu = CPU::new();
    cpu.initialize();
    cpu.load_rom(program);
    cpu
}

#[test]
fn new_machine_state() {
    let cpu = CPU::new();
    assert_eq!(cpu.program_counter(), 0x200);
    assert_eq!(cpu.index_register(), 0);
    assert_eq!(cpu.stack_pointer(), 0);
    assert_eq!(cpu.delay_timer(), 0);
    assert_eq!(cpu.sound_timer(), 0);
    for j in 0..16 {
        assert_eq!(cpu.register(j), 0);
        assert_eq!(cpu.keys[j], 0);
    }
    assert!(!cpu.pixel(0, 0));
    assert!(!cpu.update_screen);
}

#[test]
fn initialize_loads_font() {
    let mut cpu = CPU::new();
    cpu.initialize();
    assert_eq!(cpu.memory_byte(0), 0xf0);
    assert_eq!(cpu.memory_byte(5), 0x20);
    assert_eq!(cpu.memory_byte(79), 0x80);
    assert_eq!(cpu.memory_byte(80), 0);
    assert_eq!(cpu.program_counter(), 0x200);
}

#[test]
fn load_rom_places_bytes_at_load_address() {
    let cpu = boot(&[0xab, 0xcd]);
    assert_eq!(cpu.memory_byte(0x200), 0xab);
    assert_eq!(cpu.memory_byte(0x201), 0xcd);
    assert_eq!(cpu.memory_byte(0x1ff), 0);
    assert_eq!(cpu.memory_byte(0x202), 0);
}

#[test]
fn load_empty_rom_changes_nothing() {
    let cpu = boot(&[]);
    assert_eq!(cpu.memory_byte(0x200), 0);
    assert_eq!(cpu.memory_byte(0), 0xf0);
}

#[test]
fn load_rom_of_largest_size() {
    let rom = vec![0xaa; 4095 - 512];
    let cpu = boot(&rom);
    assert_eq!(cpu.memory_byte(0x200), 0xaa);
    assert_eq!(cpu.memory_byte(4094), 0xaa);
    assert_eq!(cpu.memory_byte(0x1ff), 0);
}

#[test]
fn load_immediate_then_add_immediate() {
    // Set V0 = 5, then add 3 to V0: V0 must equal 8 and the program counter
    // must have advanced by 4 from its start.
    let mut cpu = boot(&[0x60, 0x05, 0x70, 0x03]);
    assert_eq!(cpu.cycle(), Ok(StepOutcome::Executed));
    assert_eq!(cpu.cycle(), Ok(StepOutcome::Executed));
    assert_eq!(cpu.register(0), 8);
    assert_eq!(cpu.program_counter(), 0x204);
}

#[test]
fn add_immediate_wraps() {
    let mut cpu = boot(&[0x60, 0xff, 0x70, 0x03]);
    assert_eq!(cpu.cycle(), Ok(StepOutcome::Executed));
    assert_eq!(cpu.cycle(), Ok(StepOutcome::Executed));
    assert_eq!(cpu.register(0), 2);
    // No flag write on the immediate form.
    assert_eq!(cpu.register(15), 0);
}

#[test]
fn jump_sets_program_counter() {
    let mut cpu = boot(&[0x12, 0x34]);
    assert_eq!(cpu.cycle(), Ok(StepOutcome::Executed));
    assert_eq!(cpu.program_counter(), 0x234);
}

#[test]
fn indexed_jump_adds_v0() {
    let mut cpu = boot(&[0x60, 0x10, 0xb3, 0x00]);
    assert_eq!(cpu.cycle(), Ok(StepOutcome::Executed));
    assert_eq!(cpu.cycle(), Ok(StepOutcome::Executed));
    assert_eq!(cpu.program_counter(), 0x310);
}

#[test]
fn call_then_return_restores_program_counter() {
    // Call the subroutine at 0x300, whose first instruction returns.
    let mut rom = vec![0u8; 0x102];
    rom[0] = 0x23;
    rom[1] = 0x00;
    rom[0x100] = 0x00;
    rom[0x101] = 0xee;
    let mut cpu = boot(&rom);
    assert_eq!(cpu.cycle(), Ok(StepOutcome::Executed));
    assert_eq!(cpu.program_counter(), 0x300);
    assert_eq!(cpu.stack_pointer(), 1);
    assert_eq!(cpu.cycle(), Ok(StepOutcome::Executed));
    assert_eq!(cpu.program_counter(), 0x202);
    assert_eq!(cpu.stack_pointer(), 0);
}

#[test]
fn nested_calls_restore_in_order() {
    // 0x200: call 0x300; 0x300: call 0x400; 0x400: return; 0x302: return.
    let mut rom = vec![0u8; 0x204];
    rom[0] = 0x23;
    rom[1] = 0x00;
    rom[0x100] = 0x24;
    rom[0x101] = 0x00;
    rom[0x102] = 0x00;
    rom[0x103] = 0xee;
    rom[0x200] = 0x00;
    rom[0x201] = 0xee;
    let mut cpu = boot(&rom);
    assert_eq!(cpu.cycle(), Ok(StepOutcome::Executed));
    assert_eq!(cpu.cycle(), Ok(StepOutcome::Executed));
    assert_eq!(cpu.program_counter(), 0x400);
    assert_eq!(cpu.stack_pointer(), 2);
    assert_eq!(cpu.cycle(), Ok(StepOutcome::Executed));
    assert_eq!(cpu.program_counter(), 0x302);
    assert_eq!(cpu.cycle(), Ok(StepOutcome::Executed));
    assert_eq!(cpu.program_counter(), 0x202);
    assert_eq!(cpu.stack_pointer(), 0);
}

#[test]
fn return_with_empty_stack_is_underflow() {
    let mut cpu = boot(&[0x00, 0xee]);
    assert_eq!(cpu.cycle(), Err(StepError::StackUnderflow));
    // The step reports the fault with the program counter past the
    // instruction and nothing else changed.
    assert_eq!(cpu.program_counter(), 0x202);
    assert_eq!(cpu.stack_pointer(), 0);
}

#[test]
fn seventeenth_nested_call_is_overflow() {
    // The instruction calls its own address, so every step pushes a frame.
    let mut cpu = boot(&[0x22, 0x00]);
    for depth in 1..=16u8 {
        assert_eq!(cpu.cycle(), Ok(StepOutcome::Executed));
        assert_eq!(cpu.stack_pointer(), depth);
    }
    assert_eq!(cpu.cycle(), Err(StepError::StackOverflow));
    assert_eq!(cpu.stack_pointer(), 16);
}

#[test]
fn invalid_opcodes_are_reported_with_word_and_counter() {
    let mut cpu = boot(&[0x00, 0x01]);
    assert_eq!(
        cpu.cycle(),
        Err(StepError::InvalidOpcode { opcode: 0x0001, pc: 0x200 })
    );
    let mut cpu = boot(&[0x80, 0x18]);
    assert_eq!(
        cpu.cycle(),
        Err(StepError::InvalidOpcode { opcode: 0x8018, pc: 0x200 })
    );
    let mut cpu = boot(&[0xe0, 0x00]);
    assert_eq!(
        cpu.cycle(),
        Err(StepError::InvalidOpcode { opcode: 0xe000, pc: 0x200 })
    );
    let mut cpu = boot(&[0xf0, 0xff]);
    assert_eq!(
        cpu.cycle(),
        Err(StepError::InvalidOpcode { opcode: 0xf0ff, pc: 0x200 })
    );
}

#[test]
fn fetch_at_end_of_memory_is_an_address_fault() {
    let mut cpu = boot(&[0x1f, 0xfe]);
    assert_eq!(cpu.cycle(), Ok(StepOutcome::Executed));
    assert_eq!(cpu.program_counter(), 0xffe);
    assert_eq!(
        cpu.cycle(),
        Err(StepError::AddressOutOfRange { base: 0xffe, count: 2 })
    );
    // A failed fetch leaves the machine exactly where it was.
    assert_eq!(cpu.program_counter(), 0xffe);
}

#[test]
fn bcd_store_past_end_of_memory_is_an_address_fault() {
    let mut cpu = boot(&[0xaf, 0xff, 0xf0, 0x33]);
    assert_eq!(cpu.cycle(), Ok(StepOutcome::Executed));
    assert_eq!(
        cpu.cycle(),
        Err(StepError::AddressOutOfRange { base: 0xfff, count: 3 })
    );
}

#[test]
fn block_store_past_end_of_memory_is_an_address_fault() {
    let mut cpu = boot(&[0xaf, 0xfe, 0xf1, 0x55]);
    assert_eq!(cpu.cycle(), Ok(StepOutcome::Executed));
    assert_eq!(
        cpu.cycle(),
        Err(StepError::AddressOutOfRange { base: 0xffe, count: 2 })
    );
}

#[test]
fn key_test_with_register_over_fifteen_is_a_fault() {
    let mut cpu = boot(&[0x60, 0x14, 0xe0, 0x9e]);
    assert_eq!(cpu.cycle(), Ok(StepOutcome::Executed));
    assert_eq!(cpu.cycle(), Err(StepError::KeyOutOfRange { key: 20 }));
}

#[test]
fn timers_decrement_to_a_floor_of_zero() {
    let mut cpu = boot(&[0x60, 0x02, 0xf0, 0x15, 0xf0, 0x18]);
    for _ in 0..3 {
        assert_eq!(cpu.cycle(), Ok(StepOutcome::Executed));
    }
    assert_eq!(cpu.delay_timer(), 2);
    assert_eq!(cpu.sound_timer(), 2);
    cpu.sub_dt();
    assert_eq!(cpu.delay_timer(), 1);
    cpu.sub_dt();
    cpu.sub_dt();
    cpu.sub_dt();
    assert_eq!(cpu.delay_timer(), 0);
    cpu.sub_st();
    cpu.sub_st();
    cpu.sub_st();
    assert_eq!(cpu.sound_timer(), 0);
}

#[test]
fn delay_timer_reads_back() {
    let mut cpu = boot(&[0x60, 0x07, 0xf0, 0x15, 0x61, 0x00, 0xf1, 0x07]);
    for _ in 0..4 {
        assert_eq!(cpu.cycle(), Ok(StepOutcome::Executed));
    }
    assert_eq!(cpu.register(1), 7);
}
