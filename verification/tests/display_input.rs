use chip8::cpu::CPU;
use chip8::{StepError, StepOutcome, PIXEL_ON, SCREEN_H, SCREEN_W};

fn boot(program: &[u8]) -> CPU {
    let mut cpu = CPU::new();
    cpu.initialize();
    cpu.load_rom(program);
    cpu
}

fn run(cpu: &mut CPU, steps: usize) {
    for _ in 0..steps {
        assert_eq!(cpu.cycle(), Ok(StepOutcome::Executed));
    }
}

fn lit_cells(cpu: &CPU) -> usize {
    let mut lit = 0;
    for row in 0..SCREEN_H {
        for col in 0..SCREEN_W {
            if cpu.pixel(col, row) {
                lit += 1;
            }
        }
    }
    lit
}

#[test]
fn draw_glyph_zero_at_origin() {
    // I <- glyph for 0, then draw its five rows at (0, 0).
    let mut cpu = boot(&[0x60, 0x00, 0xf0, 0x29, 0xd0, 0x05]);
    run(&mut cpu, 3);
    // Top row of the glyph is 0xF0: four cells on, four off.
    assert!(cpu.pixel(0, 0));
    assert!(cpu.pixel(3, 0));
    assert!(!cpu.pixel(4, 0));
    // Second row is 0x90.
    assert!(cpu.pixel(0, 1));
    assert!(!cpu.pixel(1, 1));
    assert!(cpu.pixel(3, 1));
    assert_eq!(cpu.register(15), 0);
    assert!(cpu.update_screen);
}

#[test]
fn clear_display_turns_every_cell_off() {
    let mut cpu = boot(&[0x60, 0x00, 0xf0, 0x29, 0xd0, 0x05, 0x00, 0xe0]);
    run(&mut cpu, 3);
    assert!(lit_cells(&cpu) > 0);
    cpu.update_screen = false;
    run(&mut cpu, 1);
    assert_eq!(lit_cells(&cpu), 0);
    assert!(cpu.update_screen);
}

#[test]
fn drawing_twice_restores_the_framebuffer() {
    // The same glyph drawn twice at the same coordinates cancels out, and
    // the second draw reports a collision.
    let mut cpu = boot(&[0x60, 0x00, 0xf0, 0x29, 0xd0, 0x05, 0xd0, 0x05]);
    run(&mut cpu, 3);
    assert!(lit_cells(&cpu) > 0);
    run(&mut cpu, 1);
    assert_eq!(lit_cells(&cpu), 0);
    assert_eq!(cpu.register(15), 1);
}

#[test]
fn draw_wraps_columns_independently_of_rows() {
    // One full row byte drawn at column 60: the four overflowing cells wrap
    // to columns 0..=3 of the same row, never into the next row.
    let mut cpu = boot(&[
        0x60, 0x3c, 0x61, 0x00, 0xa2, 0x08, 0xd0, 0x11, 0xff, 0x00,
    ]);
    run(&mut cpu, 4);
    for col in 60..64 {
        assert!(cpu.pixel(col, 0));
    }
    for col in 0..4 {
        assert!(cpu.pixel(col, 0));
    }
    assert!(!cpu.pixel(4, 0));
    assert!(!cpu.pixel(59, 0));
    for col in 0..SCREEN_W {
        assert!(!cpu.pixel(col, 1));
    }
    assert_eq!(lit_cells(&cpu), 8);
    assert_eq!(cpu.register(15), 0);
}

#[test]
fn draw_wraps_rows_to_the_top() {
    // Two rows drawn starting at the bottom row: the second lands on row 0.
    let mut cpu = boot(&[
        0x60, 0x00, 0x61, 0x1f, 0xa2, 0x08, 0xd0, 0x12, 0x80, 0x80,
    ]);
    run(&mut cpu, 4);
    assert!(cpu.pixel(0, 31));
    assert!(cpu.pixel(0, 0));
    assert_eq!(lit_cells(&cpu), 2);
}

#[test]
fn draw_origin_wraps_modulo_grid() {
    // Coordinates beyond the grid wrap before drawing: 68 mod 64 is 4, and
    // 35 mod 32 is 3.
    let mut cpu = boot(&[
        0x60, 0x44, 0x61, 0x23, 0xa2, 0x08, 0xd0, 0x11, 0x80, 0x00,
    ]);
    run(&mut cpu, 4);
    assert!(cpu.pixel(4, 3));
    assert_eq!(lit_cells(&cpu), 1);
}

#[test]
fn draw_of_height_zero_touches_nothing() {
    let mut cpu = boot(&[0xa2, 0x04, 0xd0, 0x00]);
    run(&mut cpu, 2);
    assert_eq!(lit_cells(&cpu), 0);
    assert_eq!(cpu.register(15), 0);
}

#[test]
fn partial_overlap_collides_without_erasing_everything() {
    // 0xF0 at (0,0), then 0x80 at (0,0): the overlapping cell goes off, the
    // rest stay, and the collision flag is set.
    let mut cpu = boot(&[
        0xa2, 0x0a, 0xd0, 0x11, 0xa2, 0x0c, 0xd0, 0x11, 0x12, 0x08, 0xf0, 0x00, 0x80, 0x00,
    ]);
    run(&mut cpu, 4);
    assert!(!cpu.pixel(0, 0));
    assert!(cpu.pixel(1, 0));
    assert!(cpu.pixel(2, 0));
    assert!(cpu.pixel(3, 0));
    assert_eq!(cpu.register(15), 1);
}

#[test]
fn draw_past_end_of_memory_is_an_address_fault() {
    let mut cpu = boot(&[0xaf, 0xff, 0xd0, 0x01]);
    run(&mut cpu, 1);
    assert_eq!(
        cpu.cycle(),
        Err(StepError::AddressOutOfRange { base: 0xfff, count: 1 })
    );
}

#[test]
fn screen_buffer_uses_the_on_colour() {
    let mut cpu = boot(&[0x60, 0x00, 0xf0, 0x29, 0xd0, 0x01]);
    run(&mut cpu, 3);
    let buffer = cpu.get_screen_buffer();
    assert_eq!(buffer.len(), 2048);
    assert_eq!(buffer[0], PIXEL_ON);
    assert_eq!(buffer[4], 0);
}

#[test]
fn skip_if_key_down() {
    let mut cpu = boot(&[0x60, 0x04, 0xe0, 0x9e]);
    cpu.keys[4] = 1;
    run(&mut cpu, 2);
    assert_eq!(cpu.program_counter(), 0x206);
    let mut cpu = boot(&[0x60, 0x04, 0xe0, 0x9e]);
    run(&mut cpu, 2);
    assert_eq!(cpu.program_counter(), 0x204);
}

#[test]
fn skip_if_key_up() {
    let mut cpu = boot(&[0x60, 0x04, 0xe0, 0xa1]);
    run(&mut cpu, 2);
    assert_eq!(cpu.program_counter(), 0x206);
    let mut cpu = boot(&[0x60, 0x04, 0xe0, 0xa1]);
    cpu.keys[4] = 1;
    run(&mut cpu, 2);
    assert_eq!(cpu.program_counter(), 0x204);
}

#[test]
fn key_wait_returns_unsatisfied_without_mutation() {
    let mut cpu = boot(&[0xf0, 0x0a]);
    for _ in 0..5 {
        assert_eq!(cpu.cycle(), Ok(StepOutcome::AwaitingKey));
        assert_eq!(cpu.program_counter(), 0x200);
        assert_eq!(cpu.register(0), 0);
        assert_eq!(cpu.stack_pointer(), 0);
    }
}

#[test]
fn key_wait_stores_the_pressed_key() {
    let mut cpu = boot(&[0xf0, 0x0a]);
    assert_eq!(cpu.cycle(), Ok(StepOutcome::AwaitingKey));
    cpu.keys[7] = 1;
    assert_eq!(cpu.cycle(), Ok(StepOutcome::Executed));
    assert_eq!(cpu.register(0), 7);
    assert_eq!(cpu.program_counter(), 0x202);
}

#[test]
fn key_wait_stores_the_lowest_pressed_key() {
    let mut cpu = boot(&[0xf5, 0x0a]);
    cpu.keys[9] = 1;
    cpu.keys[3] = 1;
    assert_eq!(cpu.cycle(), Ok(StepOutcome::Executed));
    assert_eq!(cpu.register(5), 3);
}
