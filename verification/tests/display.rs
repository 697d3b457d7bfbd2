//! The pixel grid: XOR drawing, collision, clipping, clearing, and the
//! RGBA frame image.

use chip8::cpu::CPU;
use chip8::display_buffer::DisplayBuffer;
use chip8::frame_buffer::FrameBuffer;
use chip8::opcodes::Instr;

#[test]
fn draw_twice_reports_a_collision_and_clears() {
    let mut cpu = CPU::new();
    // one 8-pixel row, all bits set
    assert!(cpu.load_rom(&[0xFF]));
    cpu.execute(Instr::SetIndex(0x200), 0);
    cpu.execute(Instr::Draw(0, 1, 1), 0);
    // first draw: eight pixels lit, no collision
    assert_eq!(cpu.get_register(0xF), 0);
    let grid = cpu.get_display_buffer();
    for x in 0..8 {
        assert!(grid[x][0]);
    }
    assert!(!grid[8][0]);
    assert!(cpu.should_redraw);
    // second identical draw: the same eight pixels clear, collision
    cpu.execute(Instr::Draw(0, 1, 1), 0);
    assert_eq!(cpu.get_register(0xF), 1);
    let grid = cpu.get_display_buffer();
    for x in 0..8 {
        assert!(!grid[x][0]);
    }
}

#[test]
fn draw_xors_overlapping_sprites() {
    let mut cpu = CPU::new();
    assert!(cpu.load_rom(&[0b11110000, 0b00111100]));
    cpu.execute(Instr::SetIndex(0x200), 0);
    cpu.execute(Instr::Draw(0, 1, 1), 0);
    assert_eq!(cpu.get_register(0xF), 0);
    cpu.execute(Instr::SetIndex(0x201), 0);
    cpu.execute(Instr::Draw(0, 1, 1), 0);
    // 1111_0000 XOR 0011_1100 = 1100_1100
    assert_eq!(cpu.get_register(0xF), 1);
    let grid = cpu.get_display_buffer();
    let expected = [true, true, false, false, true, true, false, false];
    for x in 0..8 {
        assert_eq!(grid[x][0], expected[x]);
    }
}

#[test]
fn draw_origin_wraps_modulo_the_grid() {
    let mut cpu = CPU::new();
    assert!(cpu.load_rom(&[0x80]));
    cpu.execute(Instr::SetIndex(0x200), 0);
    cpu.execute(Instr::SetImm(0, 68), 0); // 68 % 64 == 4
    cpu.execute(Instr::SetImm(1, 33), 0); // 33 % 32 == 1
    cpu.execute(Instr::Draw(0, 1, 1), 0);
    let grid = cpu.get_display_buffer();
    assert!(grid[4][1]);
}

#[test]
fn draw_clips_at_the_right_edge() {
    let mut cpu = CPU::new();
    assert!(cpu.load_rom(&[0xFF]));
    cpu.execute(Instr::SetIndex(0x200), 0);
    cpu.execute(Instr::SetImm(0, 60), 0);
    cpu.execute(Instr::Draw(0, 1, 1), 0);
    assert_eq!(cpu.get_register(0xF), 0);
    let grid = cpu.get_display_buffer();
    for x in 60..64 {
        assert!(grid[x][0]);
    }
    // the sprite does not wrap to the left edge
    for x in 0..4 {
        assert!(!grid[x][0]);
    }
}

#[test]
fn draw_clips_at_the_bottom_edge() {
    let mut cpu = CPU::new();
    assert!(cpu.load_rom(&[0x80, 0x80, 0x80]));
    cpu.execute(Instr::SetIndex(0x200), 0);
    cpu.execute(Instr::SetImm(1, 30), 0);
    cpu.execute(Instr::Draw(0, 1, 3), 0);
    let grid = cpu.get_display_buffer();
    assert!(grid[0][30]);
    assert!(grid[0][31]);
    // the third row does not wrap to the top
    assert!(!grid[0][0]);
}

#[test]
fn clear_screen_blanks_the_grid() {
    let mut cpu = CPU::new();
    assert!(cpu.load_rom(&[0xFF]));
    cpu.execute(Instr::SetIndex(0x200), 0);
    cpu.execute(Instr::Draw(0, 1, 1), 0);
    cpu.execute(Instr::ClearScreen, 0);
    let grid = cpu.get_display_buffer();
    for x in 0..64 {
        for y in 0..32 {
            assert!(!grid[x][y]);
        }
    }
}

#[test]
fn clear_twice_equals_clear_once() {
    let mut once = DisplayBuffer::new(10);
    let mut twice = DisplayBuffer::new(10);
    let mut lit = false;
    once.xor_pixel(3, 4, true);
    twice.xor_pixel(3, 4, true);
    once.clear();
    twice.clear();
    twice.clear();
    for x in 0..64 {
        for y in 0..32 {
            assert_eq!(once.get(x, y), twice.get(x, y));
            lit = lit || once.get(x, y);
        }
    }
    assert!(!lit);
}

#[test]
fn xor_pixel_toggles_and_reports_collision() {
    let mut db = DisplayBuffer::new(1);
    assert!(!db.xor_pixel(5, 6, true));
    assert!(db.get(5, 6));
    // drawing a zero bit over a lit cell is no collision
    assert!(!db.xor_pixel(5, 6, false));
    assert!(db.get(5, 6));
    // drawing a one bit over a lit cell clears it and collides
    assert!(db.xor_pixel(5, 6, true));
    assert!(!db.get(5, 6));
}

#[test]
fn display_buffer_dimensions() {
    let cpu = CPU::new();
    let grid = cpu.get_display_buffer();
    assert_eq!(grid.len(), 64);
    for col in &grid {
        assert_eq!(col.len(), 32);
    }
}

#[test]
fn frame_buffer_paints_pixels_from_the_grid() {
    let mut fb = FrameBuffer::new();
    // pixel (2, 1): lit
    fb.toggle_buffer[2 * 32 + 1] = true;
    fb.update_frame_buffer(2, 1);
    let offset = 2 * 4 + 1 * 64 * 4;
    assert_eq!(&fb.frame_buffer[offset..offset + 4], &[255, 255, 255, 255]);
    // a neighbouring pixel keeps its bytes
    assert_eq!(&fb.frame_buffer[offset + 4..offset + 8], &[0, 0, 0, 0]);
    // repaint it unlit
    fb.toggle_buffer[2 * 32 + 1] = false;
    fb.update_frame_buffer(2, 1);
    assert_eq!(&fb.frame_buffer[offset..offset + 4], &[0, 0, 0, 255]);
}

#[test]
fn frame_buffer_clear_paints_everything_off() {
    let mut fb = FrameBuffer::new();
    fb.toggle_buffer[0] = true;
    fb.update_frame_buffer(0, 0);
    fb.clear();
    assert!(fb.toggle_buffer.iter().all(|&t| !t));
    for p in 0..64 * 32 {
        assert_eq!(&fb.frame_buffer[p * 4..p * 4 + 4], &[0, 0, 0, 255]);
    }
}
