use kernel::framebuffer::{
    shift_framebuffer_down, shift_framebuffer_up, FrameBufferInfo, PixelFormat,
};
use kernel::renderer::text_renderer::{
    draw_char, Cursor, Glyph, TextBuffer, BUFFER_COLUMNS, BUFFER_SIZE, CURSOR_HEIGHT, LETTER_WIDTH,
    LINE_SPACING,
};

fn cursor(x: i32, y: i32) -> Cursor {
    Cursor { x, y }
}

#[test]
fn cell_and_spacing_sizes() {
    assert_eq!((CURSOR_HEIGHT, LETTER_WIDTH, LINE_SPACING), (14, 7, 4));
    assert_eq!((BUFFER_COLUMNS, BUFFER_SIZE), (128, 3200));
}

#[test]
fn cursor_left_steps_and_wraps() {
    let mut c = cursor(24, 36);
    c.cursor_left(640);
    assert_eq!(c, cursor(16, 36));
    let mut c = cursor(7, 36);
    c.cursor_left(640);
    assert_eq!(c, cursor(633, 18));
    let mut c = cursor(8, 0);
    c.cursor_left(640);
    assert_eq!(c, cursor(0, 0));
}

#[test]
fn cursor_right_steps_and_wraps() {
    let mut c = cursor(0, 0);
    c.cursor_right(640);
    assert_eq!(c, cursor(8, 0));
    let mut c = cursor(631, 18);
    c.cursor_right(640);
    assert_eq!(c, cursor(639, 18));
    let mut c = cursor(632, 18);
    c.cursor_right(640);
    assert_eq!(c, cursor(0, 36));
    let mut c = cursor(-20, 18);
    c.cursor_right(640);
    assert_eq!(c, cursor(0, 36));
}

#[test]
fn cursor_up_moves_the_picture_at_the_top() {
    let mut c = cursor(8, 36);
    assert!(!c.cursor_up());
    assert_eq!(c, cursor(8, 18));
    assert!(!c.cursor_up());
    assert_eq!(c, cursor(8, 0));
    assert!(c.cursor_up());
    assert_eq!(c, cursor(8, 14));
}

#[test]
fn cursor_down_moves_the_picture_at_the_bottom() {
    let mut c = cursor(8, 0);
    assert!(!c.cursor_down(480));
    assert_eq!(c, cursor(8, 18));
    let mut c = cursor(8, 461);
    assert!(!c.cursor_down(480));
    assert_eq!(c, cursor(8, 479));
    let mut c = cursor(8, 462);
    assert!(c.cursor_down(480));
    assert_eq!(c, cursor(8, 448));
}

#[test]
fn control_characters_draw_nothing() {
    let mut c = cursor(80, 36);
    assert_eq!(c.draw_char('\r', 640, 480), Glyph::Control);
    assert_eq!(c, cursor(0, 36));
    let mut c = cursor(80, 36);
    assert_eq!(c.draw_char('\n', 640, 480), Glyph::Control);
    assert_eq!(c, cursor(0, 54));
}

#[test]
fn characters_advance_wrap_and_scroll() {
    let mut c = cursor(80, 36);
    assert_eq!(c.draw_char('a', 640, 480), Glyph::Draw { at: cursor(80, 36), scrolled: false });
    assert_eq!(c, cursor(88, 36));
    // 633 + 7 fits the line, 634 + 7 does not
    let mut c = cursor(633, 36);
    assert_eq!(c.draw_char('a', 640, 480), Glyph::Draw { at: cursor(633, 36), scrolled: false });
    let mut c = cursor(634, 36);
    assert_eq!(c.draw_char('a', 640, 480), Glyph::Draw { at: cursor(0, 54), scrolled: false });
    assert_eq!(c, cursor(8, 54));
    // 466 + 14 fits the screen, 467 + 14 does not
    let mut c = cursor(0, 466);
    assert_eq!(c.draw_char('a', 640, 480), Glyph::Draw { at: cursor(0, 466), scrolled: false });
    let mut c = cursor(0, 467);
    assert_eq!(c.draw_char('a', 640, 480), Glyph::Draw { at: cursor(0, 435), scrolled: true });
    assert_eq!(c, cursor(8, 435));
    // both at once
    let mut c = cursor(639, 460);
    assert_eq!(c.draw_char('a', 640, 480), Glyph::Draw { at: cursor(0, 446), scrolled: true });
}

#[test]
fn text_buffer_fills_in_order() {
    let mut buffer = TextBuffer::new();
    assert!(buffer.holds(cursor(0, 0)));
    assert_eq!(buffer.char_at(cursor(0, 0)), 0);
    assert_eq!(buffer.buffer_index(), 0);
    buffer.add_to_buffer(b'a');
    buffer.add_to_buffer(b'b');
    assert_eq!(buffer.buffer_index(), 2);
    assert_eq!(buffer.char_at(cursor(0, 0)), b'a');
    assert_eq!(buffer.char_at(cursor(6, 13)), b'a');
    assert_eq!(buffer.char_at(cursor(7, 0)), b'b');
    assert_eq!(buffer.char_at(cursor(14, 0)), 0);
    assert_eq!(buffer.char_at(cursor(0, 14)), 0);
}

#[test]
fn text_buffer_cells_end_with_the_buffer() {
    let buffer = TextBuffer::new();
    assert!(buffer.holds(cursor(127 * 7, 24 * 14)));
    assert!(buffer.holds(cursor(127 * 7 + 6, 24 * 14 + 13)));
    assert!(!buffer.holds(cursor(0, 25 * 14)));
    assert!(!buffer.holds(cursor(128 * 7, 24 * 14)));
    assert!(!buffer.holds(cursor(-1, 0)));
    assert!(!buffer.holds(cursor(0, -1)));
    assert!(!buffer.holds(cursor(i32::MAX, i32::MAX)));
}

#[test]
fn full_text_buffer_moves_up_by_a_line() {
    let mut buffer = TextBuffer::new();
    for i in 0..BUFFER_SIZE {
        buffer.add_to_buffer((i / BUFFER_COLUMNS) as u8 + 1);
    }
    assert_eq!(buffer.char_at(cursor(0, 0)), 1);
    assert_eq!(buffer.char_at(cursor(0, 24 * 14)), 25);
    assert_eq!(buffer.buffer_index(), 3200);
    buffer.add_to_buffer(99);
    assert_eq!(buffer.buffer_index(), 3200);
    // every line moved up; the new character starts the last line, whose
    // other characters stay
    assert_eq!(buffer.char_at(cursor(0, 0)), 2);
    assert_eq!(buffer.char_at(cursor(127 * 7, 0)), 2);
    assert_eq!(buffer.char_at(cursor(0, 23 * 14)), 25);
    assert_eq!(buffer.char_at(cursor(0, 24 * 14)), 99);
    assert_eq!(buffer.char_at(cursor(7, 24 * 14)), 25);
    buffer.remove_char();
    assert_eq!(buffer.char_at(cursor(127 * 7, 24 * 14)), 0);
    assert_eq!(buffer.char_at(cursor(126 * 7, 24 * 14)), 25);
}

fn small_screen() -> FrameBufferInfo {
    // one row of pixels takes 2 * 1 bytes, four rows make the picture
    FrameBufferInfo { width: 2, height: 4, stride: 2, bytes_per_pixel: 1, pixel_format: PixelFormat::U8 }
}

#[test]
fn shift_lengths_of_a_small_screen() {
    let info = small_screen();
    assert_eq!(info.shift_lengths(1, 10), Some((2, 8)));
    assert_eq!(info.shift_lengths(4, 8), Some((8, 8)));
    assert_eq!(info.shift_lengths(5, 100), None);
    assert_eq!(info.shift_lengths(1, 7), None);
    assert_eq!(info.shift_lengths(0, 8), Some((0, 8)));
    assert_eq!(info.shift_lengths(usize::MAX, 8), None);
}

#[test]
fn picture_moves_towards_the_start() {
    let info = small_screen();
    let mut buffer = vec![1u8, 2, 3, 4, 5, 6, 7, 8, 9, 10];
    shift_framebuffer_down(&mut buffer, &info, 1);
    assert_eq!(buffer, vec![3, 4, 5, 6, 7, 8, 0, 0, 9, 10]);
    shift_framebuffer_down(&mut buffer, &info, 4);
    assert_eq!(buffer, vec![0, 0, 0, 0, 0, 0, 0, 0, 9, 10]);
}

#[test]
fn picture_moves_towards_the_end() {
    let info = small_screen();
    let mut buffer = vec![1u8, 2, 3, 4, 5, 6, 7, 8, 9, 10];
    shift_framebuffer_up(&mut buffer, &info, 1);
    assert_eq!(buffer, vec![0, 0, 1, 2, 3, 4, 5, 6, 9, 10]);
    shift_framebuffer_up(&mut buffer, &info, 3);
    assert_eq!(buffer, vec![0, 0, 0, 0, 0, 0, 0, 0, 9, 10]);
    let mut buffer = vec![1u8, 2, 3, 4, 5, 6, 7, 8];
    shift_framebuffer_up(&mut buffer, &info, 0);
    assert_eq!(buffer, vec![1, 2, 3, 4, 5, 6, 7, 8]);
}

#[test]
fn drawing_records_the_character_and_moves_the_cursor() {
    let mut buffer = TextBuffer::new();
    let mut c = cursor(0, 0);
    assert_eq!(
        draw_char(&mut buffer, &mut c, 'h', 640, 480),
        Glyph::Draw { at: cursor(0, 0), scrolled: false }
    );
    assert_eq!(c, cursor(8, 0));
    assert_eq!(draw_char(&mut buffer, &mut c, '\n', 640, 480), Glyph::Control);
    assert_eq!(c, cursor(0, 18));
    assert_eq!(draw_char(&mut buffer, &mut c, '\r', 640, 480), Glyph::Control);
    assert_eq!(c, cursor(0, 18));
    // a character beyond eight bits is recorded by the low byte of its code
    assert_eq!(
        draw_char(&mut buffer, &mut c, '\u{141}', 640, 480),
        Glyph::Draw { at: cursor(0, 18), scrolled: false }
    );
    assert_eq!(buffer.buffer_index(), 4);
    assert_eq!(buffer.char_at(cursor(0, 0)), b'h');
    assert_eq!(buffer.char_at(cursor(7, 0)), b'\n');
    assert_eq!(buffer.char_at(cursor(14, 0)), b'\r');
    assert_eq!(buffer.char_at(cursor(21, 0)), 0x41);
}
