use vga_buffer::{Buffer, Color, ColorCode, ScreenChar, BUFFER_HEIGHT, BUFFER_WIDTH};

fn cell(byte: u8, foreground: Color, background: Color) -> ScreenChar {
    ScreenChar { char_ascii: byte, color_code: ColorCode::new(foreground, background) }
}

#[test]
fn screen_is_eighty_by_twenty_five() {
    assert_eq!(BUFFER_WIDTH, 80);
    assert_eq!(BUFFER_HEIGHT, 25);
}

#[test]
fn filled_buffer_holds_the_cell_everywhere() {
    let dot = cell(b'.', Color::LightGray, Color::Blue);
    let buffer = Buffer::filled(dot);
    for row in 0..BUFFER_HEIGHT {
        for col in 0..BUFFER_WIDTH {
            assert_eq!(buffer.read(row, col), dot);
        }
    }
}

#[test]
fn filled_buffer_keeps_character_and_color_apart() {
    let buffer = Buffer::filled(cell(b'#', Color::Pink, Color::Cyan));
    let corner = buffer.read(BUFFER_HEIGHT - 1, BUFFER_WIDTH - 1);
    assert_eq!(corner.char_ascii, b'#');
    assert_eq!(corner.color_code.bits(), 0x3d);
}

#[test]
fn written_cell_reads_back() {
    let mut buffer = Buffer::filled(cell(b' ', Color::Yellow, Color::Black));
    let mark = cell(b'Q', Color::White, Color::Red);
    buffer.write(7, 42, mark);
    assert_eq!(buffer.read(7, 42), mark);
    assert_eq!(buffer.read(7, 42).char_ascii, b'Q');
    assert_eq!(buffer.read(7, 42).color_code.bits(), 0x4f);
}

#[test]
fn write_changes_one_cell_only() {
    let space = cell(b' ', Color::Yellow, Color::Black);
    let mut buffer = Buffer::filled(space);
    let mark = cell(b'Q', Color::White, Color::Red);
    buffer.write(7, 42, mark);
    for row in 0..BUFFER_HEIGHT {
        for col in 0..BUFFER_WIDTH {
            let expected = if row == 7 && col == 42 { mark } else { space };
            assert_eq!(buffer.read(row, col), expected);
        }
    }
}

#[test]
fn later_write_replaces_earlier_one() {
    let mut buffer = Buffer::filled(cell(b' ', Color::Yellow, Color::Black));
    buffer.write(0, 0, cell(b'a', Color::Green, Color::Black));
    buffer.write(0, 0, cell(b'b', Color::Red, Color::Black));
    assert_eq!(buffer.read(0, 0), cell(b'b', Color::Red, Color::Black));
}

#[test]
fn corners_are_distinct_cells() {
    let mut buffer = Buffer::filled(cell(b' ', Color::Yellow, Color::Black));
    let last_row = BUFFER_HEIGHT - 1;
    let last_col = BUFFER_WIDTH - 1;
    buffer.write(0, 0, cell(b'1', Color::White, Color::Black));
    buffer.write(0, last_col, cell(b'2', Color::White, Color::Black));
    buffer.write(last_row, 0, cell(b'3', Color::White, Color::Black));
    buffer.write(last_row, last_col, cell(b'4', Color::White, Color::Black));
    assert_eq!(buffer.read(0, 0).char_ascii, b'1');
    assert_eq!(buffer.read(0, last_col).char_ascii, b'2');
    assert_eq!(buffer.read(last_row, 0).char_ascii, b'3');
    assert_eq!(buffer.read(last_row, last_col).char_ascii, b'4');
}

#[test]
fn cell_is_two_bytes_and_buffer_has_no_gaps() {
    assert_eq!(core::mem::size_of::<ColorCode>(), 1);
    assert_eq!(core::mem::size_of::<ScreenChar>(), 2);
    assert_eq!(core::mem::size_of::<Buffer>(), 2 * BUFFER_WIDTH * BUFFER_HEIGHT);
    assert_eq!(core::mem::align_of::<Buffer>(), 1);
}
