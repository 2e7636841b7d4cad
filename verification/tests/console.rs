use kernel_diag::vga_buffer::{Writer, translate_char_exec, BUFFER_HEIGHT, BUFFER_WIDTH, Color, _print};

const WHITE_ON_BLACK_BLANK: u16 = 0x0F20;

#[test]
fn printable_char_lands_at_cursor_with_attribute() {
    let mut w = Writer::new();
    w.write_char('A');
    assert_eq!(w.cell_at(BUFFER_HEIGHT - 1, 0), 0x0F41);
    assert_eq!(w.column_position(), 1);
    w.write_char('!');
    assert_eq!(w.cell_at(BUFFER_HEIGHT - 1, 1), 0x0F21);
    assert_eq!(w.column_position(), 2);
}

#[test]
fn colors_are_packed_background_high_foreground_low() {
    let mut w = Writer::new();
    assert_eq!(w.colors(), (Color::White, Color::Black));
    w.set_colors(Color::Yellow, Color::Blue);
    assert_eq!(w.colors(), (Color::Yellow, Color::Blue));
    w.write_char('A');
    assert_eq!(w.cell_at(BUFFER_HEIGHT - 1, 0), 0x1E41);
}

#[test]
fn unmapped_characters_become_replacement_byte() {
    assert_eq!(translate_char_exec('\u{00E9}'), 0xFE);
    assert_eq!(translate_char_exec('\t'), 0xFE);
    assert_eq!(translate_char_exec('\u{1F600}'), 0xFE);
    assert_eq!(translate_char_exec('\u{7F}'), 0xFE);
    assert_eq!(translate_char_exec('\u{1F}'), 0xFE);
    let mut w = Writer::new();
    w.write_char('\u{00E9}');
    assert_eq!(w.cell_at(BUFFER_HEIGHT - 1, 0), 0x0FFE);
}

#[test]
fn printable_range_maps_identically() {
    assert_eq!(translate_char_exec(' '), 0x20);
    assert_eq!(translate_char_exec('~'), 0x7E);
    assert_eq!(translate_char_exec('H'), 0x48);
}

#[test]
fn box_glyphs_map_through_table() {
    assert_eq!(translate_char_exec('\u{250C}'), 0xDA);
    assert_eq!(translate_char_exec('\u{2502}'), 0xB3);
    assert_eq!(translate_char_exec('\u{2500}'), 0xC4);
    assert_eq!(translate_char_exec('\u{2518}'), 0xD9);
    assert_eq!(translate_char_exec('\u{256C}'), 0xCE);
}

#[test]
fn empty_string_is_a_no_op() {
    let mut w = Writer::new();
    w.write_str("");
    assert_eq!(w.column_position(), 0);
    for col in 0..BUFFER_WIDTH {
        assert_eq!(w.cell_at(BUFFER_HEIGHT - 1, col), WHITE_ON_BLACK_BLANK);
    }
}

#[test]
fn exact_width_fills_bottom_row_without_advance() {
    let mut w = Writer::new();
    for _ in 0..BUFFER_WIDTH {
        w.write_char('x');
    }
    assert_eq!(w.column_position(), BUFFER_WIDTH);
    for col in 0..BUFFER_WIDTH {
        assert_eq!(w.cell_at(BUFFER_HEIGHT - 1, col), 0x0F78);
        assert_eq!(w.cell_at(BUFFER_HEIGHT - 2, col), WHITE_ON_BLACK_BLANK);
    }
}

#[test]
fn width_plus_one_advances_once_and_lands_at_column_zero() {
    let mut w = Writer::new();
    for _ in 0..BUFFER_WIDTH {
        w.write_char('x');
    }
    w.write_char('y');
    assert_eq!(w.column_position(), 1);
    assert_eq!(w.cell_at(BUFFER_HEIGHT - 1, 0), 0x0F79);
    for col in 1..BUFFER_WIDTH {
        assert_eq!(w.cell_at(BUFFER_HEIGHT - 1, col), WHITE_ON_BLACK_BLANK);
    }
    for col in 0..BUFFER_WIDTH {
        assert_eq!(w.cell_at(BUFFER_HEIGHT - 2, col), 0x0F78);
    }
}

#[test]
fn height_line_advances_clear_the_whole_surface() {
    let mut w = Writer::new();
    w.write_str("some content that should scroll away");
    for _ in 0..BUFFER_HEIGHT {
        w.write_char('\n');
    }
    for row in 0..BUFFER_HEIGHT {
        for col in 0..BUFFER_WIDTH {
            assert_eq!(w.cell_at(row, col), WHITE_ON_BLACK_BLANK);
        }
    }
}

#[test]
fn round_trip_reads_back_the_string() {
    let text = "The quick brown fox";
    let mut w = Writer::new();
    w.write_str(text);
    let bytes: Vec<u8> = text.bytes().collect();
    for (i, b) in bytes.iter().enumerate() {
        let cell = w.cell_at(BUFFER_HEIGHT - 1, i);
        assert_eq!((cell & 0xFF) as u8, *b);
        assert_eq!(cell >> 8, 0x0F);
    }
    assert_eq!(w.column_position(), text.len());
}

#[test]
fn string_ending_at_last_column_leaves_cursor_at_width() {
    let mut w = Writer::new();
    let s: String = std::iter::repeat('a').take(BUFFER_WIDTH).collect();
    w.write_str(&s);
    assert_eq!(w.column_position(), BUFFER_WIDTH);
}

#[test]
fn hello_world_through_formatted_print_path() {
    let mut w = Writer::new();
    _print(&mut w, "Hello World\n");
    let expected: [u16; 11] = [
        0x0F48, 0x0F65, 0x0F6C, 0x0F6C, 0x0F6F, 0x0F20, 0x0F57, 0x0F6F, 0x0F72, 0x0F6C, 0x0F64,
    ];
    for (i, e) in expected.iter().enumerate() {
        assert_eq!(w.cell_at(BUFFER_HEIGHT - 2, i), *e);
    }
    assert_eq!(w.column_position(), 0);
}

#[test]
fn overlay_write_does_not_disturb_cursor_flow() {
    let mut w = Writer::new();
    w.write_str("abc");
    assert_eq!(w.column_position(), 3);
    w.write_str_at(2, 2, "\u{250C}\u{2500}\u{2510}");
    assert_eq!(w.column_position(), 3);
    assert_eq!(w.cell_at(2, 2), 0x0FDA);
    assert_eq!(w.cell_at(2, 3), 0x0FC4);
    assert_eq!(w.cell_at(2, 4), 0x0FBF);
    assert_eq!(w.cell_at(BUFFER_HEIGHT - 1, 0), 0x0F61);
    w.write_char('d');
    assert_eq!(w.cell_at(BUFFER_HEIGHT - 1, 3), 0x0F64);
}

#[test]
fn test_println_simple() {
    let mut w = Writer::new();
    _print(&mut w, "test_println_simple output\n");
}

#[test]
fn test_println_many() {
    let mut w = Writer::new();
    for _ in 0..200 {
        _print(&mut w, "test_println_many output\n");
    }
}

#[test]
fn test_println_output() {
    let mut w = Writer::new();
    _print(&mut w, "Hello World\n");
    let expected: [u16; 11] = [
        0x0F48, 0x0F65, 0x0F6C, 0x0F6C, 0x0F6F, 0x0F20, 0x0F57, 0x0F6F, 0x0F72, 0x0F6C, 0x0F64,
    ];
    let mut screen_chars: Vec<u16> = Vec::new();
    for col in 0..11 {
        screen_chars.push(w.cell_at(BUFFER_HEIGHT - 2, col));
    }
    assert_eq!(screen_chars, expected.to_vec());
}

#[test]
fn newline_scrolls_content_up_one_row() {
    let mut w = Writer::new();
    w.write_str("top");
    w.write_char('\n');
    w.write_str("bottom");
    assert_eq!(w.cell_at(BUFFER_HEIGHT - 2, 0), 0x0F74);
    assert_eq!(w.cell_at(BUFFER_HEIGHT - 2, 1), 0x0F6F);
    assert_eq!(w.cell_at(BUFFER_HEIGHT - 2, 2), 0x0F70);
    assert_eq!(w.cell_at(BUFFER_HEIGHT - 1, 0), 0x0F62);
    assert_eq!(w.column_position(), 6);
}
