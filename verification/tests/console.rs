use vga_console::vga_buffer::print_something;
use vga_console::vga_buffer::Color;
use vga_console::vga_buffer::ColorCode;
use vga_console::vga_buffer::Writer;
use vga_console::vga_buffer::BUFFER_HEIGHT;
use vga_console::vga_buffer::BUFFER_WIDTH;

const ALL_COLORS: [Color; 16] = [
    Color::Black,
    Color::Blue,
    Color::Green,
    Color::Cyan,
    Color::Red,
    Color::Magenta,
    Color::Brown,
    Color::LightGray,
    Color::DarkGray,
    Color::LightBlue,
    Color::LightGreen,
    Color::LightCyan,
    Color::LightRed,
    Color::Pink,
    Color::Yellow,
    Color::White,
];

fn fresh() -> Writer {
    Writer::new(ColorCode::new(Color::Yellow, Color::Black))
}

fn row_string(w: &Writer, row: usize) -> String {
    let mut s = String::new();
    for col in 0..BUFFER_WIDTH {
        s.push(w.cell_at(row, col).ascii_character as char);
    }
    s
}

#[test]
fn pack_yields_background_high_foreground_low() {
    assert_eq!(ColorCode::new(Color::Yellow, Color::Black).0, 0x0e);
    assert_eq!(ColorCode::new(Color::White, Color::Blue).0, 0x1f);
    assert_eq!(ColorCode::new(Color::Black, Color::Black).0, 0x00);
    assert_eq!(ColorCode::new(Color::Black, Color::White).0, 0xf0);
}

#[test]
fn pack_is_injective_over_all_pairs() {
    let mut seen = [false; 256];
    for &bg in ALL_COLORS.iter() {
        for &fg in ALL_COLORS.iter() {
            let byte = ColorCode::new(fg, bg).0 as usize;
            assert!(!seen[byte], "two color pairs packed to the same byte");
            seen[byte] = true;
        }
    }
}

#[test]
fn fresh_writer_is_blank_with_cursor_at_zero() {
    let w = fresh();
    assert_eq!(w.cursor_column(), 0);
    for row in 0..BUFFER_HEIGHT {
        for col in 0..BUFFER_WIDTH {
            let cell = w.cell_at(row, col);
            assert_eq!(cell.ascii_character, b' ');
            assert_eq!(cell.color_code, ColorCode::new(Color::Yellow, Color::Black));
        }
    }
}

#[test]
fn short_string_lands_in_order_on_last_row() {
    let mut w = fresh();
    w.write_string("Hello");
    assert_eq!(w.cursor_column(), 5);
    let last = BUFFER_HEIGHT - 1;
    for (i, b) in b"Hello".iter().enumerate() {
        let cell = w.cell_at(last, i);
        assert_eq!(cell.ascii_character, *b);
        assert_eq!(cell.color_code, ColorCode::new(Color::Yellow, Color::Black));
    }
    assert_eq!(w.cell_at(last, 5).ascii_character, b' ');
    for row in 0..last {
        assert_eq!(row_string(&w, row), " ".repeat(BUFFER_WIDTH));
    }
}

#[test]
fn full_width_then_one_more_scrolls_exactly_once() {
    let mut w = fresh();
    let full: String = "A".repeat(BUFFER_WIDTH);
    w.write_string(&full);
    assert_eq!(w.cursor_column(), BUFFER_WIDTH);
    assert_eq!(row_string(&w, BUFFER_HEIGHT - 1), full);

    w.write_byte(b'B');
    assert_eq!(w.cursor_column(), 1);
    // exactly one scroll: the full row moved up one place
    assert_eq!(row_string(&w, BUFFER_HEIGHT - 2), full);
    assert_eq!(row_string(&w, BUFFER_HEIGHT - 3), " ".repeat(BUFFER_WIDTH));
    // and the extra character starts the fresh last row
    assert_eq!(w.cell_at(BUFFER_HEIGHT - 1, 0).ascii_character, b'B');
    assert_eq!(row_string(&w, BUFFER_HEIGHT - 1), format!("B{}", " ".repeat(BUFFER_WIDTH - 1)));
}

#[test]
fn newline_scrolls_once_and_keeps_the_row() {
    let mut w = fresh();
    w.write_string("abc");
    assert_eq!(w.cursor_column(), 3);
    w.write_byte(b'\n');
    assert_eq!(w.cursor_column(), 0);
    assert_eq!(row_string(&w, BUFFER_HEIGHT - 2), format!("abc{}", " ".repeat(BUFFER_WIDTH - 3)));
    assert_eq!(row_string(&w, BUFFER_HEIGHT - 1), " ".repeat(BUFFER_WIDTH));
}

#[test]
fn height_full_lines_then_one_discard_the_first_line() {
    let mut w = fresh();
    // one full-width line per letter 'A'..; the grid holds BUFFER_HEIGHT rows
    let mut fills: Vec<u8> = Vec::new();
    for k in 0..BUFFER_HEIGHT {
        fills.push(b'A' + (k as u8));
    }
    for &fill in fills.iter() {
        let line: String = (fill as char).to_string().repeat(BUFFER_WIDTH);
        w.write_string(&line);
    }
    w.write_byte(b'!');
    // the most recent lines sit on the rows above the cursor row, in order,
    // and the first line's fill character survives nowhere
    for row in 0..BUFFER_HEIGHT - 1 {
        let expect = (fills[row + 1] as char).to_string().repeat(BUFFER_WIDTH);
        assert_eq!(row_string(&w, row), expect);
    }
    assert_eq!(w.cell_at(BUFFER_HEIGHT - 1, 0).ascii_character, b'!');
    for row in 0..BUFFER_HEIGHT {
        assert!(!row_string(&w, row).contains(fills[0] as char));
    }
}

#[test]
fn unprintable_byte_becomes_one_placeholder_cell() {
    let mut w = fresh();
    w.write_string("\u{0}");
    assert_eq!(w.cursor_column(), 1);
    assert_eq!(w.cell_at(BUFFER_HEIGHT - 1, 0).ascii_character, 0xfe);
    assert_eq!(w.cell_at(BUFFER_HEIGHT - 1, 1).ascii_character, b' ');
}

#[test]
fn multibyte_character_becomes_one_placeholder_per_byte() {
    // the string path substitutes byte by byte: a two-byte encoded character
    // is not reassembled but becomes two placeholder cells
    let mut w = fresh();
    w.write_string("\u{f6}");
    assert_eq!(w.cursor_column(), 2);
    assert_eq!(w.cell_at(BUFFER_HEIGHT - 1, 0).ascii_character, 0xfe);
    assert_eq!(w.cell_at(BUFFER_HEIGHT - 1, 1).ascii_character, 0xfe);
    assert_eq!(w.cell_at(BUFFER_HEIGHT - 1, 2).ascii_character, b' ');
}

#[test]
fn byte_api_accepts_any_byte_unchanged() {
    let mut w = fresh();
    w.write_byte(0x00);
    assert_eq!(w.cell_at(BUFFER_HEIGHT - 1, 0).ascii_character, 0x00);
    assert_eq!(w.cursor_column(), 1);
}

#[test]
fn newline_inside_string_starts_a_new_line() {
    let mut w = fresh();
    w.write_string("a\nb");
    assert_eq!(w.cursor_column(), 1);
    assert_eq!(w.cell_at(BUFFER_HEIGHT - 2, 0).ascii_character, b'a');
    assert_eq!(w.cell_at(BUFFER_HEIGHT - 1, 0).ascii_character, b'b');
}

#[test]
fn long_string_wraps_onto_the_next_row() {
    let mut w = fresh();
    let text: String = format!("{}{}", "x".repeat(BUFFER_WIDTH), "y".repeat(10));
    w.write_string(&text);
    assert_eq!(w.cursor_column(), 10);
    assert_eq!(row_string(&w, BUFFER_HEIGHT - 2), "x".repeat(BUFFER_WIDTH));
    assert_eq!(
        row_string(&w, BUFFER_HEIGHT - 1),
        format!("{}{}", "y".repeat(10), " ".repeat(BUFFER_WIDTH - 10))
    );
}

#[test]
fn scrolled_in_blanks_carry_the_active_color() {
    let code = ColorCode::new(Color::LightCyan, Color::Red);
    let mut w = Writer::new(code);
    w.write_string("z\n");
    for col in 0..BUFFER_WIDTH {
        let cell = w.cell_at(BUFFER_HEIGHT - 1, col);
        assert_eq!(cell.ascii_character, b' ');
        assert_eq!(cell.color_code, code);
    }
    assert_eq!(w.color(), code);
}

#[test]
fn print_something_writes_the_greeting() {
    let w = print_something();
    let last = BUFFER_HEIGHT - 1;
    let expect: [u8; 13] = [
        b'H', b'e', b'l', b'l', b'o', b' ', b'W', 0xfe, 0xfe, b'r', b'l', b'd', b'!',
    ];
    for (i, b) in expect.iter().enumerate() {
        assert_eq!(w.cell_at(last, i).ascii_character, *b);
    }
    assert_eq!(w.cursor_column(), 13);
}

#[test]
fn locked_writers_never_interleave_whole_writes() {
    // the global-console discipline: a caller holds the spin lock for the
    // whole of its write, so full lines land contiguously
    let console = spin::Mutex::new(fresh());
    {
        let mut guard = console.lock();
        guard.write_string("first caller\n");
    }
    {
        let mut guard = console.lock();
        guard.write_string("second caller\n");
    }
    let w = console.lock();
    assert_eq!(
        row_string(&w, BUFFER_HEIGHT - 3),
        format!("first caller{}", " ".repeat(BUFFER_WIDTH - 12))
    );
    assert_eq!(
        row_string(&w, BUFFER_HEIGHT - 2),
        format!("second caller{}", " ".repeat(BUFFER_WIDTH - 13))
    );
}
