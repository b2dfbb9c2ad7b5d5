//! The console driver proper: colors, screen cells, the volatile cell grid,
//! and the writer that wraps lines and scrolls the screen.

use vstd::prelude::*;
use vstd::slice::slice_index_get;
use vstd::string::StringSliceAdditionalSpecFns;

verus! {

/// Number of text rows on the screen.
pub const BUFFER_HEIGHT: usize = 25;

/// Number of text columns on the screen.
pub const BUFFER_WIDTH: usize = 80;

/// The newline control code, the only byte the writer treats specially.
pub const NEWLINE: u8 = 0x0a;

/// The glyph written in place of a byte outside the printable range.
pub const PLACEHOLDER: u8 = 0xfe;

/// The character a cleared cell holds.
pub const BLANK: u8 = 0x20;

/// The 16 fixed 4-bit color codes of the text-mode palette.
#[derive(Debug, Clone, Copy, PartialEq, Eq, Structural)]
pub enum Color {
    Black,
    Blue,
    Green,
    Cyan,
    Red,
    Magenta,
    Brown,
    LightGray,
    DarkGray,
    LightBlue,
    LightGreen,
    LightCyan,
    LightRed,
    Pink,
    Yellow,
    White,
}

impl Color {
    /// The 4-bit hardware code of this color.
    pub open spec fn spec_code(self) -> u8 {
        match self {
            Color::Black => 0,
            Color::Blue => 1,
            Color::Green => 2,
            Color::Cyan => 3,
            Color::Red => 4,
            Color::Magenta => 5,
            Color::Brown => 6,
            Color::LightGray => 7,
            Color::DarkGray => 8,
            Color::LightBlue => 9,
            Color::LightGreen => 10,
            Color::LightCyan => 11,
            Color::LightRed => 12,
            Color::Pink => 13,
            Color::Yellow => 14,
            Color::White => 15,
        }
    }

    /// Returns the 4-bit hardware code of this color.
    pub fn code(self) -> (r: u8)
        ensures
            r == self.spec_code(),
    {
        match self {
            Color::Black => 0,
            Color::Blue => 1,
            Color::Green => 2,
            Color::Cyan => 3,
            Color::Red => 4,
            Color::Magenta => 5,
            Color::Brown => 6,
            Color::LightGray => 7,
            Color::DarkGray => 8,
            Color::LightBlue => 9,
            Color::LightGreen => 10,
            Color::LightCyan => 11,
            Color::LightRed => 12,
            Color::Pink => 13,
            Color::Yellow => 14,
            Color::White => 15,
        }
    }
}

/// A full color byte: background color in the high four bits, foreground in
/// the low four.
#[derive(Debug, Clone, Copy, PartialEq, Eq, Structural)]
pub struct ColorCode(pub u8);

impl ColorCode {
    /// The packed byte for a pair of colors: `background << 4 | foreground`.
    pub open spec fn spec_new(foreground: Color, background: Color) -> ColorCode {
        ColorCode((background.spec_code() << 4) | foreground.spec_code())
    }

    /// Packs a foreground and a background color into one byte,
    /// `background << 4 | foreground`.
    pub fn new(foreground: Color, background: Color) -> (r: ColorCode)
        ensures
            r == ColorCode::spec_new(foreground, background),
            r.0 == (background.spec_code() << 4) | foreground.spec_code(),
    {
        ColorCode((background.code() << 4) | foreground.code())
    }
}

/// One cell of the text grid: a code point and its color, character byte
/// first, as the hardware lays cells out.
#[derive(Debug, Clone, Copy, PartialEq, Eq, Structural)]
pub struct ScreenChar {
    pub ascii_character: u8,
    pub color_code: ColorCode,
}

/// Declares the outside `Volatile` wrapper type so its values can stand in
/// the cell grid; the wrapper is opaque here, reached only through the
/// trusted accessors below.
#[verifier::external_type_specification]
#[verifier::external_body]
#[verifier::reject_recursive_types(T)]
pub struct ExVolatile<T: Copy>(volatile::Volatile<T>);

/// The screen cell a `Volatile` wrapper currently holds.
pub uninterp spec fn cell_of(v: volatile::Volatile<ScreenChar>) -> ScreenChar;

/// Relies on `volatile::Volatile::new`: wraps the given value, which a later
/// volatile read returns.
#[verifier::external_body]
fn volatile_new(value: ScreenChar) -> (r: volatile::Volatile<ScreenChar>)
    ensures
        cell_of(r) == value,
{
    volatile::Volatile::new(value)
}

/// Relies on `volatile::Volatile::read`: a volatile read, never optimized
/// away, returning a copy of the wrapped value.
#[verifier::external_body]
fn volatile_read(v: &volatile::Volatile<ScreenChar>) -> (r: ScreenChar)
    ensures
        r == cell_of(*v),
{
    v.read()
}

/// Relies on `volatile::Volatile::write`: a volatile write, never optimized
/// away, replacing the wrapped value.
#[verifier::external_body]
fn volatile_write(v: &mut volatile::Volatile<ScreenChar>, value: ScreenChar)
    ensures
        cell_of(*final(v)) == value,
{
    v.write(value)
}

/// The fixed grid of volatile screen cells the writer draws into.
pub struct Buffer {
    chars: Vec<Vec<volatile::Volatile<ScreenChar>>>,
}

impl View for Buffer {
    type V = Seq<Seq<ScreenChar>>;

    closed spec fn view(&self) -> Seq<Seq<ScreenChar>> {
        Seq::new(
            self.chars@.len(),
            |r: int| Seq::new(self.chars@[r]@.len(), |c: int| cell_of(self.chars@[r]@[c])),
        )
    }
}

impl Buffer {
    /// The grid has exactly the hardware's row and column counts.
    pub open spec fn wf(&self) -> bool {
        &&& self@.len() == BUFFER_HEIGHT
        &&& forall|r: int| 0 <= r < self@.len() ==> (#[trigger] self@[r]).len() == BUFFER_WIDTH
    }

    /// Reads one cell of the grid through a volatile read.
    fn read_cell(&self, row: usize, col: usize) -> (r: ScreenChar)
        requires
            self.wf(),
            row < BUFFER_HEIGHT,
            col < BUFFER_WIDTH,
        ensures
            r == self@[row as int][col as int],
    {
        proof {
            assert(self.chars@.len() == self@.len());
            assert(self@[row as int].len() == self.chars@[row as int]@.len());
        }
        volatile_read(&self.chars[row][col])
    }

    /// Overwrites one cell of the grid through a volatile write.
    fn write_cell(&mut self, row: usize, col: usize, value: ScreenChar)
        requires
            old(self).wf(),
            row < BUFFER_HEIGHT,
            col < BUFFER_WIDTH,
        ensures
            final(self).wf(),
            final(self)@ == old(self)@.update(
                row as int,
                old(self)@[row as int].update(col as int, value),
            ),
    {
        proof {
            assert(old(self).chars@.len() == old(self)@.len());
            assert(old(self)@[row as int].len() == old(self).chars@[row as int]@.len());
        }
        let row_vec: &mut Vec<volatile::Volatile<ScreenChar>> = &mut self.chars[row];
        let cell: &mut volatile::Volatile<ScreenChar> = &mut row_vec[col];
        volatile_write(cell, value);
        proof {
            assert(self@ =~~= old(self)@.update(
                row as int,
                old(self)@[row as int].update(col as int, value),
            ));
        }
    }
}

/// The mathematical state of a writer: the visible screen, the cursor
/// column, and the active color.
#[verifier::ext_equal]
pub ghost struct WriterView {
    pub screen: Seq<Seq<ScreenChar>>,
    pub col: nat,
    pub color: ColorCode,
}

/// A screen of exactly the hardware's row and column counts.
pub open spec fn wf_screen(s: Seq<Seq<ScreenChar>>) -> bool {
    &&& s.len() == BUFFER_HEIGHT
    &&& forall|r: int| 0 <= r < s.len() ==> (#[trigger] s[r]).len() == BUFFER_WIDTH
}

impl WriterView {
    /// The cursor stays within the row and the screen has the fixed shape.
    pub open spec fn wf(self) -> bool {
        &&& self.col <= BUFFER_WIDTH
        &&& wf_screen(self.screen)
    }
}

/// A blank cell: a space in the given color.
pub open spec fn blank_char(color: ColorCode) -> ScreenChar {
    ScreenChar { ascii_character: BLANK, color_code: color }
}

/// A full row of blank cells.
pub open spec fn blank_row(color: ColorCode) -> Seq<ScreenChar> {
    Seq::new(BUFFER_WIDTH as nat, |c: int| blank_char(color))
}

/// An all-blank screen.
pub open spec fn blank_screen(color: ColorCode) -> Seq<Seq<ScreenChar>> {
    Seq::new(BUFFER_HEIGHT as nat, |r: int| blank_row(color))
}

/// The screen after one scroll: every row but the first moves up one place,
/// the first row's content is discarded, and the last row becomes blank in
/// the given color.
pub open spec fn scrolled(s: Seq<Seq<ScreenChar>>, color: ColorCode) -> Seq<Seq<ScreenChar>> {
    Seq::new(
        BUFFER_HEIGHT as nat,
        |r: int| if r < BUFFER_HEIGHT - 1 { s[r + 1] } else { blank_row(color) },
    )
}

/// The writer state after one byte: newline scrolls and resets the column;
/// any other byte — after a scroll if the row is already full — lands at the
/// cursor on the last row and advances the cursor.
pub open spec fn spec_write_byte(v: WriterView, byte: u8) -> WriterView {
    if byte == NEWLINE {
        WriterView { screen: scrolled(v.screen, v.color), col: 0, color: v.color }
    } else {
        let screen0 = if v.col >= BUFFER_WIDTH { scrolled(v.screen, v.color) } else { v.screen };
        let col0: nat = if v.col >= BUFFER_WIDTH { 0nat } else { v.col };
        let cell = ScreenChar { ascii_character: byte, color_code: v.color };
        WriterView {
            screen: screen0.update(
                BUFFER_HEIGHT - 1,
                screen0[BUFFER_HEIGHT - 1].update(col0 as int, cell),
            ),
            col: col0 + 1,
            color: v.color,
        }
    }
}

/// The writer state after a sequence of bytes, first byte first.
pub open spec fn spec_write_bytes(v: WriterView, s: Seq<u8>) -> WriterView
    decreases s.len(),
{
    if s.len() == 0 {
        v
    } else {
        spec_write_bytes(spec_write_byte(v, s[0]), s.drop_first())
    }
}

/// True of the bytes the hardware can show: the printable range.
pub open spec fn printable(b: u8) -> bool {
    0x20 <= b <= 0x7e
}

/// The byte the string path hands on: printable bytes and newline pass
/// unchanged, every other byte becomes the placeholder.
pub open spec fn substituted(b: u8) -> u8 {
    if printable(b) || b == NEWLINE {
        b
    } else {
        PLACEHOLDER
    }
}

/// The writer state after a text: each byte of the text's encoding is
/// substituted and then written.
pub open spec fn spec_write_string(v: WriterView, bytes: Seq<u8>) -> WriterView {
    spec_write_bytes(v, bytes.map_values(|b: u8| substituted(b)))
}

/// One written byte keeps the writer state well formed.
pub proof fn lemma_write_byte_wf(v: WriterView, byte: u8)
    requires
        v.wf(),
    ensures
        spec_write_byte(v, byte).wf(),
{
    let r = spec_write_byte(v, byte);
    assert forall|i: int| 0 <= i < r.screen.len() implies (#[trigger] r.screen[i]).len()
        == BUFFER_WIDTH by {
        assert(blank_row(v.color).len() == BUFFER_WIDTH);
    }
}

/// A written byte sequence keeps the writer state well formed.
pub proof fn lemma_write_bytes_wf(v: WriterView, s: Seq<u8>)
    requires
        v.wf(),
    ensures
        spec_write_bytes(v, s).wf(),
    decreases s.len(),
{
    if s.len() > 0 {
        lemma_write_byte_wf(v, s[0]);
        lemma_write_bytes_wf(spec_write_byte(v, s[0]), s.drop_first());
    }
}

/// Writing a sequence and then one more byte is writing that byte after the
/// sequence.
pub proof fn lemma_write_bytes_snoc(v: WriterView, s: Seq<u8>, b: u8)
    ensures
        spec_write_bytes(v, s.push(b)) == spec_write_byte(spec_write_bytes(v, s), b),
    decreases s.len(),
{
    if s.len() == 0 {
        assert(s.push(b)[0] == b);
        assert(s.push(b).drop_first() =~= Seq::<u8>::empty());
        assert(spec_write_bytes(v, s.push(b)) == spec_write_bytes(
            spec_write_byte(v, b),
            Seq::<u8>::empty(),
        ));
        assert(spec_write_bytes(v, s) == v);
    } else {
        assert(s.push(b)[0] == s[0]);
        assert(s.push(b).drop_first() =~= s.drop_first().push(b));
        lemma_write_bytes_snoc(spec_write_byte(v, s[0]), s.drop_first(), b);
        assert(spec_write_bytes(v, s.push(b)) == spec_write_bytes(
            spec_write_byte(v, s[0]),
            s.drop_first().push(b),
        ));
        assert(spec_write_bytes(v, s) == spec_write_bytes(
            spec_write_byte(v, s[0]),
            s.drop_first(),
        ));
    }
}

/// Writes into the last row of the cell grid, wrapping full rows and
/// scrolling; every access to the grid goes through it.
pub struct Writer {
    column_position: usize,
    color_code: ColorCode,
    buffer: Buffer,
}

impl View for Writer {
    type V = WriterView;

    closed spec fn view(&self) -> WriterView {
        WriterView {
            screen: self.buffer@,
            col: self.column_position as nat,
            color: self.color_code,
        }
    }
}

impl Writer {
    /// The writer's state is well formed.
    pub open spec fn wf(&self) -> bool {
        self@.wf()
    }

    /// Builds a writer over a freshly blanked grid, cursor at column zero.
    pub fn new(color_code: ColorCode) -> (w: Writer)
        ensures
            w.wf(),
            w@.col == 0,
            w@.color == color_code,
            w@.screen == blank_screen(color_code),
    {
        let blank = ScreenChar { ascii_character: BLANK, color_code };
        let mut chars: Vec<Vec<volatile::Volatile<ScreenChar>>> = Vec::new();
        let mut row: usize = 0;
        while row < BUFFER_HEIGHT
            invariant
                row <= BUFFER_HEIGHT,
                blank == blank_char(color_code),
                chars@.len() == row,
                forall|r: int| 0 <= r < row ==> (#[trigger] chars@[r])@.len() == BUFFER_WIDTH,
                forall|r: int, c: int|
                    0 <= r < row && 0 <= c < BUFFER_WIDTH ==> cell_of(
                        #[trigger] chars@[r]@[c],
                    ) == blank_char(color_code),
            decreases BUFFER_HEIGHT - row,
        {
            let mut line: Vec<volatile::Volatile<ScreenChar>> = Vec::new();
            let mut col: usize = 0;
            while col < BUFFER_WIDTH
                invariant
                    col <= BUFFER_WIDTH,
                    line@.len() == col,
                    blank == blank_char(color_code),
                    forall|c: int|
                        0 <= c < col ==> cell_of(#[trigger] line@[c]) == blank_char(color_code),
                decreases BUFFER_WIDTH - col,
            {
                line.push(volatile_new(blank));
                col = col + 1;
            }
            chars.push(line);
            row = row + 1;
        }
        let w = Writer { column_position: 0, color_code, buffer: Buffer { chars } };
        proof {
            assert(w@.screen =~~= blank_screen(color_code));
        }
        w
    }

    /// Writes one byte: newline scrolls and resets the column; any other
    /// byte — after a scroll if the row is already full — is placed at the
    /// cursor on the last row in the active color, and the cursor advances.
    pub fn write_byte(&mut self, byte: u8)
        requires
            old(self).wf(),
        ensures
            final(self).wf(),
            final(self)@ == spec_write_byte(old(self)@, byte),
    {
        if byte == NEWLINE {
            self.new_line();
        } else {
            if self.column_position >= BUFFER_WIDTH {
                self.new_line();
            }
            let row: usize = BUFFER_HEIGHT - 1;
            let col: usize = self.column_position;
            let color_code = self.color_code;
            self.buffer.write_cell(row, col, ScreenChar { ascii_character: byte, color_code });
            self.column_position = self.column_position + 1;
        }
    }

    /// Writes a text as its raw code units: printable bytes and the newline
    /// code pass through unchanged, every other byte of the encoding is
    /// first replaced by the placeholder.
    pub fn write_string(&mut self, s: &str)
        requires
            old(self).wf(),
        ensures
            final(self).wf(),
            final(self)@ == spec_write_string(old(self)@, s.spec_bytes()),
    {
        let bytes: &[u8] = s.as_bytes();
        let n: usize = bytes.len();
        let mut i: usize = 0;
        while i < n
            invariant
                i <= n,
                self.wf(),
                n == bytes@.len(),
                bytes@ == s.spec_bytes(),
                self@ == spec_write_bytes(
                    old(self)@,
                    bytes@.take(i as int).map_values(|b: u8| substituted(b)),
                ),
            decreases n - i,
        {
            let byte: u8 = *slice_index_get(bytes, i);
            if (0x20 <= byte && byte <= 0x7e) || byte == NEWLINE {
                self.write_byte(byte);
            } else {
                self.write_byte(PLACEHOLDER);
            }
            proof {
                lemma_write_bytes_snoc(
                    old(self)@,
                    bytes@.take(i as int).map_values(|b: u8| substituted(b)),
                    substituted(bytes@[i as int]),
                );
                assert(bytes@.take(i + 1).map_values(|b: u8| substituted(b)) =~= bytes@.take(
                    i as int,
                ).map_values(|b: u8| substituted(b)).push(substituted(bytes@[i as int])));
            }
            i = i + 1;
        }
        proof {
            assert(bytes@.take(n as int) =~= bytes@);
        }
    }

    /// Scrolls: every row but the first moves up one place, the first row is
    /// discarded, the last row is blanked in the active color, and the
    /// cursor returns to column zero.
    fn new_line(&mut self)
        requires
            old(self).wf(),
        ensures
            final(self).wf(),
            final(self)@ == (WriterView {
                screen: scrolled(old(self)@.screen, old(self)@.color),
                col: 0,
                color: old(self)@.color,
            }),
    {
        let mut row: usize = 1;
        while row < BUFFER_HEIGHT
            invariant
                1 <= row <= BUFFER_HEIGHT,
                self.wf(),
                self@.color == old(self)@.color,
                self@.col == old(self)@.col,
                forall|i: int| 0 <= i < row - 1 ==> self@.screen[i] == old(self)@.screen[i + 1],
                forall|i: int|
                    row - 1 <= i < BUFFER_HEIGHT ==> self@.screen[i] == old(self)@.screen[i],
            decreases BUFFER_HEIGHT - row,
        {
            let mut col: usize = 0;
            while col < BUFFER_WIDTH
                invariant
                    1 <= row < BUFFER_HEIGHT,
                    col <= BUFFER_WIDTH,
                    self.wf(),
                    self@.color == old(self)@.color,
                    self@.col == old(self)@.col,
                    forall|i: int| 0 <= i < row - 1 ==> self@.screen[i] == old(self)@.screen[i + 1],
                    forall|i: int|
                        row <= i < BUFFER_HEIGHT ==> self@.screen[i] == old(self)@.screen[i],
                    forall|c: int|
                        0 <= c < col ==> (#[trigger] self@.screen[row - 1][c]) == old(
                            self,
                        )@.screen[row as int][c],
                    forall|c: int|
                        col <= c < BUFFER_WIDTH ==> (#[trigger] self@.screen[row - 1][c]) == old(
                            self,
                        )@.screen[row - 1][c],
                decreases BUFFER_WIDTH - col,
            {
                let character = self.buffer.read_cell(row, col);
                self.buffer.write_cell(row - 1, col, character);
                col = col + 1;
            }
            row = row + 1;
        }
        self.clear_row(BUFFER_HEIGHT - 1);
        self.column_position = 0;
        proof {
            assert(self@.screen =~~= scrolled(old(self)@.screen, old(self)@.color));
        }
    }

    /// Overwrites every cell of the given row with a blank cell in the
    /// active color.
    fn clear_row(&mut self, row: usize)
        requires
            old(self).wf(),
            row < BUFFER_HEIGHT,
        ensures
            final(self).wf(),
            final(self)@ == (WriterView {
                screen: old(self)@.screen.update(row as int, blank_row(old(self)@.color)),
                col: old(self)@.col,
                color: old(self)@.color,
            }),
    {
        let blank = ScreenChar { ascii_character: BLANK, color_code: self.color_code };
        let mut col: usize = 0;
        while col < BUFFER_WIDTH
            invariant
                row < BUFFER_HEIGHT,
                col <= BUFFER_WIDTH,
                self.wf(),
                self@.color == old(self)@.color,
                self@.col == old(self)@.col,
                blank == blank_char(old(self)@.color),
                forall|i: int|
                    0 <= i < BUFFER_HEIGHT && i != row ==> self@.screen[i] == old(self)@.screen[i],
                forall|c: int|
                    0 <= c < col ==> self@.screen[row as int][c] == blank_char(old(self)@.color),
                forall|c: int|
                    col <= c < BUFFER_WIDTH ==> self@.screen[row as int][c] == old(
                        self,
                    )@.screen[row as int][c],
            decreases BUFFER_WIDTH - col,
        {
            self.buffer.write_cell(row, col, blank);
            col = col + 1;
        }
        proof {
            assert(self@.screen =~~= old(self)@.screen.update(
                row as int,
                blank_row(old(self)@.color),
            ));
        }
    }

    /// The current cursor column.
    pub fn cursor_column(&self) -> (c: usize)
        ensures
            c == self@.col,
    {
        self.column_position
    }

    /// The active color code.
    pub fn color(&self) -> (c: ColorCode)
        ensures
            c == self@.color,
    {
        self.color_code
    }

    /// Reads the cell at the given row and column.
    pub fn cell_at(&self, row: usize, col: usize) -> (r: ScreenChar)
        requires
            self.wf(),
            row < BUFFER_HEIGHT,
            col < BUFFER_WIDTH,
        ensures
            r == self@.screen[row as int][col as int],
    {
        self.buffer.read_cell(row, col)
    }
}

/// Builds a writer in yellow on black and writes a short greeting through
/// the byte and the string paths; the non-ASCII characters take the lossy
/// string path. Returns the writer, whose screen holds what was drawn.
pub fn print_something() -> (w: Writer)
    ensures
        w.wf(),
        w@ == spec_write_string(
            spec_write_string(
                spec_write_byte(
                    WriterView {
                        screen: blank_screen(ColorCode::spec_new(Color::Yellow, Color::Black)),
                        col: 0,
                        color: ColorCode::spec_new(Color::Yellow, Color::Black),
                    },
                    0x48,
                ),
                "ello ".spec_bytes(),
            ),
            "W\u{f6}rld!".spec_bytes(),
        ),
{
    let mut writer = Writer::new(ColorCode::new(Color::Yellow, Color::Black));
    writer.write_byte(0x48);
    writer.write_string("ello ");
    writer.write_string("W\u{f6}rld!");
    writer
}

} // verus!
