//! Properties of the console driver that relate several operations, stated
//! and proved over the same specification functions the operations' own
//! contracts use.

use vstd::prelude::*;

use crate::vga_buffer::blank_char;
use crate::vga_buffer::blank_row;
use crate::vga_buffer::printable;
use crate::vga_buffer::scrolled;
use crate::vga_buffer::spec_write_byte;
use crate::vga_buffer::spec_write_bytes;
use crate::vga_buffer::spec_write_string;
use crate::vga_buffer::substituted;
use crate::vga_buffer::Color;
use crate::vga_buffer::ColorCode;
use crate::vga_buffer::ScreenChar;
use crate::vga_buffer::WriterView;
use crate::vga_buffer::lemma_write_byte_wf;
use crate::vga_buffer::lemma_write_bytes_snoc;
use crate::vga_buffer::lemma_write_bytes_wf;
use crate::vga_buffer::BUFFER_HEIGHT;
use crate::vga_buffer::BUFFER_WIDTH;
use crate::vga_buffer::NEWLINE;
use crate::vga_buffer::PLACEHOLDER;

verus! {

/// Packing two colors into a byte is injective: two `(foreground, background)`
/// pairs pack to the same byte only if they are the same pair.
pub proof fn lemma_pack_injective(f1: Color, b1: Color, f2: Color, b2: Color)
    requires
        ((b1.spec_code() << 4) | f1.spec_code()) == ((b2.spec_code() << 4) | f2.spec_code()),
    ensures
        f1 == f2,
        b1 == b2,
{
    let x1: u8 = b1.spec_code();
    let y1: u8 = f1.spec_code();
    let x2: u8 = b2.spec_code();
    let y2: u8 = f2.spec_code();
    assert((x1 <= 15 && y1 <= 15 && x2 <= 15 && y2 <= 15 && ((x1 << 4) | y1) == ((x2 << 4) | y2))
        ==> (x1 == x2 && y1 == y2)) by (bit_vector);
}

/// Substitution leaves a sequence of printable bytes and newlines unchanged.
proof fn lemma_substituted_identity(s: Seq<u8>)
    requires
        forall|i: int| 0 <= i < s.len() ==> printable(#[trigger] s[i]) || s[i] == NEWLINE,
    ensures
        s.map_values(|b: u8| substituted(b)) =~= s,
{
}

/// Writing printable bytes that fit in the current row never scrolls: the
/// cursor advances by the byte count, the bytes land in order at the cursor
/// on the last row in the active color, and every other cell is untouched.
pub proof fn lemma_printable_run(v: WriterView, s: Seq<u8>)
    requires
        v.wf(),
        forall|i: int| 0 <= i < s.len() ==> printable(#[trigger] s[i]),
        v.col + s.len() <= BUFFER_WIDTH,
    ensures
        spec_write_bytes(v, s).wf(),
        spec_write_bytes(v, s).col == v.col + s.len(),
        spec_write_bytes(v, s).color == v.color,
        forall|r: int|
            0 <= r < BUFFER_HEIGHT - 1 ==> #[trigger] spec_write_bytes(v, s).screen[r]
                == v.screen[r],
        forall|c: int|
            0 <= c < v.col ==> #[trigger] spec_write_bytes(v, s).screen[BUFFER_HEIGHT - 1][c]
                == v.screen[BUFFER_HEIGHT - 1][c],
        forall|c: int|
            v.col <= c < v.col + s.len() ==> #[trigger] spec_write_bytes(
                v,
                s,
            ).screen[BUFFER_HEIGHT - 1][c] == (ScreenChar {
                ascii_character: s[c - v.col],
                color_code: v.color,
            }),
        forall|c: int|
            v.col + s.len() <= c < BUFFER_WIDTH ==> #[trigger] spec_write_bytes(
                v,
                s,
            ).screen[BUFFER_HEIGHT - 1][c] == v.screen[BUFFER_HEIGHT - 1][c],
    decreases s.len(),
{
    lemma_write_bytes_wf(v, s);
    if s.len() > 0 {
        let v1 = spec_write_byte(v, s[0]);
        assert(printable(s[0]));
        assert(s[0] != NEWLINE);
        assert(v.col < BUFFER_WIDTH);
        lemma_write_byte_wf(v, s[0]);
        assert forall|i: int| 0 <= i < s.drop_first().len() implies printable(
            #[trigger] s.drop_first()[i],
        ) by {
            assert(s.drop_first()[i] == s[i + 1]);
        }
        lemma_printable_run(v1, s.drop_first());
        assert(spec_write_bytes(v, s) == spec_write_bytes(v1, s.drop_first()));
        assert forall|c: int|
            v.col <= c < v.col + s.len() implies #[trigger] spec_write_bytes(
            v,
            s,
        ).screen[BUFFER_HEIGHT - 1][c] == (ScreenChar {
            ascii_character: s[c - v.col],
            color_code: v.color,
        }) by {
            if c == v.col {
                assert(spec_write_bytes(v1, s.drop_first()).screen[BUFFER_HEIGHT - 1][c]
                    == v1.screen[BUFFER_HEIGHT - 1][c]);
            } else {
                assert(s.drop_first()[c - v1.col] == s[c - v.col]);
            }
        }
    }
}

/// Writing a printable text shorter than the width, from column zero, leaves
/// the cursor at the text's length, places each character in order from
/// column zero of the last row in the active color, and scrolls nothing.
pub proof fn lemma_short_printable_string(v: WriterView, s: Seq<u8>)
    requires
        v.wf(),
        v.col == 0,
        s.len() < BUFFER_WIDTH,
        forall|i: int| 0 <= i < s.len() ==> printable(#[trigger] s[i]),
    ensures
        spec_write_string(v, s).col == s.len(),
        spec_write_string(v, s).color == v.color,
        forall|r: int|
            0 <= r < BUFFER_HEIGHT - 1 ==> #[trigger] spec_write_string(v, s).screen[r]
                == v.screen[r],
        forall|i: int|
            0 <= i < s.len() ==> #[trigger] spec_write_string(v, s).screen[BUFFER_HEIGHT - 1][i]
                == (ScreenChar { ascii_character: s[i], color_code: v.color }),
        forall|c: int|
            s.len() <= c < BUFFER_WIDTH ==> #[trigger] spec_write_string(
                v,
                s,
            ).screen[BUFFER_HEIGHT - 1][c] == v.screen[BUFFER_HEIGHT - 1][c],
{
    lemma_substituted_identity(s);
    lemma_printable_run(v, s);
}

/// Writing exactly one full row of printable characters and then one more,
/// from column zero, scrolls exactly once: the full row moves up one place,
/// the extra character lands at column zero of the now blank last row, and
/// the cursor stands at one.
pub proof fn lemma_full_row_then_one_scrolls_once(v: WriterView, s: Seq<u8>, b: u8)
    requires
        v.wf(),
        v.col == 0,
        s.len() == BUFFER_WIDTH,
        forall|i: int| 0 <= i < s.len() ==> printable(#[trigger] s[i]),
        printable(b),
    ensures
        spec_write_string(v, s).col == BUFFER_WIDTH,
        spec_write_string(v, s.push(b)) == spec_write_byte(spec_write_string(v, s), b),
        spec_write_string(v, s.push(b)).col == 1,
        forall|r: int|
            0 <= r < BUFFER_HEIGHT - 1 ==> #[trigger] spec_write_string(v, s.push(b)).screen[r]
                == spec_write_string(v, s).screen[r + 1],
        forall|i: int|
            0 <= i < BUFFER_WIDTH ==> #[trigger] spec_write_string(
                v,
                s,
            ).screen[BUFFER_HEIGHT - 1][i] == (ScreenChar {
                ascii_character: s[i],
                color_code: v.color,
            }),
        spec_write_string(v, s.push(b)).screen[BUFFER_HEIGHT - 1][0] == (ScreenChar {
            ascii_character: b,
            color_code: v.color,
        }),
        forall|c: int|
            1 <= c < BUFFER_WIDTH ==> #[trigger] spec_write_string(
                v,
                s.push(b),
            ).screen[BUFFER_HEIGHT - 1][c] == blank_char(v.color),
{
    lemma_substituted_identity(s);
    lemma_printable_run(v, s);
    let mid = spec_write_string(v, s);
    assert forall|i: int| 0 <= i < s.push(b).len() implies printable(#[trigger] s.push(b)[i])
        || s.push(b)[i] == NEWLINE by {
        if i < s.len() {
            assert(s.push(b)[i] == s[i]);
        } else {
            assert(s.push(b)[i] == b);
        }
    }
    lemma_substituted_identity(s.push(b));
    lemma_write_bytes_snoc(v, s, b);
    assert(spec_write_string(v, s.push(b)) == spec_write_byte(mid, b));
    assert(b != NEWLINE);
    assert(mid.col == BUFFER_WIDTH);
    let r = spec_write_byte(mid, b);
    assert forall|row: int| 0 <= row < BUFFER_HEIGHT - 1 implies #[trigger] r.screen[row]
        == mid.screen[row + 1] by {
        assert(scrolled(mid.screen, mid.color)[row] == mid.screen[row + 1]);
    }
    assert(scrolled(mid.screen, mid.color)[BUFFER_HEIGHT - 1] == blank_row(mid.color));
}

/// Writing the newline code with the cursor past column zero scrolls exactly
/// once and resets the cursor to column zero; no character already written
/// to the last row is lost — the whole row moves up one place.
pub proof fn lemma_newline_scrolls_once(v: WriterView)
    requires
        v.wf(),
        v.col > 0,
    ensures
        spec_write_byte(v, NEWLINE).col == 0,
        spec_write_byte(v, NEWLINE).color == v.color,
        spec_write_byte(v, NEWLINE).screen == scrolled(v.screen, v.color),
        spec_write_byte(v, NEWLINE).screen[BUFFER_HEIGHT - 2] == v.screen[BUFFER_HEIGHT - 1],
        forall|r: int|
            0 <= r < BUFFER_HEIGHT - 1 ==> #[trigger] spec_write_byte(v, NEWLINE).screen[r]
                == v.screen[r + 1],
{
    assert forall|r: int| 0 <= r < BUFFER_HEIGHT - 1 implies #[trigger] spec_write_byte(
        v,
        NEWLINE,
    ).screen[r] == v.screen[r + 1] by {
        assert(scrolled(v.screen, v.color)[r] == v.screen[r + 1]);
    }
}

/// A byte outside the printable range, and not the newline code, fed through
/// the string path produces exactly one placeholder cell at the cursor —
/// never the byte itself — and touches no other cell.
pub proof fn lemma_unprintable_byte_substituted(v: WriterView, b: u8)
    requires
        v.wf(),
        !printable(b),
        b != NEWLINE,
        v.col < BUFFER_WIDTH,
    ensures
        spec_write_string(v, seq![b]) == spec_write_byte(v, PLACEHOLDER),
        spec_write_string(v, seq![b]).col == v.col + 1,
        spec_write_string(v, seq![b]).screen[BUFFER_HEIGHT - 1][v.col as int] == (ScreenChar {
            ascii_character: PLACEHOLDER,
            color_code: v.color,
        }),
        forall|r: int|
            0 <= r < BUFFER_HEIGHT - 1 ==> #[trigger] spec_write_string(v, seq![b]).screen[r]
                == v.screen[r],
        forall|c: int|
            0 <= c < BUFFER_WIDTH && c != v.col ==> #[trigger] spec_write_string(
                v,
                seq![b],
            ).screen[BUFFER_HEIGHT - 1][c] == v.screen[BUFFER_HEIGHT - 1][c],
{
    assert(substituted(b) == PLACEHOLDER);
    assert(seq![b].map_values(|x: u8| substituted(x)) =~= seq![PLACEHOLDER]);
    assert(seq![PLACEHOLDER] =~= Seq::<u8>::empty().push(PLACEHOLDER));
    lemma_write_bytes_snoc(v, Seq::<u8>::empty(), PLACEHOLDER);
    assert(spec_write_bytes(v, Seq::<u8>::empty()) == v);
}

/// The row of cells a full-width byte line paints in the given color.
pub open spec fn rendered(l: Seq<u8>, color: ColorCode) -> Seq<ScreenChar> {
    Seq::new(
        BUFFER_WIDTH as nat,
        |i: int| ScreenChar { ascii_character: l[i], color_code: color },
    )
}

/// The writer state after a sequence of byte lines, first line first.
pub open spec fn spec_write_lines(v: WriterView, lines: Seq<Seq<u8>>) -> WriterView
    decreases lines.len(),
{
    if lines.len() == 0 {
        v
    } else {
        spec_write_lines(spec_write_bytes(v, lines[0]), lines.drop_first())
    }
}

/// Writing the concatenation of two byte sequences is writing them in turn.
pub proof fn lemma_write_bytes_append(v: WriterView, s1: Seq<u8>, s2: Seq<u8>)
    ensures
        spec_write_bytes(v, s1 + s2) == spec_write_bytes(spec_write_bytes(v, s1), s2),
    decreases s1.len(),
{
    if s1.len() == 0 {
        assert(s1 + s2 =~= s2);
    } else {
        assert((s1 + s2)[0] == s1[0]);
        assert((s1 + s2).drop_first() =~= s1.drop_first() + s2);
        lemma_write_bytes_append(spec_write_byte(v, s1[0]), s1.drop_first(), s2);
        assert(spec_write_bytes(v, s1 + s2) == spec_write_bytes(
            spec_write_byte(v, s1[0]),
            s1.drop_first() + s2,
        ));
        assert(spec_write_bytes(v, s1) == spec_write_bytes(
            spec_write_byte(v, s1[0]),
            s1.drop_first(),
        ));
    }
}

/// Writing the flattening of a sequence of lines is writing the lines in
/// turn.
pub proof fn lemma_write_flatten(v: WriterView, lines: Seq<Seq<u8>>)
    ensures
        spec_write_bytes(v, lines.flatten()) == spec_write_lines(v, lines),
    decreases lines.len(),
{
    if lines.len() == 0 {
        assert(lines.flatten() =~= Seq::<u8>::empty());
    } else {
        assert(lines.flatten() == lines.first() + lines.drop_first().flatten());
        assert(lines.first() == lines[0]);
        lemma_write_bytes_append(v, lines[0], lines.drop_first().flatten());
        lemma_write_flatten(spec_write_bytes(v, lines[0]), lines.drop_first());
    }
}

/// A full-width printable line written from column zero fills the last row
/// exactly, leaves every other row alone, and parks the cursor at the width.
pub proof fn lemma_full_line_from_col_zero(v: WriterView, l: Seq<u8>)
    requires
        v.wf(),
        v.col == 0,
        l.len() == BUFFER_WIDTH,
        forall|i: int| 0 <= i < l.len() ==> printable(#[trigger] l[i]),
    ensures
        spec_write_bytes(v, l) == (WriterView {
            screen: v.screen.update(BUFFER_HEIGHT - 1, rendered(l, v.color)),
            col: BUFFER_WIDTH as nat,
            color: v.color,
        }),
{
    lemma_printable_run(v, l);
    assert(spec_write_bytes(v, l).screen =~~= v.screen.update(
        BUFFER_HEIGHT - 1,
        rendered(l, v.color),
    ));
    assert(spec_write_bytes(v, l) =~~= (WriterView {
        screen: v.screen.update(BUFFER_HEIGHT - 1, rendered(l, v.color)),
        col: BUFFER_WIDTH as nat,
        color: v.color,
    }));
}

/// A full-width printable line written with the cursor already at the width
/// scrolls once and then fills the fresh last row exactly.
pub proof fn lemma_full_line_from_full_col(v: WriterView, l: Seq<u8>)
    requires
        v.wf(),
        v.col == BUFFER_WIDTH,
        l.len() == BUFFER_WIDTH,
        forall|i: int| 0 <= i < l.len() ==> printable(#[trigger] l[i]),
    ensures
        spec_write_bytes(v, l) == (WriterView {
            screen: scrolled(v.screen, v.color).update(BUFFER_HEIGHT - 1, rendered(l, v.color)),
            col: BUFFER_WIDTH as nat,
            color: v.color,
        }),
{
    assert(printable(l[0]));
    assert(l[0] != NEWLINE);
    let v1 = spec_write_byte(v, l[0]);
    lemma_write_byte_wf(v, l[0]);
    assert forall|i: int| 0 <= i < l.drop_first().len() implies printable(
        #[trigger] l.drop_first()[i],
    ) by {
        assert(l.drop_first()[i] == l[i + 1]);
    }
    lemma_printable_run(v1, l.drop_first());
    assert(spec_write_bytes(v, l) == spec_write_bytes(v1, l.drop_first()));
    let target = scrolled(v.screen, v.color).update(BUFFER_HEIGHT - 1, rendered(l, v.color));
    assert forall|c: int| 0 <= c < BUFFER_WIDTH implies #[trigger] spec_write_bytes(
        v,
        l,
    ).screen[BUFFER_HEIGHT - 1][c] == rendered(l, v.color)[c] by {
        if c == 0 {
            assert(spec_write_bytes(v1, l.drop_first()).screen[BUFFER_HEIGHT - 1][0]
                == v1.screen[BUFFER_HEIGHT - 1][0]);
        } else {
            assert(l.drop_first()[c - 1] == l[c]);
        }
    }
    assert(spec_write_bytes(v, l).screen =~~= target);
    assert(spec_write_bytes(v, l) =~~= (WriterView {
        screen: target,
        col: BUFFER_WIDTH as nat,
        color: v.color,
    }));
}

/// Full-width printable lines written in turn with the cursor at the width
/// fill the last rows in order, each line pushing the earlier content up one
/// row.
pub proof fn lemma_full_lines_run(v: WriterView, lines: Seq<Seq<u8>>)
    requires
        v.wf(),
        v.col == BUFFER_WIDTH,
        lines.len() <= BUFFER_HEIGHT,
        forall|j: int| 0 <= j < lines.len() ==> (#[trigger] lines[j]).len() == BUFFER_WIDTH,
        forall|j: int, i: int|
            0 <= j < lines.len() && 0 <= i < lines[j].len() ==> printable(#[trigger] lines[j][i]),
    ensures
        spec_write_lines(v, lines).wf(),
        spec_write_lines(v, lines).col == BUFFER_WIDTH,
        spec_write_lines(v, lines).color == v.color,
        forall|r: int|
            0 <= r < BUFFER_HEIGHT - lines.len() ==> #[trigger] spec_write_lines(v, lines).screen[r]
                == v.screen[r + lines.len()],
        forall|r: int|
            BUFFER_HEIGHT - lines.len() <= r < BUFFER_HEIGHT ==> #[trigger] spec_write_lines(
                v,
                lines,
            ).screen[r] == rendered(lines[r - BUFFER_HEIGHT + lines.len()], v.color),
    decreases lines.len(),
{
    if lines.len() > 0 {
        lemma_full_line_from_full_col(v, lines[0]);
        let v1 = spec_write_bytes(v, lines[0]);
        assert forall|r: int| 0 <= r < v1.screen.len() implies (#[trigger] v1.screen[r]).len()
            == BUFFER_WIDTH by {
            assert(rendered(lines[0], v.color).len() == BUFFER_WIDTH);
            assert(blank_row(v.color).len() == BUFFER_WIDTH);
        }
        assert(v1.wf());
        assert forall|j: int| 0 <= j < lines.drop_first().len() implies (#[trigger] lines.drop_first()[j]).len()
            == BUFFER_WIDTH by {
            assert(lines.drop_first()[j] == lines[j + 1]);
        }
        assert forall|j: int, i: int|
            0 <= j < lines.drop_first().len() && 0 <= i < lines.drop_first()[j].len() implies printable(
            #[trigger] lines.drop_first()[j][i],
        ) by {
            assert(lines.drop_first()[j] == lines[j + 1]);
        }
        lemma_full_lines_run(v1, lines.drop_first());
        assert(spec_write_lines(v, lines) == spec_write_lines(v1, lines.drop_first()));
        let m = lines.len();
        assert forall|r: int| BUFFER_HEIGHT - m <= r < BUFFER_HEIGHT implies #[trigger] spec_write_lines(
            v,
            lines,
        ).screen[r] == rendered(lines[r - BUFFER_HEIGHT + m], v.color) by {
            if r < BUFFER_HEIGHT - m + 1 {
                // the first line's row, reached through the rows the later
                // lines left alone
                assert(spec_write_lines(v1, lines.drop_first()).screen[r] == v1.screen[r + m - 1]);
                assert(v1.screen[BUFFER_HEIGHT - 1] == rendered(lines[0], v.color));
            } else {
                assert(spec_write_lines(v1, lines.drop_first()).screen[r] == rendered(
                    lines.drop_first()[r - BUFFER_HEIGHT + m - 1],
                    v.color,
                ));
                assert(lines.drop_first()[r - BUFFER_HEIGHT + m - 1] == lines[r - BUFFER_HEIGHT
                    + m]);
            }
        }
    }
}

/// After a screen's height of consecutive full-width printable lines and one
/// more printable character, written from column zero, the earliest line's
/// content occupies no row: every row above the last holds the rendering of
/// a later line, in order, and the last row holds only the extra character.
pub proof fn lemma_full_screen_discards_first_line(v: WriterView, lines: Seq<Seq<u8>>, b: u8)
    requires
        v.wf(),
        v.col == 0,
        lines.len() == BUFFER_HEIGHT,
        forall|j: int| 0 <= j < lines.len() ==> (#[trigger] lines[j]).len() == BUFFER_WIDTH,
        forall|j: int, i: int|
            0 <= j < lines.len() && 0 <= i < lines[j].len() ==> printable(#[trigger] lines[j][i]),
        printable(b),
    ensures
        spec_write_bytes(v, lines.flatten().push(b)).col == 1,
        forall|r: int|
            0 <= r < BUFFER_HEIGHT - 1 ==> #[trigger] spec_write_bytes(
                v,
                lines.flatten().push(b),
            ).screen[r] == rendered(lines[r + 1], v.color),
        spec_write_bytes(v, lines.flatten().push(b)).screen[BUFFER_HEIGHT - 1][0] == (ScreenChar {
            ascii_character: b,
            color_code: v.color,
        }),
        forall|c: int|
            1 <= c < BUFFER_WIDTH ==> #[trigger] spec_write_bytes(
                v,
                lines.flatten().push(b),
            ).screen[BUFFER_HEIGHT - 1][c] == blank_char(v.color),
{
    lemma_write_bytes_snoc(v, lines.flatten(), b);
    lemma_write_flatten(v, lines);
    lemma_full_line_from_col_zero(v, lines[0]);
    let v1 = spec_write_bytes(v, lines[0]);
    assert forall|r: int| 0 <= r < v1.screen.len() implies (#[trigger] v1.screen[r]).len()
        == BUFFER_WIDTH by {
        assert(rendered(lines[0], v.color).len() == BUFFER_WIDTH);
    }
    assert(v1.wf());
    assert forall|j: int| 0 <= j < lines.drop_first().len() implies (#[trigger] lines.drop_first()[j]).len()
        == BUFFER_WIDTH by {
        assert(lines.drop_first()[j] == lines[j + 1]);
    }
    assert forall|j: int, i: int|
        0 <= j < lines.drop_first().len() && 0 <= i < lines.drop_first()[j].len() implies printable(
        #[trigger] lines.drop_first()[j][i],
    ) by {
        assert(lines.drop_first()[j] == lines[j + 1]);
    }
    lemma_full_lines_run(v1, lines.drop_first());
    let full = spec_write_lines(v1, lines.drop_first());
    assert(spec_write_lines(v, lines) == full);
    // after all the lines: the first line's rendering sits on the top row,
    // the later lines fill the rows below in order
    assert(full.screen[0] == v1.screen[BUFFER_HEIGHT - 1]);
    assert(full.screen[0] == rendered(lines[0], v.color));
    assert forall|r: int| 1 <= r < BUFFER_HEIGHT implies #[trigger] full.screen[r] == rendered(
        lines[r],
        v.color,
    ) by {
        assert(lines.drop_first()[r - 1] == lines[r]);
    }
    // the extra character scrolls once more, pushing the first line off
    let r = spec_write_byte(full, b);
    assert(spec_write_bytes(v, lines.flatten().push(b)) == r);
    assert(b != NEWLINE);
    assert forall|row: int| 0 <= row < BUFFER_HEIGHT - 1 implies #[trigger] r.screen[row]
        == rendered(lines[row + 1], v.color) by {
        assert(scrolled(full.screen, full.color)[row] == full.screen[row + 1]);
    }
    assert(scrolled(full.screen, full.color)[BUFFER_HEIGHT - 1] == blank_row(v.color));
}

} // verus!
