use vstd::prelude::*;

use vstd::arithmetic::div_mod::{lemma_mod_multiples_basic, lemma_mod_multiples_vanish, lemma_small_mod};

use crate::color::Style;
use crate::scroll_buffer::{blank_line, blank_lines, join_lines, line_text, Cell, Location, Screen, Settings};

verus! {

/// `rows` lines of `columns` spaces joined by newlines, character by character:
/// every `(columns + 1)`-th character is a newline, every other one a space.
pub open spec fn blank_text(rows: nat, columns: nat) -> Seq<char> {
    Seq::new(
        (rows * (columns + 1) - 1) as nat,
        |k: int| if (k + 1) % (columns + 1) as int == 0 { '\n' } else { ' ' },
    )
}

/// The text of an empty buffer is `max_lines` lines of `max_columns` spaces,
/// joined by newlines.
pub proof fn empty_buffer_text(settings: Settings)
    requires
        settings.valid(),
    ensures
        join_lines(Screen::empty(settings).lines) == blank_text(
            settings.max_lines as nat,
            settings.max_columns as nat,
        ),
{
    lemma_blank_lines_text(settings.max_lines as nat, settings.max_columns as nat);
}

proof fn lemma_blank_lines_text(rows: nat, columns: nat)
    requires
        rows >= 1,
    ensures
        join_lines(blank_lines(rows, columns)) == blank_text(rows, columns),
    decreases rows,
{
    let w = columns + 1;
    let lines = blank_lines(rows, columns);
    let spaces = line_text(blank_line(columns));
    assert(spaces =~= Seq::new(columns, |k: int| ' '));
    if rows == 1 {
        assert(rows * w - 1 == columns) by (nonlinear_arith)
            requires
                rows == 1,
                w == columns + 1,
        ;
        assert forall|k: int| 0 <= k < columns implies #[trigger] blank_text(rows, columns)[k] == ' ' by {
            lemma_small_mod((k + 1) as nat, w);
        }
        assert(join_lines(lines) =~= blank_text(rows, columns));
    } else {
        lemma_blank_lines_text((rows - 1) as nat, columns);
        assert(lines.drop_last() =~= blank_lines((rows - 1) as nat, columns));
        let head = blank_text((rows - 1) as nat, columns);
        let n = (rows - 1) * w;
        assert(n >= w) by (nonlinear_arith)
            requires
                rows >= 2,
                n == (rows - 1) * w,
        ;
        assert(rows * w - 1 == n + columns) by (nonlinear_arith)
            requires
                n == (rows - 1) * w,
                w == columns + 1,
        ;
        assert(head.len() == n - 1);
        let text = join_lines(lines);
        assert(text == head + seq!['\n'] + spaces);
        assert forall|k: int| 0 <= k < text.len() implies text[k] == blank_text(rows, columns)[k] by {
            if k == n - 1 {
                lemma_mod_multiples_basic((rows - 1) as int, w as int);
            } else if k >= n {
                lemma_mod_multiples_vanish((rows - 1) as int, k + 1 - n, w as int);
                assert(w * (rows - 1) == n) by (nonlinear_arith)
                    requires
                        n == (rows - 1) * w,
                ;
                lemma_small_mod((k + 1 - n) as nat, w);
            }
        }
        assert(text =~= blank_text(rows, columns));
    }
}

/// A character other than a newline, a carriage return or a tab.
pub open spec fn is_printable(c: char) -> bool {
    c != '\n' && c != '\r' && c != '\t'
}

/// Writing fills the viewport left to right and top to bottom: a printable
/// character lands at the cursor and moves it one column right; past the last
/// column it lands at the start of the next line, and past the last column of
/// the last line it lands at the start of a new line added to the history.
pub proof fn writing_fills_then_wraps(m: Screen, c: char, style: Style)
    requires
        m.wf(),
        is_printable(c),
    ensures
        ({
            let r = m.put(c, style);
            let line = m.cursor.line_number as int;
            let column = m.cursor.column_number as int;
            let written = Cell { character: c, style };
            &&& column < m.columns() ==> r.cell_at(line, column) == written && r.cursor
                == Location::at(line, column + 1)
            &&& column == m.columns() && line + 1 < m.rows() ==> r.cell_at(line + 1, 0) == written
                && r.cursor == Location::at(line + 1, 1)
            &&& column == m.columns() && line + 1 == m.rows() ==> r.cell_at(line, 0) == written
                && r.cursor == Location::at(line, 1) && r.lines.len() == m.evict().lines.len() + 1
        }),
{
}

/// The viewport at no scrollback is exactly the most recent `max_lines` lines.
pub proof fn viewport_is_most_recent_lines(m: Screen)
    requires
        m.wf(),
    ensures
        m.visible(0) == m.lines.subrange(m.lines.len() - m.rows(), m.lines.len() as int),
        m.visible(0).len() == m.rows(),
{
}

/// The history is bounded: after any character at most `max_lines +
/// lines_to_remember + 1` lines stay buffered, the last of them only until the
/// next character. Other than a tab, a character drops the oldest line of a
/// buffer past `max_lines + lines_to_remember`, and keeps the other lines
/// above the viewport in order, none written over.
pub proof fn history_is_bounded(m: Screen, c: char, style: Style)
    requires
        m.wf(),
    ensures
        m.put(c, style).wf(),
        m.put(c, style).lines.len() <= m.retained() + 1,
        m.evict().lines.len() <= m.retained(),
        c != '\t' ==> ({
            let r = m.put(c, style);
            let dropped: int = if m.lines.len() > m.retained() { 1 } else { 0 };
            forall|i: int|
                0 <= i < m.first_visible() - dropped ==> #[trigger] r.lines[i] == m.lines[i + dropped]
        }),
{
    crate::scroll_buffer::lemma_put_wf(m, c, style);
    crate::scroll_buffer::lemma_evict_wf(m);
}

/// A newline moves to the start of the next line and leaves the lines as they
/// were (but for the eviction that precedes every character); on the last
/// line of the viewport it adds a blank line to the history instead.
pub proof fn newline_moves_down(m: Screen, style: Style)
    requires
        m.wf(),
    ensures
        ({
            let r = m.put('\n', style);
            let line = m.cursor.line_number as int;
            &&& r.cursor.column_number == 0
            &&& line + 1 < m.rows() ==> r.cursor.line_number == line + 1 && r.lines == m.evict().lines
                && r.lines.len() <= m.lines.len()
            &&& line + 1 == m.rows() ==> r.cursor.line_number == line && r.lines == m.evict().lines.push(
                blank_line(m.columns()),
            )
        }),
{
}

/// A carriage return moves to the first column of the same line.
pub proof fn carriage_return_keeps_line(m: Screen, style: Style)
    requires
        m.wf(),
    ensures
        m.put('\r', style).cursor == Location::at(m.cursor.line_number as int, 0),
        m.put('\r', style).lines == m.evict().lines,
{
}

/// A backspace at the first column changes nothing; elsewhere it blanks the
/// previous cell and moves the cursor one column back.
pub proof fn backspace_steps_back(m: Screen)
    requires
        m.wf(),
    ensures
        m.cursor.column_number == 0 ==> m.backspaced() == m,
        m.cursor.column_number > 0 ==> ({
            let r = m.backspaced();
            let line = m.cursor.line_number as int;
            let column = m.cursor.column_number as int;
            &&& r.cursor == Location::at(line, column - 1)
            &&& r.cell_at(line, column - 1) == Cell::blank_spec()
            &&& r.lines.len() <= m.lines.len()
            &&& r.wf()
        }),
{
    if m.cursor.column_number > 0 {
        let moved = m.with_cursor(Location::at(m.cursor.line_number as int, m.cursor.column_number - 1));
        crate::scroll_buffer::lemma_put_wf(moved, ' ', Style::plain());
    }
}

} // verus!
