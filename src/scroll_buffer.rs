use vstd::prelude::*;

use crate::color::Style;
use crate::TextSlice;

verus! {

/// A cell in the grid.
#[derive(Clone, Copy, Debug, PartialEq, Eq, Structural)]
pub struct Cell {
    /// What character is displayed.
    pub character: char,
    /// The style of the character.
    pub style: Style,
}

/// Scroll buffer settings.
#[derive(Clone, Copy, Debug, PartialEq, Eq)]
pub struct Settings {
    /// The maximum number of columns that can be displayed at once.
    pub max_columns: usize,
    /// The maximum number of lines that can be displayed at once.
    pub max_lines: usize,
    /// The number of spaces used to render tab characters.
    pub tab_width: usize,
    /// The number of lines to keep in the history.
    pub lines_to_remember: usize,
}

/// A location; the line is counted from the top of the viewport.
#[derive(Clone, Copy, Debug, PartialEq, Eq, PartialOrd, Ord, Structural)]
pub struct Location {
    /// The zero-based line number relative to the top-left.
    pub line_number: usize,
    /// The zero-based column number relative to the top-left.
    pub column_number: usize,
}

/// A constant-width line in the buffer.
struct Line {
    /// The cells in the line; every line of a buffer is `max_columns` long.
    cells: Vec<Cell>,
}

/// A scrollable terminal screen with a bounded history.
pub struct ScrollBuffer {
    settings: Settings,
    /// The lines in the buffer, oldest first; the last `max_lines` are visible.
    lines: Vec<Line>,
    /// The cursor location.
    cursor: Location,
}

/// The abstract state of a scroll buffer.
pub struct Screen {
    pub settings: Settings,
    /// Every buffered line, oldest first.
    pub lines: Seq<Seq<Cell>>,
    pub cursor: Location,
}

impl Cell {
    pub open spec fn blank_spec() -> Cell {
        Cell { character: ' ', style: Style::plain() }
    }

    /// A space in the plain style.
    pub fn blank() -> (r: Cell)
        ensures
            r == Cell::blank_spec(),
    {
        Cell { character: ' ', style: Style::default_style() }
    }
}

impl Default for Cell {
    fn default() -> (r: Cell)
        ensures
            r == Cell::blank_spec(),
    {
        Cell::blank()
    }
}

impl Settings {
    /// Settings that a buffer can be built from: a non-empty viewport, and sizes
    /// whose products and sums fit in a `usize`.
    pub open spec fn valid(&self) -> bool {
        &&& self.max_columns >= 1
        &&& self.max_lines >= 1
        &&& self.max_lines + self.lines_to_remember + 1 <= usize::MAX
        &&& self.max_lines * self.max_columns <= usize::MAX
    }
}

/// A line of `columns` blank cells.
pub open spec fn blank_line(columns: nat) -> Seq<Cell> {
    Seq::new(columns, |i: int| Cell::blank_spec())
}

/// `rows` blank lines of `columns` cells.
pub open spec fn blank_lines(rows: nat, columns: nat) -> Seq<Seq<Cell>> {
    Seq::new(rows, |i: int| blank_line(columns))
}

/// The characters of a line.
pub open spec fn line_text(line: Seq<Cell>) -> Seq<char> {
    line.map_values(|c: Cell| c.character)
}

/// The characters of the lines, joined by newlines.
pub open spec fn join_lines(lines: Seq<Seq<Cell>>) -> Seq<char>
    decreases lines.len(),
{
    if lines.len() == 0 {
        Seq::empty()
    } else if lines.len() == 1 {
        line_text(lines[0])
    } else {
        join_lines(lines.drop_last()) + seq!['\n'] + line_text(lines.last())
    }
}

/// The maximal runs of equally styled cells of a line, left to right, each as
/// its text and style.
pub open spec fn style_runs(line: Seq<Cell>) -> Seq<(Seq<char>, Style)>
    decreases line.len(),
{
    if line.len() == 0 {
        Seq::empty()
    } else {
        let runs = style_runs(line.drop_last());
        let c = line.last();
        if runs.len() > 0 && runs.last().1 == c.style {
            runs.update(runs.len() - 1, (runs.last().0.push(c.character), c.style))
        } else {
            runs.push((seq![c.character], c.style))
        }
    }
}

/// The style runs of each line, each line closed by a newline run in the style
/// of its last cell.
pub open spec fn line_slices(lines: Seq<Seq<Cell>>) -> Seq<(Seq<char>, Style)>
    decreases lines.len(),
{
    if lines.len() == 0 {
        Seq::empty()
    } else {
        line_slices(lines.drop_last()) + style_runs(lines.last()) + seq![
            (seq!['\n'], lines.last().last().style),
        ]
    }
}

/// The text and style of each slice.
pub open spec fn slices_view(slices: Seq<TextSlice>) -> Seq<(Seq<char>, Style)> {
    slices.map_values(|t: TextSlice| (t.text@, t.style))
}

/// Relies on `String::push`: appends one character.
#[verifier::external_body]
fn push_char(s: &mut String, c: char)
    ensures
        final(s)@ == old(s)@.push(c),
{
    s.push(c)
}

impl Location {
    pub open spec fn at(line: int, column: int) -> Location {
        Location { line_number: line as usize, column_number: column as usize }
    }

    /// The location one past the last column of the last viewport line.
    pub open spec fn eof_spec(settings: Settings) -> Location {
        Location::at(settings.max_lines - 1, settings.max_columns as int)
    }

    /// The top-left location.
    pub fn top_left() -> (r: Location)
        ensures
            r == Location::at(0, 0),
    {
        Location { line_number: 0, column_number: 0 }
    }

    /// Gets the EOF cursor location.
    pub fn eof(settings: &Settings) -> (r: Location)
        requires
            settings.max_lines >= 1,
        ensures
            r == Location::eof_spec(*settings),
    {
        Location { line_number: settings.max_lines - 1, column_number: settings.max_columns }
    }

    /// Moves to the first column of the line.
    pub fn carriage_return(&mut self) -> (r: &mut Self)
        ensures
            *r == Location::at(old(self).line_number as int, 0),
            *final(self) == *final(r),
    {
        self.column_number = 0;
        self
    }

    /// Moves down one line.
    pub fn line_feed(&mut self) -> (r: &mut Self)
        requires
            old(self).line_number < usize::MAX,
        ensures
            *r == Location::at(old(self).line_number + 1, old(self).column_number as int),
            *final(self) == *final(r),
    {
        self.line_number += 1;
        self
    }

    /// Checks if the cursor is at the very end.
    pub fn is_eof(&self, settings: &Settings) -> (r: bool)
        requires
            settings.max_lines >= 1,
        ensures
            r == (*self == Location::eof_spec(*settings)),
    {
        *self == Location::eof(settings)
    }
}

impl Screen {
    pub open spec fn columns(self) -> nat {
        self.settings.max_columns as nat
    }

    pub open spec fn rows(self) -> nat {
        self.settings.max_lines as nat
    }

    /// The largest number of lines that stays buffered before the oldest goes.
    pub open spec fn retained(self) -> nat {
        (self.settings.max_lines + self.settings.lines_to_remember) as nat
    }

    pub open spec fn wf(self) -> bool {
        &&& self.settings.valid()
        &&& self.rows() <= self.lines.len() <= self.retained() + 1
        &&& forall|i: int| 0 <= i < self.lines.len() ==> #[trigger] self.lines[i].len() == self.columns()
        &&& self.cursor.line_number < self.rows()
        &&& self.cursor.column_number <= self.columns()
    }

    /// The index of the first line of the viewport.
    pub open spec fn first_visible(self) -> int {
        self.lines.len() - self.rows()
    }

    /// The index of the first visible line when scrolled back by `offset` lines.
    pub open spec fn first_visible_at(self, offset: nat) -> int {
        if offset >= self.first_visible() {
            0
        } else {
            self.first_visible() - offset
        }
    }

    /// The lines visible when scrolled back by `offset` lines.
    pub open spec fn visible(self, offset: nat) -> Seq<Seq<Cell>> {
        self.lines.subrange(self.first_visible_at(offset), self.first_visible_at(offset) + self.rows())
    }

    /// The cell at viewport location `(line, column)`.
    pub open spec fn cell_at(self, line: int, column: int) -> Cell {
        self.lines[self.first_visible() + line][column]
    }

    pub open spec fn with_cursor(self, cursor: Location) -> Screen {
        Screen { cursor, ..self }
    }

    /// The oldest line is dropped once the history holds more than it retains.
    pub open spec fn evict(self) -> Screen {
        if self.lines.len() > self.retained() {
            Screen { lines: self.lines.drop_first(), ..self }
        } else {
            self
        }
    }

    pub open spec fn push_blank(self) -> Screen {
        Screen { lines: self.lines.push(blank_line(self.columns())), ..self }
    }

    /// Writes a printable character at the cursor, wrapping or growing the
    /// history first where the cursor is past the end of its line.
    pub open spec fn write_plain(self, character: char, style: Style) -> Screen {
        let m = if self.cursor == Location::eof_spec(self.settings) {
            self.push_blank().with_cursor(Location::at(self.cursor.line_number as int, 0))
        } else if self.cursor.column_number >= self.columns() {
            self.with_cursor(Location::at(self.cursor.line_number + 1, 0))
        } else {
            self
        };
        let index = m.first_visible() + m.cursor.line_number;
        let column = m.cursor.column_number as int;
        Screen {
            lines: m.lines.update(index, m.lines[index].update(column, Cell { character, style })),
            cursor: Location::at(m.cursor.line_number as int, column + 1),
            ..m
        }
    }

    pub open spec fn put_plain(self, character: char, style: Style) -> Screen {
        self.evict().write_plain(character, style)
    }

    /// `n` plain spaces, one after the other.
    pub open spec fn put_spaces(self, n: nat) -> Screen
        decreases n,
    {
        if n == 0 {
            self
        } else {
            self.put_spaces((n - 1) as nat).put_plain(' ', Style::plain())
        }
    }

    /// The screen after one character is placed.
    pub open spec fn put(self, character: char, style: Style) -> Screen {
        let m = self.evict();
        let line = m.cursor.line_number as int;
        if character == '\n' {
            if line == m.rows() - 1 {
                m.push_blank().with_cursor(Location::at(line, 0))
            } else {
                m.with_cursor(Location::at(line + 1, 0))
            }
        } else if character == '\r' {
            m.with_cursor(Location::at(line, 0))
        } else if character == '\t' {
            m.put_spaces(m.settings.tab_width as nat)
        } else {
            m.write_plain(character, style)
        }
    }

    /// The screen after each character of `s` is placed in the plain style.
    pub open spec fn put_all(self, s: Seq<char>) -> Screen
        decreases s.len(),
    {
        if s.len() == 0 {
            self
        } else {
            self.put_all(s.drop_last()).put(s.last(), Style::plain())
        }
    }

    /// The screen after a backspace: the previous cell blanked, the cursor one
    /// column back.
    pub open spec fn backspaced(self) -> Screen {
        let line = self.cursor.line_number as int;
        let column = self.cursor.column_number as int;
        if column == 0 {
            self
        } else {
            let m = self.with_cursor(Location::at(line, column - 1)).put(' ', Style::plain());
            m.with_cursor(Location::at(m.cursor.line_number as int, m.cursor.column_number - 1))
        }
    }

    /// The screen with every viewport line blanked; history and cursor kept.
    pub open spec fn visible_cleared(self) -> Screen {
        Screen { lines: self.lines.take(self.first_visible()) + blank_lines(self.rows(), self.columns()), ..self }
    }

    /// A full viewport of blank lines with the cursor at the top left.
    pub open spec fn empty(settings: Settings) -> Screen {
        Screen {
            settings,
            lines: blank_lines(settings.max_lines as nat, settings.max_columns as nat),
            cursor: Location::at(0, 0),
        }
    }
}

pub(crate) proof fn lemma_evict_wf(m: Screen)
    requires
        m.wf(),
    ensures
        m.evict().wf(),
        m.evict().lines.len() <= m.retained(),
        m.evict().settings == m.settings,
        m.evict().cursor == m.cursor,
{
}

proof fn lemma_write_plain_wf(m: Screen, character: char, style: Style)
    requires
        m.wf(),
        m.lines.len() <= m.retained(),
    ensures
        m.write_plain(character, style).wf(),
        m.write_plain(character, style).settings == m.settings,
{
    let w = m.write_plain(character, style);
    assert forall|i: int| 0 <= i < w.lines.len() implies #[trigger] w.lines[i].len() == w.columns() by {
        if i < m.lines.len() {
            assert(m.lines[i].len() == m.columns());
        }
    }
}

proof fn lemma_put_plain_wf(m: Screen, character: char, style: Style)
    requires
        m.wf(),
    ensures
        m.put_plain(character, style).wf(),
        m.put_plain(character, style).settings == m.settings,
{
    lemma_evict_wf(m);
    lemma_write_plain_wf(m.evict(), character, style);
}

proof fn lemma_put_spaces_wf(m: Screen, n: nat)
    requires
        m.wf(),
    ensures
        m.put_spaces(n).wf(),
        m.put_spaces(n).settings == m.settings,
    decreases n,
{
    if n > 0 {
        lemma_put_spaces_wf(m, (n - 1) as nat);
        lemma_put_plain_wf(m.put_spaces((n - 1) as nat), ' ', Style::plain());
    }
}

pub(crate) proof fn lemma_put_wf(m: Screen, character: char, style: Style)
    requires
        m.wf(),
    ensures
        m.put(character, style).wf(),
        m.put(character, style).settings == m.settings,
{
    lemma_evict_wf(m);
    let e = m.evict();
    if character == '\t' {
        lemma_put_spaces_wf(e, e.settings.tab_width as nat);
    } else if character != '\n' && character != '\r' {
        lemma_write_plain_wf(e, character, style);
    } else {
        let p = e.push_blank();
        assert forall|i: int| 0 <= i < p.lines.len() implies #[trigger] p.lines[i].len() == p.columns() by {
            if i < e.lines.len() {
                assert(e.lines[i].len() == e.columns());
            }
        }
    }
}

pub(crate) proof fn lemma_put_all_wf(m: Screen, s: Seq<char>)
    requires
        m.wf(),
    ensures
        m.put_all(s).wf(),
        m.put_all(s).settings == m.settings,
    decreases s.len(),
{
    if s.len() > 0 {
        lemma_put_all_wf(m, s.drop_last());
        lemma_put_wf(m.put_all(s.drop_last()), s.last(), Style::plain());
    }
}

impl View for ScrollBuffer {
    type V = Screen;

    closed spec fn view(&self) -> Screen {
        Screen {
            settings: self.settings,
            lines: self.lines@.map_values(|l: Line| l.cells@),
            cursor: self.cursor,
        }
    }
}

impl Line {
    /// Creates a blank line.
    fn new(settings: &Settings) -> (r: Line)
        ensures
            r.cells@ == blank_line(settings.max_columns as nat),
    {
        let mut cells: Vec<Cell> = Vec::new();
        for i in 0..settings.max_columns
            invariant
                cells@ == blank_line(i as nat),
        {
            cells.push(Cell::blank());
            assert(cells@ =~= blank_line((i + 1) as nat));
        }
        Line { cells }
    }
}

impl ScrollBuffer {
    pub open spec fn wf(&self) -> bool {
        self@.wf()
    }

    /// Creates a buffer holding one viewport of blank lines, the cursor at the top left.
    pub fn new(settings: Settings) -> (r: ScrollBuffer)
        requires
            settings.valid(),
        ensures
            r.wf(),
            r@ == Screen::empty(settings),
    {
        let mut lines: Vec<Line> = Vec::new();
        for i in 0..settings.max_lines
            invariant
                lines@.len() == i,
                forall|j: int| 0 <= j < i ==> #[trigger] lines@[j].cells@ == blank_line(settings.max_columns as nat),
        {
            let line = Line::new(&settings);
            lines.push(line);
        }
        assert(lines@.map_values(|l: Line| l.cells@) =~= blank_lines(settings.max_lines as nat, settings.max_columns as nat));
        let r = ScrollBuffer { lines, cursor: Location::top_left(), settings };
        assert(r@ =~= Screen::empty(settings));
        r
    }

    fn lines_in_scroll_buffer(&self) -> (r: usize)
        requires
            self.wf(),
        ensures
            r == self@.first_visible(),
    {
        self.lines.len() - self.settings.max_lines
    }

    fn first_visible_line_index_no_scroll(&self) -> (r: usize)
        requires
            self.wf(),
        ensures
            r == self@.first_visible(),
    {
        self.lines_in_scroll_buffer()
    }

    fn first_visible_line_index(&self, scrollback_line_count: usize) -> (r: usize)
        requires
            self.wf(),
        ensures
            r == self@.first_visible_at(scrollback_line_count as nat),
    {
        if scrollback_line_count >= self.lines_in_scroll_buffer() {
            0
        } else {
            self.first_visible_line_index_no_scroll() - scrollback_line_count
        }
    }

    fn add_new_whitespace_line(&mut self)
        requires
            old(self).wf(),
            old(self).lines@.len() <= old(self)@.retained(),
        ensures
            final(self)@ == old(self)@.push_blank(),
    {
        let line = Line::new(&self.settings);
        self.lines.push(line);
        assert(self@.lines =~= old(self)@.push_blank().lines);
    }

    /// Removes the oldest line once the history holds more than it retains.
    fn evict_oldest(&mut self)
        requires
            old(self).wf(),
        ensures
            final(self)@ == old(self)@.evict(),
            final(self).wf(),
    {
        proof {
            lemma_evict_wf(self@);
        }
        if self.lines_in_scroll_buffer() > self.settings.lines_to_remember {
            self.lines.remove(0);
            assert(self@.lines =~= old(self)@.lines.drop_first());
        }
    }

    /// Writes a printable character at the cursor.
    fn write_plain(&mut self, character: char, style: Style)
        requires
            old(self).wf(),
            old(self).lines@.len() <= old(self)@.retained(),
        ensures
            final(self)@ == old(self)@.write_plain(character, style),
            final(self).wf(),
    {
        proof {
            lemma_write_plain_wf(self@, character, style);
        }
        if self.cursor.is_eof(&self.settings) {
            self.add_new_whitespace_line();
            self.cursor.carriage_return();
        } else if self.cursor.column_number >= self.settings.max_columns {
            self.cursor.carriage_return().line_feed();
        }
        let line_number = self.cursor.line_number;
        let column_number = self.cursor.column_number;
        let index = self.first_visible_line_index_no_scroll() + line_number;
        assert(self@.lines[index as int].len() == self.settings.max_columns);
        self.lines[index].cells.set(column_number, Cell { character, style });
        self.cursor.column_number += 1;
        assert(self@.lines =~= old(self)@.write_plain(character, style).lines);
    }

    fn put_plain(&mut self, character: char, style: Style)
        requires
            old(self).wf(),
        ensures
            final(self)@ == old(self)@.put_plain(character, style),
            final(self).wf(),
    {
        self.evict_oldest();
        proof {
            lemma_evict_wf(old(self)@);
        }
        self.write_plain(character, style);
    }

    /// Places a character in the plain style at the cursor.
    pub fn put_character(&mut self, c: char)
        requires
            old(self).wf(),
        ensures
            final(self).wf(),
            final(self)@ == old(self)@.put(c, Style::plain()),
    {
        self.put_character_styled(c, Style::default_style())
    }

    /// Places a character at the cursor: a newline moves to the next line (growing
    /// the history on the last one), a carriage return to the first column, a tab
    /// writes `tab_width` spaces, and anything else is written at the cursor.
    pub fn put_character_styled(&mut self, character: char, style: Style)
        requires
            old(self).wf(),
        ensures
            final(self).wf(),
            final(self)@ == old(self)@.put(character, style),
    {
        proof {
            lemma_put_wf(self@, character, style);
            lemma_evict_wf(self@);
        }
        // Remove the oldest line if we've hit the scrollback limit.
        self.evict_oldest();
        let ghost evicted = self@;
        if character == '\n' {
            self.cursor.carriage_return();
            // Add a new line if we're reached the end of our buffer.
            if self.cursor.line_number == Location::eof(&self.settings).line_number {
                self.add_new_whitespace_line();
            } else {
                // Only advance the cursor line if we aren't already at the end.
                self.cursor.line_feed();
            }
        } else if character == '\r' {
            self.cursor.carriage_return();
        } else if character == '\t' {
            let mut i: usize = 0;
            while i < self.settings.tab_width
                invariant
                    i <= self.settings.tab_width,
                    evicted.wf(),
                    self.wf(),
                    self@ == evicted.put_spaces(i as nat),
                    self.settings == evicted.settings,
                decreases self.settings.tab_width - i,
            {
                self.put_plain(' ', Style::default_style());
                i += 1;
            }
        } else {
            self.write_plain(character, style);
        }
    }

    /// Writes each character of a string.
    pub fn put_str(&mut self, s: &str)
        requires
            old(self).wf(),
        ensures
            final(self).wf(),
            final(self)@ == old(self)@.put_all(s@),
    {
        broadcast use vstd::string::axiom_spec_iter;
        for c in it: s.chars()
            invariant
                old(self).wf(),
                self.wf(),
                it.seq() == s@,
                self@ == old(self)@.put_all(s@.take(it.index() as int)),
        {
            let ghost i = it.index();
            self.put_character(c);
            assert(s@.take(i + 1).drop_last() =~= s@.take(i as int));
        }
        assert(s@.take(s@.len() as int) =~= s@);
    }

    /// Backspaces the last character: at the first column nothing happens,
    /// otherwise the previous cell is blanked and the cursor moves back onto it.
    pub fn backspace(&mut self)
        requires
            old(self).wf(),
        ensures
            final(self).wf(),
            final(self)@ == old(self)@.backspaced(),
    {
        if self.cursor.column_number != 0 {
            self.cursor.column_number -= 1;
            proof {
                lemma_put_wf(self@, ' ', Style::plain());
                lemma_evict_wf(self@);
            }
            self.put_character(' ');
            assert(self.cursor.column_number >= 1);
            self.cursor.column_number -= 1;
        }
    }

    /// Clears the entire buffer, including scrollback, and resets the cursor.
    pub fn clear_everything(&mut self)
        requires
            old(self).wf(),
        ensures
            final(self).wf(),
            final(self)@ == Screen::empty(old(self)@.settings),
    {
        *self = ScrollBuffer::new(self.settings);
    }

    /// Replaces every line of the viewport with a blank one; the history and the
    /// cursor stay.
    pub fn clear_visible(&mut self)
        requires
            old(self).wf(),
        ensures
            final(self).wf(),
            final(self)@ == old(self)@.visible_cleared(),
    {
        let first = self.first_visible_line_index_no_scroll();
        let total = self.lines.len();
        let mut i: usize = first;
        while i < total
            invariant
                old(self).wf(),
                first == old(self)@.first_visible(),
                total == old(self)@.lines.len(),
                first <= i <= total,
                self.settings == old(self).settings,
                self.cursor == old(self).cursor,
                self.lines@.len() == total,
                forall|j: int| 0 <= j < first ==> #[trigger] self.lines@[j].cells@ == old(self).lines@[j].cells@,
                forall|j: int| first <= j < i ==> #[trigger] self.lines@[j].cells@ == blank_line(old(self)@.columns()),
                forall|j: int| i <= j < total ==> #[trigger] self.lines@[j].cells@ == old(self).lines@[j].cells@,
            decreases total - i,
        {
            let line = Line::new(&self.settings);
            self.lines.set(i, line);
            i += 1;
        }
        assert(self@.lines =~= old(self)@.lines.take(old(self)@.first_visible()) + blank_lines(
            old(self)@.rows(),
            old(self)@.columns(),
        ));
    }

    /// Resets the cursor back to (0,0).
    pub fn reset_cursor(&mut self)
        requires
            old(self).wf(),
        ensures
            final(self).wf(),
            final(self)@ == old(self)@.with_cursor(Location::at(0, 0)),
    {
        self.cursor = Location::top_left();
    }

    /// Sets the cursor from xy coordinates relative to the top-left corner of
    /// the viewport.
    pub fn set_cursor_xy(&mut self, x: usize, y: usize)
        requires
            old(self).wf(),
            x <= old(self)@.columns(),
            y < old(self)@.rows(),
        ensures
            final(self).wf(),
            final(self)@ == old(self)@.with_cursor(Location::at(y as int, x as int)),
    {
        self.cursor = Location { line_number: y, column_number: x };
    }

    /// The cursor as `(column, line)`.
    pub fn cursor_xy(&self) -> (r: (usize, usize))
        ensures
            r == (self@.cursor.column_number, self@.cursor.line_number),
    {
        (self.cursor.column_number, self.cursor.line_number)
    }

    /// Gets the cursor index relative to the top-left corner.
    pub fn cursor_index(&self) -> (r: usize)
        requires
            self.wf(),
        ensures
            r == self@.cursor.line_number * self@.columns() + self@.cursor.column_number,
    {
        let line = self.cursor.line_number;
        let columns = self.settings.max_columns;
        proof {
            let rows = self.settings.max_lines as int;
            assert(line * columns + columns <= rows * columns) by (nonlinear_arith)
                requires
                    line + 1 <= rows,
                    columns >= 0,
            ;
        }
        (line * columns) + self.cursor.column_number
    }

    /// The lines from `start` up to `end`, joined by newlines.
    fn join_text(&self, start: usize, end: usize) -> (r: String)
        requires
            self.wf(),
            start < end <= self@.lines.len(),
        ensures
            r@ == join_lines(self@.lines.subrange(start as int, end as int)),
    {
        let mut text = String::new();
        let mut i: usize = start;
        while i < end
            invariant
                self.wf(),
                start <= i <= end <= self@.lines.len(),
                text@ == join_lines(self@.lines.subrange(start as int, i as int)),
            decreases end - i,
        {
            let ghost before = text@;
            if i > start {
                push_char(&mut text, '\n');
            }
            let ghost with_break = text@;
            let cells = &self.lines[i].cells;
            assert(cells@ == self@.lines[i as int]);
            let mut j: usize = 0;
            while j < cells.len()
                invariant
                    j <= cells@.len(),
                    text@ == with_break + line_text(cells@).take(j as int),
                decreases cells.len() - j,
            {
                push_char(&mut text, cells[j].character);
                assert(line_text(cells@).take(j + 1) =~= line_text(cells@).take(j as int).push(
                    cells@[j as int].character,
                ));
                j += 1;
            }
            assert(line_text(cells@).take(j as int) =~= line_text(cells@));
            let ghost prefix = self@.lines.subrange(start as int, i + 1);
            assert(prefix.drop_last() =~= self@.lines.subrange(start as int, i as int));
            assert(prefix.last() == cells@);
            if i == start {
                assert(with_break == Seq::<char>::empty());
                assert(text@ =~= join_lines(prefix));
            }
            i += 1;
        }
        text
    }

    /// Gets the text visible when scrolled back by `scrollback_line_count` lines.
    pub fn visible_text(&self, scrollback_line_count: usize) -> (r: String)
        requires
            self.wf(),
        ensures
            r@ == join_lines(self@.visible(scrollback_line_count as nat)),
    {
        let first = self.first_visible_line_index(scrollback_line_count);
        self.join_text(first, first + self.settings.max_lines)
    }

    /// Gets the entire text, including scrollback.
    pub fn entire_text(&self) -> (r: String)
        requires
            self.wf(),
        ensures
            r@ == join_lines(self@.lines),
    {
        let r = self.join_text(0, self.lines.len());
        assert(self@.lines.subrange(0, self@.lines.len() as int) =~= self@.lines);
        r
    }

    /// Gets the cells visible when scrolled back by `scrollback_line_count` lines.
    pub fn visible_cells(&self, scrollback_line_count: usize) -> (r: Vec<Vec<Cell>>)
        requires
            self.wf(),
        ensures
            r@.map_values(|v: Vec<Cell>| v@) == self@.visible(scrollback_line_count as nat),
    {
        let first = self.first_visible_line_index(scrollback_line_count);
        let mut grid: Vec<Vec<Cell>> = Vec::new();
        let mut i: usize = 0;
        while i < self.settings.max_lines
            invariant
                self.wf(),
                first == self@.first_visible_at(scrollback_line_count as nat),
                i <= self@.rows(),
                grid@.len() == i,
                forall|k: int| 0 <= k < i ==> #[trigger] grid@[k]@ == self@.lines[first + k],
            decreases self.settings.max_lines - i,
        {
            let cells = &self.lines[first + i].cells;
            let mut row: Vec<Cell> = Vec::new();
            let mut j: usize = 0;
            while j < cells.len()
                invariant
                    j <= cells@.len(),
                    row@ == cells@.take(j as int),
                decreases cells.len() - j,
            {
                row.push(cells[j]);
                assert(cells@.take(j + 1) =~= cells@.take(j as int).push(cells@[j as int]));
                j += 1;
            }
            assert(cells@.take(j as int) =~= cells@);
            grid.push(row);
            i += 1;
        }
        assert(grid@.map_values(|v: Vec<Cell>| v@) =~= self@.visible(scrollback_line_count as nat));
        grid
    }

    /// The style runs of one line, followed by a newline slice in the style of
    /// its last cell.
    fn slices_of_line(cells: &Vec<Cell>) -> (r: Vec<TextSlice>)
        requires
            cells@.len() > 0,
        ensures
            slices_view(r@) == style_runs(cells@) + seq![(seq!['\n'], cells@.last().style)],
    {
        let mut done: Vec<TextSlice> = Vec::new();
        let mut text = String::new();
        let mut style = cells[0].style;
        let mut j: usize = 0;
        while j < cells.len()
            invariant
                j <= cells@.len(),
                cells@.len() > 0,
                j == 0 ==> done@.len() == 0 && text@.len() == 0 && style == cells@[0].style,
                j > 0 ==> style_runs(cells@.take(j as int)) == slices_view(done@).push((text@, style)),
            decreases cells.len() - j,
        {
            let c = cells[j];
            let ghost prefix = cells@.take(j + 1);
            assert(prefix.drop_last() =~= cells@.take(j as int));
            assert(prefix.last() == c);
            if j > 0 && c.style == style {
                push_char(&mut text, c.character);
            } else {
                if j > 0 {
                    done.push(TextSlice { text, style });
                    assert(slices_view(done@) =~= style_runs(cells@.take(j as int)));
                    text = String::new();
                }
                push_char(&mut text, c.character);
                assert(text@ =~= seq![c.character]);
                style = c.style;
            }
            proof {
                if j == 0 {
                    assert(style_runs(cells@.take(0)) =~= Seq::empty());
                }
            }
            assert(style_runs(prefix) =~= slices_view(done@).push((text@, style)));
            j += 1;
        }
        assert(cells@.take(j as int) =~= cells@);
        let last = cells[cells.len() - 1];
        done.push(TextSlice { text, style });
        let mut newline = String::new();
        push_char(&mut newline, '\n');
        done.push(TextSlice { text: newline, style: last.style });
        assert(slices_view(done@) =~= style_runs(cells@) + seq![(seq!['\n'], cells@.last().style)]);
        done
    }

    /// Gets the visible slices when scrolled back by `scrollback_line_count`
    /// lines: for each line its maximal same-style runs, then a newline slice.
    pub fn visible_slices(&self, scrollback_line_count: usize) -> (r: Vec<TextSlice>)
        requires
            self.wf(),
        ensures
            slices_view(r@) == line_slices(self@.visible(scrollback_line_count as nat)),
    {
        let first = self.first_visible_line_index(scrollback_line_count);
        let ghost visible = self@.visible(scrollback_line_count as nat);
        let mut slices: Vec<TextSlice> = Vec::new();
        let mut i: usize = 0;
        while i < self.settings.max_lines
            invariant
                self.wf(),
                first == self@.first_visible_at(scrollback_line_count as nat),
                visible == self@.visible(scrollback_line_count as nat),
                i <= self@.rows(),
                slices_view(slices@) == line_slices(visible.take(i as int)),
            decreases self.settings.max_lines - i,
        {
            let cells = &self.lines[first + i].cells;
            assert(cells@ == visible[i as int]);
            assert(cells@.len() == self@.columns());
            let mut line = Self::slices_of_line(cells);
            let ghost before = slices@;
            let ghost added = line@;
            slices.append(&mut line);
            assert(visible.take(i + 1).drop_last() =~= visible.take(i as int));
            assert(slices_view(slices@) =~= slices_view(before) + slices_view(added));
            i += 1;
        }
        assert(visible.take(i as int) =~= visible);
        slices
    }
}

} // verus!
