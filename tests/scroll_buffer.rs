use readterm::scroll_buffer::{Cell, Location, ScrollBuffer, Settings};
use readterm::{Color, Style, TextSlice};

const SMALL_SETTINGS: Settings = Settings {
    max_columns: 3,
    max_lines: 3,
    lines_to_remember: 2, // two lines of scrollback
    tab_width: 4,
};

#[test]
fn empty_buffer_is_full_of_spaces() {
    let buffer = ScrollBuffer::new(SMALL_SETTINGS);
    assert_eq!("   \n   \n   ", buffer.entire_text());
}

#[test]
fn can_fill_empty_buffer_as_expected() {
    let mut buffer = ScrollBuffer::new(SMALL_SETTINGS);

    assert_eq!("   \n   \n   ", buffer.entire_text());
    buffer.put_character('A');
    assert_eq!("A  \n   \n   ", buffer.entire_text());
    buffer.put_character('B');
    assert_eq!("AB \n   \n   ", buffer.entire_text());
    buffer.put_character('C');
    assert_eq!("ABC\n   \n   ", buffer.entire_text());
    buffer.put_character('D');
    assert_eq!("ABC\nD  \n   ", buffer.entire_text());
    buffer.put_character('E');
    assert_eq!("ABC\nDE \n   ", buffer.entire_text());
    buffer.put_character('F');
    assert_eq!("ABC\nDEF\n   ", buffer.entire_text());
    buffer.put_character('G');
    assert_eq!("ABC\nDEF\nG  ", buffer.entire_text());
    buffer.put_character('H');
    assert_eq!("ABC\nDEF\nGH ", buffer.entire_text());
    buffer.put_character('I');
    assert_eq!("ABC\nDEF\nGHI", buffer.entire_text()); // adds a new row to scrollback
    buffer.put_character('J');
    assert_eq!("DEF\nGHI\nJ  ", buffer.visible_text(0)); // does not show the oldest line anymore
}

#[test]
fn correctly_handles_scrollback_last_line_but_not_eof() {
    let mut buffer = ScrollBuffer::new(SMALL_SETTINGS);
    buffer.put_str("a\nb\nc\nd");
    assert_eq!("a  \nb  \nc  \nd  ", buffer.entire_text());
    assert_eq!("b  \nc  \nd  ", buffer.visible_text(0));
}

#[test]
fn handles_new_lines() {
    let mut buffer = ScrollBuffer::new(SMALL_SETTINGS);

    buffer.put_str("h\n a\nn");
    assert_eq!("h  \n a \nn  ", buffer.entire_text());
}

#[test]
fn handles_carriage_returns() {
    let mut buffer = ScrollBuffer::new(SMALL_SETTINGS);

    buffer.put_str("h\rpa");
    assert_eq!("pa \n   \n   ", buffer.entire_text());
}

#[test]
fn throws_away_scrollback_after_limit() {
    let mut buffer = ScrollBuffer::new(SMALL_SETTINGS);

    buffer.put_str("abcdefghijklmnopqr");
    assert_eq!("def\nghi\njkl\nmno\npqr", buffer.entire_text());
}

#[test]
fn history_holds_one_extra_line_until_the_next_character() {
    let mut buffer = ScrollBuffer::new(SMALL_SETTINGS);
    buffer.put_str("abcdefghijklmnop");
    assert_eq!("abc\ndef\nghi\njkl\nmno\np  ", buffer.entire_text());
    buffer.put_character('q');
    assert_eq!("def\nghi\njkl\nmno\npq ", buffer.entire_text());
}

#[test]
fn wrapping_after_last_column() {
    let mut buffer = ScrollBuffer::new(SMALL_SETTINGS);
    buffer.put_str("abc");
    assert_eq!((3, 0), buffer.cursor_xy());
    buffer.put_character('d');
    assert_eq!((1, 1), buffer.cursor_xy());
    assert_eq!("abc\nd  \n   ", buffer.entire_text());
}

#[test]
fn newline_mid_buffer_does_not_grow_history() {
    let mut buffer = ScrollBuffer::new(SMALL_SETTINGS);
    buffer.put_str("ab\n");
    assert_eq!((0, 1), buffer.cursor_xy());
    assert_eq!("ab \n   \n   ", buffer.entire_text());
    buffer.put_str("\n\n");
    assert_eq!((0, 2), buffer.cursor_xy());
    assert_eq!("ab \n   \n   \n   ", buffer.entire_text());
}

#[test]
fn carriage_return_keeps_row() {
    let mut buffer = ScrollBuffer::new(SMALL_SETTINGS);
    buffer.put_str("abcde\r");
    assert_eq!((0, 1), buffer.cursor_xy());
}

#[test]
fn tab_writes_spaces_and_wraps() {
    let mut buffer = ScrollBuffer::new(SMALL_SETTINGS);
    buffer.put_str("x\t");
    assert_eq!((2, 1), buffer.cursor_xy());
    buffer.put_character('y');
    assert_eq!("x  \n  y\n   ", buffer.entire_text());
}

#[test]
fn backspace_blanks_previous_cell() {
    let mut buffer = ScrollBuffer::new(SMALL_SETTINGS);
    buffer.put_str("ab");
    buffer.backspace();
    assert_eq!((1, 0), buffer.cursor_xy());
    assert_eq!("a  \n   \n   ", buffer.entire_text());
    buffer.put_character('c');
    assert_eq!("ac \n   \n   ", buffer.entire_text());
}

#[test]
fn backspace_at_first_column_does_nothing() {
    let mut buffer = ScrollBuffer::new(SMALL_SETTINGS);
    buffer.put_str("ab\n");
    buffer.backspace();
    assert_eq!((0, 1), buffer.cursor_xy());
    assert_eq!("ab \n   \n   ", buffer.entire_text());
}

#[test]
fn clear_visible_keeps_history_and_cursor() {
    let mut buffer = ScrollBuffer::new(SMALL_SETTINGS);
    buffer.put_str("a\nb\nc\nd");
    buffer.clear_visible();
    assert_eq!("a  \n   \n   \n   ", buffer.entire_text());
    assert_eq!((1, 2), buffer.cursor_xy());
}

#[test]
fn clear_everything_resets() {
    let mut buffer = ScrollBuffer::new(SMALL_SETTINGS);
    buffer.put_str("a\nb\nc\nd");
    buffer.clear_everything();
    assert_eq!("   \n   \n   ", buffer.entire_text());
    assert_eq!((0, 0), buffer.cursor_xy());
}

#[test]
fn scrolled_back_viewport_is_clamped() {
    let mut buffer = ScrollBuffer::new(SMALL_SETTINGS);
    buffer.put_str("a\nb\nc\nd");
    assert_eq!("a  \nb  \nc  ", buffer.visible_text(1));
    assert_eq!("a  \nb  \nc  ", buffer.visible_text(7));
}

#[test]
fn cursor_index_counts_rows_and_columns() {
    let mut buffer = ScrollBuffer::new(SMALL_SETTINGS);
    buffer.put_str("abcd");
    assert_eq!(4, buffer.cursor_index());
    buffer.set_cursor_xy(2, 2);
    assert_eq!(8, buffer.cursor_index());
    buffer.reset_cursor();
    assert_eq!(0, buffer.cursor_index());
}

#[test]
fn set_cursor_then_write() {
    let mut buffer = ScrollBuffer::new(SMALL_SETTINGS);
    buffer.set_cursor_xy(1, 2);
    buffer.put_character('z');
    assert_eq!("   \n   \n z ", buffer.entire_text());
}

#[test]
fn visible_cells_follow_the_viewport() {
    let mut buffer = ScrollBuffer::new(SMALL_SETTINGS);
    buffer.put_str("a\nb\nc\nd");
    let cells = buffer.visible_cells(0);
    assert_eq!(3, cells.len());
    assert_eq!('b', cells[0][0].character);
    assert_eq!('d', cells[2][0].character);
    assert_eq!(Cell::blank(), cells[2][1]);
}

#[test]
fn visible_slices_split_runs_by_style() {
    let mut buffer = ScrollBuffer::new(SMALL_SETTINGS);
    let red = Style { color: Color::red() };
    let black = Style::default_style();
    buffer.put_character_styled('r', red);
    buffer.put_character_styled('s', red);
    let slices = buffer.visible_slices(0);
    let slice = |text: &str, style: Style| TextSlice { text: text.to_string(), style };
    assert_eq!(
        vec![
            slice("rs", red),
            slice(" ", black),
            slice("\n", black),
            slice("   ", black),
            slice("\n", black),
            slice("   ", black),
            slice("\n", black),
        ],
        slices
    );
}

#[test]
fn location_helpers() {
    let eof = Location::eof(&SMALL_SETTINGS);
    assert_eq!(Location { line_number: 2, column_number: 3 }, eof);
    assert!(eof.is_eof(&SMALL_SETTINGS));
    let mut l = Location::top_left();
    assert!(!l.is_eof(&SMALL_SETTINGS));
    l.line_feed().line_feed();
    l.column_number = 3;
    assert!(l.is_eof(&SMALL_SETTINGS));
    l.carriage_return();
    assert_eq!(Location { line_number: 2, column_number: 0 }, l);
}
