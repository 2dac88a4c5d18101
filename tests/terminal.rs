use readterm::escape_filter::split_safe;
use readterm::event::{convert_primitive, convert_primitives, Primitive};
use readterm::interpreter::Interpreter;
use readterm::terminal::{BlockingDrain, SessionPoll};
use readterm::{Color, Event, Settings, Terminal};

fn small_settings() -> Settings {
    Settings { shell: "sh".to_string(), lines_to_remember: 2, line_count: 3, column_count: 3, tab_width: 4 }
}

fn put(x: usize, y: usize, character: char) -> Event {
    Event::PutCharacter {
        x,
        y,
        character,
        bold: false,
        italic: false,
        underlined: false,
        strikethrough: false,
        color: Color::white(),
    }
}

#[test]
fn packed_colors_unpack_by_channel() {
    let c = Color::from_packed_argb8(0x80ff4020);
    assert_eq!(Color::from_rgba8(0xff, 0x40, 0x20, 0x80), c);
    assert_eq!(Color::white(), Color::from_packed_argb8(0xffffffff));
    assert_eq!(Color::from_rgb8(0, 0, 0), Color::black());
}

#[test]
fn primitives_become_events() {
    let ch = Primitive::Char {
        x: 1,
        y: 2,
        c: 'q',
        bold: true,
        italic: false,
        underlined: true,
        strikethrough: false,
        color: 0xff00ff00,
    };
    assert_eq!(
        vec![Event::PutCharacter {
            x: 1,
            y: 2,
            character: 'q',
            bold: true,
            italic: false,
            underlined: true,
            strikethrough: false,
            color: Color::green(),
        }],
        convert_primitive(&ch)
    );
    assert_eq!(vec![Event::ClearScreen], convert_primitive(&Primitive::ScreenBuffer { alternate: false, clear: true }));
    assert!(convert_primitive(&Primitive::ScreenBuffer { alternate: true, clear: false }).is_empty());
    assert!(convert_primitive(&Primitive::Other).is_empty());
    assert_eq!(2, convert_primitives(&vec![ch, Primitive::Other, ch]).len());
}

#[test]
fn interpreter_decodes_plain_text() {
    let mut interpreter = Interpreter::new(3, 3);
    let events = interpreter.feed(b"hi");
    let grey = Color::from_rgb8(0xc0, 0xc0, 0xc0);
    let expect = |x: usize, character: char| Event::PutCharacter {
        x,
        y: 0,
        character,
        bold: false,
        italic: false,
        underlined: false,
        strikethrough: false,
        color: grey,
    };
    assert_eq!(vec![expect(0, 'h'), expect(1, 'i')], events);
}

#[test]
fn terminal_applies_session_output() {
    let mut terminal = Terminal::new(small_settings());
    let events = terminal.update(SessionPoll::Output(b"ab".to_vec()));
    assert_eq!(2, events.len());
    assert_eq!("ab \n   \n   ", terminal.visible_text());
    assert_eq!(2, terminal.cursor_index());
    assert!(!terminal.is_session_finished());
}

#[test]
fn terminal_stops_after_exit() {
    let mut terminal = Terminal::new(small_settings());
    assert!(terminal.update(SessionPoll::Exited).is_empty());
    assert!(terminal.is_session_finished());
    assert!(terminal.update(SessionPoll::Output(b"ab".to_vec())).is_empty());
    assert_eq!("   \n   \n   ", terminal.visible_text());
}

#[test]
fn terminal_mirrors_local_writes() {
    let mut terminal = Terminal::new(small_settings());
    terminal.write_text("xyz");
    terminal.backspace();
    assert_eq!("xy \n   \n   ", terminal.visible_text());
    assert_eq!(2, terminal.visible_slices().len() - 4);
}

#[test]
fn terminal_events_place_characters() {
    let mut terminal = Terminal::new(small_settings());
    terminal.apply_events(&vec![put(2, 1, 'k'), put(9, 9, 'n')]);
    assert_eq!("   \n  k\n   ", terminal.visible_text());
    terminal.handle_event(&Event::ClearScreen);
    assert_eq!("   \n   \n   ", terminal.visible_text());
}

#[test]
fn cursor_inputs_are_escape_sequences() {
    let terminal = Terminal::new(small_settings());
    assert_eq!("\x1b", terminal.escape());
    assert_eq!("\x1b[1D", terminal.cursor_left());
    assert_eq!("\x1b[1C", terminal.cursor_right());
    assert_eq!("\x1b[1A", terminal.cursor_up());
    assert_eq!("\x1b[1B", terminal.cursor_down());
}

#[test]
fn blocking_drain_waits_then_settles() {
    let mut drain = BlockingDrain::new();
    assert!(!drain.step(vec![]));
    assert!(!drain.step(vec![put(0, 0, 'a')]));
    assert!(!drain.step(vec![put(1, 0, 'b')]));
    assert!(drain.step(vec![]));
    assert_eq!(vec![put(0, 0, 'a'), put(1, 0, 'b')], drain.into_events());
}

#[test]
fn default_settings_with_shell() {
    let s = Settings::with_shell("bash".to_string());
    assert_eq!(10_000, s.lines_to_remember);
    assert_eq!((100, 85, 2), (s.line_count, s.column_count, s.tab_width));
    assert_eq!("bash", s.shell);
}

#[test]
fn filter_keeps_text_and_admitted_sequences() {
    let input = b"a\x1b[31mb\x1b]0;title\x07c\x1b[5Sd\x1b(Be\x1b[".to_vec();
    let (kept, rest) = split_safe(&input);
    assert_eq!(b"a\x1b[31mbcde".to_vec(), kept);
    assert_eq!(b"\x1b[".to_vec(), rest);
}

#[test]
fn filter_drops_sequences_with_unsafe_counts() {
    let input = b"\x1b[999999S\x1b[99999999999999999999Cx\x1b[1;2r".to_vec();
    let (kept, rest) = split_safe(&input);
    assert_eq!(b"x".to_vec(), kept);
    assert!(rest.is_empty());
}

#[test]
fn interpreter_survives_large_counts() {
    let mut interpreter = Interpreter::new(1, 1);
    let events = interpreter.feed(b"\x1b[999999S\x1b[99999999999999999999Cab\n");
    assert_eq!(2, events.len());
}

#[test]
fn interpreter_joins_sequences_split_between_chunks() {
    let mut interpreter = Interpreter::new(3, 3);
    assert!(interpreter.feed(b"\x1b[3").is_empty());
    let events = interpreter.feed(b"1mx");
    assert_eq!(
        vec![Event::PutCharacter {
            x: 0,
            y: 0,
            character: 'x',
            bold: false,
            italic: false,
            underlined: false,
            strikethrough: false,
            color: Color::from_rgb8(0x80, 0, 0),
        }],
        events
    );
}

#[test]
fn interpreter_reports_screen_clear() {
    let mut interpreter = Interpreter::new(3, 3);
    assert_eq!(vec![Event::ClearScreen], interpreter.feed(b"\x1b[?1049h"));
}

#[test]
fn backspace_key_is_one_byte() {
    let terminal = Terminal::new(small_settings());
    assert_eq!("\x08", terminal.backspace_key());
}

#[test]
fn cursor_forward_moves_later_characters() {
    let mut interpreter = Interpreter::new(10, 3);
    let events = interpreter.feed(b"a\x1b[3Cb");
    let xs: Vec<usize> = events
        .iter()
        .map(|e| match e {
            Event::PutCharacter { x, .. } => *x,
            Event::ClearScreen => usize::MAX,
        })
        .collect();
    assert_eq!(vec![0, 4], xs);
}

#[test]
fn filter_keeps_control_bytes_that_cut_an_escape() {
    let (kept, rest) = split_safe(&b"\x1b\nz\x1b[3\rq".to_vec());
    assert_eq!(b"\nz\rq".to_vec(), kept);
    assert!(rest.is_empty());
}

#[test]
fn filter_ends_a_string_at_a_new_sequence() {
    let (kept, rest) = split_safe(&b"\x1b]0;t\x1b[31mq\x1b]2;x\x1b\\r".to_vec());
    assert_eq!(b"\x1b[31mqr".to_vec(), kept);
    assert!(rest.is_empty());
}

#[test]
fn filter_keeps_save_restore_and_erase() {
    let input = b"\x1b7x\x1b8y\x1b[s\x1b[u\x1b[2J\x1b[K\x1b[2B\x1bM".to_vec();
    let (kept, rest) = split_safe(&input);
    assert_eq!(input, kept);
    assert!(rest.is_empty());
}

#[test]
fn interpreter_restores_saved_cursor() {
    let mut interpreter = Interpreter::new(10, 3);
    let events = interpreter.feed(b"\x1b7x\x1b8y");
    let xs: Vec<(usize, usize)> = events
        .iter()
        .map(|e| match e {
            Event::PutCharacter { x, y, .. } => (*x, *y),
            Event::ClearScreen => (usize::MAX, usize::MAX),
        })
        .collect();
    assert_eq!(vec![(0, 0), (0, 0)], xs);
}
