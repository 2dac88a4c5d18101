use vstd::prelude::*;

use crate::escape_filter::filter_from;
use crate::event::{primitives_events, Event};
use crate::interpreter::{output_between, Interpreter};
use crate::scroll_buffer::{self, join_lines, line_slices, slices_view, Location, Screen, ScrollBuffer};
use crate::{Style, TextSlice};

verus! {

/// Terminal settings.
#[derive(Clone, Debug, PartialEq, Eq, PartialOrd, Ord)]
pub struct Settings {
    /// The shell to execute.
    pub shell: String,
    /// How many lines to remember in the scrollback.
    pub lines_to_remember: usize,
    /// The maximum number of lines to display at once.
    pub line_count: usize,
    /// The maximum number of columns to display at once.
    pub column_count: usize,
    /// The number of spaces used to render tab characters.
    pub tab_width: usize,
}

/// A terminal action.
#[derive(Clone, Debug, PartialEq, Eq, PartialOrd, Ord)]
pub enum Action {
    /// Writes text into the terminal.
    WriteText(String),
    /// Deletes the previous character.
    Backspace,
    /// The ESC key.
    Escape,
    /// Moves the cursor left.
    CursorLeft,
    /// Moves the cursor right.
    CursorRight,
    /// Moves the cursor down.
    CursorDown,
    /// Moves the cursor up.
    CursorUp,
    /// Sends a control code to the pseudo terminal.
    ControlCode(char),
}

/// What one poll of the shell session found.
#[derive(Clone, Debug, PartialEq, Eq)]
pub enum SessionPoll {
    /// The shell process has ended.
    Exited,
    /// The shell is running; these bytes of output were waiting.
    Output(Vec<u8>),
}

/// A terminal: the screen of a shell session and the interpreter of its output.
///
/// The process itself is driven by the caller, who forwards input to it and
/// hands its output to `update`.
pub struct Terminal {
    /// The settings.
    settings: Settings,
    /// The escape-sequence interpreter of the session's output.
    interpreter: Interpreter,
    /// Whether the underlying shell process is finished.
    session_finished: bool,
    /// The backing text buffer.
    scroll_buffer: ScrollBuffer,
}

/// Collects the events of a burst of output: it waits for a first non-empty
/// batch, then keeps collecting until a batch comes back empty.
pub struct BlockingDrain {
    events: Vec<Event>,
    started: bool,
}

/// The escape sequence of a move of `dx` columns (right when positive).
pub open spec fn move_x_text(dx: i16) -> Seq<char> {
    if dx == 1 {
        seq!['\x1b', '[', '1', 'C']
    } else if dx == -1 {
        seq!['\x1b', '[', '1', 'D']
    } else {
        Seq::empty()
    }
}

/// The escape sequence of a move of `dy` lines (down when positive).
pub open spec fn move_y_text(dy: i16) -> Seq<char> {
    if dy == 1 {
        seq!['\x1b', '[', '1', 'B']
    } else if dy == -1 {
        seq!['\x1b', '[', '1', 'A']
    } else {
        Seq::empty()
    }
}

/// Relies on the `Display` of `ansi_escapes::CursorMove::XY`, which writes
/// `ESC [ n C` (right) or `ESC [ n D` (left) for the columns, then `ESC [ n B`
/// (down) or `ESC [ n A` (up) for the lines, and nothing for a zero move.
#[verifier::external_body]
fn cursor_move(dx: i16, dy: i16) -> (r: String)
    requires
        -1 <= dx <= 1,
        -1 <= dy <= 1,
    ensures
        r@ == move_x_text(dx) + move_y_text(dy),
{
    ansi_escapes::CursorMove::XY(dx, dy).to_string()
}

/// The screen after one event: a character is placed at its location in its
/// color (an event outside the viewport changes nothing), a clear blanks the
/// viewport.
pub open spec fn apply_event(m: Screen, event: Event) -> Screen {
    match event {
        Event::PutCharacter { x, y, character, color, .. } => if x <= m.columns() && y < m.rows() {
            m.with_cursor(Location::at(y as int, x as int)).put(character, Style { color })
        } else {
            m
        },
        Event::ClearScreen => m.visible_cleared(),
    }
}

/// The screen after each event in turn.
pub open spec fn apply_events(m: Screen, events: Seq<Event>) -> Screen
    decreases events.len(),
{
    if events.len() == 0 {
        m
    } else {
        apply_event(apply_events(m, events.drop_last()), events.last())
    }
}

impl Settings {
    /// The settings of the screen buffer.
    pub open spec fn buffer_settings_spec(&self) -> scroll_buffer::Settings {
        scroll_buffer::Settings {
            max_columns: self.column_count,
            max_lines: self.line_count,
            tab_width: self.tab_width,
            lines_to_remember: self.lines_to_remember,
        }
    }

    /// Settings a terminal can be made with: a screen buffer can be built
    /// from them, and neither side of the screen exceeds `usize::MAX / 4`.
    pub open spec fn valid(&self) -> bool {
        &&& self.buffer_settings_spec().valid()
        &&& self.column_count <= usize::MAX / 4
        &&& self.line_count <= usize::MAX / 4
    }

    /// The default settings with the given shell: 10000 lines remembered, a
    /// viewport of 100 lines by 85 columns, tabs of 2 spaces.
    pub fn with_shell(shell: String) -> (r: Settings)
        ensures
            r.shell == shell,
            r.lines_to_remember == 10_000,
            r.line_count == 100,
            r.column_count == 85,
            r.tab_width == 2,
            r.valid(),
    {
        Settings { shell, lines_to_remember: 10_000, line_count: 100, column_count: 85, tab_width: 2 }
    }

    /// The settings of the screen buffer.
    pub fn buffer_settings(&self) -> (r: scroll_buffer::Settings)
        ensures
            r == self.buffer_settings_spec(),
    {
        scroll_buffer::Settings {
            max_columns: self.column_count,
            max_lines: self.line_count,
            tab_width: self.tab_width,
            lines_to_remember: self.lines_to_remember,
        }
    }
}

impl Terminal {
    /// The screen.
    pub closed spec fn screen(&self) -> Screen {
        self.scroll_buffer@
    }

    /// Whether the session was seen to end.
    pub closed spec fn finished(&self) -> bool {
        self.session_finished
    }

    /// The settings the terminal was made with.
    pub closed spec fn settings_view(&self) -> Settings {
        self.settings
    }

    /// A well-formed terminal has a well-formed screen, built from its settings.
    pub proof fn lemma_screen_wf(&self)
        requires
            self.wf(),
        ensures
            self.screen().wf(),
            self.screen().settings == self.settings_view().buffer_settings_spec(),
            self.interpreter_size() == (self.settings_view().column_count, self.settings_view().line_count),
    {
    }

    /// The size of the interpreter's screen, as `(columns, lines)`.
    pub closed spec fn interpreter_size(&self) -> (usize, usize) {
        self.interpreter.size()
    }

    /// Every byte of output handed to the interpreter's console so far.
    pub closed spec fn fed_bytes(&self) -> Seq<u8> {
        self.interpreter.fed_bytes()
    }

    /// The start of an escape sequence that waits for more output.
    pub closed spec fn pending_bytes(&self) -> Seq<u8> {
        self.interpreter.pending_bytes()
    }

    pub closed spec fn wf(&self) -> bool {
        &&& self.scroll_buffer.wf()
        &&& self.scroll_buffer@.settings == self.settings.buffer_settings_spec()
        &&& self.interpreter.wf()
        &&& self.interpreter.size() == (self.settings.column_count, self.settings.line_count)
    }

    /// Creates a terminal with a blank screen for a session that has just started.
    pub fn new(settings: Settings) -> (r: Terminal)
        requires
            settings.valid(),
        ensures
            r.wf(),
            !r.finished(),
            r.settings_view() == settings,
            r.screen() == Screen::empty(settings.buffer_settings_spec()),
            r.interpreter_size() == (settings.column_count, settings.line_count),
            r.fed_bytes() == Seq::<u8>::empty(),
            r.pending_bytes() == Seq::<u8>::empty(),
    {
        let buffer_settings = settings.buffer_settings();
        let interpreter = Interpreter::new(settings.column_count, settings.line_count);
        Terminal {
            scroll_buffer: ScrollBuffer::new(buffer_settings),
            interpreter,
            session_finished: false,
            settings,
        }
    }

    /// Writes text to the screen, as it is sent to the session.
    pub fn write_text(&mut self, s: &str)
        requires
            old(self).wf(),
        ensures
            final(self).wf(),
            final(self).finished() == old(self).finished(),
            final(self).screen() == old(self).screen().put_all(s@),
            final(self).interpreter_size() == old(self).interpreter_size(),
            final(self).settings_view() == old(self).settings_view(),
            final(self).fed_bytes() == old(self).fed_bytes(),
            final(self).pending_bytes() == old(self).pending_bytes(),
    {
        self.scroll_buffer.put_str(s);
        proof {
            scroll_buffer::lemma_put_all_wf(old(self).scroll_buffer@, s@);
        }
    }

    /// Backspaces the last character on the screen, as a backspace is sent to
    /// the session.
    pub fn backspace(&mut self)
        requires
            old(self).wf(),
        ensures
            final(self).wf(),
            final(self).finished() == old(self).finished(),
            final(self).screen() == old(self).screen().backspaced(),
            final(self).interpreter_size() == old(self).interpreter_size(),
            final(self).settings_view() == old(self).settings_view(),
            final(self).fed_bytes() == old(self).fed_bytes(),
            final(self).pending_bytes() == old(self).pending_bytes(),
    {
        self.scroll_buffer.backspace();
    }

    /// The input that the ESC key sends.
    pub fn escape(&self) -> (r: String)
        ensures
            r@ == seq!['\x1b'],
    {
        let mut r = String::new();
        r.append("\x1b");
        proof {
            reveal_strlit("\x1b");
        }
        assert(r@ =~= seq!['\x1b']);
        r
    }

    /// The input that the backspace key sends.
    pub fn backspace_key(&self) -> (r: String)
        ensures
            r@ == seq!['\x08'],
    {
        let mut r = String::new();
        r.append("\x08");
        proof {
            reveal_strlit("\x08");
        }
        assert(r@ =~= seq!['\x08']);
        r
    }

    /// The input that moves the cursor one column left.
    pub fn cursor_left(&self) -> (r: String)
        ensures
            r@ == seq!['\x1b', '[', '1', 'D'],
    {
        let r = cursor_move(-1, 0);
        assert(r@ =~= seq!['\x1b', '[', '1', 'D']);
        r
    }

    /// The input that moves the cursor one column right.
    pub fn cursor_right(&self) -> (r: String)
        ensures
            r@ == seq!['\x1b', '[', '1', 'C'],
    {
        let r = cursor_move(1, 0);
        assert(r@ =~= seq!['\x1b', '[', '1', 'C']);
        r
    }

    /// The input that moves the cursor one line up.
    pub fn cursor_up(&self) -> (r: String)
        ensures
            r@ == seq!['\x1b', '[', '1', 'A'],
    {
        let r = cursor_move(0, -1);
        assert(r@ =~= seq!['\x1b', '[', '1', 'A']);
        r
    }

    /// The input that moves the cursor one line down.
    pub fn cursor_down(&self) -> (r: String)
        ensures
            r@ == seq!['\x1b', '[', '1', 'B'],
    {
        let r = cursor_move(0, 1);
        assert(r@ =~= seq!['\x1b', '[', '1', 'B']);
        r
    }

    /// Applies one event to the screen: a character is placed at the event's
    /// location in its color, a clear blanks the viewport. A character outside
    /// the viewport is ignored.
    pub fn handle_event(&mut self, event: &Event)
        requires
            old(self).wf(),
        ensures
            final(self).wf(),
            final(self).finished() == old(self).finished(),
            final(self).screen() == apply_event(old(self).screen(), *event),
            final(self).interpreter_size() == old(self).interpreter_size(),
            final(self).settings_view() == old(self).settings_view(),
            final(self).fed_bytes() == old(self).fed_bytes(),
            final(self).pending_bytes() == old(self).pending_bytes(),
    {
        match *event {
            Event::PutCharacter { x, y, character, color, .. } => {
                if x <= self.settings.column_count && y < self.settings.line_count {
                    self.scroll_buffer.set_cursor_xy(x, y);
                    proof {
                        scroll_buffer::lemma_put_wf(self.scroll_buffer@, character, Style { color });
                    }
                    self.scroll_buffer.put_character_styled(character, Style { color });
                }
            },
            Event::ClearScreen => {
                self.scroll_buffer.clear_visible();
            },
        }
    }

    /// Applies the events to the screen in order.
    pub fn apply_events(&mut self, events: &Vec<Event>)
        requires
            old(self).wf(),
        ensures
            final(self).wf(),
            final(self).finished() == old(self).finished(),
            final(self).screen() == apply_events(old(self).screen(), events@),
            final(self).interpreter_size() == old(self).interpreter_size(),
            final(self).settings_view() == old(self).settings_view(),
            final(self).fed_bytes() == old(self).fed_bytes(),
            final(self).pending_bytes() == old(self).pending_bytes(),
    {
        for i in 0..events.len()
            invariant
                self.wf(),
                self.finished() == old(self).finished(),
                self.interpreter_size() == old(self).interpreter_size(),
                self.settings_view() == old(self).settings_view(),
                self.fed_bytes() == old(self).fed_bytes(),
                self.pending_bytes() == old(self).pending_bytes(),
                self.screen() == apply_events(old(self).screen(), events@.take(i as int)),
        {
            self.handle_event(&events[i]);
            assert(events@.take(i + 1).drop_last() =~= events@.take(i as int));
        }
        assert(events@.take(events@.len() as int) =~= events@);
    }

    /// Updates the terminal with one poll of the session: once the session has
    /// ended nothing changes and no event comes back; an exit marks the session
    /// finished; output is decoded, applied to the screen, and its events
    /// returned in order.
    pub fn update(&mut self, poll: SessionPoll) -> (r: Vec<Event>)
        requires
            old(self).wf(),
        ensures
            final(self).wf(),
            old(self).finished() ==> r@.len() == 0 && final(self).finished() && final(self).screen()
                == old(self).screen(),
            !old(self).finished() && poll == SessionPoll::Exited ==> r@.len() == 0
                && final(self).finished() && final(self).screen() == old(self).screen(),
            !old(self).finished() && poll is Output ==> ({
                let bytes = poll->Output_0@;
                let input = old(self).pending_bytes() + bytes;
                &&& !final(self).finished()
                &&& final(self).fed_bytes() == old(self).fed_bytes() + filter_from(input, 0).0
                &&& final(self).pending_bytes() == filter_from(input, 0).1
                &&& r@ == primitives_events(
                    output_between(
                        old(self).interpreter_size().0,
                        old(self).interpreter_size().1,
                        old(self).fed_bytes(),
                        final(self).fed_bytes(),
                    ),
                )
                &&& final(self).screen() == apply_events(old(self).screen(), r@)
            }),
            final(self).interpreter_size() == old(self).interpreter_size(),
            final(self).settings_view() == old(self).settings_view(),
            old(self).finished() || poll == SessionPoll::Exited ==> final(self).fed_bytes()
                == old(self).fed_bytes() && final(self).pending_bytes() == old(self).pending_bytes(),
    {
        if self.session_finished {
            return Vec::new();
        }
        match poll {
            SessionPoll::Exited => {
                self.session_finished = true;
                Vec::new()
            },
            SessionPoll::Output(bytes) => {
                let events = self.interpreter.feed(bytes.as_slice());
                self.apply_events(&events);
                events
            },
        }
    }

    /// Checks if the underlying shell session has finished.
    pub fn is_session_finished(&self) -> (r: bool)
        ensures
            r == self.finished(),
    {
        self.session_finished
    }

    /// The text of the viewport.
    pub fn visible_text(&self) -> (r: String)
        requires
            self.wf(),
        ensures
            r@ == join_lines(self.screen().visible(0)),
    {
        let scrollback_line_count: usize = 0;
        self.scroll_buffer.visible_text(scrollback_line_count)
    }

    /// The style runs of the viewport.
    pub fn visible_slices(&self) -> (r: Vec<TextSlice>)
        requires
            self.wf(),
        ensures
            slices_view(r@) == line_slices(self.screen().visible(0)),
    {
        let scrollback_line_count: usize = 0;
        self.scroll_buffer.visible_slices(scrollback_line_count)
    }

    /// Gets the cursor index.
    pub fn cursor_index(&self) -> (r: usize)
        requires
            self.wf(),
        ensures
            r == self.screen().cursor.line_number * self.screen().columns()
                + self.screen().cursor.column_number,
    {
        self.scroll_buffer.cursor_index()
    }
}

impl BlockingDrain {
    /// The events collected so far.
    pub closed spec fn collected(&self) -> Seq<Event> {
        self.events@
    }

    /// Whether a first non-empty batch has come.
    pub closed spec fn started(&self) -> bool {
        self.started
    }

    pub fn new() -> (r: BlockingDrain)
        ensures
            r.collected() == Seq::<Event>::empty(),
            !r.started(),
    {
        BlockingDrain { events: Vec::new(), started: false }
    }

    /// Takes the batch of one poll and says whether the burst has settled:
    /// empty batches are waited out until a first non-empty one, after which
    /// the first empty batch ends the drain.
    pub fn step(&mut self, batch: Vec<Event>) -> (done: bool)
        ensures
            done == (old(self).started() && batch@.len() == 0),
            final(self).started() == (old(self).started() || batch@.len() > 0),
            final(self).collected() == old(self).collected() + batch@,
    {
        let mut batch = batch;
        if batch.len() == 0 {
            return self.started;
        }
        self.events.append(&mut batch);
        self.started = true;
        false
    }

    /// The events collected, in the order they came.
    pub fn into_events(self) -> (r: Vec<Event>)
        ensures
            r@ == self.collected(),
    {
        self.events
    }
}

} // verus!
