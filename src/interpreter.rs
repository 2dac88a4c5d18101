use vstd::prelude::*;

use crate::escape_filter::{console_safe, filter_from, lemma_concat_safe, split_safe};
use crate::event::{convert_primitives, primitives_events, Event, Primitive};

verus! {

#[verifier::external_type_specification]
#[verifier::external_body]
pub struct ExConsole(ransid::Console);

/// Relies on `ransid::Console::new`: a decoder for a `w` by `h` screen. It
/// computes `h as isize - 1`, which overflows for a height above `isize::MAX`.
pub assume_specification[ ransid::Console::new ](w: usize, h: usize) -> ransid::Console
    requires
        h <= isize::MAX,
;

/// Every primitive that a console of `w` by `h` cells reports, in order, while
/// it decodes `fed` from its creation on.
pub uninterp spec fn console_output(w: usize, h: usize, fed: Seq<u8>) -> Seq<Primitive>;

/// The primitives reported while `fed` grew from `before` to `after`.
pub open spec fn output_between(w: usize, h: usize, before: Seq<u8>, after: Seq<u8>) -> Seq<Primitive> {
    console_output(w, h, after).skip(console_output(w, h, before).len() as int)
}

/// The escape-sequence interpreter: turns the session's raw output into events.
///
/// Only bytes that are not part of an escape sequence, and whole control
/// sequences of the kinds `console_safe` admits, reach the console; an escape
/// sequence cut off at the end of a chunk waits in `pending` for the rest.
pub struct Interpreter {
    console: ransid::Console,
    columns: usize,
    lines: usize,
    pending: Vec<u8>,
    fed: Ghost<Seq<u8>>,
}

/// Relies on `ransid::Console::write`, which decodes `bytes` and reports each
/// primitive to its callback in order, and on `ransid::Color::as_rgb`, which
/// packs a character's color as `0xAARRGGBB`. The console panics on some
/// control sequences, on huge counts in others, and on an empty screen; the
/// stream it has been fed, `bytes` included, holds none of those. A cursor
/// move down or forward adds a count below `10^18` to a position below the
/// screen size, which is at most `usize::MAX / 4` either way.
#[verifier::external_body]
fn decode(i: &mut Interpreter, bytes: &[u8]) -> (r: Vec<Primitive>)
    requires
        1 <= old(i).columns <= usize::MAX / 4,
        1 <= old(i).lines <= usize::MAX / 4,
        console_safe(old(i).fed@ + bytes@),
    ensures
        final(i).fed@ == old(i).fed@ + bytes@,
        final(i).columns == old(i).columns,
        final(i).lines == old(i).lines,
        final(i).pending == old(i).pending,
        r@ == console_output(old(i).columns, old(i).lines, final(i).fed@).skip(
            console_output(old(i).columns, old(i).lines, old(i).fed@).len() as int,
        ),
{
    let mut out = Vec::new();
    i.console.write(bytes, |event| out.push(match event {
        ransid::Event::Char { x, y, c, bold, italic, underlined, strikethrough, color } =>
            Primitive::Char { x, y, c, bold, italic, underlined, strikethrough, color: color.as_rgb() },
        ransid::Event::ScreenBuffer { alternate, clear } => Primitive::ScreenBuffer { alternate, clear },
        _ => Primitive::Other,
    }));
    out
}

impl Interpreter {
    /// The screen size, as `(columns, lines)`.
    pub closed spec fn size(&self) -> (usize, usize) {
        (self.columns, self.lines)
    }

    /// Every byte handed to the console so far.
    pub closed spec fn fed_bytes(&self) -> Seq<u8> {
        self.fed@
    }

    /// The start of an escape sequence that waits for the rest.
    pub closed spec fn pending_bytes(&self) -> Seq<u8> {
        self.pending@
    }

    pub closed spec fn wf(&self) -> bool {
        &&& 1 <= self.columns <= usize::MAX / 4
        &&& 1 <= self.lines <= usize::MAX / 4
        &&& console_safe(self.fed@)
    }

    /// An interpreter for a screen of `columns` by `lines` cells.
    pub fn new(columns: usize, lines: usize) -> (r: Interpreter)
        requires
            1 <= columns <= usize::MAX / 4,
            1 <= lines <= usize::MAX / 4,
        ensures
            r.wf(),
            r.size() == (columns, lines),
            r.fed_bytes() == Seq::<u8>::empty(),
            r.pending_bytes() == Seq::<u8>::empty(),
    {
        proof {
            crate::escape_filter::lemma_empty_is_safe();
        }
        Interpreter {
            console: ransid::Console::new(columns, lines),
            columns,
            lines,
            pending: Vec::new(),
            fed: Ghost(Seq::empty()),
        }
    }

    /// Decodes `bytes`, after what waited from the last call, into the events
    /// of the primitives the console reports for them, in order. Escape
    /// sequences other than the admitted control sequences are dropped.
    pub fn feed(&mut self, bytes: &[u8]) -> (r: Vec<Event>)
        requires
            old(self).wf(),
        ensures
            final(self).wf(),
            final(self).size() == old(self).size(),
            final(self).fed_bytes() == old(self).fed_bytes() + filter_from(
                old(self).pending_bytes() + bytes@,
                0,
            ).0,
            final(self).pending_bytes() == filter_from(old(self).pending_bytes() + bytes@, 0).1,
            r@ == primitives_events(
                output_between(
                    old(self).size().0,
                    old(self).size().1,
                    old(self).fed_bytes(),
                    final(self).fed_bytes(),
                ),
            ),
    {
        let mut input = Vec::new();
        input.append(&mut self.pending);
        let ghost first = input@;
        let mut k: usize = 0;
        while k < bytes.len()
            invariant
                input@ == first + bytes@.take(k as int),
                k <= bytes@.len(),
            decreases bytes.len() - k,
        {
            input.push(bytes[k]);
            assert(bytes@.take(k + 1) =~= bytes@.take(k as int).push(bytes@[k as int]));
            k += 1;
        }
        assert(bytes@.take(k as int) =~= bytes@);
        let (kept, rest) = split_safe(&input);
        proof {
            lemma_concat_safe(self.fed@, kept@);
        }
        let primitives = decode(self, kept.as_slice());
        self.pending = rest;
        convert_primitives(&primitives)
    }
}

} // verus!
