use vstd::prelude::*;

use crate::color::Color;

verus! {

/// An observable effect of the session on the terminal screen.
#[derive(Clone, Copy, Debug, PartialEq, Eq, Structural)]
pub enum Event {
    /// A character placed at viewport location `(x, y)`.
    PutCharacter {
        x: usize,
        y: usize,
        character: char,
        bold: bool,
        italic: bool,
        underlined: bool,
        strikethrough: bool,
        color: Color,
    },
    /// The visible screen was cleared.
    ClearScreen,
}

/// A primitive that the escape-sequence interpreter reports while it decodes
/// the session's output.
#[derive(Clone, Copy, Debug, PartialEq, Eq, Structural)]
pub enum Primitive {
    /// A character with its position and attributes; the color is packed as
    /// `0xAARRGGBB`.
    Char {
        x: usize,
        y: usize,
        c: char,
        bold: bool,
        italic: bool,
        underlined: bool,
        strikethrough: bool,
        color: u32,
    },
    /// A switch of screen buffer, which may clear the screen.
    ScreenBuffer { alternate: bool, clear: bool },
    /// Any other primitive (cursor moves, scroll regions, titles, ...).
    Other,
}

/// The events a primitive stands for: a character placement, a clear when the
/// screen buffer is cleared, and nothing for every other primitive.
pub open spec fn primitive_events(p: Primitive) -> Seq<Event> {
    match p {
        Primitive::Char { x, y, c, bold, italic, underlined, strikethrough, color } => seq![
            Event::PutCharacter {
                x,
                y,
                character: c,
                bold,
                italic,
                underlined,
                strikethrough,
                color: Color::unpacked(color),
            },
        ],
        Primitive::ScreenBuffer { clear, .. } => if clear {
            seq![Event::ClearScreen]
        } else {
            Seq::empty()
        },
        Primitive::Other => Seq::empty(),
    }
}

/// The events of a sequence of primitives, in order.
pub open spec fn primitives_events(ps: Seq<Primitive>) -> Seq<Event>
    decreases ps.len(),
{
    if ps.len() == 0 {
        Seq::empty()
    } else {
        primitives_events(ps.drop_last()) + primitive_events(ps.last())
    }
}

/// The events of one interpreter primitive.
pub fn convert_primitive(p: &Primitive) -> (r: Vec<Event>)
    ensures
        r@ == primitive_events(*p),
{
    match *p {
        Primitive::Char { x, y, c, bold, italic, underlined, strikethrough, color } => {
            let color = Color::from_packed_argb8(color);
            let mut r = Vec::new();
            r.push(
                Event::PutCharacter {
                    x,
                    y,
                    character: c,
                    bold,
                    italic,
                    underlined,
                    strikethrough,
                    color,
                },
            );
            assert(r@ =~= primitive_events(*p));
            r
        },
        Primitive::ScreenBuffer { clear, .. } => {
            let mut r = Vec::new();
            if clear {
                r.push(Event::ClearScreen);
            }
            assert(r@ =~= primitive_events(*p));
            r
        },
        Primitive::Other => {
            let r = Vec::new();
            assert(r@ =~= primitive_events(*p));
            r
        },
    }
}

/// The events of a run of primitives, in their order.
pub fn convert_primitives(ps: &Vec<Primitive>) -> (r: Vec<Event>)
    ensures
        r@ == primitives_events(ps@),
{
    let mut events: Vec<Event> = Vec::new();
    for i in 0..ps.len()
        invariant
            events@ == primitives_events(ps@.take(i as int)),
    {
        let mut more = convert_primitive(&ps[i]);
        assert(ps@.take(i + 1).drop_last() =~= ps@.take(i as int));
        events.append(&mut more);
    }
    assert(ps@.take(ps@.len() as int) =~= ps@);
    events
}

} // verus!
