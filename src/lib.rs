use vstd::prelude::*;

pub mod behaviour;
pub mod color;
pub mod terminal;
pub mod escape_filter;
pub mod event;
pub mod interpreter;
pub mod scroll_buffer;

pub use color::{Color, Style};
pub use terminal::{Action, Settings, Terminal};
pub use event::Event;

verus! {

/// A styled run of characters.
#[derive(Clone, Debug, PartialEq, Eq)]
pub struct TextSlice {
    /// The text within the slice.
    pub text: String,
    pub style: Style,
}

} // verus!
