//! The keys and key transitions the input logic works with.
use vstd::prelude::*;

verus! {

/// A key that has a name rather than a character.
#[derive(Clone, Copy, Debug, PartialEq, Eq, Structural, Hash)]
pub enum NamedKey {
    ArrowLeft,
    ArrowRight,
    ArrowUp,
    ArrowDown,
    Escape,
    /// Any other named key; the input logic never tells these apart.
    Other,
}

/// The logical key of a keyboard event.
#[derive(Clone, Copy, Debug, PartialEq, Eq, Structural, Hash)]
pub enum Key {
    /// A key that produces a single character, such as `'w'`.
    Character(char),
    /// A key with a name, such as an arrow key.
    Named(NamedKey),
    /// A key the window system could not identify, or that produces more than one character.
    Unidentified,
}

/// Whether a key went down or came up.
#[derive(Clone, Copy, Debug, PartialEq, Eq, Structural, Hash)]
pub enum ElementState {
    Pressed,
    Released,
}

} // verus!
