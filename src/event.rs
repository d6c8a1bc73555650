use vstd::prelude::*;

verus! {

/// The window events that a drawing loop tells apart.
#[derive(Clone, Copy, Debug, PartialEq, Eq, Structural)]
pub enum Event {
    /// The user asked to close the window or leave the program.
    Quit,
    /// Any other input: keys, mouse, window changes.
    Other,
}

/// Questions that a drawing loop asks of an event.
pub trait EventExt {
    /// Whether the event asks the program to stop.
    fn is_quit(&self) -> bool;
}

impl EventExt for Event {
    fn is_quit(&self) -> (r: bool)
        ensures
            r == (*self == Event::Quit),
    {
        match self {
            Event::Quit => true,
            _ => false,
        }
    }
}

} // verus!
