use vstd::prelude::*;

verus! {

/// One message that a producer hands to an observer.
#[derive(Clone, Copy, Debug, PartialEq, Eq)]
pub enum Notification<T, E> {
    Next(T),
    Error(E),
    Complete,
}

/// The terminal signal that a closed subject keeps for late subscribers.
#[derive(Clone, Copy, Debug, PartialEq, Eq)]
pub enum Terminal<E> {
    Completed,
    Failed(E),
}

impl<E> Terminal<E> {
    /// The message that carries this terminal signal.
    pub open spec fn message<T>(self) -> Notification<T, E> {
        match self {
            Terminal::Completed => Notification::Complete,
            Terminal::Failed(e) => Notification::Error(e),
        }
    }
}

impl<T, E> Notification<T, E> {
    pub open spec fn is_terminal(self) -> bool {
        !(self is Next)
    }
}

} // verus!
