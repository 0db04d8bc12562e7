//! A key combination that can trigger a sound.
use vstd::prelude::*;

verus! {

/// A key together with the modifiers held while it is pressed.
#[derive(Debug, Clone, PartialEq, Eq, Hash)]
pub struct Keybind {
    pub modifiers: Vec<Modifier>,
    pub key: String,
}

/// A modifier key.
#[derive(Debug, Clone, PartialEq, Eq, Hash, Structural)]
pub enum Modifier {
    Ctrl,
    Shift,
    Alt,
    Super,
}

} // verus!
