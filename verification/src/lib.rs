//! A soundboard's library of sounds, its playback pools and the state that its
//! window edits, with their contracts proved by Verus.
use vstd::prelude::*;

pub mod audio;
pub mod board;
pub mod marked;
pub mod model;
pub mod sound;

verus! {

} // verus!
