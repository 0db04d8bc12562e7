//! Plain data that the soundboard stores with its sounds.
pub mod keybind;
