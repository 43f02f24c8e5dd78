//! Decision and parsing logic of the Razer laptop control daemon and GUI.
pub mod text;
pub mod numbers;
pub mod float_text;
pub mod gpu;
pub mod temps;
pub mod poll;
pub mod gui;
