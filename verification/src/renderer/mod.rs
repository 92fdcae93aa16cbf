//! Text input and output: what a key does, where the cursor goes and what
//! the text buffer holds.
pub mod keyboard_interface;
pub mod text_renderer;
