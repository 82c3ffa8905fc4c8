//! Parsing of Vim-style key notation (`<C-S-F11>`, `<lt>`, plain characters)
//! into sequences of key presses.

pub mod key;
pub mod notation;
pub mod sequence;
pub mod laws;
