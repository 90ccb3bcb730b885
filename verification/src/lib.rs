//! The editing core of a sticky-notes text input: a text buffer addressed by
//! byte offsets, grapheme-aware cursor movement, a selection model, navigation
//! over wrapped visual lines, edit operations and the blinking-cursor state
//! machine. Every function carries a contract. Verus proves each of them but
//! those of the few items marked as trusted, which call into outside crates.

pub mod blink_cursor;
pub mod buffer;
pub mod codec;
pub mod debounce;
pub mod grapheme;
pub mod layout;
pub mod note;
pub mod text_input;
