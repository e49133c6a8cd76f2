//! Verified core of a terminal chat client: conversation transcript with a
//! persona header and trimming policy, modal popup state machine, input
//! handling around a remote completion call, text wrapping, a character-grid
//! drawing surface, and a persistence codec for the transcript.

use vstd::prelude::*;

pub mod ai_logic;
pub mod app;
pub mod chars;
pub mod codec;
pub mod input;
pub mod popups;
pub mod text_layout;
pub mod tui;

verus! {

/// Most recent non-persona messages kept by history trimming.
pub const MAX_HISTORY_MESSAGES: usize = 50;

/// Hard ceiling on the length of a submitted input, in characters.
pub const MAX_INPUT_LENGTH: usize = 1000;

/// Smallest terminal width on which the chat view is rendered.
pub const MIN_WIDTH: u16 = 80;

/// Smallest terminal height on which the chat view is rendered.
pub const MIN_HEIGHT: u16 = 20;

} // verus!
