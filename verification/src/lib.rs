//! A verified core for a stroke-code input method: a code table mapping short
//! codes to candidate words, a composition state machine that turns key input
//! into committed text, and the keystroke dispatcher that classifies every
//! system key event.

pub mod dictionary;
pub mod input_method;
pub mod dispatcher;
