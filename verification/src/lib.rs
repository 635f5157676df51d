//! An interactive font-preview prompt, as a verified core.
//!
//! The user types text, sees it previewed through every available font, moves
//! the selection with the arrow keys and confirms with Enter. This crate holds
//! the part of that interaction that can be reasoned about: the input buffer,
//! the key-driven state machine, the renderer that turns each state into a
//! sequence of relative terminal commands, a small model of the screen region
//! those commands act on, and the encoding of the commands as ANSI text.
//! Reading keys and writing bytes to a terminal are left to the caller.

pub mod ansi;
pub mod buffer;
pub mod command;
pub mod prompt;
pub mod screen;

pub use buffer::InputBuffer;
pub use command::{ClearKind, Command, Op};
pub use prompt::{Action, Font, Key, Prompt, PromptState};
pub use screen::Screen;
