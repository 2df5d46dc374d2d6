//! Interaction core of a terminal key/value form editor.
//!
//! The library owns the state machine behind the editor: the screen modes,
//! the two in-progress edit buffers, the accumulated pair store, and the
//! dispatcher that turns key presses into transitions.  Rendering and
//! terminal I/O live outside the library and only read this state.

pub mod app;
pub mod dispatch;
pub mod json;
pub mod render;
