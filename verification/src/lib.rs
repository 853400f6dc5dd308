//! Terminal backend: turns cells, cursor requests and mode changes into the
//! text and the actions that drive a VT terminal.

pub mod backend;
pub mod escape;
pub mod frame;
pub mod modifiers;
pub mod output;
pub mod plan;
pub mod report;
pub mod screen;
pub mod session;
pub mod style;
pub mod terminal;
pub mod terminfo;
