//! The logic of a terminal "hacker typer": configuration defaults, the text
//! that gets typed out, its syntax colouring, the typing state machine, the
//! digital-rain effect and the choice of a terminal emulator.

pub mod config;
pub mod ui;
pub mod source;
pub mod highlight;
pub mod matrix;
pub mod terminal;
