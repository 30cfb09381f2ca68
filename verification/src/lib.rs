//! Core of a minimalistic modal text editor: text buffers with a clamped
//! cursor, a three-mode input state machine, and a FIFO queue of typed
//! commands. Terminal I/O, rendering and file access live outside; the
//! logic here only ever sees plain values (viewport dimensions, decoded
//! key events, lines of text).

pub mod buffer;
pub mod editor;
