//! Interactive pin console over a serial link: a line editor, a tokenizer and a
//! command dispatcher for inspecting and driving general-purpose I/O pins.

pub mod ascii;
pub mod atoi;
pub mod command;
pub mod console;
pub mod itoa;
pub mod line_buffer;
pub mod pins;
pub mod serial;
pub mod words;
