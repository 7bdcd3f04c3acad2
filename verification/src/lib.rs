//! Verified building blocks of a set of zenoh examples: the texts that the
//! examples publish, the framing of strings handed to zenoh-pico, the
//! decisions of the ping task, and the zenoh configurations they open.

pub mod c_text;
pub mod config;
pub mod decimal;
pub mod hello;
pub mod pico;
pub mod ping;
