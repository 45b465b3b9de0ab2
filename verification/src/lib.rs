//! The logic of a serial-port terminal: the text it shows of received
//! bytes, the bytes it sends, and the labels of ports and settings.

pub mod clock;
pub mod config;
pub mod digits;
pub mod link;
pub mod payload;
pub mod ports;
pub mod rx;
pub mod rxlog;
pub mod size;
pub mod terminal;
pub mod text;
