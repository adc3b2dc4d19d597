//! Pieces that the rest of the library shares.

pub mod ascii;
pub mod buf;
pub mod date;
pub mod either;
pub mod io;
pub mod task;
pub mod time;
pub mod watch;
