//! The Linux `n_tty` line discipline as a library
pub mod ctype;
pub mod termios;
pub use termios::Termios;
mod result;
pub use result::{Event, InputResult, OutputResult, Produced, Signal, TermiosResult};
mod state;
pub use state::{Snapshot, State};
pub use state::model::{Cursor, Discipline};
pub mod pty;
