//! What the discipline hands back from each call
use vstd::prelude::*;

verus! {

/// A signal the discipline raises for the foreground process group
#[derive(Debug, Clone, Copy, PartialEq, Eq, Hash)]
#[non_exhaustive]
pub enum Signal {
    /// `SIGINT`, from the `VINTR` character
    Interrupt,
    /// `SIGQUIT`, from the `VQUIT` character
    Quit,
    /// `SIGTSTP`, from the `VSUSP` character
    Suspend,
}

/// A point in `to_replica` where the program sees more than bytes
#[derive(Debug, Clone, Copy, PartialEq, Eq, Hash)]
#[non_exhaustive]
pub enum Event {
    /// A read returns end of file once the bytes before `at` are drained
    Eof {
        /// Bytes of `to_replica` the program reads first
        at: usize,
    },
    /// The signal goes to the foreground process group once the bytes before `at` are queued
    Signal {
        /// Bytes of `to_replica` the program may read first
        at: usize,
        /// The signal to send
        signal: Signal,
    },
}

impl Event {
    /// The offset in `to_replica` the event falls at
    pub open spec fn offset(self) -> usize {
        match self {
            Event::Eof { at } => at,
            Event::Signal { at, .. } => at,
        }
    }
}

/// What one [`State::input`](crate::State::input) call produced
#[derive(Debug, Clone, PartialEq, Eq)]
#[non_exhaustive]
pub struct InputResult {
    /// Echo for the terminal
    pub to_master: Vec<u8>,
    /// Completed input for the program
    pub to_replica: Vec<u8>,
    /// Ends of file and signals, in order, each placed in `to_replica`
    pub events: Vec<Event>,
}

/// The contents of an [`InputResult`]
pub struct Produced {
    /// Echo for the terminal
    pub to_master: Seq<u8>,
    /// Completed input for the program
    pub to_replica: Seq<u8>,
    /// Ends of file and signals
    pub events: Seq<Event>,
}

impl Produced {
    /// Nothing produced yet
    pub open spec fn empty() -> Produced {
        Produced { to_master: Seq::empty(), to_replica: Seq::empty(), events: Seq::empty() }
    }
}

impl View for InputResult {
    type V = Produced;

    open spec fn view(&self) -> Produced {
        Produced { to_master: self.to_master@, to_replica: self.to_replica@, events: self.events@ }
    }
}

impl Default for InputResult {
    fn default() -> (r: Self)
        ensures
            r@ == Produced::empty(),
    {
        InputResult { to_master: Vec::new(), to_replica: Vec::new(), events: Vec::new() }
    }
}

/// What one [`State::set_termios`](crate::State::set_termios) call released
#[derive(Debug, Clone, PartialEq, Eq)]
#[non_exhaustive]
pub struct TermiosResult {
    /// Echo the terminal gets once the new termios drops `IXON` while `VSTOP` held it
    pub to_master: Vec<u8>,
    /// The line under edit, released to the program when `ICANON` or `EXTPROC` changed
    pub to_replica: Vec<u8>,
}

impl Default for TermiosResult {
    fn default() -> (r: Self)
        ensures
            r.to_master@.len() == 0,
            r.to_replica@.len() == 0,
    {
        TermiosResult { to_master: Vec::new(), to_replica: Vec::new() }
    }
}

/// What one [`State::output`](crate::State::output) call produced
#[derive(Debug, Clone, PartialEq, Eq)]
#[non_exhaustive]
pub struct OutputResult {
    /// Bytes the call took, zero while `VSTOP` or `stop_output` holds output
    pub consumed: usize,
    /// Post-processed bytes for the terminal, behind any echo the call released
    pub to_master: Vec<u8>,
}

impl Default for OutputResult {
    fn default() -> (r: Self)
        ensures
            r.consumed == 0,
            r.to_master@.len() == 0,
    {
        OutputResult { consumed: 0, to_master: Vec::new() }
    }
}

} // verus!
