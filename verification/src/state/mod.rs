//! One pty's line discipline: `State` and the `n_tty` rules, one file per path
use vstd::prelude::*;

mod canon;
mod echo;
pub mod frame;
pub mod laws;
pub mod model;
pub mod split;
mod output;
mod receive;
mod snapshot;

pub use snapshot::Snapshot;

use crate::result::{InputResult, OutputResult, Produced, TermiosResult};
use crate::termios::Termios;
use model::{Cursor, Discipline, LINE_MAX};

verus! {

/// One pty's line discipline: the termios, the line under edit, the held echo and the cursor
#[derive(Debug, Clone, PartialEq, Eq)]
pub struct State {
    termios: Termios,
    line: Vec<u8>,
    echo: Vec<u8>,
    echo_commit: usize,
    echo_mark: usize,
    cursor: Cursor,
    erasing: bool,
    lnext: bool,
    stopped: bool,
    tco_stopped: bool,
}

impl View for State {
    type V = Discipline;

    closed spec fn view(&self) -> Discipline {
        Discipline {
            termios: self.termios,
            line: self.line@,
            echo: self.echo@,
            echo_commit: self.echo_commit as nat,
            echo_mark: self.echo_mark as nat,
            cursor: self.cursor,
            erasing: self.erasing,
            lnext: self.lnext,
            stopped: self.stopped,
            tco_stopped: self.tco_stopped,
        }
    }
}

impl State {
    /// Starts with an empty line and the cursor at column zero
    #[must_use]
    pub fn new(termios: Termios) -> (s: Self)
        ensures
            s@ == Discipline::fresh(termios),
            s@.wf(),
    {
        let s = State {
            termios,
            line: Vec::new(),
            echo: Vec::new(),
            echo_commit: 0,
            echo_mark: 0,
            cursor: Cursor { column: 0, canon_column: 0 },
            erasing: false,
            lnext: false,
            stopped: false,
            tco_stopped: false,
        };
        assert(model::boundary(s@.echo, 0));
        s
    }

    /// The termios in force
    #[must_use]
    pub fn termios(&self) -> (t: &Termios)
        ensures
            *t == self@.termios,
    {
        &self.termios
    }

    /// Installs a termios, the replica's `tcsetattr`, and returns the line a switch of `ICANON` or
    /// `EXTPROC` releases to the program, and the echo a dropped `IXON` releases to the terminal
    #[must_use]
    pub fn set_termios(&mut self, termios: Termios) -> (r: TermiosResult)
        requires
            old(self)@.wf(),
        ensures
            (final(self)@, r.to_master@, r.to_replica@) == old(self)@.set_termios(termios),
            final(self)@.wf(),
    {
        let mode = Termios::ICANON | Termios::EXTPROC;
        let mode_changed = (self.termios.local_flags ^ termios.local_flags) & mode != 0;
        let ixon_dropped = self.iflag(Termios::IXON) && termios.input_flags & Termios::IXON == 0;
        let tco_stopped = self.tco_stopped;
        self.termios = termios;
        let mut out = TermiosResult { to_master: Vec::new(), to_replica: Vec::new() };
        if ixon_dropped && !tco_stopped {
            self.stopped = false;
            echo::release(self, &mut out.to_master);
        }
        if mode_changed {
            self.erasing = false;
            self.lnext = false;
            std::mem::swap(&mut self.line, &mut out.to_replica);
        }
        out
    }

    /// Drops the line under edit, the `TCIFLUSH` half of `tcflush`
    pub fn flush_input(&mut self)
        requires
            old(self)@.wf(),
        ensures
            final(self)@ == (Discipline { line: Seq::empty(), erasing: false, ..old(self)@ }),
            final(self)@.wf(),
    {
        self.line.clear();
        self.erasing = false;
    }

    /// Takes bytes the terminal typed and returns the echo, the completed input and the events
    #[must_use]
    pub fn input(&mut self, bytes: &[u8]) -> (r: InputResult)
        requires
            old(self)@.wf(),
        ensures
            (final(self)@, r@) == old(self)@.input(bytes@),
            final(self)@.wf(),
            final(self)@.termios == old(self)@.termios,
            final(self)@.tco_stopped == old(self)@.tco_stopped,
            old(self)@.tco_stopped ==> final(self)@.stopped,
            model::placed(r@),
            (old(self)@.lflag(Termios::ECHO) || old(self)@.lflag(Termios::ECHONL))
                ==> final(self)@.echo.len() <= model::DISCARD_WATERMARK,
    {
        let mut out = InputResult { to_master: Vec::new(), to_replica: Vec::new(), events: Vec::new() };
        let ghost start = self@;
        let mut i: usize = 0;
        while i < bytes.len()
            invariant
                self@.wf(),
                i <= bytes@.len(),
                (self@, out@) == start.steps(Produced::empty(), bytes@.take(i as int)),
                self@.termios == old(self)@.termios,
                self@.tco_stopped == old(self)@.tco_stopped,
                model::placed(out@),
            decreases bytes@.len() - i,
        {
            assert(bytes@.take(i + 1).drop_last() =~= bytes@.take(i as int));
            receive::byte(self, bytes[i], &mut out);
            let ghost produced = out@;
            echo::commit(self, &mut out.to_master);
            assert(out@.events == produced.events && out@.to_replica == produced.to_replica);
            i = i + 1;
        }
        assert(bytes@.take(bytes@.len() as int) =~= bytes@);
        let ghost produced = out@;
        echo::flush(self, &mut out.to_master);
        assert(out@.events == produced.events && out@.to_replica == produced.to_replica);
        out
    }

    /// Takes bytes the program wrote and returns them post-processed for the terminal, behind
    /// the echo the call releases; it takes none while output is held
    #[must_use]
    pub fn output(&mut self, bytes: &[u8]) -> (r: OutputResult)
        requires
            old(self)@.wf(),
        ensures
            (final(self)@, r.consumed, r.to_master@) == old(self)@.output(bytes@),
            final(self)@.wf(),
    {
        output::write(self, bytes)
    }

    /// Holds output and echo the way `VSTOP` does, the `TCOOFF` half of `tcflow`: only
    /// `start_output` releases them
    pub fn stop_output(&mut self)
        requires
            old(self)@.wf(),
        ensures
            final(self)@ == (Discipline { stopped: true, tco_stopped: true, ..old(self)@ }),
            final(self)@.wf(),
    {
        self.tco_stopped = true;
        self.stopped = true;
    }

    /// Releases what `stop_output` held, the `TCOON` half of `tcflow`; the held echo goes out
    /// with the next `input` or `output` call
    pub fn start_output(&mut self)
        requires
            old(self)@.wf(),
        ensures
            final(self)@ == (if old(self)@.tco_stopped {
                Discipline { stopped: false, tco_stopped: false, ..old(self)@ }
            } else {
                old(self)@
            }),
            final(self)@.wf(),
    {
        if self.tco_stopped {
            self.tco_stopped = false;
            self.stopped = false;
        }
    }

    /// Whether `VSTOP` or `stop_output` holds output, so that `output` takes nothing
    #[must_use]
    pub fn is_output_stopped(&self) -> (r: bool)
        ensures
            r == self@.stopped,
    {
        self.stopped
    }

    /// A `c_iflag` bit
    fn iflag(&self, flag: u32) -> (r: bool)
        ensures
            r == self@.iflag(flag),
    {
        self.termios.input_flags & flag != 0
    }

    /// A `c_oflag` bit
    fn oflag(&self, flag: u32) -> (r: bool)
        ensures
            r == self@.oflag(flag),
    {
        self.termios.output_flags & flag != 0
    }

    /// A `c_lflag` bit
    fn lflag(&self, flag: u32) -> (r: bool)
        ensures
            r == self@.lflag(flag),
    {
        self.termios.local_flags & flag != 0
    }

    /// A control character, 0 (disabled) past the end of `c_cc`
    fn cc(&self, index: usize) -> (r: u8)
        ensures
            r == self@.cc(index),
    {
        if index < Termios::NCCS {
            self.termios.control_characters[index]
        } else {
            0
        }
    }

    /// Adds a byte to the canonical line, dropping the newest byte first when the line is full
    fn push_line(&mut self, c: u8)
        requires
            old(self)@.wf(),
        ensures
            final(self)@ == old(self)@.push_line(c),
            final(self)@.wf(),
    {
        if self.line.len() >= LINE_MAX {
            self.line.pop();
        }
        self.line.push(c);
    }

    /// A UTF-8 continuation byte under `IUTF8`
    fn is_continuation(&self, c: u8) -> (r: bool)
        ensures
            r == model::continues(self.termios, c),
    {
        is_continuation(&self.termios, c)
    }
}

/// A UTF-8 continuation byte under `IUTF8`, which takes no column of its own
fn is_continuation(termios: &Termios, c: u8) -> (r: bool)
    ensures
        r == model::continues(*termios, c),
{
    termios.input_flags & Termios::IUTF8 != 0 && c & 0xc0 == 0x80
}

impl Default for State {
    /// A discipline under `Termios::default()`
    fn default() -> (s: Self)
        ensures
            s@ == Discipline::fresh(s@.termios),
            s@.termios.is_pty_default(),
            s@.wf(),
    {
        State::new(Termios::default())
    }
}

} // verus!
