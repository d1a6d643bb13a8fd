//! The discipline as a pure function: the state a pty's line discipline holds and what each
//! byte, each program write and each termios change does to it
use vstd::prelude::*;

use crate::ctype::{alnum, cntrl, uppered, lowered};
use crate::result::{Event, Produced, Signal};
use crate::termios::Termios;
use super::canon::{Kill, Outcome};

verus! {

/// Bytes one canonical line may hold, the kernel's `N_TTY_BUF_SIZE`
pub const LINE_MAX: usize = 4096;

/// `ECHO_OP_START`, which opens an operation in the echo buffer and escapes itself
pub const START: u8 = 0xff;

/// `ECHO_OP_ERASE_TAB`
pub const ERASE_TAB: u8 = 0x80;

/// `ECHO_OP_SET_CANON_COL`
pub const SET_CANON_COL: u8 = 0x81;

/// `ECHO_OP_MOVE_BACK_COL`
pub const MOVE_BACK_COL: u8 = 0x82;

/// `ECHO_COMMIT_WATERMARK`, the bytes that must wait before a commit writes them out
pub const COMMIT_WATERMARK: usize = 256;

/// `ECHO_DISCARD_WATERMARK`, the kernel's `N_TTY_BUF_SIZE - (ECHO_BLOCK + 32)`, the most held
/// echo keeps: past it the oldest operations are dropped
pub const DISCARD_WATERMARK: usize = 3808;

/// The screen column and the column the current line started at
#[derive(Debug, Clone, Copy, PartialEq, Eq, Default)]
pub struct Cursor {
    /// The column the next byte lands in
    pub column: usize,
    /// The column the line under edit started at
    pub canon_column: usize,
}

/// A UTF-8 continuation byte under `IUTF8`, which takes no column of its own
pub open spec fn continues(t: Termios, c: u8) -> bool {
    t.input_flags & Termios::IUTF8 != 0 && c & 0xc0 == 0x80
}

/// The word characters `VWERASE` erases: letters, digits and `_`
pub open spec fn word_char(c: u8) -> bool {
    alnum(c) || c == 0x5f
}

/// How far an operation at `i` reaches: one byte, an escaped byte or two-byte operation, or the
/// three bytes of an erased tab
pub open spec fn op_len(echo: Seq<u8>, i: int) -> int {
    if echo[i] != START {
        1
    } else if echo[i + 1] == ERASE_TAB {
        3
    } else {
        2
    }
}

/// Stepping from operation to operation at `from` lands exactly on `to`
pub open spec fn reaches(echo: Seq<u8>, from: int, to: int) -> bool
    decreases to - from,
{
    if from == to {
        true
    } else if from > to || from + op_len(echo, from) > to {
        false
    } else {
        reaches(echo, from + op_len(echo, from), to)
    }
}

/// An index where an operation of the echo buffer starts, or its end
pub open spec fn boundary(echo: Seq<u8>, i: int) -> bool {
    0 <= i <= echo.len() && reaches(echo, 0, i)
}

/// The count byte of an erased tab: the columns modulo 8, with the high bit when they were
/// counted from a tab rather than from the line start
pub open spec fn tab_count(columns: usize, after_tab: bool) -> u8 {
    let low = (columns & 7) as u8;
    if after_tab {
        low | 0x80
    } else {
        low
    }
}

/// The columns the characters before an erased tab took, scanned back from `i` to the previous
/// tab or the line start, and whether a tab ended the scan
pub open spec fn tab_scan(t: Termios, line: Seq<u8>, i: int, columns: usize) -> (usize, bool)
    decreases i,
{
    if i <= 0 {
        (columns, false)
    } else {
        let b = line[i - 1];
        if b == 9 {
            (columns, true)
        } else {
            let next = if cntrl(b) {
                if t.local_flags & Termios::ECHOCTL != 0 {
                    columns.saturating_add(2)
                } else {
                    columns
                }
            } else if !continues(t, b) {
                columns.saturating_add(1)
            } else {
                columns
            };
            tab_scan(t, line, i - 1, next)
        }
    }
}

/// Where the last character of the line starts: the last byte that does not continue a UTF-8
/// sequence, if any
pub open spec fn last_start(t: Termios, line: Seq<u8>) -> Option<int>
    decreases line.len(),
{
    if line.len() == 0 {
        None
    } else if !continues(t, line.last()) {
        Some(line.len() - 1)
    } else {
        last_start(t, line.drop_last())
    }
}

/// Every event falls inside the input it comes with, and the events come in the order of their
/// offsets
pub open spec fn placed(p: Produced) -> bool {
    &&& forall|i: int| 0 <= i < p.events.len() ==> #[trigger] p.events[i].offset() <= p.to_replica.len()
    &&& forall|i: int, j: int|
        0 <= i <= j < p.events.len() ==> #[trigger] p.events[i].offset() <= #[trigger] p.events[j].offset()
}

/// The signal events of a list, all moved to the start of the flushed input
pub open spec fn kept_signals(events: Seq<Event>) -> Seq<Event>
    decreases events.len(),
{
    if events.len() == 0 {
        Seq::empty()
    } else {
        let rest = kept_signals(events.drop_last());
        match events.last() {
            Event::Signal { signal, .. } => rest.push(Event::Signal { at: 0, signal }),
            Event::Eof { .. } => rest,
        }
    }
}

impl Cursor {
    /// `do_output_char`: one byte through the output flags, and the column it leaves
    pub open spec fn wrote(self, t: Termios, c: u8) -> (Cursor, Seq<u8>) {
        let oflag = |f: u32| t.output_flags & f != 0;
        if c == 10 {
            let column = if oflag(Termios::ONLRET) { 0 } else { self.column };
            if oflag(Termios::ONLCR) {
                (Cursor { column: 0, canon_column: 0 }, seq![13u8, 10])
            } else {
                (Cursor { column, canon_column: column }, seq![10u8])
            }
        } else if c == 13 {
            if oflag(Termios::ONOCR) && self.column == 0 {
                (self, Seq::empty())
            } else if oflag(Termios::OCRNL) {
                if oflag(Termios::ONLRET) {
                    (Cursor { column: 0, canon_column: 0 }, seq![10u8])
                } else {
                    (self, seq![10u8])
                }
            } else {
                (Cursor { column: 0, canon_column: 0 }, seq![13u8])
            }
        } else if c == 9 {
            let spaces = (8 - (self.column & 7)) as usize;
            let moved = Cursor { column: self.column.saturating_add(spaces), ..self };
            if t.output_flags & Termios::TABDLY == Termios::XTABS {
                (moved, Seq::new(spaces as nat, |i: int| 32u8))
            } else {
                (moved, seq![9u8])
            }
        } else if c == 8 {
            (Cursor { column: self.column.saturating_sub(1), ..self }, seq![8u8])
        } else if cntrl(c) {
            (self, seq![c])
        } else {
            let shown = if oflag(Termios::OLCUC) { uppered(c) } else { c };
            if continues(t, shown) {
                (self, seq![shown])
            } else {
                (Cursor { column: self.column.saturating_add(1), ..self }, seq![shown])
            }
        }
    }

    /// Bytes written one after another, the output appended to `out`
    pub open spec fn wrote_all(self, t: Termios, out: Seq<u8>, bytes: Seq<u8>) -> (Cursor, Seq<u8>)
        decreases bytes.len(),
    {
        if bytes.len() == 0 {
            (self, out)
        } else {
            let (cursor, written) = self.wrote_all(t, out, bytes.drop_last());
            let (next, shown) = cursor.wrote(t, bytes.last());
            (next, written + shown)
        }
    }

    /// `ECHO_OP_ERASE_TAB`: backspaces to the tab stop an erased tab left, given its count byte
    pub open spec fn tab_back(self, count: u8) -> (Cursor, Seq<u8>) {
        let low = (count & 0x7f) as usize;
        let used = if count & 0x80 == 0 {
            low.wrapping_add(self.canon_column)
        } else {
            low
        };
        let n = (8 - (used & 7)) as usize;
        (Cursor { column: self.column.saturating_sub(n), ..self }, Seq::new(n as nat, |i: int| 8u8))
    }

    /// Writes out the echo operation at `tail`
    pub open spec fn rendered(self, t: Termios, echo: Seq<u8>, tail: int) -> (Cursor, Seq<u8>) {
        let c = echo[tail];
        if c != START {
            if t.output_flags & Termios::OPOST != 0 {
                self.wrote(t, c)
            } else {
                (self, seq![c])
            }
        } else {
            let op = echo[tail + 1];
            if op == ERASE_TAB {
                self.tab_back(echo[tail + 2])
            } else if op == SET_CANON_COL {
                (Cursor { canon_column: self.column, ..self }, Seq::empty())
            } else if op == MOVE_BACK_COL {
                (Cursor { column: self.column.saturating_sub(1), ..self }, Seq::empty())
            } else if op == START {
                (Cursor { column: self.column.saturating_add(1), ..self }, seq![START])
            } else {
                (Cursor { column: self.column.saturating_add(2), ..self }, seq![0x5eu8, op ^ 0x40])
            }
        }
    }

    /// Writes out the operations from `tail` up to `commit`, returning where it stopped
    pub open spec fn render_from(
        self,
        t: Termios,
        echo: Seq<u8>,
        commit: int,
        out: Seq<u8>,
        tail: int,
    ) -> (Cursor, Seq<u8>, int)
        decreases commit - tail + 3,
    {
        if tail < commit {
            let (next, shown) = self.rendered(t, echo, tail);
            next.render_from(t, echo, commit, out + shown, tail + op_len(echo, tail))
        } else {
            (self, out, tail)
        }
    }
}

/// Steps over the operations the discard drops, from `tail` while `commit` is more than a
/// watermark ahead
pub open spec fn discard_from(echo: Seq<u8>, commit: int, tail: int) -> int
    decreases commit - tail,
{
    if commit - tail > DISCARD_WATERMARK {
        discard_from(echo, commit, tail + op_len(echo, tail))
    } else {
        tail
    }
}

/// One pty's line discipline: the termios, the line under edit, the held echo and the cursor
#[verifier::ext_equal]
pub struct Discipline {
    /// The termios in force
    pub termios: Termios,
    /// The canonical line under edit
    pub line: Seq<u8>,
    /// The echo buffer, in the kernel's operation format
    pub echo: Seq<u8>,
    /// How much of the echo buffer may be written out
    pub echo_commit: nat,
    /// How much of the echo buffer a restart or a program write releases
    pub echo_mark: nat,
    /// The screen column and line start column
    pub cursor: Cursor,
    /// Inside an `ECHOPRT` run
    pub erasing: bool,
    /// The next byte is taken literally
    pub lnext: bool,
    /// `VSTOP` or `stop_output` holds output and echo
    pub stopped: bool,
    /// `stop_output` holds output, and only `start_output` releases it
    pub tco_stopped: bool,
}

impl Discipline {
    /// A fresh discipline under a termios
    pub open spec fn fresh(termios: Termios) -> Discipline {
        Discipline {
            termios,
            line: Seq::empty(),
            echo: Seq::empty(),
            echo_commit: 0,
            echo_mark: 0,
            cursor: Cursor { column: 0, canon_column: 0 },
            erasing: false,
            lnext: false,
            stopped: false,
            tco_stopped: false,
        }
    }

    /// A line within the kernel's buffer, an echo buffer made of whole operations with its
    /// commit and mark on operation boundaries, and `stop_output` holding output whenever it is
    /// in force
    pub open spec fn wf_base(self) -> bool {
        &&& self.line.len() <= LINE_MAX
        &&& boundary(self.echo, self.echo.len() as int)
        &&& boundary(self.echo, self.echo_commit as int)
        &&& boundary(self.echo, self.echo_mark as int)
        &&& self.tco_stopped ==> self.stopped
    }

    /// The invariant every state keeps: `wf_base`, and no more committed echo than the discard
    /// watermark, since every commit drops what lies past it
    pub open spec fn wf(self) -> bool {
        &&& self.wf_base()
        &&& self.echo_commit <= DISCARD_WATERMARK
    }

    /// A `c_iflag` bit
    pub open spec fn iflag(self, flag: u32) -> bool {
        self.termios.input_flags & flag != 0
    }

    /// A `c_oflag` bit
    pub open spec fn oflag(self, flag: u32) -> bool {
        self.termios.output_flags & flag != 0
    }

    /// A `c_lflag` bit
    pub open spec fn lflag(self, flag: u32) -> bool {
        self.termios.local_flags & flag != 0
    }

    /// A control character
    pub open spec fn cc(self, index: usize) -> u8 {
        self.termios.cc(index as int)
    }

    // The echo buffer

    /// Bytes appended to the echo buffer
    pub open spec fn with_echo(self, bytes: Seq<u8>) -> Discipline {
        Discipline { echo: self.echo + bytes, ..self }
    }

    /// `echo_char_raw`: one byte as is, the operation byte escaped
    pub open spec fn raw(self, c: u8) -> Discipline {
        if c == START {
            self.with_echo(seq![START, START])
        } else {
            self.with_echo(seq![c])
        }
    }

    /// `echo_char`: a control character under `ECHOCTL`, a tab aside, tagged to show as `^X`
    pub open spec fn visible(self, c: u8) -> Discipline {
        if c != START && self.lflag(Termios::ECHOCTL) && cntrl(c) && c != 9 {
            self.with_echo(seq![START, c])
        } else {
            self.raw(c)
        }
    }

    /// The bytes of a sequence echoed with `visible`, one after another
    pub open spec fn visible_all(self, bytes: Seq<u8>) -> Discipline
        decreases bytes.len(),
    {
        if bytes.len() == 0 {
            self
        } else {
            self.visible_all(bytes.drop_last()).visible(bytes.last())
        }
    }

    /// Ends an `ECHOPRT` run with the closing slash
    pub open spec fn finish_erasing(self) -> Discipline {
        if self.erasing {
            Discipline { erasing: false, ..self.raw(0x2f) }
        } else {
            self
        }
    }

    /// `echo_set_canon_col` before a line's first byte
    pub open spec fn set_canon_column(self) -> Discipline {
        if self.line.len() == 0 {
            self.with_echo(seq![START, SET_CANON_COL])
        } else {
            self
        }
    }

    /// `echo_move_back_col`
    pub open spec fn move_back_column(self) -> Discipline {
        self.with_echo(seq![START, MOVE_BACK_COL])
    }

    /// `echo_erase_tab`
    pub open spec fn erase_tab_op(self, columns: usize, after_tab: bool) -> Discipline {
        self.with_echo(seq![START, ERASE_TAB, tab_count(columns, after_tab)])
    }

    /// `__process_echoes`: writes out the committed echo unless output is held, then drops the
    /// oldest operations past the discard watermark, and forgets what it wrote or dropped
    pub open spec fn process(self, out: Seq<u8>) -> (Discipline, Seq<u8>) {
        let (cursor, written, tail) = if !self.stopped {
            self.cursor.render_from(self.termios, self.echo, self.echo_commit as int, out, 0)
        } else {
            (self.cursor, out, 0)
        };
        let dropped = discard_from(self.echo, self.echo_commit as int, tail);
        (
            Discipline {
                echo: self.echo.skip(dropped),
                echo_commit: (self.echo_commit - dropped) as nat,
                echo_mark: if self.echo_mark >= dropped {
                    (self.echo_mark - dropped) as nat
                } else {
                    0
                },
                cursor,
                ..self
            },
            written,
        )
    }

    /// `commit_echoes`: marks the echo so far and writes it out once another block of 256 bytes
    /// waits past the watermark
    pub open spec fn commit(self, out: Seq<u8>) -> (Discipline, Seq<u8>) {
        let head = self.echo.len();
        let marked = Discipline { echo_mark: head, ..self };
        if head < COMMIT_WATERMARK || (head as usize) & 255 > (self.echo_commit as usize) & 255 {
            (marked, out)
        } else {
            Discipline { echo_commit: head, ..marked }.process(out)
        }
    }

    /// `process_echoes`: writes out the echo marked so far
    pub open spec fn release(self, out: Seq<u8>) -> (Discipline, Seq<u8>) {
        if self.echo_mark == 0 {
            (self, out)
        } else {
            Discipline { echo_commit: self.echo_mark, ..self }.process(out)
        }
    }

    /// `flush_echoes`: writes out every echo byte at the end of an input call, unless neither
    /// `ECHO` nor `ECHONL` is set
    pub open spec fn flush_echo(self, out: Seq<u8>) -> (Discipline, Seq<u8>) {
        let silent = !self.lflag(Termios::ECHO) && !self.lflag(Termios::ECHONL);
        if silent || self.echo_commit == self.echo.len() {
            (self, out)
        } else {
            Discipline { echo_commit: self.echo.len(), ..self }.process(out)
        }
    }

    // The line under edit

    /// Adds a byte to the line, dropping the newest byte first when the line is full
    pub open spec fn push_line(self, c: u8) -> Discipline {
        let line = if self.line.len() >= LINE_MAX {
            self.line.drop_last()
        } else {
            self.line
        };
        Discipline { line: line.push(c), ..self }
    }
}

/// Moves a discipline and what one input call produced through one rule
impl Discipline {
    /// Adds a byte to the line under edit, or hands it to the program outside canonical mode
    pub open spec fn queue(self, p: Produced, c: u8) -> (Discipline, Produced) {
        if self.lflag(Termios::ICANON) && !self.lflag(Termios::EXTPROC) {
            (self.push_line(c), p)
        } else {
            (self, Produced { to_replica: p.to_replica.push(c), ..p })
        }
    }

    /// An end of file the program reads once the input before it is drained
    pub open spec fn eof(self, p: Produced) -> (Discipline, Produced) {
        (self, Produced { events: p.events.push(Event::Eof { at: p.to_replica.len() as usize }), ..p })
    }

    /// Echo, with a bare newline when the special path asks for one, then queue with `PARMRK`
    /// doubling a 0xff byte
    pub open spec fn accept(self, p: Produced, c: u8, raw_newline: bool) -> (Discipline, Produced) {
        let echoed = if self.lflag(Termios::ECHO) {
            let d = self.finish_erasing();
            if raw_newline && c == 10 {
                d.raw(10)
            } else {
                d.set_canon_column().visible(c)
            }
        } else {
            self
        };
        let (d, q) = if c == 0xff && self.iflag(Termios::PARMRK) {
            echoed.queue(p, c)
        } else {
            (echoed, p)
        };
        d.queue(q, c)
    }

    /// The released echo of a restart, appended to the echo the call returns
    pub open spec fn release_into(self, p: Produced) -> (Discipline, Produced) {
        let (d, m) = self.release(p.to_master);
        (d, Produced { to_master: m, ..p })
    }

    /// Releases output and the echo it held, unless `stop_output` holds them
    pub open spec fn start(self, p: Produced) -> (Discipline, Produced) {
        let d = if !self.tco_stopped {
            Discipline { stopped: false, ..self }
        } else {
            self
        };
        d.release_into(p)
    }

    /// Under `IXANY` any byte releases output that `VSTOP` held
    pub open spec fn restart_on_any(self, p: Produced) -> (Discipline, Produced) {
        if self.stopped && !self.tco_stopped && self.iflag(Termios::IXON) && self.iflag(
            Termios::IXANY,
        ) {
            self.start(p)
        } else {
            (self, p)
        }
    }

    /// `n_tty_receive_char`: an ordinary byte, echoed and queued
    pub open spec fn plain(self, p: Produced, c: u8) -> (Discipline, Produced) {
        let (d, q) = self.restart_on_any(p);
        d.accept(q, c, false)
    }

    /// `VSTART` releases held output, `VSTOP` holds it
    pub open spec fn flow(self, p: Produced, c: u8) -> (Discipline, Produced) {
        if c == self.cc(Termios::VSTART) {
            self.start(p)
        } else {
            (Discipline { stopped: true, ..self }, p)
        }
    }

    /// The signal a byte raises under `ISIG`
    pub open spec fn signal_of(self, c: u8) -> Option<Signal> {
        if c == self.cc(Termios::VINTR) {
            Some(Signal::Interrupt)
        } else if c == self.cc(Termios::VQUIT) {
            Some(Signal::Quit)
        } else if c == self.cc(Termios::VSUSP) {
            Some(Signal::Suspend)
        } else {
            None
        }
    }

    /// `isig`: the flush unless `NOFLSH`, the signal event, the restart under `IXON`, then the
    /// echo under `ECHO`
    pub open spec fn raise(self, p: Produced, signal: Signal, c: u8) -> (Discipline, Produced) {
        let (d, q) = if !self.lflag(Termios::NOFLSH) {
            (
                Discipline {
                    line: Seq::empty(),
                    echo: Seq::empty(),
                    echo_commit: 0,
                    echo_mark: 0,
                    erasing: false,
                    ..self
                },
                Produced {
                    to_master: Seq::empty(),
                    to_replica: Seq::empty(),
                    events: kept_signals(p.events),
                },
            )
        } else {
            (self, p)
        };
        let signalled = Produced {
            events: q.events.push(Event::Signal { at: q.to_replica.len() as usize, signal }),
            ..q
        };
        let restarted = if self.iflag(Termios::IXON) && !self.tco_stopped {
            Discipline { stopped: false, ..d }
        } else {
            d
        };
        let echoed = if self.lflag(Termios::ECHO) {
            restarted.visible(c)
        } else {
            restarted
        };
        (echoed, signalled)
    }

    /// The line handed to the program, with its terminator unless an end of file ended it
    pub open spec fn complete(self, p: Produced, terminator: Option<u8>) -> (Discipline, Produced) {
        let handed = match terminator {
            Some(t) => p.to_replica + self.line + seq![t],
            None => p.to_replica + self.line,
        };
        (Discipline { line: Seq::empty(), ..self }, Produced { to_replica: handed, ..p })
    }

    /// `VERASE`, `VKILL`, and `VWERASE` under `IEXTEN`
    pub open spec fn is_erase(self, c: u8) -> bool {
        c == self.cc(Termios::VERASE) || c == self.cc(Termios::VKILL) || (self.lflag(
            Termios::IEXTEN,
        ) && c == self.cc(Termios::VWERASE))
    }

    /// A byte the canonical editing rules take before the line end rules
    pub open spec fn is_edit(self, c: u8) -> bool {
        ||| self.is_erase(c)
        ||| (self.lflag(Termios::IEXTEN) && c == self.cc(Termios::VLNEXT))
        ||| (self.lflag(Termios::IEXTEN) && self.lflag(Termios::ECHO) && c == self.cc(
            Termios::VREPRINT,
        ))
    }

    /// What the canonical rules make of a byte
    pub open spec fn canon_outcome(self, c: u8) -> Outcome {
        if self.is_edit(c) || c == 10 {
            Outcome::Handled
        } else if c == self.cc(Termios::VEOF) {
            if self.line.len() == 0 {
                Outcome::Eof
            } else {
                Outcome::Handled
            }
        } else if c == self.cc(Termios::VEOL) || (self.lflag(Termios::IEXTEN) && c == self.cc(
            Termios::VEOL2,
        )) {
            Outcome::Handled
        } else {
            Outcome::Plain
        }
    }

    /// `n_tty_receive_char_canon`: editing, literal next and reprint, then the line ends
    pub open spec fn canon(self, p: Produced, c: u8) -> (Discipline, Produced) {
        if self.is_erase(c) {
            (self.eraser(c), p)
        } else if self.lflag(Termios::IEXTEN) && c == self.cc(Termios::VLNEXT) {
            (self.literal_next(), p)
        } else if self.lflag(Termios::IEXTEN) && self.lflag(Termios::ECHO) && c == self.cc(
            Termios::VREPRINT,
        ) {
            (self.reprint(c), p)
        } else if c == 10 {
            let d = if self.lflag(Termios::ECHO) || self.lflag(Termios::ECHONL) {
                self.raw(10)
            } else {
                self
            };
            d.complete(p, Some(10u8))
        } else if c == self.cc(Termios::VEOF) {
            if self.line.len() == 0 {
                (self, p)
            } else {
                self.complete(p, None)
            }
        } else if c == self.cc(Termios::VEOL) || (self.lflag(Termios::IEXTEN) && c == self.cc(
            Termios::VEOL2,
        )) {
            self.end_of_line(p, c)
        } else {
            (self, p)
        }
    }

    /// A `VEOL` or `VEOL2` byte is echoed, doubled under `PARMRK` and ends the line
    pub open spec fn end_of_line(self, p: Produced, c: u8) -> (Discipline, Produced) {
        let echoed = if self.lflag(Termios::ECHO) {
            self.set_canon_column().visible(c)
        } else {
            self
        };
        let doubled = if c == 0xff && self.iflag(Termios::PARMRK) {
            echoed.push_line(c)
        } else {
            echoed
        };
        doubled.complete(p, Some(c))
    }

    /// `VLNEXT` takes the next byte literally and shows `^` with a backspace over it
    pub open spec fn literal_next(self) -> Discipline {
        let d = Discipline { lnext: true, ..self };
        if !self.lflag(Termios::ECHO) {
            d
        } else if self.lflag(Termios::ECHOCTL) {
            d.finish_erasing().raw(0x5e).raw(8)
        } else {
            d.finish_erasing()
        }
    }

    /// `VREPRINT` echoes itself, a newline and the line under edit
    pub open spec fn reprint(self, c: u8) -> Discipline {
        self.finish_erasing().visible(c).raw(10).visible_all(self.line)
    }

    /// `ECHOK`, `ECHOKE` and `ECHOE` together erase a killed line from the display
    pub open spec fn erases_line_visibly(self) -> bool {
        self.lflag(Termios::ECHO) && self.lflag(Termios::ECHOK) && self.lflag(Termios::ECHOKE)
            && self.lflag(Termios::ECHOE)
    }

    /// A kill the display cannot undo: the line dropped and the kill character echoed, with a
    /// newline under `ECHOK`
    pub open spec fn kill_line(self) -> Discipline {
        let d = Discipline { line: Seq::empty(), ..self };
        if !self.lflag(Termios::ECHO) {
            d
        } else {
            let shown = d.finish_erasing().visible(self.cc(Termios::VKILL));
            if self.lflag(Termios::ECHOK) {
                shown.raw(10)
            } else {
                shown
            }
        }
    }

    /// `eraser`: one character, one word or the line removed, echoed the way the flags ask
    pub open spec fn eraser(self, c: u8) -> Discipline {
        if self.line.len() == 0 {
            self
        } else {
            let kind = if c == self.cc(Termios::VERASE) {
                Kill::Char
            } else if c == self.cc(Termios::VWERASE) {
                Kill::Word
            } else {
                Kill::Line
            };
            if kind == Kill::Line && !self.erases_line_visibly() {
                self.kill_line()
            } else {
                let d = self.erase_run(kind, false);
                if d.line.len() == 0 && self.lflag(Termios::ECHO) {
                    d.finish_erasing()
                } else {
                    d
                }
            }
        }
    }

    /// Erases from the end of the line as far as the kind allows, one character at a time,
    /// `seen_word` once a word character went
    pub open spec fn erase_run(self, kind: Kill, seen_word: bool) -> Discipline
        decreases self.line.len(),
    {
        match last_start(self.termios, self.line) {
            None => self,
            Some(head) => {
                proof {
                    lemma_last_start(self.termios, self.line);
                }
                let c = self.line[head];
                if kind == Kill::Word && !word_char(c) && seen_word {
                    self
                } else {
                    let d = self.erase_char(head, c, kind);
                    if kind == Kill::Char {
                        d
                    } else {
                        d.erase_run(kind, kind == Kill::Word && (seen_word || word_char(c)))
                    }
                }
            }
        }
    }

    /// Echoes one erased character and drops it from the line
    pub open spec fn erase_char(self, head: int, c: u8, kind: Kill) -> Discipline {
        let echoed = if self.lflag(Termios::ECHO) {
            if self.lflag(Termios::ECHOPRT) {
                self.echo_printed(head, c)
            } else if kind == Kill::Char && !self.lflag(Termios::ECHOE) {
                self.visible(self.cc(Termios::VERASE))
            } else if c == 9 {
                let (columns, after_tab) = tab_scan(self.termios, self.line, head, 0);
                self.erase_tab_op(columns, after_tab)
            } else {
                self.erase_visible(c)
            }
        } else {
            self
        };
        Discipline { line: self.line.take(head), ..echoed }
    }

    /// `ECHOPRT`: the erased character printed inside the backslash that opens a run
    pub open spec fn echo_printed(self, head: int, c: u8) -> Discipline {
        let opened = if !self.erasing {
            Discipline { erasing: true, ..self.raw(0x5c) }
        } else {
            self
        };
        opened.visible(c).printed_tail(self.line.subrange(head + 1, self.line.len() as int))
    }

    /// The continuation bytes of a printed character, each followed by a column step back
    pub open spec fn printed_tail(self, bytes: Seq<u8>) -> Discipline
        decreases bytes.len(),
    {
        if bytes.len() == 0 {
            self
        } else {
            self.printed_tail(bytes.drop_last()).raw(bytes.last()).move_back_column()
        }
    }

    /// Rubs out one display cell, or two for a control character shown as `^X`, or none for one
    /// shown raw
    pub open spec fn erase_visible(self, c: u8) -> Discipline {
        let echoctl = self.lflag(Termios::ECHOCTL);
        let once = if cntrl(c) && echoctl {
            self.with_echo(seq![8u8, 32, 8])
        } else {
            self
        };
        if !cntrl(c) || echoctl {
            once.with_echo(seq![8u8, 32, 8])
        } else {
            once
        }
    }

    // One byte from the terminal

    /// `ISTRIP`, then `IUCLC` under `IEXTEN`
    pub open spec fn preprocess(self, b: u8) -> u8 {
        let c = if self.iflag(Termios::ISTRIP) {
            b & 0x7f
        } else {
            b
        };
        if self.iflag(Termios::IUCLC) && self.lflag(Termios::IEXTEN) {
            lowered(c)
        } else {
            c
        }
    }

    /// The editing and line end characters canonical mode watches
    pub open spec fn is_canon_special(self, c: u8) -> bool {
        let iexten = self.lflag(Termios::IEXTEN);
        ||| c == 10
        ||| c == self.cc(Termios::VERASE)
        ||| c == self.cc(Termios::VKILL)
        ||| c == self.cc(Termios::VEOF)
        ||| c == self.cc(Termios::VEOL)
        ||| (iexten && c == self.cc(Termios::VWERASE))
        ||| (iexten && c == self.cc(Termios::VLNEXT))
        ||| (iexten && c == self.cc(Termios::VEOL2))
        ||| (iexten && self.lflag(Termios::ECHO) && c == self.cc(Termios::VREPRINT))
    }

    /// The kernel's `char_map`: the bytes that get more than echo and queue, never NUL
    pub open spec fn is_special(self, c: u8) -> bool {
        &&& c != 0
        &&& {
            ||| (c == 13 && (self.iflag(Termios::IGNCR) || self.iflag(Termios::ICRNL)))
            ||| (c == 10 && self.iflag(Termios::INLCR))
            ||| (self.lflag(Termios::ICANON) && self.is_canon_special(c))
            ||| (self.iflag(Termios::IXON) && (c == self.cc(Termios::VSTART) || c == self.cc(
                Termios::VSTOP,
            )))
            ||| (self.lflag(Termios::ISIG) && self.signal_of(c) is Some)
        }
    }

    /// `\r` under `ICRNL` becomes `\n`, `\n` under `INLCR` becomes `\r`
    pub open spec fn crnl_mapped(self, c: u8) -> u8 {
        if c == 13 && self.iflag(Termios::ICRNL) {
            10
        } else if c == 10 && self.iflag(Termios::INLCR) {
            13
        } else {
            c
        }
    }

    /// `n_tty_receive_char_special`: flow control, signals, carriage return and newline mapping, then the canonical rules
    pub open spec fn special(self, p: Produced, c: u8) -> (Discipline, Produced) {
        if self.iflag(Termios::IXON) && (c == self.cc(Termios::VSTART) || c == self.cc(
            Termios::VSTOP,
        )) {
            self.flow(p, c)
        } else if self.lflag(Termios::ISIG) && self.signal_of(c) is Some {
            self.raise(p, self.signal_of(c).unwrap(), c)
        } else {
            let (d, q) = self.restart_on_any(p);
            if c == 13 && self.iflag(Termios::IGNCR) {
                (d, q)
            } else {
                let t = self.crnl_mapped(c);
                if self.lflag(Termios::ICANON) {
                    match d.canon_outcome(t) {
                        Outcome::Handled => d.canon(q, t),
                        Outcome::Eof => d.eof(q),
                        Outcome::Plain => d.accept(q, t, true),
                    }
                } else {
                    d.accept(q, t, true)
                }
            }
        }
    }

    /// Under `EXTPROC` the byte goes to the program untouched, but a `VEOF` the program would
    /// read on its own in canonical mode becomes an end of file
    pub open spec fn extproc(self, p: Produced, c: u8) -> (Discipline, Produced) {
        if self.lflag(Termios::ICANON) && c == self.cc(Termios::VEOF) {
            self.eof(p)
        } else {
            self.queue(p, c)
        }
    }

    /// One byte the terminal typed: the line kept within the kernel buffer, `ISTRIP` and
    /// `IUCLC`, then a literal byte, external processing, a special byte or an ordinary one
    pub open spec fn receive(self, p: Produced, b: u8) -> (Discipline, Produced) {
        let d = if self.lflag(Termios::ICANON) && self.line.len() >= LINE_MAX {
            Discipline { line: self.line.drop_last(), ..self }
        } else {
            self
        };
        let c = d.preprocess(b);
        if d.lnext {
            Discipline { lnext: false, ..d }.plain(p, c)
        } else if d.lflag(Termios::EXTPROC) {
            d.extproc(p, c)
        } else if d.is_special(c) {
            d.special(p, c)
        } else {
            d.plain(p, c)
        }
    }

    /// One byte taken, then the echo committed
    pub open spec fn step(self, p: Produced, b: u8) -> (Discipline, Produced) {
        let (d, q) = self.receive(p, b);
        let (e, m) = d.commit(q.to_master);
        (e, Produced { to_master: m, ..q })
    }

    /// Bytes taken one after another
    pub open spec fn steps(self, p: Produced, bytes: Seq<u8>) -> (Discipline, Produced)
        decreases bytes.len(),
    {
        if bytes.len() == 0 {
            (self, p)
        } else {
            let (d, q) = self.steps(p, bytes.drop_last());
            d.step(q, bytes.last())
        }
    }

    /// `State::input`: every byte taken, then the echo flushed
    pub open spec fn input(self, bytes: Seq<u8>) -> (Discipline, Produced) {
        let (d, p) = self.steps(Produced::empty(), bytes);
        let (e, m) = d.flush_echo(p.to_master);
        (e, Produced { to_master: m, ..p })
    }

    /// `State::output`: the held echo released, then the bytes post-processed, none while
    /// output is held; the discipline after, the bytes taken and what the terminal gets
    pub open spec fn output(self, bytes: Seq<u8>) -> (Discipline, usize, Seq<u8>) {
        let (d, m) = self.release(Seq::empty());
        if d.stopped {
            (d, 0, m)
        } else if d.oflag(Termios::OPOST) {
            let (cursor, shown) = d.cursor.wrote_all(d.termios, m, bytes);
            (Discipline { cursor, ..d }, bytes.len() as usize, shown)
        } else {
            (d, bytes.len() as usize, m + bytes)
        }
    }

    /// A change of `ICANON` or `EXTPROC` between two termios
    pub open spec fn mode_changes(self, termios: Termios) -> bool {
        (self.termios.local_flags ^ termios.local_flags) & (Termios::ICANON | Termios::EXTPROC) != 0
    }

    /// `State::set_termios`: the termios installed, held output restarted when `IXON` goes
    /// (unless `stop_output` holds it), and the line released when the mode changes; the
    /// discipline after, the echo released and the line released
    pub open spec fn set_termios(self, termios: Termios) -> (Discipline, Seq<u8>, Seq<u8>) {
        let ixon_dropped = self.iflag(Termios::IXON) && termios.input_flags & Termios::IXON == 0;
        let installed = Discipline { termios, ..self };
        let (d, m) = if ixon_dropped && !self.tco_stopped {
            Discipline { stopped: false, ..installed }.release(Seq::empty())
        } else {
            (installed, Seq::empty())
        };
        if self.mode_changes(termios) {
            (Discipline { erasing: false, lnext: false, line: Seq::empty(), ..d }, m, d.line)
        } else {
            (d, m, Seq::empty())
        }
    }
}

/// The line's last character starts inside it
pub proof fn lemma_last_start(t: Termios, line: Seq<u8>)
    ensures
        last_start(t, line) matches Some(head) ==> 0 <= head < line.len() && !continues(
            t,
            line[head],
        ),
        last_start(t, line) is None ==> forall|i: int| 0 <= i < line.len() ==> continues(t, line[i]),
    decreases line.len(),
{
    if line.len() > 0 && continues(t, line.last()) {
        lemma_last_start(t, line.drop_last());
        assert forall|i: int| 0 <= i < line.len() - 1 implies line[i] == line.drop_last()[i] by {}
    }
}

} // verus!
