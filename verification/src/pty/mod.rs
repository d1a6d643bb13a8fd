//! A pty pair's queues around the discipline: the master's and the replica's pending bytes,
//! readiness, flushing, packet mode, and the free `input` and `output` that move bytes through
use vstd::prelude::*;

pub mod erase;
pub mod laws;
pub mod input;
mod opost;
mod utf8;

pub use erase::{erase, latin1_alphabetic, word_erase_goes_on};
pub use input::{input, Received};
pub use opost::{opost, output, posted};
pub use utf8::{char_len, char_length};

use crate::result::Signal;
use crate::termios::Termios;

verus! {

/// Bytes a queue's wait buffer holds before the writer stops being writable
pub const WAIT_BUF_MAX_BYTES: u64 = 131_072;

/// Which PTY endpoint issued an operation.
#[derive(Debug, Clone, Copy, PartialEq, Eq)]
#[non_exhaustive]
pub enum Endpoint {
    /// Terminal emulator side.
    Master,
    /// Shell/process side.
    Replica,
}

/// Target for [`State::flush`].
#[derive(Debug, Clone, Copy, PartialEq, Eq)]
#[non_exhaustive]
pub enum FlushTarget {
    /// Data heading toward the reader.
    Input,
    /// Data heading toward the writer.
    Output,
    /// Both directions.
    Both,
}

/// Poll readiness flags.
#[derive(Debug, Clone, Copy, PartialEq, Eq)]
pub struct Readiness {
    /// Data available for reading.
    pub readable: bool,
    /// Space available for writing.
    pub writable: bool,
    /// All replicas closed.
    pub hup: bool,
}

/// Linux `struct winsize`.
#[derive(Debug, Clone, Copy, PartialEq, Eq)]
pub struct WindowSize {
    /// Rows of the terminal
    pub rows: u16,
    /// Columns of the terminal
    pub cols: u16,
}

impl Default for WindowSize {
    /// No rows and no columns
    fn default() -> (w: Self)
        ensures
            w.rows == 0 && w.cols == 0,
    {
        WindowSize { rows: 0, cols: 0 }
    }
}

/// Returned by [`input`].
#[derive(Debug, Clone, PartialEq, Eq)]
pub struct InputResult {
    /// Bytes consumed from the input buffer.
    pub consumed: usize,
    /// Echo bytes for the master (terminal display).
    pub output: Vec<u8>,
    /// Completed input for the replica (shell stdin).
    pub to_replica: Vec<u8>,
    /// Signals generated.
    pub signals: Vec<Signal>,
}

impl Default for InputResult {
    /// Nothing consumed or produced
    fn default() -> (r: Self)
        ensures
            r.consumed == 0,
            r.output@.len() == 0,
            r.to_replica@.len() == 0,
            r.signals@.len() == 0,
    {
        InputResult { consumed: 0, output: Vec::new(), to_replica: Vec::new(), signals: Vec::new() }
    }
}

/// Returned by [`output`].
#[derive(Debug, Clone, PartialEq, Eq)]
pub struct OutputResult {
    /// Bytes consumed from the output buffer.
    pub consumed: usize,
    /// Post-processed bytes for the master (terminal display).
    pub output: Vec<u8>,
}

impl Default for OutputResult {
    /// Nothing consumed or produced
    fn default() -> (r: Self)
        ensures
            r.consumed == 0,
            r.output@.len() == 0,
    {
        OutputResult { consumed: 0, output: Vec::new() }
    }
}

/// Delivers signals to the foreground process group.
pub trait Sys {
    /// Called when a signal character is received and ISIG is set.
    fn signal_foreground(&self, sig: Signal);
}

/// No-op [`Sys`]. Signals are still reported in [`InputResult::signals`].
pub struct NoopSys;

impl Sys for NoopSys {
    fn signal_foreground(&self, sig: Signal) {
    }
}

/// The chunks of a wait buffer, one after another
pub open spec fn joined(chunks: Seq<Seq<u8>>) -> Seq<u8>
    decreases chunks.len(),
{
    if chunks.len() == 0 {
        Seq::empty()
    } else {
        joined(chunks.drop_last()) + chunks.last()
    }
}

/// The contents of one direction's queue
#[verifier::ext_equal]
pub struct Pending {
    /// Bytes the reader may take
    pub read_buf: Seq<u8>,
    /// Chunks waiting to be moved into the read buffer
    pub wait_buf: Seq<Seq<u8>>,
    /// Bytes the wait buffer holds
    pub wait_buf_len: u64,
    /// Whether the reader may take the read buffer
    pub readable: bool,
}

impl Pending {
    /// A queue with nothing in it
    pub open spec fn empty() -> Pending {
        Pending { read_buf: Seq::empty(), wait_buf: Seq::empty(), wait_buf_len: 0, readable: false }
    }
}

/// The contents of a pty pair's discipline
#[verifier::ext_equal]
pub struct Pty {
    /// The termios in force
    pub termios: Termios,
    /// The window size
    pub size: WindowSize,
    /// The column the cursor is at
    pub column: i32,
    /// What the master wrote, on its way to the replica
    pub input: Pending,
    /// What the replica wrote, on its way to the master
    pub output: Pending,
    /// Replicas open
    pub num_replicas: u32,
    /// Packet mode (`TIOCPKT`)
    pub packet: bool,
    /// The packet mode status byte
    pub packet_status: u8,
}

/// One direction's bytes
#[derive(Debug, Clone)]
struct Queue {
    read_buf: Vec<u8>,
    wait_buf: Vec<Vec<u8>>,
    wait_buf_len: u64,
    readable: bool,
}

impl View for Queue {
    type V = Pending;

    closed spec fn view(&self) -> Pending {
        Pending {
            read_buf: self.read_buf@,
            wait_buf: self.wait_buf@.map_values(|chunk: Vec<u8>| chunk@),
            wait_buf_len: self.wait_buf_len,
            readable: self.readable,
        }
    }
}

impl Queue {
    /// A queue with nothing in it
    fn new() -> (q: Queue)
        ensures
            q@ == Pending::empty(),
    {
        let q = Queue { read_buf: Vec::new(), wait_buf: Vec::new(), wait_buf_len: 0, readable: false };
        assert(q@.wait_buf =~= Seq::<Seq<u8>>::empty());
        q
    }

    /// Drops everything the queue holds
    fn flush(&mut self)
        ensures
            final(self)@ == Pending::empty(),
    {
        self.read_buf.clear();
        self.wait_buf.clear();
        self.wait_buf_len = 0;
        self.readable = false;
        assert(self@.wait_buf =~= Seq::<Seq<u8>>::empty());
    }

    /// Moves every waiting chunk, in order, onto the read buffer
    fn push_wait_buf_raw(&mut self)
        ensures
            final(self)@ == (Pending {
                read_buf: old(self)@.read_buf + joined(old(self)@.wait_buf),
                wait_buf: Seq::empty(),
                wait_buf_len: 0,
                ..old(self)@
            }),
    {
        let ghost chunks = self@.wait_buf;
        let ghost start = self@.read_buf;
        let mut i: usize = 0;
        while i < self.wait_buf.len()
            invariant
                i <= chunks.len(),
                self@.wait_buf == chunks,
                self.wait_buf@.len() == chunks.len(),
                self@.read_buf == start + joined(chunks.take(i as int)),
                self@.readable == old(self)@.readable,
                self@.wait_buf_len == old(self)@.wait_buf_len,
            decreases chunks.len() - i,
        {
            assert(chunks.take(i + 1).drop_last() =~= chunks.take(i as int));
            let ghost before = self@.read_buf;
            let mut k: usize = 0;
            let n = self.wait_buf[i].len();
            while k < n
                invariant
                    k <= n,
                    i < chunks.len(),
                    n == chunks[i as int].len(),
                    self@.wait_buf == chunks,
                    self.wait_buf@.len() == chunks.len(),
                    self@.read_buf == before + chunks[i as int].take(k as int),
                    self@.readable == old(self)@.readable,
                    self@.wait_buf_len == old(self)@.wait_buf_len,
                decreases n - k,
            {
                let b = self.wait_buf[i][k];
                self.read_buf.push(b);
                k = k + 1;
                assert(self@.read_buf =~= before + chunks[i as int].take(k as int));
            }
            assert(chunks[i as int].take(n as int) =~= chunks[i as int]);
            assert(self@.read_buf =~= start + joined(chunks.take(i + 1)));
            i = i + 1;
        }
        assert(chunks.take(chunks.len() as int) =~= chunks);
        self.wait_buf.clear();
        self.wait_buf_len = 0;
        assert(self@.wait_buf =~= Seq::<Seq<u8>>::empty());
    }
}

/// Line discipline state with the queues of a pty pair.
#[derive(Debug, Clone)]
pub struct State {
    termios: Termios,
    size: WindowSize,
    column: i32,
    in_queue: Queue,
    out_queue: Queue,
    num_replicas: u32,
    packet: bool,
    packet_status: u8,
}

impl View for State {
    type V = Pty;

    closed spec fn view(&self) -> Pty {
        Pty {
            termios: self.termios,
            size: self.size,
            column: self.column,
            input: self.in_queue@,
            output: self.out_queue@,
            num_replicas: self.num_replicas,
            packet: self.packet,
            packet_status: self.packet_status,
        }
    }
}

impl Default for State {
    /// A pair under `Termios::default()` and a zero window size
    fn default() -> (s: Self)
        ensures
            s@.termios.is_pty_default(),
            s@.size == (WindowSize { rows: 0, cols: 0 }),
            s@.column == 0,
            s@.input == Pending::empty(),
            s@.output == Pending::empty(),
            s@.num_replicas == 0,
            !s@.packet,
            s@.packet_status == 0,
    {
        Self::new(Termios::default(), WindowSize::default())
    }
}

impl State {
    /// A pair with empty queues, the cursor at column zero, no replica open and packet mode off
    #[must_use]
    pub fn new(termios: Termios, size: WindowSize) -> (s: Self)
        ensures
            s@ == (Pty {
                termios,
                size,
                column: 0,
                input: Pending::empty(),
                output: Pending::empty(),
                num_replicas: 0,
                packet: false,
                packet_status: 0,
            }),
    {
        Self {
            termios,
            size,
            column: 0,
            in_queue: Queue::new(),
            out_queue: Queue::new(),
            num_replicas: 0,
            packet: false,
            packet_status: 0,
        }
    }

    /// The termios in force
    #[must_use]
    pub fn termios(&self) -> (t: &Termios)
        ensures
            *t == self@.termios,
    {
        &self.termios
    }

    /// Installs a termios; leaving canonical mode moves the waiting input onto the read buffer,
    /// readable when it holds anything.
    pub fn set_termios(&mut self, t: Termios)
        ensures
            final(self)@ == (if old(self)@.termios.lflags(Termios::ICANON) && !t.lflags(
                Termios::ICANON,
            ) {
                let released = old(self)@.input.read_buf + joined(old(self)@.input.wait_buf);
                Pty {
                    termios: t,
                    input: Pending {
                        read_buf: released,
                        wait_buf: Seq::empty(),
                        wait_buf_len: 0,
                        readable: released.len() > 0,
                    },
                    ..old(self)@
                }
            } else {
                Pty { termios: t, ..old(self)@ }
            }),
    {
        let old_canon = self.termios.l_enabled(Termios::ICANON);
        self.termios = t;
        if old_canon && !self.termios.l_enabled(Termios::ICANON) {
            self.in_queue.push_wait_buf_raw();
            self.in_queue.readable = self.in_queue.read_buf.len() != 0;
        }
    }

    /// The window size
    #[must_use]
    pub fn window_size(&self) -> (w: WindowSize)
        ensures
            w == self@.size,
    {
        self.size
    }

    /// Sets the window size
    pub fn set_window_size(&mut self, ws: WindowSize)
        ensures
            final(self)@ == (Pty { size: ws, ..old(self)@ }),
    {
        self.size = ws;
    }

    /// TCFLSH ioctl. Queues are relative to the endpoint that issued it: the master's input is
    /// what the replica wrote, the replica's input is what the master wrote.
    pub fn flush(&mut self, endpoint: Endpoint, target: FlushTarget)
        ensures
            final(self)@ == (Pty {
                input: if flushes_input(endpoint, target) {
                    Pending::empty()
                } else {
                    old(self)@.input
                },
                output: if flushes_output(endpoint, target) {
                    Pending::empty()
                } else {
                    old(self)@.output
                },
                ..old(self)@
            }),
    {
        match (endpoint, target) {
            (Endpoint::Master, FlushTarget::Input) => self.out_queue.flush(),
            (Endpoint::Master, FlushTarget::Output) => self.in_queue.flush(),
            (Endpoint::Replica, FlushTarget::Input) => self.in_queue.flush(),
            (Endpoint::Replica, FlushTarget::Output) => self.out_queue.flush(),
            (_, FlushTarget::Both) => {
                self.in_queue.flush();
                self.out_queue.flush();
            },
        }
    }

    /// What `poll` reports to the master
    #[must_use]
    pub fn master_readiness(&self) -> (r: Readiness)
        ensures
            r.readable == ((self@.output.readable && self@.output.read_buf.len() > 0) || (
            self@.packet && self@.packet_status != 0)),
            r.writable == (self@.input.wait_buf_len < WAIT_BUF_MAX_BYTES),
            r.hup == (self@.num_replicas == 0),
    {
        Readiness {
            readable: (self.out_queue.readable && self.out_queue.read_buf.len() != 0) || (self.packet
                && self.packet_status != 0),
            writable: self.in_queue.wait_buf_len < WAIT_BUF_MAX_BYTES,
            hup: self.num_replicas == 0,
        }
    }

    /// What `poll` reports to the replica
    #[must_use]
    pub fn replica_readiness(&self) -> (r: Readiness)
        ensures
            r.readable == (self@.input.readable && self@.input.read_buf.len() > 0),
            r.writable == (self@.output.wait_buf_len < WAIT_BUF_MAX_BYTES),
            !r.hup,
    {
        Readiness {
            readable: self.in_queue.readable && self.in_queue.read_buf.len() != 0,
            writable: self.out_queue.wait_buf_len < WAIT_BUF_MAX_BYTES,
            hup: false,
        }
    }

    /// Counts a replica opened
    pub fn replica_open(&mut self)
        ensures
            final(self)@ == (Pty {
                num_replicas: old(self)@.num_replicas.saturating_add(1),
                ..old(self)@
            }),
    {
        self.num_replicas = self.num_replicas.saturating_add(1);
    }

    /// Returns true when the last replica closes (HUP).
    #[must_use]
    pub fn replica_close(&mut self) -> (hup: bool)
        ensures
            final(self)@ == (Pty {
                num_replicas: old(self)@.num_replicas.saturating_sub(1),
                ..old(self)@
            }),
            hup == (final(self)@.num_replicas == 0),
    {
        self.num_replicas = self.num_replicas.saturating_sub(1);
        self.num_replicas == 0
    }

    /// TIOCPKT ioctl. Turning it on from off clears the status byte.
    pub fn set_packet_mode(&mut self, on: bool)
        ensures
            final(self)@ == (Pty {
                packet: on,
                packet_status: if on && !old(self)@.packet {
                    0
                } else {
                    old(self)@.packet_status
                },
                ..old(self)@
            }),
    {
        if !on {
            self.packet = false;
            return;
        }
        if !self.packet {
            self.packet_status = 0;
        }
        self.packet = true;
    }

    /// Whether packet mode is on
    #[must_use]
    pub fn packet_mode(&self) -> (on: bool)
        ensures
            on == self@.packet,
    {
        self.packet
    }

    /// The column the cursor is at
    #[must_use]
    pub fn column(&self) -> (c: i32)
        ensures
            c == self@.column,
    {
        self.column
    }
}

/// Whether a flush empties the queue of what the master wrote
pub open spec fn flushes_input(endpoint: Endpoint, target: FlushTarget) -> bool {
    match (endpoint, target) {
        (Endpoint::Master, FlushTarget::Output) => true,
        (Endpoint::Replica, FlushTarget::Input) => true,
        (_, FlushTarget::Both) => true,
        _ => false,
    }
}

/// Whether a flush empties the queue of what the replica wrote
pub open spec fn flushes_output(endpoint: Endpoint, target: FlushTarget) -> bool {
    match (endpoint, target) {
        (Endpoint::Master, FlushTarget::Input) => true,
        (Endpoint::Replica, FlushTarget::Output) => true,
        (_, FlushTarget::Both) => true,
        _ => false,
    }
}

} // verus!
