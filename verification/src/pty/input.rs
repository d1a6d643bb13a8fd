//! What the master writes, through the discipline to the replica's queue
use vstd::prelude::*;

use super::erase::{erase, erased_from};
use super::opost::{opost, posted};
use super::utf8::{char_len, char_length};
use super::{InputResult, Pending, Pty, State, Sys};
use crate::result::Signal;
use crate::termios::Termios;

verus! {

/// Bytes the read buffer holds at most, and a canonical line with its terminator
pub const CANON_MAX_BYTES: usize = 4096;

/// Bytes the read buffer holds at most outside canonical mode
pub const NON_CANON_MAX_BYTES: usize = 4095;

/// The contents of an [`InputResult`]
#[verifier::ext_equal]
pub struct Received {
    /// Bytes consumed
    pub consumed: int,
    /// Echo for the master
    pub output: Seq<u8>,
    /// Completed input for the replica
    pub to_replica: Seq<u8>,
    /// Signals raised
    pub signals: Seq<Signal>,
}

impl View for InputResult {
    type V = Received;

    open spec fn view(&self) -> Received {
        Received {
            consumed: self.consumed as int,
            output: self.output@,
            to_replica: self.to_replica@,
            signals: self.signals@,
        }
    }
}

/// The signal a byte raises under `ISIG`; a carriage return or newline never does
pub open spec fn signal_of_byte(t: Termios, c: u8) -> Option<Signal> {
    if !t.lflags(Termios::ISIG) || c == 13 || c == 10 {
        None
    } else if c == t.cc(Termios::VINTR as int) {
        Some(Signal::Interrupt)
    } else if c == t.cc(Termios::VSUSP as int) {
        Some(Signal::Suspend)
    } else if c == t.cc(Termios::VQUIT as int) {
        Some(Signal::Quit)
    } else {
        None
    }
}

/// The erase a byte asks for in canonical mode: `VWERASE` under `IEXTEN`, or `VERASE`
pub open spec fn erase_kind(t: Termios, c: u8) -> Option<usize> {
    if !t.lflags(Termios::ICANON) {
        None
    } else if c == t.cc(Termios::VWERASE as int) && t.lflags(Termios::IEXTEN) {
        Some(Termios::VWERASE)
    } else if c == t.cc(Termios::VERASE as int) {
        Some(Termios::VERASE)
    } else {
        None
    }
}

/// `IGNCR` drops a leading carriage return, `ICRNL` makes it a newline, `INLCR` makes a leading
/// newline a carriage return
pub open spec fn crnl_mapped(t: Termios, raw: Seq<u8>) -> Seq<u8> {
    if raw[0] == 13 && t.iflags(Termios::IGNCR) {
        Seq::empty()
    } else if raw[0] == 13 && t.iflags(Termios::ICRNL) {
        raw.update(0, 10)
    } else if raw[0] == 10 && t.iflags(Termios::INLCR) {
        raw.update(0, 13)
    } else {
        raw
    }
}

/// A character that is dropped: nothing left once carriage returns and newlines are mapped, or in canonical mode one that
/// would fill the buffer without ending the line
pub open spec fn discards(t: Termios, read_buf: Seq<u8>, c_bytes: Seq<u8>) -> bool {
    c_bytes.len() == 0 || (t.lflags(Termios::ICANON) && read_buf.len() + c_bytes.len()
        >= CANON_MAX_BYTES && !t.terminates(c_bytes))
}

/// The echo of a stored character, through `OPOST`, under `ECHO` or a newline under `ECHONL`
pub open spec fn echoed(p: Pty, c_bytes: Seq<u8>, out: Seq<u8>) -> (Pty, Seq<u8>) {
    if p.termios.lflags(Termios::ECHO) || (p.termios.lflags(Termios::ECHONL) && c_bytes.len() > 0
        && c_bytes[0] == 10) {
        let (column, taken, shown) = posted(p.termios, p.column, c_bytes);
        (Pty { column, ..p }, out + shown)
    } else {
        (p, out)
    }
}

/// The bytes the read buffer may hold
pub open spec fn read_max(t: Termios) -> int {
    if t.lflags(Termios::ICANON) {
        CANON_MAX_BYTES as int
    } else {
        NON_CANON_MAX_BYTES as int
    }
}

/// The discipline and what one call produced, part way through its bytes
pub struct Taken {
    /// The discipline
    pub pty: Pty,
    /// Echo so far
    pub output: Seq<u8>,
    /// Signals so far
    pub signals: Seq<Signal>,
    /// Bytes taken so far
    pub pos: int,
}

/// The bytes from `x.pos` taken one character at a time: signals, erases, the carriage return and newline mapping, the
/// buffer limits, end of file and line ends, until the buffer is full or a line is readable
pub open spec fn intake(x: Taken, buf: Seq<u8>) -> Taken
    decreases buf.len() - x.pos,
{
    let p = x.pty;
    let t = p.termios;
    if x.pos < 0 || x.pos >= buf.len() || p.input.read_buf.len() >= CANON_MAX_BYTES {
        x
    } else {
        let size = char_length(t, buf.skip(x.pos)) as int;
        let c = buf[x.pos];
        if size < 1 || x.pos + size > buf.len() {
            x
        } else if signal_of_byte(t, c) is Some {
            intake(
                Taken { signals: x.signals.push(signal_of_byte(t, c).unwrap()), pos: x.pos + size, ..x },
                buf,
            )
        } else if erase_kind(t, c) is Some {
            let (q, out) = erased_from(p, erase_kind(t, c).unwrap(), false, x.output);
            intake(Taken { pty: q, output: out, pos: x.pos + 1, ..x }, buf)
        } else {
            let c_bytes = crnl_mapped(t, buf.subrange(x.pos, x.pos + size));
            if discards(t, p.input.read_buf, c_bytes) {
                intake(Taken { pos: x.pos + size, ..x }, buf)
            } else if p.input.read_buf.len() + size > read_max(t) {
                x
            } else if t.lflags(Termios::ICANON) && t.eof_char(c_bytes[0]) {
                Taken {
                    pty: Pty { input: Pending { readable: true, ..p.input }, ..p },
                    pos: x.pos + size,
                    ..x
                }
            } else {
                let stored = Pty {
                    input: Pending { read_buf: p.input.read_buf + c_bytes, ..p.input },
                    ..p
                };
                let (q, out) = echoed(stored, c_bytes, x.output);
                let next = Taken { pty: q, output: out, pos: x.pos + size, ..x };
                if t.lflags(Termios::ICANON) && t.terminates(c_bytes) {
                    Taken { pty: Pty { input: Pending { readable: true, ..q.input }, ..q }, ..next }
                } else {
                    intake(next, buf)
                }
            }
        }
    }
}

/// One `input` call: nothing while a canonical line waits unread; otherwise the bytes taken,
/// then the read buffer handed to the replica once a line ends, an end of file arrives, or,
/// outside canonical mode, once it holds anything
pub open spec fn received(p: Pty, buf: Seq<u8>) -> (Pty, Received) {
    if p.termios.lflags(Termios::ICANON) && p.input.readable {
        (
            p,
            Received {
                consumed: 0,
                output: Seq::empty(),
                to_replica: Seq::empty(),
                signals: Seq::empty(),
            },
        )
    } else {
        let x = intake(Taken { pty: p, output: Seq::empty(), signals: Seq::empty(), pos: 0 }, buf);
        let q = x.pty;
        let readable = q.input.readable || (!q.termios.lflags(Termios::ICANON)
            && q.input.read_buf.len() > 0);
        if readable {
            (
                Pty { input: Pending { read_buf: Seq::empty(), readable: false, ..q.input }, ..q },
                Received {
                    consumed: x.pos,
                    output: x.output,
                    to_replica: q.input.read_buf,
                    signals: x.signals,
                },
            )
        } else {
            (
                q,
                Received {
                    consumed: x.pos,
                    output: x.output,
                    to_replica: Seq::empty(),
                    signals: x.signals,
                },
            )
        }
    }
}

/// Process bytes written by the master (user typing).
pub fn input<S: Sys>(state: &mut State, sys: &S, buf: &[u8]) -> (r: InputResult)
    ensures
        (final(state)@, r@) == received(old(state)@, buf@),
{
    let mut r = InputResult { consumed: 0, output: Vec::new(), to_replica: Vec::new(), signals: Vec::new() };
    if state.termios.l_enabled(Termios::ICANON) && state.in_queue.readable {
        return r;
    }
    let max = if state.termios.l_enabled(Termios::ICANON) {
        CANON_MAX_BYTES
    } else {
        NON_CANON_MAX_BYTES
    };
    let ghost t = state@.termios;
    let ghost goal = intake(Taken { pty: state@, output: Seq::empty(), signals: Seq::empty(), pos: 0 }, buf@);
    let mut pos: usize = 0;
    loop
        invariant_except_break
            pos <= buf@.len(),
            r.consumed == pos,
            r.to_replica@.len() == 0,
            state@.termios == t,
            max == read_max(t),
            !(t.lflags(Termios::ICANON) && state@.input.readable),
            goal == intake(Taken { pty: state@, output: r.output@, signals: r.signals@, pos: pos as int }, buf@),
        ensures
            r.consumed == pos,
            r.to_replica@.len() == 0,
            state@.termios == t,
            goal == (Taken { pty: state@, output: r.output@, signals: r.signals@, pos: pos as int }),
        decreases buf@.len() - pos,
    {
        if !(pos < buf.len() && state.in_queue.read_buf.len() < CANON_MAX_BYTES) {
            break;
        }
        let size = char_len(&state.termios, &buf[pos..buf.len()]);
        assert(buf@.subrange(pos as int, buf@.len() as int) =~= buf@.skip(pos as int));
        let c = buf[pos];
        if let Some(sig) = check_signal(&state.termios, c) {
            sys.signal_foreground(sig);
            r.signals.push(sig);
            pos = pos + size;
            r.consumed = r.consumed + size;
            continue;
        }
        if try_erase(state, c, &mut r.output) {
            pos = pos + 1;
            r.consumed = r.consumed + 1;
            continue;
        }
        let c_bytes = translate(&state.termios, &buf[pos..pos + size]);
        if should_discard(&state.termios, state.in_queue.read_buf.as_slice(), c_bytes.as_slice()) {
            pos = pos + size;
            r.consumed = r.consumed + size;
            continue;
        }
        if state.in_queue.read_buf.len() + size > max {
            break;
        }
        pos = pos + size;
        r.consumed = r.consumed + size;
        if state.termios.l_enabled(Termios::ICANON) && state.termios.is_eof(c_bytes[0]) {
            state.in_queue.readable = true;
            break;
        }
        let ghost before = state@.input.read_buf;
        let ghost pre = state@;
        let mut k: usize = 0;
        while k < c_bytes.len()
            invariant
                k <= c_bytes@.len(),
                state@ == (Pty {
                    input: Pending { read_buf: before + c_bytes@.take(k as int), ..pre.input },
                    ..pre
                }),
                before == pre.input.read_buf,
                state@.termios == t,
            decreases c_bytes@.len() - k,
        {
            state.in_queue.read_buf.push(c_bytes[k]);
            k = k + 1;
            assert(state@.input.read_buf =~= before + c_bytes@.take(k as int));
        }
        assert(c_bytes@.take(c_bytes@.len() as int) =~= c_bytes@);
        echo(state, c_bytes.as_slice(), &mut r.output);
        if state.termios.l_enabled(Termios::ICANON) && state.termios.is_terminating(c_bytes.as_slice()) {
            state.in_queue.readable = true;
            break;
        }
    }
    if !state.termios.l_enabled(Termios::ICANON) && state.in_queue.read_buf.len() != 0 {
        state.in_queue.readable = true;
    }
    if state.in_queue.readable {
        std::mem::swap(&mut r.to_replica, &mut state.in_queue.read_buf);
        state.in_queue.readable = false;
        assert(state@.input.read_buf =~= Seq::<u8>::empty());
    }
    assert(r.to_replica@.len() == 0 ==> r.to_replica@ =~= Seq::<u8>::empty());
    r
}

/// The signal a byte raises under `ISIG`
fn check_signal(termios: &Termios, c: u8) -> (r: Option<Signal>)
    ensures
        r == signal_of_byte(*termios, c),
{
    if !termios.l_enabled(Termios::ISIG) || c == 13 || c == 10 {
        return None;
    }
    let cc = &termios.control_characters;
    if c == cc[Termios::VINTR] {
        Some(Signal::Interrupt)
    } else if c == cc[Termios::VSUSP] {
        Some(Signal::Suspend)
    } else if c == cc[Termios::VQUIT] {
        Some(Signal::Quit)
    } else {
        None
    }
}

/// `VWERASE` under `IEXTEN` or `VERASE` in canonical mode erases, and the byte is taken
fn try_erase(state: &mut State, c: u8, echo_out: &mut Vec<u8>) -> (erased: bool)
    ensures
        erased == erase_kind(old(state)@.termios, c) is Some,
        erased ==> (final(state)@, final(echo_out)@) == erased_from(
            old(state)@,
            erase_kind(old(state)@.termios, c).unwrap(),
            false,
            old(echo_out)@,
        ),
        !erased ==> final(state)@ == old(state)@ && final(echo_out)@ == old(echo_out)@,
        final(state)@ == (Pty {
            column: final(state)@.column,
            input: Pending { read_buf: final(state)@.input.read_buf, ..old(state)@.input },
            ..old(state)@
        }),
{
    if !state.termios.l_enabled(Termios::ICANON) {
        return false;
    }
    let cc = state.termios.control_characters;
    if c == cc[Termios::VWERASE] && state.termios.l_enabled(Termios::IEXTEN) {
        erase(state, Termios::VWERASE, echo_out);
        true
    } else if c == cc[Termios::VERASE] {
        erase(state, Termios::VERASE, echo_out);
        true
    } else {
        false
    }
}

/// The character with `IGNCR`, `ICRNL` and `INLCR` applied to its first byte
fn translate(termios: &Termios, raw: &[u8]) -> (out: Vec<u8>)
    requires
        raw@.len() > 0,
    ensures
        out@ == crnl_mapped(*termios, raw@),
{
    let first = raw[0];
    if first == 13 && termios.i_enabled(Termios::IGNCR) {
        return Vec::new();
    }
    let lead = if first == 13 && termios.i_enabled(Termios::ICRNL) {
        10
    } else if first == 10 && termios.i_enabled(Termios::INLCR) {
        13
    } else {
        first
    };
    let mut out: Vec<u8> = Vec::new();
    out.push(lead);
    let mut i: usize = 1;
    while i < raw.len()
        invariant
            1 <= i <= raw@.len(),
            out@ == seq![lead] + raw@.subrange(1, i as int),
        decreases raw@.len() - i,
    {
        out.push(raw[i]);
        i = i + 1;
        assert(out@ =~= seq![lead] + raw@.subrange(1, i as int));
    }
    assert(out@ =~= crnl_mapped(*termios, raw@));
    out
}

/// Whether a mapped character is dropped
fn should_discard(termios: &Termios, read_buf: &[u8], c_bytes: &[u8]) -> (r: bool)
    requires
        read_buf@.len() < CANON_MAX_BYTES,
        c_bytes@.len() <= 4,
    ensures
        r == discards(*termios, read_buf@, c_bytes@),
{
    c_bytes.len() == 0 || (termios.l_enabled(Termios::ICANON) && read_buf.len() + c_bytes.len()
        >= CANON_MAX_BYTES && !termios.is_terminating(c_bytes))
}

/// Echoes a stored character through `OPOST` under `ECHO`, or a newline under `ECHONL`
fn echo(state: &mut State, c_bytes: &[u8], out: &mut Vec<u8>)
    ensures
        (final(state)@, final(out)@) == echoed(old(state)@, c_bytes@, old(out)@),
        final(state)@ == (Pty { column: final(state)@.column, ..old(state)@ }),
{
    let should = state.termios.l_enabled(Termios::ECHO) || (state.termios.l_enabled(Termios::ECHONL)
        && c_bytes.len() > 0 && c_bytes[0] == 10);
    if should {
        let (_, mut processed) = opost(state, c_bytes);
        out.append(&mut processed);
    }
}

} // verus!
