//! `OPOST`: what the replica writes, post-processed for the master
use vstd::prelude::*;

use super::utf8::{char_len, char_length};
use super::{OutputResult, State};
use crate::termios::Termios;

verus! {

/// Bytes one call takes and writes at most, the kernel's `N_TTY_BUF_SIZE - 1`
pub const NON_CANON_MAX_BYTES: usize = 4095;

/// Columns between tab stops
pub const SPACES_PER_TAB: usize = 8;

/// A column moved right, held at `i32::MAX`
pub open spec fn advanced(column: i32, n: int) -> i32 {
    if column + n > i32::MAX {
        i32::MAX
    } else {
        (column + n) as i32
    }
}

/// The spaces to the next tab stop
pub open spec fn tab_spaces(column: i32) -> usize {
    (SPACES_PER_TAB - (column as usize) % SPACES_PER_TAB) as usize
}

/// One byte through the output flags within a budget of output bytes: whether it fit, the
/// column it leaves and the output with its bytes appended
pub open spec fn emitted(t: Termios, column: i32, c: u8, budget: int, out: Seq<u8>) -> (
    bool,
    i32,
    Seq<u8>,
) {
    if c == 10 {
        let column = if t.oflags(Termios::ONLRET) {
            0
        } else {
            column
        };
        if t.oflags(Termios::ONLCR) {
            if budget < 2 {
                (false, column, out)
            } else {
                (true, column, out + seq![13u8, 10])
            }
        } else {
            (true, column, out.push(10))
        }
    } else if c == 13 {
        if t.oflags(Termios::ONOCR) && column == 0 {
            (true, column, out)
        } else if t.oflags(Termios::OCRNL) {
            (true, if t.oflags(Termios::ONLRET) { 0 } else { column }, out.push(10))
        } else {
            (true, 0, out.push(13))
        }
    } else if c == 9 {
        let spaces = tab_spaces(column);
        if t.output_flags & Termios::TABDLY == Termios::XTABS {
            if budget < spaces {
                (false, column, out)
            } else {
                (true, advanced(column, spaces as int), out + Seq::new(spaces as nat, |i: int| 32u8))
            }
        } else {
            (true, advanced(column, spaces as int), out.push(9))
        }
    } else if c == 8 {
        (true, if column > 0 { (column - 1) as i32 } else { column }, out.push(8))
    } else {
        (true, advanced(column, 1), out.push(c))
    }
}

/// The bytes from `pos` through the output flags, one character at a time, until the output
/// holds 4095 bytes or the next character does not fit: the column left, the bytes taken and
/// the output
pub open spec fn posted_from(t: Termios, column: i32, buf: Seq<u8>, pos: int, out: Seq<u8>) -> (
    i32,
    int,
    Seq<u8>,
)
    decreases buf.len() - pos,
{
    if pos < 0 || pos >= buf.len() || out.len() >= NON_CANON_MAX_BYTES {
        (column, pos, out)
    } else {
        let budget = NON_CANON_MAX_BYTES - out.len();
        let size = char_length(t, buf.skip(pos)) as int;
        if size > budget || size < 1 {
            (column, pos, out)
        } else {
            let c = buf[pos];
            let (fits, column, written) = emitted(t, column, c, budget, out);
            if !fits {
                (column, pos, written)
            } else {
                let whole = if size > 1 && c != 10 && c != 13 && c != 9 && c != 8 {
                    written + buf.subrange(pos + 1, pos + size)
                } else {
                    written
                };
                posted_from(t, column, buf, pos + size, whole)
            }
        }
    }
}

/// `OPOST` over a buffer: the column left, the bytes taken and the output; without `OPOST` the
/// first 4095 bytes pass through
pub open spec fn posted(t: Termios, column: i32, buf: Seq<u8>) -> (i32, int, Seq<u8>) {
    if !t.oflags(Termios::OPOST) {
        let n = if buf.len() <= NON_CANON_MAX_BYTES {
            buf.len() as int
        } else {
            NON_CANON_MAX_BYTES as int
        };
        (column, n, buf.take(n))
    } else {
        posted_from(t, column, buf, 0, Seq::empty())
    }
}

/// Process bytes written by the replica (shell output).
pub fn output(state: &mut State, buf: &[u8]) -> (r: OutputResult)
    ensures
        final(state)@ == (super::Pty { column: final(state)@.column, ..old(state)@ }),
        (final(state)@.column, r.consumed as int, r.output@) == posted(
            old(state)@.termios,
            old(state)@.column,
            buf@,
        ),
{
    let (consumed, output) = opost(state, buf);
    OutputResult { consumed, output }
}

/// `OPOST` processing, shared by [`output`] and the echo of [`super::input::input`]: the bytes
/// taken and the post-processed output
pub fn opost(state: &mut State, buf: &[u8]) -> (r: (usize, Vec<u8>))
    ensures
        final(state)@ == (super::Pty { column: final(state)@.column, ..old(state)@ }),
        (final(state)@.column, r.0 as int, r.1@) == posted(
            old(state)@.termios,
            old(state)@.column,
            buf@,
        ),
        r.1@.len() <= NON_CANON_MAX_BYTES,
{
    if !state.termios.o_enabled(Termios::OPOST) {
        let n = if buf.len() <= NON_CANON_MAX_BYTES {
            buf.len()
        } else {
            NON_CANON_MAX_BYTES
        };
        let mut out: Vec<u8> = Vec::new();
        let mut i: usize = 0;
        while i < n
            invariant
                n <= buf@.len(),
                i <= n,
                out@ == buf@.take(i as int),
            decreases n - i,
        {
            out.push(buf[i]);
            i = i + 1;
            assert(out@ =~= buf@.take(i as int));
        }
        return (n, out);
    }
    let ghost t = state@.termios;
    let ghost goal = posted(t, state@.column, buf@);
    let mut out: Vec<u8> = Vec::new();
    let mut pos: usize = 0;
    loop
        invariant_except_break
            pos <= buf@.len(),
            out@.len() <= NON_CANON_MAX_BYTES,
            state@.termios == t,
            t.oflags(Termios::OPOST),
            state@ == (super::Pty { column: state@.column, ..old(state)@ }),
            goal == posted_from(t, state@.column, buf@, pos as int, out@),
        ensures
            out@.len() <= NON_CANON_MAX_BYTES,
            state@ == (super::Pty { column: state@.column, ..old(state)@ }),
            goal == (state@.column, pos as int, out@),
        decreases buf@.len() - pos,
    {
        if pos >= buf.len() {
            break;
        }
        let budget = NON_CANON_MAX_BYTES - out.len();
        if budget == 0 {
            break;
        }
        let size = char_len(&state.termios, &buf[pos..buf.len()]);
        assert(buf@.subrange(pos as int, buf@.len() as int) =~= buf@.skip(pos as int));
        if size > budget {
            break;
        }
        if !emit_char(state, buf[pos], budget, &mut out) {
            break;
        }
        let c = buf[pos];
        if size > 1 && c != 10 && c != 13 && c != 9 && c != 8 {
            let mut k = pos + 1;
            let end = pos + size;
            let ghost base = out@;
            while k < end
                invariant
                    pos + 1 <= k <= end,
                    end == pos + size,
                    end <= buf@.len(),
                    out@ == base + buf@.subrange(pos + 1, k as int),
                decreases end - k,
            {
                out.push(buf[k]);
                k = k + 1;
                assert(out@ =~= base + buf@.subrange(pos + 1, k as int));
            }
        }
        pos = pos + size;
    }
    (pos, out)
}

/// A column moved right, held at `i32::MAX`
fn advance(column: i32, n: usize) -> (r: i32)
    requires
        n <= SPACES_PER_TAB,
    ensures
        r == advanced(column, n as int),
{
    if column <= i32::MAX - n as i32 {
        column + n as i32
    } else {
        i32::MAX
    }
}

/// One byte through the output flags, false when its bytes do not fit the budget
fn emit_char(state: &mut State, c: u8, budget: usize, out: &mut Vec<u8>) -> (fits: bool)
    ensures
        final(state)@ == (super::Pty { column: final(state)@.column, ..old(state)@ }),
        (fits, final(state)@.column, final(out)@) == emitted(
            old(state)@.termios,
            old(state)@.column,
            c,
            budget as int,
            old(out)@,
        ),
{
    if c == 10 {
        if state.termios.o_enabled(Termios::ONLRET) {
            state.column = 0;
        }
        if state.termios.o_enabled(Termios::ONLCR) {
            if budget < 2 {
                return false;
            }
            out.push(13);
            out.push(10);
            assert(out@ =~= old(out)@ + seq![13u8, 10]);
        } else {
            out.push(10);
        }
    } else if c == 13 {
        if state.termios.o_enabled(Termios::ONOCR) && state.column == 0 {
            return true;
        }
        if state.termios.o_enabled(Termios::OCRNL) {
            out.push(10);
            if state.termios.o_enabled(Termios::ONLRET) {
                state.column = 0;
            }
        } else {
            state.column = 0;
            out.push(13);
        }
    } else if c == 9 {
        let spaces = SPACES_PER_TAB - (state.column as usize % SPACES_PER_TAB);
        if state.termios.output_flags & Termios::TABDLY == Termios::XTABS {
            if budget < spaces {
                return false;
            }
            state.column = advance(state.column, spaces);
            let mut i: usize = 0;
            while i < spaces
                invariant
                    i <= spaces,
                    out@ == old(out)@ + Seq::new(i as nat, |k: int| 32u8),
                decreases spaces - i,
            {
                out.push(32);
                i = i + 1;
                assert(out@ =~= old(out)@ + Seq::new(i as nat, |k: int| 32u8));
            }
        } else {
            state.column = advance(state.column, spaces);
            out.push(9);
        }
    } else if c == 8 {
        if state.column > 0 {
            state.column = state.column - 1;
        }
        out.push(8);
    } else {
        state.column = advance(state.column, 1);
        out.push(c);
    }
    true
}

} // verus!
