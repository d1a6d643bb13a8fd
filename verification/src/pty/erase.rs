//! `VERASE` and `VWERASE` on the queued input
use vstd::prelude::*;

use super::opost::{opost, posted};
use super::{Pending, Pty, State};
use crate::ctype::{cntrl, digit};
use crate::termios::Termios;

verus! {

/// Whether a byte, read as the Latin-1 character of the same code, has Unicode's `Alphabetic`
/// property
pub uninterp spec fn latin1_alphabetic(byte: u8) -> bool;

/// `char::is_alphabetic` on the character whose code is `byte`. The contract names the result,
/// a fixed property of the character, and states nothing more of it.
#[verifier::external_body]
fn is_alphabetic(byte: u8) -> (r: bool)
    ensures
        r == latin1_alphabetic(byte),
{
    char::from(byte).is_alphabetic()
}

/// Whether a word erase goes on past a character, and whether a word character was seen by
/// then, given whether the character is alphabetic: alphabetic characters, ASCII digits and `_`
/// are word characters, and a separator after a word character ends the erase
pub open spec fn word_step(alphabetic: bool, byte: u8, seen_alnum: bool) -> (bool, bool) {
    if alphabetic || digit(byte) || byte == 0x5f {
        (true, true)
    } else {
        (!seen_alnum, seen_alnum)
    }
}

/// Walks back over continuation bytes from the end of `buf`, `cnt` taken so far: the bytes of
/// the last character and its lead byte, or `(0, 0)` when there is no lead byte
pub open spec fn back_scan(buf: Seq<u8>, iutf8: bool, cnt: int) -> (int, u8)
    decreases buf.len() - cnt,
{
    if cnt < 0 || cnt >= buf.len() {
        (0, 0)
    } else {
        let byte = buf[buf.len() - cnt - 1];
        if iutf8 && byte & 0xc0 == 0x80 {
            back_scan(buf, iutf8, cnt + 1)
        } else {
            (cnt + 1, byte)
        }
    }
}

/// What erases one character from the display: backspace, space, backspace, twice for a
/// control character under `ECHOCTL`, not at all for one without it
pub open spec fn rubout_bytes(t: Termios, byte: u8) -> Seq<u8> {
    let n: nat = if cntrl(byte) {
        if t.lflags(Termios::ECHOCTL) {
            2
        } else {
            0
        }
    } else {
        1
    };
    Seq::new(3 * n, |i: int| if i % 3 == 1 { 32u8 } else { 8u8 })
}

/// Erases characters from the end of the queued input: one for `VERASE`, the trailing
/// separators and one word for `VWERASE`, echoing the rubout through `OPOST` under `ECHO`
pub open spec fn erased_from(p: Pty, kill: usize, seen_alnum: bool, echo: Seq<u8>) -> (
    Pty,
    Seq<u8>,
)
    decreases p.input.read_buf.len(),
{
    let buf = p.input.read_buf;
    if buf.len() == 0 {
        (p, echo)
    } else {
        let (cnt, byte) = back_scan(buf, p.termios.iflags(Termios::IUTF8), 0);
        if cnt == 0 {
            (p, echo)
        } else {
            let (go_on, seen) = word_step(latin1_alphabetic(byte), byte, seen_alnum);
            if kill == Termios::VWERASE && !go_on {
                (p, echo)
            } else {
                proof {
                    lemma_back_scan(buf, p.termios.iflags(Termios::IUTF8), 0);
                }
                let cut = Pty {
                    input: Pending { read_buf: buf.take(buf.len() - cnt), ..p.input },
                    ..p
                };
                let (shown, written) = if p.termios.lflags(Termios::ECHO) {
                    let (column, taken, out) = posted(
                        p.termios,
                        p.column,
                        rubout_bytes(p.termios, byte),
                    );
                    (Pty { column, ..cut }, echo + out)
                } else {
                    (cut, echo)
                };
                if kill == Termios::VERASE {
                    (shown, written)
                } else {
                    erased_from(
                        shown,
                        kill,
                        if kill == Termios::VWERASE {
                            seen
                        } else {
                            seen_alnum
                        },
                        written,
                    )
                }
            }
        }
    }
}

/// The scan back takes a whole character within the buffer
pub proof fn lemma_back_scan(buf: Seq<u8>, iutf8: bool, cnt: int)
    requires
        0 <= cnt,
    ensures
        back_scan(buf, iutf8, cnt).0 == 0 || (cnt < back_scan(buf, iutf8, cnt).0 <= buf.len()),
    decreases buf.len() - cnt,
{
    if cnt < buf.len() {
        lemma_back_scan(buf, iutf8, cnt + 1);
    }
}

/// Erase characters from the input queue (VERASE or VWERASE).
pub fn erase(state: &mut State, kill_type: usize, echo_out: &mut Vec<u8>)
    ensures
        (final(state)@, final(echo_out)@) == erased_from(old(state)@, kill_type, false, old(echo_out)@),
        final(state)@ == (Pty {
            column: final(state)@.column,
            input: Pending { read_buf: final(state)@.input.read_buf, ..old(state)@.input },
            ..old(state)@
        }),
{
    let ghost goal = erased_from(state@, kill_type, false, echo_out@);
    let mut seen_alnum = false;
    loop
        invariant_except_break
            goal == erased_from(state@, kill_type, seen_alnum, echo_out@),
            kill_type != Termios::VWERASE ==> !seen_alnum,
            state@ == (Pty {
                column: state@.column,
                input: Pending { read_buf: state@.input.read_buf, ..old(state)@.input },
                ..old(state)@
            }),
        ensures
            goal == (state@, echo_out@),
            state@ == (Pty {
                column: state@.column,
                input: Pending { read_buf: state@.input.read_buf, ..old(state)@.input },
                ..old(state)@
            }),
        decreases state@.input.read_buf.len(),
    {
        if state.in_queue.read_buf.len() == 0 {
            break;
        }
        let (cnt, byte) = measure_back(
            state.in_queue.read_buf.as_slice(),
            state.termios.i_enabled(Termios::IUTF8),
        );
        if cnt == 0 {
            break;
        }
        if kill_type == Termios::VWERASE && !advance_word_boundary(byte, &mut seen_alnum) {
            break;
        }
        proof {
            lemma_back_scan(state@.input.read_buf, state@.termios.iflags(Termios::IUTF8), 0);
        }
        let new_len = state.in_queue.read_buf.len() - cnt;
        state.in_queue.read_buf.truncate(new_len);
        if state.termios.l_enabled(Termios::ECHO) {
            let raw = erase_echo_raw(&state.termios, byte);
            let (_, mut processed) = opost(state, raw.as_slice());
            echo_out.append(&mut processed);
        }
        if kill_type == Termios::VERASE {
            break;
        }
    }
}

/// The bytes of the last character and its lead byte, `(0, 0)` when there is none
fn measure_back(buf: &[u8], iutf8: bool) -> (r: (usize, u8))
    ensures
        (r.0 as int, r.1) == (if buf@.len() == 0 {
            (0int, 0u8)
        } else {
            back_scan(buf@, iutf8, 0)
        }),
{
    if buf.len() == 0 {
        return (0, 0);
    }
    let mut cnt: usize = 0;
    let mut is_cont = true;
    let mut byte = 0u8;
    while cnt < buf.len() && is_cont
        invariant
            cnt <= buf@.len(),
            buf@.len() > 0,
            is_cont ==> back_scan(buf@, iutf8, 0) == back_scan(buf@, iutf8, cnt as int),
            !is_cont ==> back_scan(buf@, iutf8, 0) == (cnt as int, byte) && cnt > 0,
        decreases buf@.len() - cnt,
    {
        byte = buf[buf.len() - cnt - 1];
        cnt = cnt + 1;
        is_cont = iutf8 && (byte & 0xc0) == 0x80;
    }
    if is_cont {
        (0, 0)
    } else {
        (cnt, byte)
    }
}

/// A word character marks the word as seen; a separator after one ends the erase
fn advance_word_boundary(byte: u8, seen_alnum: &mut bool) -> (r: bool)
    ensures
        (r, *final(seen_alnum)) == word_step(latin1_alphabetic(byte), byte, *old(seen_alnum)),
{
    let alphabetic = is_alphabetic(byte);
    word_erase_goes_on(alphabetic, byte, seen_alnum)
}

/// Whether a word erase goes on past `byte`, given whether it is alphabetic: a word character
/// marks the word as seen, and a separator after one ends the erase
pub fn word_erase_goes_on(alphabetic: bool, byte: u8, seen_alnum: &mut bool) -> (r: bool)
    ensures
        (r, *final(seen_alnum)) == word_step(alphabetic, byte, *old(seen_alnum)),
{
    let is_word = alphabetic || (0x30 <= byte && byte <= 0x39) || byte == 0x5f;
    if is_word {
        *seen_alnum = true;
    } else if *seen_alnum {
        return false;
    }
    true
}

/// Backspace, space, backspace for each display cell the character took
fn erase_echo_raw(termios: &Termios, byte: u8) -> (r: Vec<u8>)
    ensures
        r@ == rubout_bytes(*termios, byte),
{
    let is_ctrl = byte < 0x20 || byte == 0x7f;
    let n: usize = if is_ctrl {
        if termios.l_enabled(Termios::ECHOCTL) {
            2
        } else {
            0
        }
    } else {
        1
    };
    let mut out: Vec<u8> = Vec::new();
    let mut i: usize = 0;
    while i < n
        invariant
            i <= n <= 2,
            out@ == Seq::new(3 * i as nat, |k: int| if k % 3 == 1 { 32u8 } else { 8u8 }),
        decreases n - i,
    {
        out.push(8);
        out.push(32);
        out.push(8);
        i = i + 1;
        assert(out@ =~= Seq::new(3 * i as nat, |k: int| if k % 3 == 1 { 32u8 } else { 8u8 }));
    }
    out
}

} // verus!
