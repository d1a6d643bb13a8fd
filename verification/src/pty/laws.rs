//! What holds of the queue pair's `input` and `output` for every input
use vstd::prelude::*;

use super::erase::{back_scan, erased_from, lemma_back_scan};
use super::input::{crnl_mapped, intake, received, Taken, CANON_MAX_BYTES};
use super::opost::{posted, NON_CANON_MAX_BYTES};
use super::utf8::char_length;
use super::Pty;
use crate::termios::Termios;

verus! {

/// An erase only shortens the read buffer and keeps the termios
proof fn lemma_erase_shortens(p: Pty, kill: usize, seen: bool, echo: Seq<u8>)
    ensures
        erased_from(p, kill, seen, echo).0.input.read_buf.len() <= p.input.read_buf.len(),
        erased_from(p, kill, seen, echo).0.termios == p.termios,
        erased_from(p, kill, seen, echo).0.input.readable == p.input.readable,
    decreases p.input.read_buf.len(),
{
    let buf = p.input.read_buf;
    if buf.len() > 0 {
        lemma_back_scan(buf, p.termios.iflags(Termios::IUTF8), 0);
        let (cnt, byte) = back_scan(buf, p.termios.iflags(Termios::IUTF8), 0);
        if cnt != 0 {
            let cut = Pty {
                input: super::Pending { read_buf: buf.take(buf.len() - cnt), ..p.input },
                ..p
            };
            if p.termios.lflags(Termios::ECHO) {
                let (column, taken, out) = posted(p.termios, p.column, super::erase::rubout_bytes(p.termios, byte));
                let shown = Pty { column, ..cut };
                lemma_erase_shortens(shown, kill, seen, echo + out);
                lemma_erase_shortens(shown, kill, !seen, echo + out);
            } else {
                lemma_erase_shortens(cut, kill, seen, echo);
                lemma_erase_shortens(cut, kill, !seen, echo);
            }
        }
    }
}

/// Taking bytes keeps the read buffer within 4096 bytes, keeps the termios, and takes no more
/// bytes than there are
proof fn lemma_intake(x: Taken, buf: Seq<u8>)
    requires
        x.pty.input.read_buf.len() <= CANON_MAX_BYTES,
        0 <= x.pos <= buf.len(),
    ensures
        intake(x, buf).pty.input.read_buf.len() <= CANON_MAX_BYTES,
        intake(x, buf).pty.termios == x.pty.termios,
        x.pos <= intake(x, buf).pos <= buf.len(),
        x.pty.termios.local_flags & Termios::ISIG == 0 ==> intake(x, buf).signals == x.signals,
    decreases buf.len() - x.pos,
{
    let p = x.pty;
    let t = p.termios;
    if !(x.pos >= buf.len() || p.input.read_buf.len() >= CANON_MAX_BYTES) {
        let size = char_length(t, buf.skip(x.pos)) as int;
        let c = buf[x.pos];
        if !(size < 1 || x.pos + size > buf.len()) {
            if super::input::signal_of_byte(t, c) is Some {
                lemma_intake(
                    Taken {
                        signals: x.signals.push(super::input::signal_of_byte(t, c).unwrap()),
                        pos: x.pos + size,
                        ..x
                    },
                    buf,
                );
            } else if super::input::erase_kind(t, c) is Some {
                let kind = super::input::erase_kind(t, c).unwrap();
                lemma_erase_shortens(p, kind, false, x.output);
                let (q, out) = erased_from(p, kind, false, x.output);
                lemma_intake(Taken { pty: q, output: out, pos: x.pos + 1, ..x }, buf);
            } else {
                let raw = buf.subrange(x.pos, x.pos + size);
                let c_bytes = crnl_mapped(t, raw);
                assert(c_bytes.len() == 0 || c_bytes.len() == size);
                if super::input::discards(t, p.input.read_buf, c_bytes) {
                    lemma_intake(Taken { pos: x.pos + size, ..x }, buf);
                } else if !(p.input.read_buf.len() + size > super::input::read_max(t)) && !(
                t.lflags(Termios::ICANON) && t.eof_char(c_bytes[0])) {
                    let stored = Pty {
                        input: super::Pending { read_buf: p.input.read_buf + c_bytes, ..p.input },
                        ..p
                    };
                    let (q, out) = super::input::echoed(stored, c_bytes, x.output);
                    let next = Taken { pty: q, output: out, pos: x.pos + size, ..x };
                    if !(t.lflags(Termios::ICANON) && t.terminates(c_bytes)) {
                        lemma_intake(next, buf);
                    }
                }
            }
        }
    }
}

/// `input` never lets the read buffer grow past the kernel's 4096 bytes, and never reports more
/// bytes consumed than it was offered
pub proof fn input_keeps_the_read_buffer_within_the_kernel_limit(p: Pty, buf: Seq<u8>)
    requires
        p.input.read_buf.len() <= CANON_MAX_BYTES,
    ensures
        received(p, buf).0.input.read_buf.len() <= CANON_MAX_BYTES,
        0 <= received(p, buf).1.consumed <= buf.len(),
        received(p, buf).0.termios == p.termios,
{
    if !(p.termios.lflags(Termios::ICANON) && p.input.readable) {
        lemma_intake(Taken { pty: p, output: Seq::empty(), signals: Seq::empty(), pos: 0 }, buf);
    }
}

/// A canonical line the replica has not read yet blocks `input`: nothing is taken or changed
pub proof fn a_waiting_canonical_line_blocks_input(p: Pty, buf: Seq<u8>)
    requires
        p.termios.lflags(Termios::ICANON),
        p.input.readable,
    ensures
        received(p, buf).0 == p,
        received(p, buf).1.consumed == 0,
        received(p, buf).1.output.len() == 0,
        received(p, buf).1.to_replica.len() == 0,
{
}

/// Outside canonical mode whatever `input` stores is handed to the replica in the same call
pub proof fn raw_input_is_handed_over_at_once(p: Pty, buf: Seq<u8>)
    requires
        !p.termios.lflags(Termios::ICANON),
        p.input.read_buf.len() <= CANON_MAX_BYTES,
    ensures
        received(p, buf).0.input.read_buf.len() == 0,
{
    lemma_intake(Taken { pty: p, output: Seq::empty(), signals: Seq::empty(), pos: 0 }, buf);
}

/// Without `OPOST` the first 4095 bytes pass through unchanged and the column stays
pub proof fn output_without_opost_passes_through(t: Termios, column: i32, buf: Seq<u8>)
    requires
        !t.oflags(Termios::OPOST),
    ensures
        posted(t, column, buf).0 == column,
        posted(t, column, buf).1 == if buf.len() <= NON_CANON_MAX_BYTES {
            buf.len() as int
        } else {
            NON_CANON_MAX_BYTES as int
        },
        posted(t, column, buf).2 == buf.take(posted(t, column, buf).1),
{
}

/// Without `ISIG` no byte raises a signal: an input call names none, whatever its bytes
pub proof fn without_isig_input_raises_no_signal(p: Pty, buf: Seq<u8>)
    requires
        p.input.read_buf.len() <= CANON_MAX_BYTES,
        p.termios.local_flags & Termios::ISIG == 0,
    ensures
        received(p, buf).1.signals.len() == 0,
{
    if !(p.termios.lflags(Termios::ICANON) && p.input.readable) {
        lemma_intake(Taken { pty: p, output: Seq::empty(), signals: Seq::empty(), pos: 0 }, buf);
    }
}

/// Under `OPOST` a tab moves the column to the next stop of 8 and is written as spaces only
/// under `XTABS`; under any other tab delay it is written as the one byte 9
pub proof fn a_tab_is_expanded_only_under_xtabs(t: Termios, column: i32)
    requires
        t.output_flags & Termios::OPOST != 0,
        0 <= column <= i32::MAX - 8,
    ensures
        posted(t, column, seq![9u8]).1 == 1,
        posted(t, column, seq![9u8]).0 == column + 8 - column % 8,
        t.output_flags & Termios::TABDLY != Termios::XTABS ==> posted(t, column, seq![9u8]).2
            == seq![9u8],
        t.output_flags & Termios::TABDLY == Termios::XTABS ==> posted(t, column, seq![9u8]).2
            == Seq::new((8 - column % 8) as nat, |i: int| 32u8),
{
    let f = t.output_flags;
    assert(f & 1u32 != 0 ==> f & 1u32 == 1u32) by (bit_vector);
    assert(t.oflags(Termios::OPOST));
    let b = seq![9u8];
    assert(b.skip(0) =~= b);
    assert(super::utf8::char_length(t, b.skip(0)) == 1);
    let spaces = super::opost::tab_spaces(column);
    assert((column as usize) % 8 == column % 8);
    assert(spaces == 8 - column % 8);
    let (fits, col, out) = super::opost::emitted(t, column, 9, NON_CANON_MAX_BYTES as int, Seq::empty());
    assert(fits);
    assert(posted(t, column, b) == super::opost::posted_from(t, col, b, 1, out));
}

/// Raw bytes fill the read buffer one after another, with no signal
proof fn lemma_raw_intake(x: Taken, buf: Seq<u8>)
    requires
        x.pty.termios.local_flags & (Termios::ICANON | Termios::ISIG) == 0,
        x.pty.termios.input_flags & (Termios::IGNCR | Termios::ICRNL | Termios::INLCR | Termios::IUTF8)
            == 0,
        buf.len() <= NON_CANON_MAX_BYTES,
        0 <= x.pos <= buf.len(),
        x.pty.input.read_buf == buf.take(x.pos),
        x.signals.len() == 0,
    ensures
        intake(x, buf).pty.input.read_buf == buf,
        intake(x, buf).pos == buf.len(),
        intake(x, buf).signals.len() == 0,
        intake(x, buf).pty.termios == x.pty.termios,
    decreases buf.len() - x.pos,
{
    let p = x.pty;
    let t = p.termios;
    let (l, i) = (t.local_flags, t.input_flags);
    assert(l & (2u32 | 1u32) == 0 ==> l & 2u32 != 2u32 && l & 1u32 != 1u32) by (bit_vector);
    assert(i & (0o200u32 | 0o400u32 | 0o100u32 | 0o40000u32) == 0 ==> i & 0o200u32 != 0o200u32
        && i & 0o400u32 != 0o400u32 && i & 0o100u32 != 0o100u32 && i & 0o40000u32 != 0o40000u32)
        by (bit_vector);
    if x.pos < buf.len() {
        let c = buf[x.pos];
        assert(char_length(t, buf.skip(x.pos)) == 1);
        let raw = buf.subrange(x.pos, x.pos + 1);
        assert(crnl_mapped(t, raw) == raw);
        let stored = Pty {
            input: super::Pending { read_buf: p.input.read_buf + raw, ..p.input },
            ..p
        };
        let (q, out) = super::input::echoed(stored, raw, x.output);
        assert(q.input == stored.input && q.termios == t);
        assert(buf.take(x.pos) + raw =~= buf.take(x.pos + 1));
        lemma_raw_intake(Taken { pty: q, output: out, pos: x.pos + 1, ..x }, buf);
    } else {
        assert(buf.take(x.pos) =~= buf);
    }
}

/// With no canonical mode, no signals, no carriage return or newline mapping and no UTF-8
/// grouping, an input call on an empty read buffer hands the replica its bytes unchanged, takes
/// them all and raises no signal
pub proof fn raw_input_reaches_the_replica_unchanged(p: Pty, buf: Seq<u8>)
    requires
        p.termios.local_flags & (Termios::ICANON | Termios::ISIG) == 0,
        p.termios.input_flags & (Termios::IGNCR | Termios::ICRNL | Termios::INLCR | Termios::IUTF8)
            == 0,
        p.input.read_buf.len() == 0,
        buf.len() <= NON_CANON_MAX_BYTES,
    ensures
        received(p, buf).1.to_replica == buf,
        received(p, buf).1.consumed == buf.len(),
        received(p, buf).1.signals.len() == 0,
{
    let l = p.termios.local_flags;
    assert(l & (2u32 | 1u32) == 0 ==> l & 2u32 != 2u32) by (bit_vector);
    assert(buf.take(0) =~= p.input.read_buf);
    lemma_raw_intake(Taken { pty: p, output: Seq::empty(), signals: Seq::empty(), pos: 0 }, buf);
}

} // verus!
