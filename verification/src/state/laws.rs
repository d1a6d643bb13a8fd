//! What holds of the discipline across calls and for every input
use vstd::prelude::*;

use super::frame::{lemma_process_out, lemma_receive_line, lemma_steps_out, lemma_steps_rest, lemma_steps_signals, lemma_steps_split, no_signal, rest_of, signal_at};
use super::model::{Discipline, DISCARD_WATERMARK};
use super::split::{all_keep_running, keeps_running, lemma_flush_all, lemma_process_shown, lemma_run_keeps_running, lemma_runs_agree, pending, runs};
use crate::result::{Event, Produced, Signal};
use crate::ctype::alnum;
use crate::termios::Termios;
use super::canon::Kill;

verus! {

/// A termios that leaves typed bytes alone: no canonical mode, no signals, no flow control, no
/// carriage return or newline mapping, no stripping, no case mapping and no parity marks
pub open spec fn passes_raw(t: Termios) -> bool {
    &&& t.local_flags & Termios::ICANON == 0
    &&& t.local_flags & Termios::ISIG == 0
    &&& t.input_flags & Termios::IXON == 0
    &&& t.input_flags & (Termios::IGNCR | Termios::ICRNL | Termios::INLCR) == 0
    &&& t.input_flags & Termios::ISTRIP == 0
    &&& t.input_flags & Termios::PARMRK == 0
    &&& (t.input_flags & Termios::IUCLC == 0 || t.local_flags & Termios::IEXTEN == 0)
}

/// The flags `passes_raw` clears, each on its own
proof fn lemma_raw_flags(t: Termios)
    requires
        passes_raw(t),
    ensures
        t.input_flags & Termios::IGNCR == 0,
        t.input_flags & Termios::ICRNL == 0,
        t.input_flags & Termios::INLCR == 0,
{
    let f = t.input_flags;
    assert(f & (0o200u32 | 0o400u32 | 0o100u32) == 0 ==> f & 0o200u32 == 0 && f & 0o400u32 == 0
        && f & 0o100u32 == 0) by (bit_vector);
}

/// Under a raw termios each typed byte is appended to the program's input as it is, with no event
proof fn lemma_raw_steps(d: Discipline, p: Produced, bytes: Seq<u8>)
    requires
        passes_raw(d.termios),
    ensures
        d.steps(p, bytes).0.termios == d.termios,
        d.steps(p, bytes).1.to_replica == p.to_replica + bytes,
        d.steps(p, bytes).1.events == p.events,
    decreases bytes.len(),
{
    lemma_raw_flags(d.termios);
    if bytes.len() > 0 {
        lemma_raw_steps(d, p, bytes.drop_last());
        let (e, q) = d.steps(p, bytes.drop_last());
        let b = bytes.last();
        assert(e.preprocess(b) == b);
        assert(!e.is_special(b));
        let (f, r) = e.receive(q, b);
        assert(r.to_replica == q.to_replica.push(b));
        assert(r.events == q.events);
        assert(f.termios == d.termios);
        assert(p.to_replica + bytes =~= (p.to_replica + bytes.drop_last()).push(b));
    }
}

/// Raw mode hands every typed byte to the program unchanged, in order, with no end of file and
/// no signal, whatever the echo does
pub proof fn raw_input_passes_through(d: Discipline, bytes: Seq<u8>)
    requires
        passes_raw(d.termios),
    ensures
        d.input(bytes).1.to_replica == bytes,
        d.input(bytes).1.events.len() == 0,
{
    lemma_raw_steps(d, Produced::empty(), bytes);
    assert(Produced::empty().to_replica + bytes =~= bytes);
}

/// Canonical mode outside `EXTPROC` keeps ordinary bytes on the line under edit: until a byte
/// the canonical rules, flow control or a signal act on, the program gets nothing
pub proof fn canonical_input_waits_for_a_line_end(d: Discipline, bytes: Seq<u8>)
    requires
        d.lflag(Termios::ICANON),
        !d.lflag(Termios::EXTPROC),
        forall|k: int| 0 <= k < bytes.len() ==> !d.is_special(#[trigger] d.preprocess(bytes[k])),
    ensures
        d.input(bytes).1.to_replica.len() == 0,
        d.input(bytes).1.events.len() == 0,
{
    lemma_canonical_steps(d, Produced::empty(), bytes);
}

/// Ordinary bytes in canonical mode change neither the program's input nor the events
proof fn lemma_canonical_steps(d: Discipline, p: Produced, bytes: Seq<u8>)
    requires
        d.lflag(Termios::ICANON),
        !d.lflag(Termios::EXTPROC),
        forall|k: int| 0 <= k < bytes.len() ==> !d.is_special(#[trigger] d.preprocess(bytes[k])),
    ensures
        d.steps(p, bytes).0.termios == d.termios,
        d.steps(p, bytes).1.to_replica == p.to_replica,
        d.steps(p, bytes).1.events == p.events,
    decreases bytes.len(),
{
    if bytes.len() > 0 {
        let shorter = bytes.drop_last();
        assert forall|k: int| 0 <= k < shorter.len() implies !d.is_special(
            #[trigger] d.preprocess(shorter[k]),
        ) by {
            assert(shorter[k] == bytes[k]);
        }
        lemma_canonical_steps(d, p, shorter);
        let (e, q) = d.steps(p, shorter);
        let b = bytes.last();
        assert(!d.is_special(d.preprocess(bytes[bytes.len() - 1])));
        lemma_canonical_receive(e, q, b);
    }
}

/// One ordinary byte in canonical mode goes to the line, not to the program
proof fn lemma_canonical_receive(e: Discipline, q: Produced, b: u8)
    requires
        e.lflag(Termios::ICANON),
        !e.lflag(Termios::EXTPROC),
        !e.is_special(e.preprocess(b)),
    ensures
        e.step(q, b).0.termios == e.termios,
        e.step(q, b).1.to_replica == q.to_replica,
        e.step(q, b).1.events == q.events,
{
    let d0 = if e.lflag(Termios::ICANON) && e.line.len() >= super::model::LINE_MAX {
        Discipline { line: e.line.drop_last(), ..e }
    } else {
        e
    };
    let c = d0.preprocess(b);
    assert(c == e.preprocess(b));
    assert(!d0.is_special(c));
    if d0.lnext {
        lemma_canonical_plain(Discipline { lnext: false, ..d0 }, q, c);
    } else {
        lemma_canonical_plain(d0, q, c);
    }
    let (f, r) = e.receive(q, b);
    assert(f.termios == e.termios);
}

/// An ordinary byte in canonical mode is echoed and queued on the line
proof fn lemma_canonical_plain(d: Discipline, p: Produced, c: u8)
    requires
        d.lflag(Termios::ICANON),
        !d.lflag(Termios::EXTPROC),
    ensures
        d.plain(p, c).0.termios == d.termios,
        d.plain(p, c).1.to_replica == p.to_replica,
        d.plain(p, c).1.events == p.events,
{
    let (e, q) = d.restart_on_any(p);
    assert(e.termios == d.termios && q.to_replica == p.to_replica && q.events == p.events);
    let echoed = if e.lflag(Termios::ECHO) {
        let x = e.finish_erasing();
        if false && c == 10 {
            x.raw(10)
        } else {
            x.set_canon_column().visible(c)
        }
    } else {
        e
    };
    assert(echoed.termios == d.termios);
    let (f, r) = if c == 0xff && e.iflag(Termios::PARMRK) {
        echoed.queue(q, c)
    } else {
        (echoed, q)
    };
    assert(f.termios == d.termios && r.to_replica == p.to_replica && r.events == p.events);
    assert(f.queue(r, c).1.to_replica == p.to_replica);
}

/// An ordinary byte that fits on the line goes on the end of it, and nothing else a read sees
/// changes
proof fn lemma_ordinary_step(e: Discipline, q: Produced, b: u8)
    requires
        e.lflag(Termios::ICANON),
        !e.lflag(Termios::EXTPROC),
        !e.lnext,
        e.line.len() < super::model::LINE_MAX,
        e.preprocess(b) == b,
        !e.is_special(b),
        !(b == 0xff && e.iflag(Termios::PARMRK)),
    ensures
        e.step(q, b).0.termios == e.termios,
        !e.step(q, b).0.lnext,
        e.step(q, b).0.line == e.line.push(b),
        e.step(q, b).1.to_replica == q.to_replica,
        e.step(q, b).1.events == q.events,
{
    let (f, r) = e.restart_on_any(q);
    assert(f.termios == e.termios && f.line == e.line && !f.lnext && r.to_replica == q.to_replica
        && r.events == q.events);
    let echoed = if f.lflag(Termios::ECHO) {
        f.finish_erasing().set_canon_column().visible(b)
    } else {
        f
    };
    assert(echoed.termios == e.termios && echoed.line == e.line && !echoed.lnext);
    assert(f.accept(r, b, false) == echoed.queue(r, b));
    assert(echoed.queue(r, b).0.line == e.line.push(b));
    let (g, m) = e.receive(q, b);
    assert(g.line == e.line.push(b));
}

/// Ordinary bytes that fit on the line go on the end of it, one after another
proof fn lemma_ordinary_steps(d: Discipline, p: Produced, w: Seq<u8>)
    requires
        d.lflag(Termios::ICANON),
        !d.lflag(Termios::EXTPROC),
        !d.lnext,
        d.line.len() + w.len() < super::model::LINE_MAX,
        forall|k: int|
            0 <= k < w.len() ==> d.preprocess(#[trigger] w[k]) == w[k] && !d.is_special(w[k])
                && !(w[k] == 0xff && d.iflag(Termios::PARMRK)),
    ensures
        d.steps(p, w).0.termios == d.termios,
        !d.steps(p, w).0.lnext,
        d.steps(p, w).0.line == d.line + w,
        d.steps(p, w).1.to_replica == p.to_replica,
        d.steps(p, w).1.events == p.events,
    decreases w.len(),
{
    if w.len() > 0 {
        let shorter = w.drop_last();
        assert forall|k: int| 0 <= k < shorter.len() implies d.preprocess(#[trigger] shorter[k])
            == shorter[k] && !d.is_special(shorter[k]) && !(shorter[k] == 0xff && d.iflag(
            Termios::PARMRK,
        )) by {
            assert(shorter[k] == w[k]);
        }
        lemma_ordinary_steps(d, p, shorter);
        let (e, q) = d.steps(p, shorter);
        let b = w.last();
        assert(b == w[w.len() - 1]);
        lemma_ordinary_step(e, q, b);
        assert(d.line + w =~= (d.line + shorter).push(b));
    }
}

/// A line typed in canonical mode reaches the program as typed: ordinary bytes that fit on the
/// line, then a newline the rules treat as the line end, hand the program the line held before
/// them, the bytes and the newline, with no event
pub proof fn a_typed_line_reaches_the_program(d: Discipline, w: Seq<u8>)
    requires
        d.lflag(Termios::ICANON),
        !d.lflag(Termios::EXTPROC),
        !d.lnext,
        d.line.len() + w.len() < super::model::LINE_MAX,
        forall|k: int|
            0 <= k < w.len() ==> d.preprocess(#[trigger] w[k]) == w[k] && !d.is_special(w[k])
                && !(w[k] == 0xff && d.iflag(Termios::PARMRK)),
        d.preprocess(10) == 10,
        !d.iflag(Termios::INLCR),
        !d.is_edit(10),
        !(d.iflag(Termios::IXON) && (10 == d.cc(Termios::VSTART) || 10 == d.cc(Termios::VSTOP))),
        !(d.lflag(Termios::ISIG) && d.signal_of(10) is Some),
    ensures
        d.input(w.push(10)).1.to_replica == d.line + w.push(10),
        d.input(w.push(10)).1.events.len() == 0,
{
    let all = w.push(10);
    assert(all.drop_last() =~= w);
    lemma_ordinary_steps(d, Produced::empty(), w);
    let (e, q) = d.steps(Produced::empty(), w);
    assert(e.line == d.line + w);
    assert(e.is_special(10));
    let (f, r) = e.restart_on_any(q);
    assert(f.line == e.line && r.to_replica == q.to_replica && r.events == q.events);
    assert(f.canon_outcome(10) == super::canon::Outcome::Handled);
    let shown = if f.lflag(Termios::ECHO) || f.lflag(Termios::ECHONL) {
        f.raw(10)
    } else {
        f
    };
    assert(shown.line == e.line);
    assert(f.canon(r, 10).1.to_replica == q.to_replica + e.line + seq![10u8]);
    assert(e.special(q, 10) == f.canon(r, 10));
    assert(e.receive(q, 10) == e.special(q, 10));
    assert(q.to_replica + e.line + seq![10u8] =~= d.line + w.push(10));
}

/// While `VSTOP` or `stop_output` holds output, `output` takes nothing and the terminal gets
/// nothing
pub proof fn held_output_takes_nothing(d: Discipline, bytes: Seq<u8>)
    requires
        d.stopped,
    ensures
        d.output(bytes).1 == 0,
        d.output(bytes).2.len() == 0,
        d.output(bytes).0.stopped,
{
}

/// After `stop_output`, `output` takes nothing, whatever the discipline held before
pub proof fn stop_output_holds_output(d: Discipline, bytes: Seq<u8>)
    ensures
        (Discipline { stopped: true, tco_stopped: true, ..d }).output(bytes).1 == 0,
        (Discipline { stopped: true, tco_stopped: true, ..d }).output(bytes).2.len() == 0,
{
    held_output_takes_nothing(Discipline { stopped: true, tco_stopped: true, ..d }, bytes);
}

/// Without `OPOST` and with output running, `output` takes every byte and the terminal gets the
/// released echo followed by the bytes unchanged
pub proof fn output_without_opost_passes_through(d: Discipline, bytes: Seq<u8>)
    requires
        !d.stopped,
        !d.oflag(Termios::OPOST),
        bytes.len() <= usize::MAX,
    ensures
        d.output(bytes).1 == bytes.len(),
        d.output(bytes).2 == d.release(Seq::empty()).1 + bytes,
{
}

/// A termios change that keeps `ICANON` and `EXTPROC` keeps the line under edit and releases
/// none of it; one that changes them hands the whole line to the program and empties it
pub proof fn set_termios_releases_the_line_exactly_on_a_mode_change(d: Discipline, t: Termios)
    ensures
        !d.mode_changes(t) ==> d.set_termios(t).0.line == d.line && d.set_termios(t).2.len() == 0,
        d.mode_changes(t) ==> d.set_termios(t).2 == d.line && d.set_termios(t).0.line.len() == 0,
        d.set_termios(t).0.termios == t,
{
}

/// An erase, word erase or kill on an empty line changes nothing
pub proof fn erasing_an_empty_line_does_nothing(d: Discipline, c: u8)
    requires
        d.line.len() == 0,
    ensures
        d.eraser(c) == d,
{
}

/// The byte after `VLNEXT` is ordinary input, whatever character it is
pub proof fn literal_next_takes_the_byte_as_ordinary(d: Discipline, p: Produced, b: u8)
    requires
        d.lnext,
        !(d.lflag(Termios::ICANON) && d.line.len() >= super::model::LINE_MAX),
    ensures
        d.receive(p, b) == (Discipline { lnext: false, ..d }).plain(p, d.preprocess(b)),
{
}

/// A signal character without `NOFLSH` drops the line under edit, the echo waiting to go out,
/// and what the call had completed, keeps the signals already named (moved to the start), and
/// names its own signal at the start of what follows; with `NOFLSH` everything stays and the
/// signal lands after what the call had completed
pub proof fn a_signal_flushes_the_call_unless_noflsh(d: Discipline, p: Produced, signal: Signal, c: u8)
    ensures
        !d.lflag(Termios::NOFLSH) ==> {
            let (e, q) = d.raise(p, signal, c);
            &&& e.line.len() == 0
            &&& q.to_master.len() == 0
            &&& q.to_replica.len() == 0
            &&& q.events.last() == (Event::Signal { at: 0, signal })
            &&& q.events.drop_last() == super::model::kept_signals(p.events)
        },
        d.lflag(Termios::NOFLSH) ==> {
            let (e, q) = d.raise(p, signal, c);
            &&& e.line == d.line
            &&& q.to_master == p.to_master
            &&& q.to_replica == p.to_replica
            &&& q.events == p.events.push(Event::Signal { at: p.to_replica.len() as usize, signal })
        },
{
}

/// Held echo never grows past the discard watermark once an input call has flushed it
pub proof fn flushed_echo_stays_within_the_watermark(d: Discipline, out: Seq<u8>)
    requires
        d.wf(),
        d.lflag(Termios::ECHO) || d.lflag(Termios::ECHONL),
        d.echo_commit == d.echo.len(),
    ensures
        d.flush_echo(out).0.echo.len() <= DISCARD_WATERMARK,
{
}

/// Typing bytes in two calls hands the program what one call would, in the same order, when
/// none of them is a signal character under `ISIG`, and leaves the line under edit, the flags,
/// the flow control state and the literal-next and `ECHOPRT` states as one call would; with
/// neither `ECHO` nor `ECHONL` it leaves the very discipline one call would
pub proof fn splitting_an_input_hands_over_the_same_input(d: Discipline, a: Seq<u8>, b: Seq<u8>)
    requires
        no_signal(d, a + b),
    ensures
        d.input(a).1.to_replica + d.input(a).0.input(b).1.to_replica == d.input(a + b).1.to_replica,
        rest_of(d.input(a).0.input(b).0) == rest_of(d.input(a + b).0),
        !d.lflag(Termios::ECHO) && !d.lflag(Termios::ECHONL) ==> d.input(a).0.input(b).0 == d.input(
            a + b,
        ).0,
{
    assert forall|k: int| 0 <= k < a.len() implies !(d.lflag(Termios::ISIG)
        && #[trigger] d.signal_of(d.preprocess(a[k])) is Some) by {
        assert((a + b)[k] == a[k]);
    }
    lemma_steps_rest(d, d, Produced::empty(), Produced::empty(), Seq::empty(), a);
    lemma_steps_split(d, Produced::empty(), a, b);
    let (da, pa) = d.steps(Produced::empty(), a);
    let x = d.input(a).0;
    assert(rest_of(x) == rest_of(da));
    assert forall|k: int| 0 <= k < b.len() implies !(da.lflag(Termios::ISIG)
        && #[trigger] da.signal_of(da.preprocess(b[k])) is Some) by {
        assert((a + b)[a.len() + k] == b[k]);
        assert(!(d.lflag(Termios::ISIG) && d.signal_of(d.preprocess((a + b)[a.len() + k])) is Some));
        assert(da.preprocess(b[k]) == d.preprocess(b[k]));
        assert(da.signal_of(da.preprocess(b[k])) == d.signal_of(d.preprocess(b[k])));
    }
    assert(pa.to_replica == pa.to_replica + Produced::empty().to_replica);
    lemma_steps_rest(da, x, pa, Produced::empty(), pa.to_replica, b);
    lemma_steps_out(da, pa, Produced::empty(), b);
}

/// A signal event of an input call comes from a byte of that call which, after `ISTRIP` and
/// `IUCLC`, is the signal's `VINTR`, `VQUIT` or `VSUSP` character, and only under `ISIG`
pub proof fn a_signal_event_comes_from_a_signal_character(
    d: Discipline,
    bytes: Seq<u8>,
    i: int,
    at: usize,
    signal: Signal,
)
    requires
        0 <= i < d.input(bytes).1.events.len(),
        d.input(bytes).1.events[i] == (Event::Signal { at, signal }),
    ensures
        d.lflag(Termios::ISIG),
        exists|j: int|
            0 <= j < bytes.len() && #[trigger] d.signal_of(d.preprocess(bytes[j])) == Some(signal),
{
    lemma_steps_signals(d, Produced::empty(), bytes, signal);
    assert(signal_at(d.input(bytes).1.events, i) == Some(signal));
    assert(d.input(bytes).1.events == d.steps(Produced::empty(), bytes).1.events);
}

/// In canonical mode a full line makes room for an ordinary byte by dropping only its newest
/// byte: it keeps its first 4095 bytes and takes the new one, and the program gets nothing
pub proof fn a_full_line_drops_only_its_newest_byte(d: Discipline, p: Produced, b: u8)
    requires
        d.lflag(Termios::ICANON),
        !d.lflag(Termios::EXTPROC),
        !d.lnext,
        d.line.len() == super::model::LINE_MAX,
        d.preprocess(b) == b,
        !d.is_special(b),
        !(b == 0xff && d.iflag(Termios::PARMRK)),
    ensures
        d.receive(p, b).0.line == d.line.take(super::model::LINE_MAX - 1).push(b),
        d.receive(p, b).1.to_replica == p.to_replica,
        d.receive(p, b).1.events == p.events,
{
    let d0 = Discipline { line: d.line.drop_last(), ..d };
    assert(d0.preprocess(b) == b && !d0.is_special(b));
    let (f, r) = d0.restart_on_any(p);
    assert(f.line == d0.line && r.to_replica == p.to_replica && r.events == p.events);
    let echoed = if f.lflag(Termios::ECHO) {
        f.finish_erasing().set_canon_column().visible(b)
    } else {
        f
    };
    assert(echoed.line == d0.line);
    assert(f.accept(r, b, false) == echoed.queue(r, b));
    assert(d.receive(p, b) == d0.plain(p, b));
    assert(d0.line =~= d.line.take(super::model::LINE_MAX - 1));
}

/// Every byte, on every path, keeps the line under edit within the kernel's 4096 bytes; in
/// canonical mode a full line makes room by dropping its newest byte and nothing else, so the
/// byte then acts exactly as it would on the line without that newest byte
pub proof fn a_byte_keeps_the_line_within_the_kernel_buffer(d: Discipline, p: Produced, b: u8)
    requires
        d.line.len() <= super::model::LINE_MAX,
    ensures
        d.receive(p, b).0.line.len() <= super::model::LINE_MAX,
        d.lflag(Termios::ICANON) && d.line.len() == super::model::LINE_MAX ==> d.receive(p, b)
            == (Discipline { line: d.line.drop_last(), ..d }).receive(p, b),
{
    lemma_receive_line(d, p, b);
}

/// While output runs, typing bytes in two calls leaves the very discipline one call would and
/// hands the program the same input, when none of the bytes is a signal character under `ISIG`
/// or `VSTOP` under `IXON`
pub proof fn splitting_an_input_leaves_the_same_discipline(d: Discipline, a: Seq<u8>, b: Seq<u8>)
    requires
        d.wf(),
        !d.stopped,
        all_keep_running(d, a + b),
    ensures
        d.input(a).1.to_replica + d.input(a).0.input(b).1.to_replica == d.input(a + b).1.to_replica,
        d.input(a).0.input(b).0 == d.input(a + b).0,
{
    assert forall|k: int| 0 <= k < (a + b).len() implies !(d.lflag(Termios::ISIG)
        && #[trigger] d.signal_of(d.preprocess((a + b)[k])) is Some) by {
        assert(keeps_running(d, (a + b)[k]));
    }
    splitting_an_input_hands_over_the_same_input(d, a, b);
    assert forall|k: int| 0 <= k < a.len() implies #[trigger] keeps_running(d, a[k]) by {
        assert((a + b)[k] == a[k]);
        assert(keeps_running(d, (a + b)[k]));
    }
    lemma_run_keeps_running(d, Produced::empty(), a);
    lemma_steps_split(d, Produced::empty(), a, b);
    let (da, pa) = d.steps(Produced::empty(), a);
    let (x, pm) = d.input(a);
    assert(x == da.flush_echo(pa.to_master).0);
    assert forall|k: int| 0 <= k < b.len() implies #[trigger] keeps_running(da, b[k]) by {
        assert((a + b)[a.len() + k] == b[k]);
        assert(keeps_running(d, (a + b)[a.len() + k]));
    }
    let silent = !da.lflag(Termios::ECHO) && !da.lflag(Termios::ECHONL);
    if silent || da.echo_commit == da.echo.len() {
        assert(x == da);
        lemma_steps_out(da, pa, Produced::empty(), b);
        let f = da.steps(pa, b).0;
        let f1 = da.steps(Produced::empty(), b).0;
        assert(f == f1);
        let o1 = da.steps(pa, b).1.to_master;
        let o2 = da.steps(Produced::empty(), b).1.to_master;
        if !(f.lflag(Termios::ECHO) || f.lflag(Termios::ECHONL)) || f.echo_commit == f.echo.len() {
        } else {
            lemma_process_out(Discipline { echo_commit: f.echo.len(), ..f }, o1, o2);
        }
    } else {
        let m = Discipline { echo_commit: da.echo.len(), ..da };
        lemma_process_shown(m, pa.to_master);
        assert(runs(x));
        assert(pending(da));
        assert forall|k: int| 0 <= k < b.len() implies #[trigger] keeps_running(x, b[k]) by {
            assert(keeps_running(da, b[k]));
            assert(x.termios == da.termios);
            assert(x.preprocess(b[k]) == da.preprocess(b[k]));
        }
        lemma_runs_agree(x, Produced::empty(), da, pa, b);
        let (xf, xq) = x.steps(Produced::empty(), b);
        let (yf, yq) = da.steps(pa, b);
        lemma_flush_all(xf, xq.to_master);
        lemma_flush_all(yf, yq.to_master);
        let xe = xf.flush_echo(xq.to_master).0;
        let ye = yf.flush_echo(yq.to_master).0;
        assert(xe.echo =~= ye.echo);
        assert(xe == ye);
    }
}

/// Installing a termios restarts output held by `VSTOP` and releases held echo only when it
/// drops `IXON` that was set: a change that keeps `IXON`, or one made while `IXON` was off,
/// leaves flow control alone and releases no echo; a change that drops it restarts output
/// unless `stop_output` holds it
pub proof fn set_termios_restarts_output_only_when_ixon_goes(d: Discipline, t: Termios)
    ensures
        !(d.termios.input_flags & Termios::IXON != 0 && t.input_flags & Termios::IXON == 0) ==> {
            &&& d.set_termios(t).0.stopped == d.stopped
            &&& d.set_termios(t).1.len() == 0
            &&& d.set_termios(t).0.echo == d.echo
            &&& d.set_termios(t).0.cursor == d.cursor
        },
        d.termios.input_flags & Termios::IXON != 0 && t.input_flags & Termios::IXON == 0
            && !d.tco_stopped ==> !d.set_termios(t).0.stopped,
        d.tco_stopped ==> d.set_termios(t).0.stopped == d.stopped && d.set_termios(t).1.len() == 0,
{
}

/// Erasing a word from a line that ends in a separator and then a run of word characters
/// removes the run and keeps the separator, whatever was erased before
proof fn lemma_word_run(d: Discipline, w: Seq<u8>, s: u8, v: Seq<u8>, seen: bool)
    requires
        d.line == w.push(s) + v,
        seen || v.len() > 0,
        forall|i: int| 0 <= i < v.len() ==> alnum(#[trigger] v[i]) || v[i] == 0x5f,
        !(alnum(s) || s == 0x5f),
        d.termios.input_flags & Termios::IUTF8 == 0 || (s & 0xc0 != 0x80 && forall|i: int|
            0 <= i < v.len() ==> #[trigger] v[i] & 0xc0 != 0x80),
    ensures
        d.erase_run(Kill::Word, seen).line == w.push(s),
    decreases v.len(),
{
    let line = d.line;
    assert(line.len() > 0);
    if v.len() == 0 {
        assert(line =~= w.push(s));
        assert(line.last() == s);
    } else {
        let n = line.len() - 1;
        assert(line.last() == v.last());
        assert(v.last() == v[v.len() - 1]);
        assert(alnum(v.last()) || v.last() == 0x5f);
        assert(!super::model::continues(d.termios, line.last()));
        assert(super::model::last_start(d.termios, line) == Some(n));
        let d1 = d.erase_char(n, line[n], Kill::Word);
        super::frame::lemma_erase_char_core(d, n, line[n], Kill::Word);
        assert(d1.line =~= w.push(s) + v.drop_last());
        assert forall|i: int| 0 <= i < v.drop_last().len() implies alnum(#[trigger] v.drop_last()[i])
            || v.drop_last()[i] == 0x5f by {
            assert(v.drop_last()[i] == v[i]);
        }
        assert(d.termios.input_flags & Termios::IUTF8 == 0 || (s & 0xc0 != 0x80 && forall|i: int|
            0 <= i < v.drop_last().len() ==> #[trigger] v.drop_last()[i] & 0xc0 != 0x80)) by {
            assert forall|i: int| 0 <= i < v.drop_last().len() implies v.drop_last()[i] == v[i] by {}
        }
        lemma_word_run(d1, w, s, v.drop_last(), true);
    }
}

/// `VWERASE` removes the word at the end of the line and stops at the separator before it: of
/// a line that ends in a byte that is neither a letter, a digit nor `_`, then a run of such word
/// characters, it keeps exactly everything up to and with that separator
pub proof fn a_word_erase_stops_at_a_separator(d: Discipline, w: Seq<u8>, s: u8, v: Seq<u8>)
    requires
        d.line == w.push(s) + v,
        v.len() > 0,
        forall|i: int| 0 <= i < v.len() ==> alnum(#[trigger] v[i]) || v[i] == 0x5f,
        !(alnum(s) || s == 0x5f),
        d.termios.input_flags & Termios::IUTF8 == 0 || (s & 0xc0 != 0x80 && forall|i: int|
            0 <= i < v.len() ==> #[trigger] v[i] & 0xc0 != 0x80),
        d.cc(Termios::VWERASE) != d.cc(Termios::VERASE),
    ensures
        d.eraser(d.cc(Termios::VWERASE)).line == w.push(s),
{
    lemma_word_run(d, w, s, v, false);
    let e = d.erase_run(Kill::Word, false);
    assert(e.line.len() > 0);
}

/// A typed `VWERASE` in canonical mode erases the last word of the line up to the separator
/// before it, and hands the program nothing
pub proof fn typing_a_word_erase_stops_at_a_separator(
    d: Discipline,
    p: Produced,
    b: u8,
    w: Seq<u8>,
    s: u8,
    v: Seq<u8>,
)
    requires
        d.lflag(Termios::ICANON),
        d.lflag(Termios::IEXTEN),
        !d.lflag(Termios::EXTPROC),
        !d.lnext,
        d.line.len() < super::model::LINE_MAX,
        d.preprocess(b) == d.cc(Termios::VWERASE),
        d.preprocess(b) != 0 && d.preprocess(b) != 10 && d.preprocess(b) != 13,
        d.cc(Termios::VWERASE) != d.cc(Termios::VERASE),
        !(d.iflag(Termios::IXON) && (d.preprocess(b) == d.cc(Termios::VSTART) || d.preprocess(b)
            == d.cc(Termios::VSTOP))),
        !(d.lflag(Termios::ISIG) && d.signal_of(d.preprocess(b)) is Some),
        d.line == w.push(s) + v,
        v.len() > 0,
        forall|i: int| 0 <= i < v.len() ==> alnum(#[trigger] v[i]) || v[i] == 0x5f,
        !(alnum(s) || s == 0x5f),
        d.termios.input_flags & Termios::IUTF8 == 0 || (s & 0xc0 != 0x80 && forall|i: int|
            0 <= i < v.len() ==> #[trigger] v[i] & 0xc0 != 0x80),
    ensures
        d.receive(p, b).0.line == w.push(s),
        d.receive(p, b).1.to_replica == p.to_replica,
        d.receive(p, b).1.events == p.events,
{
    let c = d.preprocess(b);
    let (f, q) = d.restart_on_any(p);
    assert(f.line == d.line && f.termios == d.termios && q.to_replica == p.to_replica
        && q.events == p.events);
    a_word_erase_stops_at_a_separator(f, w, s, v);
    assert(d.is_special(c));
    assert(d.crnl_mapped(c) == c);
    assert(f.canon_outcome(c) == super::canon::Outcome::Handled);
    assert(f.canon(q, c) == (f.eraser(c), q));
    assert(d.receive(p, b) == d.special(p, c));
}

} // verus!
