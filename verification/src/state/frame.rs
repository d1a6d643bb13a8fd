//! What the echo buffer, its commit and mark and the cursor do not decide: the rest of a
//! discipline, and the input handed to the program, follow from the rest alone
use vstd::prelude::*;

use super::canon::Kill;
use super::model::{kept_signals, op_len, Cursor, Discipline, LINE_MAX};
use crate::termios::Termios;
use crate::result::{Event, Produced, Signal};

verus! {

/// A discipline with the echo buffer, its commit and mark and the cursor set aside
pub open spec fn rest_of(d: Discipline) -> Discipline {
    Discipline {
        echo: Seq::empty(),
        echo_commit: 0,
        echo_mark: 0,
        cursor: Cursor { column: 0, canon_column: 0 },
        ..d
    }
}

/// Echoing a sequence touches only the echo buffer
pub proof fn lemma_visible_all_core(d: Discipline, bytes: Seq<u8>)
    ensures
        rest_of(d.visible_all(bytes)) == rest_of(d),
    decreases bytes.len(),
{
    if bytes.len() > 0 {
        lemma_visible_all_core(d, bytes.drop_last());
    }
}

/// Printing a character's continuation bytes touches only the echo buffer
pub proof fn lemma_printed_tail_core(d: Discipline, bytes: Seq<u8>)
    ensures
        rest_of(d.printed_tail(bytes)) == rest_of(d),
    decreases bytes.len(),
{
    if bytes.len() > 0 {
        lemma_printed_tail_core(d, bytes.drop_last());
    }
}

/// Erasing one character shortens the line and may open an `ECHOPRT` run, whatever the echo
pub proof fn lemma_erase_char_core(d: Discipline, head: int, c: u8, kind: Kill)
    ensures
        rest_of(d.erase_char(head, c, kind)) == rest_of(rest_of(d).erase_char(head, c, kind)),
        d.erase_char(head, c, kind).termios == d.termios,
        d.erase_char(head, c, kind).stopped == d.stopped,
        d.erase_char(head, c, kind).tco_stopped == d.tco_stopped,
{
    let e = rest_of(d);
    if d.lflag(crate::termios::Termios::ECHO) && d.lflag(crate::termios::Termios::ECHOPRT) {
        let od = if !d.erasing {
            Discipline { erasing: true, ..d.raw(0x5c) }
        } else {
            d
        };
        let oe = if !e.erasing {
            Discipline { erasing: true, ..e.raw(0x5c) }
        } else {
            e
        };
        let tail = d.line.subrange(head + 1, d.line.len() as int);
        lemma_printed_tail_core(od.visible(c), tail);
        lemma_printed_tail_core(oe.visible(c), tail);
    }
}

/// An erase run removes what the line and flags decide, whatever the echo
pub proof fn lemma_erase_run_core(d: Discipline, kind: Kill, seen_word: bool)
    ensures
        rest_of(d.erase_run(kind, seen_word)) == rest_of(rest_of(d).erase_run(kind, seen_word)),
        d.erase_run(kind, seen_word).termios == d.termios,
        d.erase_run(kind, seen_word).stopped == d.stopped,
        d.erase_run(kind, seen_word).tco_stopped == d.tco_stopped,
    decreases d.line.len(),
{
    let e = rest_of(d);
    match super::model::last_start(d.termios, d.line) {
        None => {},
        Some(head) => {
            super::model::lemma_last_start(d.termios, d.line);
            let c = d.line[head];
            if !(kind == Kill::Word && !super::model::word_char(c) && seen_word)
                && kind != Kill::Char {
                let d1 = d.erase_char(head, c, kind);
                let e1 = e.erase_char(head, c, kind);
                lemma_erase_char_core(d, head, c, kind);
                lemma_erase_char_core(e, head, c, kind);
                let s = kind == Kill::Word && (seen_word || super::model::word_char(c));
                lemma_erase_run_core(d1, kind, s);
                lemma_erase_run_core(e1, kind, s);
            } else if kind == Kill::Char {
                lemma_erase_char_core(d, head, c, kind);
            }
        },
    }
}

/// Erasing removes what the line and flags decide, whatever the echo
pub proof fn lemma_eraser_rest(d: Discipline, e: Discipline, c: u8)
    requires
        rest_of(d) == rest_of(e),
    ensures
        rest_of(d.eraser(c)) == rest_of(e.eraser(c)),
        d.eraser(c).termios == d.termios,
        d.eraser(c).stopped == d.stopped,
        d.eraser(c).tco_stopped == d.tco_stopped,
{
    if d.line.len() > 0 {
        let kind = if c == d.cc(Termios::VERASE) {
            Kill::Char
        } else if c == d.cc(Termios::VWERASE) {
            Kill::Word
        } else {
            Kill::Line
        };
        lemma_erase_run_core(d, kind, false);
        lemma_erase_run_core(e, kind, false);
    }
}

/// The canonical rules act on the line and the flags alone
pub proof fn lemma_canon_rest(d: Discipline, e: Discipline, p: Produced, q: Produced, pre: Seq<u8>, c: u8)
    requires
        rest_of(d) == rest_of(e),
        p.to_replica == pre + q.to_replica,
    ensures
        rest_of(d.canon(p, c).0) == rest_of(e.canon(q, c).0),
        d.canon(p, c).0.termios == d.termios,
        d.canon(p, c).1.to_replica == pre + e.canon(q, c).1.to_replica,
{
    lemma_eraser_rest(d, e, c);
    let dr = d.finish_erasing().visible(c).raw(10);
    let er = e.finish_erasing().visible(c).raw(10);
    lemma_visible_all_core(dr, d.line);
    lemma_visible_all_core(er, e.line);
}

/// An ordinary byte's rules act on the line and the flags alone
pub proof fn lemma_plain_rest(d: Discipline, e: Discipline, p: Produced, q: Produced, pre: Seq<u8>, c: u8)
    requires
        rest_of(d) == rest_of(e),
        p.to_replica == pre + q.to_replica,
    ensures
        rest_of(d.plain(p, c).0) == rest_of(e.plain(q, c).0),
        d.plain(p, c).0.termios == d.termios,
        d.plain(p, c).1.to_replica == pre + e.plain(q, c).1.to_replica,
{
    let (d1, p1) = d.restart_on_any(p);
    let (e1, q1) = e.restart_on_any(q);
    assert(rest_of(d1) == rest_of(e1) && p1.to_replica == pre + q1.to_replica);
    lemma_accept_rest(d1, e1, p1, q1, pre, c, false);
}

/// Echo and queue act on the line and the flags alone
pub proof fn lemma_accept_rest(
    d: Discipline,
    e: Discipline,
    p: Produced,
    q: Produced,
    pre: Seq<u8>,
    c: u8,
    raw_newline: bool,
)
    requires
        rest_of(d) == rest_of(e),
        p.to_replica == pre + q.to_replica,
    ensures
        rest_of(d.accept(p, c, raw_newline).0) == rest_of(e.accept(q, c, raw_newline).0),
        d.accept(p, c, raw_newline).0.termios == d.termios,
        d.accept(p, c, raw_newline).1.to_replica == pre + e.accept(q, c, raw_newline).1.to_replica,
{
}

/// A special byte's rules act on the line and the flags alone
pub proof fn lemma_special_rest(d: Discipline, e: Discipline, p: Produced, q: Produced, pre: Seq<u8>, c: u8)
    requires
        rest_of(d) == rest_of(e),
        p.to_replica == pre + q.to_replica,
    ensures
        rest_of(d.special(p, c).0) == rest_of(e.special(q, c).0),
        d.special(p, c).0.termios == d.termios,
        !(d.lflag(Termios::ISIG) && d.signal_of(c) is Some) ==> d.special(p, c).1.to_replica
            == pre + e.special(q, c).1.to_replica,
{
    if d.iflag(Termios::IXON) && (c == d.cc(Termios::VSTART) || c == d.cc(Termios::VSTOP)) {
    } else if d.lflag(Termios::ISIG) && d.signal_of(c) is Some {
    } else {
        let (d1, p1) = d.restart_on_any(p);
        let (e1, q1) = e.restart_on_any(q);
        assert(rest_of(d1) == rest_of(e1) && p1.to_replica == pre + q1.to_replica);
        if !(c == 13 && d.iflag(Termios::IGNCR)) {
            let t = d.crnl_mapped(c);
            lemma_accept_rest(d1, e1, p1, q1, pre, t, true);
            if d.lflag(Termios::ICANON) {
                lemma_canon_rest(d1, e1, p1, q1, pre, t);
            }
        }
    }
}

/// One byte's rules act on the line and the flags alone, and hand the program the same input
#[verifier::rlimit(100)]
pub proof fn lemma_receive_rest(d: Discipline, e: Discipline, p: Produced, q: Produced, pre: Seq<u8>, b: u8)
    requires
        rest_of(d) == rest_of(e),
        p.to_replica == pre + q.to_replica,
    ensures
        rest_of(d.receive(p, b).0) == rest_of(e.receive(q, b).0),
        d.receive(p, b).0.termios == d.termios,
        !(d.lflag(Termios::ISIG) && d.signal_of(d.preprocess(b)) is Some) ==> d.receive(p, b).1.to_replica
            == pre + e.receive(q, b).1.to_replica,
{
    let d0 = if d.lflag(Termios::ICANON) && d.line.len() >= LINE_MAX {
        Discipline { line: d.line.drop_last(), ..d }
    } else {
        d
    };
    let e0 = if e.lflag(Termios::ICANON) && e.line.len() >= LINE_MAX {
        Discipline { line: e.line.drop_last(), ..e }
    } else {
        e
    };
    assert(rest_of(d0) == rest_of(e0));
    let c = d0.preprocess(b);
    lemma_plain_rest(Discipline { lnext: false, ..d0 }, Discipline { lnext: false, ..e0 }, p, q, pre, c);
    lemma_plain_rest(d0, e0, p, q, pre, c);
    lemma_special_rest(d0, e0, p, q, pre, c);
}

/// No byte of a sequence is a signal character under `ISIG`
pub open spec fn no_signal(d: Discipline, bytes: Seq<u8>) -> bool {
    forall|k: int|
        0 <= k < bytes.len() ==> !(d.lflag(Termios::ISIG) && #[trigger] d.signal_of(
            d.preprocess(bytes[k]),
        ) is Some)
}

/// Bytes without a signal character act on the line and the flags alone, and hand the program
/// the same input after what each run had already produced
pub proof fn lemma_steps_rest(
    d: Discipline,
    e: Discipline,
    p: Produced,
    q: Produced,
    pre: Seq<u8>,
    bytes: Seq<u8>,
)
    requires
        rest_of(d) == rest_of(e),
        p.to_replica == pre + q.to_replica,
        no_signal(d, bytes),
    ensures
        rest_of(d.steps(p, bytes).0) == rest_of(e.steps(q, bytes).0),
        d.steps(p, bytes).0.termios == d.termios,
        d.steps(p, bytes).1.to_replica == pre + e.steps(q, bytes).1.to_replica,
    decreases bytes.len(),
{
    if bytes.len() > 0 {
        let shorter = bytes.drop_last();
        assert forall|k: int| 0 <= k < shorter.len() implies !(d.lflag(Termios::ISIG)
            && #[trigger] d.signal_of(d.preprocess(shorter[k])) is Some) by {
            assert(shorter[k] == bytes[k]);
        }
        lemma_steps_rest(d, e, p, q, pre, shorter);
        let (d1, p1) = d.steps(p, shorter);
        let (e1, q1) = e.steps(q, shorter);
        let b = bytes.last();
        assert(!(d.lflag(Termios::ISIG) && d.signal_of(d.preprocess(bytes[bytes.len() - 1])) is Some));
        assert(d1.preprocess(b) == d.preprocess(b));
        assert(d1.signal_of(d1.preprocess(b)) == d.signal_of(d.preprocess(b)));
        lemma_receive_rest(d1, e1, p1, q1, pre, b);
    }
}

/// Splitting a sequence of bytes in two runs the first part, then the second from where it
/// left off
pub proof fn lemma_steps_split(d: Discipline, p: Produced, a: Seq<u8>, b: Seq<u8>)
    ensures
        d.steps(p, a + b) == ({
            let (e, q) = d.steps(p, a);
            e.steps(q, b)
        }),
    decreases b.len(),
{
    if b.len() == 0 {
        assert(a + b =~= a);
    } else {
        assert((a + b).drop_last() =~= a + b.drop_last());
        assert((a + b).last() == b.last());
        lemma_steps_split(d, p, a, b.drop_last());
    }
}

/// The signal an event names, if it is a signal event
pub open spec fn signal_at(events: Seq<Event>, k: int) -> Option<Signal> {
    match events[k] {
        Event::Signal { signal, .. } => Some(signal),
        Event::Eof { .. } => None,
    }
}

/// Some event of a list names the signal
pub open spec fn names(events: Seq<Event>, s: Signal) -> bool {
    exists|k: int| 0 <= k < events.len() && #[trigger] signal_at(events, k) == Some(s)
}

/// The signals kept at a flush are signals named before it
pub proof fn lemma_kept_signals_named(events: Seq<Event>, s: Signal)
    ensures
        names(kept_signals(events), s) ==> names(events, s),
    decreases events.len(),
{
    if events.len() > 0 {
        let rest = kept_signals(events.drop_last());
        lemma_kept_signals_named(events.drop_last(), s);
        if names(kept_signals(events), s) {
            let k = choose|k: int|
                0 <= k < kept_signals(events).len() && #[trigger] signal_at(kept_signals(events), k)
                    == Some(s);
            if k < rest.len() {
                assert(signal_at(rest, k) == Some(s));
                let j = choose|j: int|
                    0 <= j < events.drop_last().len() && #[trigger] signal_at(events.drop_last(), j)
                        == Some(s);
                assert(signal_at(events, j) == Some(s));
            } else {
                assert(signal_at(events, events.len() - 1) == Some(s));
            }
        }
    }
}

/// The rules for a byte that raises no signal add at most an end of file to the events
pub proof fn lemma_receive_events(d: Discipline, p: Produced, b: u8)
    ensures
        ({
            let d0 = if d.lflag(Termios::ICANON) && d.line.len() >= LINE_MAX {
                Discipline { line: d.line.drop_last(), ..d }
            } else {
                d
            };
            let c = d0.preprocess(b);
            let raised = !d0.lnext && !d0.lflag(Termios::EXTPROC) && d0.is_special(c) && !(
            d0.iflag(Termios::IXON) && (c == d0.cc(Termios::VSTART) || c == d0.cc(Termios::VSTOP)))
                && d0.lflag(Termios::ISIG) && d0.signal_of(c) is Some;
            let r = d.receive(p, b).1.events;
            if raised {
                d.receive(p, b) == d0.raise(p, d0.signal_of(c).unwrap(), c)
            } else {
                r == p.events || (r.drop_last() == p.events && r.len() == p.events.len() + 1
                    && r.last() is Eof)
            }
        }),
{
}

/// A signal event of a call comes from a byte of it that is a signal character under `ISIG`
pub proof fn lemma_steps_signals(d: Discipline, p: Produced, bytes: Seq<u8>, s: Signal)
    ensures
        d.steps(p, bytes).0.termios == d.termios,
        names(d.steps(p, bytes).1.events, s) ==> names(p.events, s) || (d.lflag(Termios::ISIG)
            && exists|j: int|
            0 <= j < bytes.len() && #[trigger] d.signal_of(d.preprocess(bytes[j])) == Some(s)),
    decreases bytes.len(),
{
    if bytes.len() > 0 {
        let shorter = bytes.drop_last();
        lemma_steps_signals(d, p, shorter, s);
        let (d1, p1) = d.steps(p, shorter);
        let b = bytes.last();
        assert(p1.to_replica == Seq::<u8>::empty() + p1.to_replica);
        lemma_receive_rest(d1, d1, p1, p1, Seq::empty(), b);
        lemma_receive_events(d1, p1, b);
        let (d2, p2) = d1.receive(p1, b);
        let (d3, p3) = d1.step(p1, b);
        assert(p3.events == p2.events);
        if names(p3.events, s) && !names(p1.events, s) {
            let k = choose|k: int| 0 <= k < p2.events.len() && #[trigger] signal_at(p2.events, k) == Some(s);
            let d0 = if d1.lflag(Termios::ICANON) && d1.line.len() >= LINE_MAX {
                Discipline { line: d1.line.drop_last(), ..d1 }
            } else {
                d1
            };
            let c = d0.preprocess(b);
            assert(c == d.preprocess(bytes[bytes.len() - 1]));
            if !d0.lnext && !d0.lflag(Termios::EXTPROC) && d0.is_special(c) && !(d0.iflag(
                Termios::IXON,
            ) && (c == d0.cc(Termios::VSTART) || c == d0.cc(Termios::VSTOP))) && d0.lflag(
                Termios::ISIG,
            ) && d0.signal_of(c) is Some {
                let base = if !d0.lflag(Termios::NOFLSH) {
                    kept_signals(p1.events)
                } else {
                    p1.events
                };
                assert(p2.events == base.push(
                    Event::Signal { at: p2.events.last().offset(), signal: d0.signal_of(c).unwrap() },
                ));
                if k < base.len() {
                    assert(signal_at(base, k) == Some(s));
                    lemma_kept_signals_named(p1.events, s);
                    assert(names(base, s));
                    assert(false);
                } else {
                    assert(d.signal_of(d.preprocess(bytes[bytes.len() - 1])) == Some(s));
                }
            } else {
                if k < p1.events.len() {
                    assert(signal_at(p1.events, k) == Some(s));
                } else {
                    assert(signal_at(p2.events, k) == None::<Signal>);
                }
            }
        }
        if names(p1.events, s) && !names(p.events, s) {
            let j = choose|j: int|
                0 <= j < shorter.len() && #[trigger] d.signal_of(d.preprocess(shorter[j])) == Some(s);
            assert(shorter[j] == bytes[j]);
            assert(d.signal_of(d.preprocess(bytes[j])) == Some(s));
        }
    }
}

/// Where rendering stops and the cursor it leaves do not depend on what was written before
pub proof fn lemma_render_from_out(
    c: Cursor,
    t: Termios,
    echo: Seq<u8>,
    commit: int,
    out: Seq<u8>,
    other: Seq<u8>,
    tail: int,
)
    ensures
        c.render_from(t, echo, commit, out, tail).0 == c.render_from(t, echo, commit, other, tail).0,
        c.render_from(t, echo, commit, out, tail).2 == c.render_from(t, echo, commit, other, tail).2,
    decreases commit - tail + 3,
{
    if tail < commit {
        let (next, shown) = c.rendered(t, echo, tail);
        if op_len(echo, tail) > 0 {
            lemma_render_from_out(next, t, echo, commit, out + shown, other + shown, tail + op_len(echo, tail));
        }
    }
}

/// Writing out held echo leaves the same discipline whatever was written before
pub proof fn lemma_process_out(d: Discipline, out: Seq<u8>, other: Seq<u8>)
    ensures
        d.process(out).0 == d.process(other).0,
{
    lemma_render_from_out(d.cursor, d.termios, d.echo, d.echo_commit as int, out, other, 0);
}

/// A restart leaves the same discipline whatever the call had produced before it
pub proof fn lemma_start_out(d: Discipline, p: Produced, q: Produced)
    ensures
        d.start(p).0 == d.start(q).0,
        d.restart_on_any(p).0 == d.restart_on_any(q).0,
{
    let s = if !d.tco_stopped {
        Discipline { stopped: false, ..d }
    } else {
        d
    };
    lemma_process_out(Discipline { echo_commit: s.echo_mark, ..s }, p.to_master, q.to_master);
}

/// The canonical rules leave the same discipline whatever the call had produced before
pub proof fn lemma_canon_out(d: Discipline, p: Produced, q: Produced, c: u8)
    ensures
        d.canon(p, c).0 == d.canon(q, c).0,
        d.accept(p, c, true).0 == d.accept(q, c, true).0,
        d.accept(p, c, false).0 == d.accept(q, c, false).0,
{
}

/// An ordinary byte's rules leave the same discipline whatever the call had produced before
pub proof fn lemma_plain_out(d: Discipline, p: Produced, q: Produced, c: u8)
    ensures
        d.plain(p, c).0 == d.plain(q, c).0,
{
    lemma_start_out(d, p, q);
    let (d1, p1) = d.restart_on_any(p);
    let (e1, q1) = d.restart_on_any(q);
    lemma_canon_out(d1, p1, q1, c);
}

/// A special byte's rules leave the same discipline whatever the call had produced before
pub proof fn lemma_special_out(d: Discipline, p: Produced, q: Produced, c: u8)
    ensures
        d.special(p, c).0 == d.special(q, c).0,
{
    lemma_start_out(d, p, q);
    let (d1, p1) = d.restart_on_any(p);
    let (e1, q1) = d.restart_on_any(q);
    lemma_canon_out(d1, p1, q1, d.crnl_mapped(c));
}

/// One byte's rules leave the same discipline whatever the call had produced before it
pub proof fn lemma_receive_out(d: Discipline, p: Produced, q: Produced, b: u8)
    ensures
        d.receive(p, b).0 == d.receive(q, b).0,
{
    let d0 = if d.lflag(Termios::ICANON) && d.line.len() >= LINE_MAX {
        Discipline { line: d.line.drop_last(), ..d }
    } else {
        d
    };
    let c = d0.preprocess(b);
    lemma_plain_out(Discipline { lnext: false, ..d0 }, p, q, c);
    lemma_plain_out(d0, p, q, c);
    lemma_special_out(d0, p, q, c);
}

/// Bytes taken one after another leave the same discipline whatever the call had produced
pub proof fn lemma_steps_out(d: Discipline, p: Produced, q: Produced, bytes: Seq<u8>)
    ensures
        d.steps(p, bytes).0 == d.steps(q, bytes).0,
    decreases bytes.len(),
{
    if bytes.len() > 0 {
        lemma_steps_out(d, p, q, bytes.drop_last());
        let (d1, p1) = d.steps(p, bytes.drop_last());
        let (e1, q1) = d.steps(q, bytes.drop_last());
        lemma_receive_out(d1, p1, q1, bytes.last());
        let (d2, p2) = d1.receive(p1, bytes.last());
        let (e2, q2) = d1.receive(q1, bytes.last());
        let head = d2.echo.len();
        let marked = Discipline { echo_mark: head, ..d2 };
        lemma_process_out(Discipline { echo_commit: head, ..marked }, p2.to_master, q2.to_master);
    }
}

/// An erase run only shortens the line
pub proof fn lemma_erase_run_line(d: Discipline, kind: Kill, seen_word: bool)
    ensures
        d.erase_run(kind, seen_word).line.len() <= d.line.len(),
    decreases d.line.len(),
{
    match super::model::last_start(d.termios, d.line) {
        None => {},
        Some(head) => {
            super::model::lemma_last_start(d.termios, d.line);
            let c = d.line[head];
            lemma_erase_char_core(d, head, c, kind);
            if !(kind == Kill::Word && !super::model::word_char(c) && seen_word) && kind
                != Kill::Char {
                let d1 = d.erase_char(head, c, kind);
                let s = kind == Kill::Word && (seen_word || super::model::word_char(c));
                lemma_erase_run_line(d1, kind, s);
            }
        },
    }
}

/// The canonical rules keep the line within the kernel's buffer
pub proof fn lemma_canon_line(d: Discipline, p: Produced, c: u8)
    requires
        d.line.len() <= LINE_MAX,
    ensures
        d.canon(p, c).0.line.len() <= LINE_MAX,
        d.accept(p, c, true).0.line.len() <= LINE_MAX,
        d.accept(p, c, false).0.line.len() <= LINE_MAX,
{
    if d.line.len() > 0 {
        let kind = if c == d.cc(Termios::VERASE) {
            Kill::Char
        } else if c == d.cc(Termios::VWERASE) {
            Kill::Word
        } else {
            Kill::Line
        };
        lemma_erase_run_line(d, kind, false);
    }
    let dr = d.finish_erasing().visible(c).raw(10);
    lemma_visible_all_core(dr, d.line);
}

/// One byte keeps the line within the kernel's buffer on every path
#[verifier::rlimit(100)]
pub proof fn lemma_receive_line(d: Discipline, p: Produced, b: u8)
    requires
        d.line.len() <= LINE_MAX,
    ensures
        d.receive(p, b).0.line.len() <= LINE_MAX,
{
    let d0 = if d.lflag(Termios::ICANON) && d.line.len() >= LINE_MAX {
        Discipline { line: d.line.drop_last(), ..d }
    } else {
        d
    };
    let c = d0.preprocess(b);
    let dl = Discipline { lnext: false, ..d0 };
    let (e1, q1) = dl.restart_on_any(p);
    lemma_canon_line(e1, q1, c);
    let (f1, r1) = d0.restart_on_any(p);
    lemma_canon_line(f1, r1, c);
    lemma_canon_line(f1, r1, d0.crnl_mapped(c));
}

} // verus!
