//! One byte from the terminal
use vstd::prelude::*;

use super::canon::{self, Outcome};
use super::echo;
use super::model::{kept_signals, placed, Discipline, LINE_MAX};
use super::State;
use crate::ctype::to_lower;
use crate::result::{Event, InputResult, Produced, Signal};
use crate::termios::Termios;

verus! {

/// Takes one byte the terminal typed
pub fn byte(state: &mut State, byte: u8, out: &mut InputResult)
    requires
        old(state)@.wf(),
    ensures
        (final(state)@, final(out)@) == old(state)@.receive(old(out)@, byte),
        final(state)@.wf(),
        final(state)@.termios == old(state)@.termios,
        final(state)@.tco_stopped == old(state)@.tco_stopped,
        placed(old(out)@) ==> placed(final(out)@),
{
    if state.lflag(Termios::ICANON) && state.line.len() >= LINE_MAX {
        state.line.pop();
    }
    let c = preprocess(state, byte);
    if state.lnext {
        state.lnext = false;
        plain(state, c, out);
    } else if state.lflag(Termios::EXTPROC) {
        extproc(state, c, out);
    } else if is_special(state, c) {
        special(state, c, out);
    } else {
        plain(state, c, out);
    }
}

/// `ISTRIP` and `IUCLC`, applied before any other rule
fn preprocess(state: &State, byte: u8) -> (r: u8)
    ensures
        r == state@.preprocess(byte),
{
    let c = if state.iflag(Termios::ISTRIP) {
        byte & 0x7f
    } else {
        byte
    };
    if state.iflag(Termios::IUCLC) && state.lflag(Termios::IEXTEN) {
        to_lower(c)
    } else {
        c
    }
}

/// The kernel's `char_map`: the bytes that get more than echo and queue, never NUL
fn is_special(state: &State, c: u8) -> (r: bool)
    ensures
        r == state@.is_special(c),
{
    if c == 0 {
        return false;
    }
    (c == 13 && (state.iflag(Termios::IGNCR) || state.iflag(Termios::ICRNL))) || (c == 10
        && state.iflag(Termios::INLCR)) || (state.lflag(Termios::ICANON) && is_canon_special(
        state,
        c,
    )) || (state.iflag(Termios::IXON) && (c == state.cc(Termios::VSTART) || c == state.cc(
        Termios::VSTOP,
    ))) || (state.lflag(Termios::ISIG) && signal_for(state, c).is_some())
}

/// The editing and line end characters canonical mode watches
fn is_canon_special(state: &State, c: u8) -> (r: bool)
    ensures
        r == state@.is_canon_special(c),
{
    let iexten = state.lflag(Termios::IEXTEN);
    c == 10 || c == state.cc(Termios::VERASE) || c == state.cc(Termios::VKILL) || c == state.cc(
        Termios::VEOF,
    ) || c == state.cc(Termios::VEOL) || (iexten && c == state.cc(Termios::VWERASE)) || (iexten
        && c == state.cc(Termios::VLNEXT)) || (iexten && c == state.cc(Termios::VEOL2)) || (iexten
        && state.lflag(Termios::ECHO) && c == state.cc(Termios::VREPRINT))
}

/// The signal a byte raises under `ISIG`
fn signal_for(state: &State, c: u8) -> (r: Option<Signal>)
    ensures
        r == state@.signal_of(c),
{
    if c == state.cc(Termios::VINTR) {
        Some(Signal::Interrupt)
    } else if c == state.cc(Termios::VQUIT) {
        Some(Signal::Quit)
    } else if c == state.cc(Termios::VSUSP) {
        Some(Signal::Suspend)
    } else {
        None
    }
}

/// `n_tty_receive_char_special`: flow control, signals, carriage return and newline mapping, then the canonical rules
fn special(state: &mut State, c: u8, out: &mut InputResult)
    requires
        old(state)@.wf(),
    ensures
        (final(state)@, final(out)@) == old(state)@.special(old(out)@, c),
        final(state)@.wf(),
        final(state)@.termios == old(state)@.termios,
        final(state)@.tco_stopped == old(state)@.tco_stopped,
        placed(old(out)@) ==> placed(final(out)@),
{
    if state.iflag(Termios::IXON) && flow_control(state, c, out) {
        return;
    }
    if state.lflag(Termios::ISIG) {
        if let Some(signal) = signal_for(state, c) {
            raise(state, signal, c, out);
            return;
        }
    }
    restart_on_any(state, out);
    if c == 13 && state.iflag(Termios::IGNCR) {
        return;
    }
    let c = if c == 13 && state.iflag(Termios::ICRNL) {
        10
    } else if c == 10 && state.iflag(Termios::INLCR) {
        13
    } else {
        c
    };
    if state.lflag(Termios::ICANON) {
        match canon::receive(state, c, out) {
            Outcome::Handled => return ,
            Outcome::Eof => {
                eof(out);
                return ;
            },
            Outcome::Plain => {},
        }
    }
    accept(state, c, true, out);
}

/// `VSTART` releases held output and `VSTOP` holds it, and neither is echoed or queued
fn flow_control(state: &mut State, c: u8, out: &mut InputResult) -> (r: bool)
    requires
        old(state)@.wf(),
    ensures
        r == (c == old(state)@.cc(Termios::VSTART) || c == old(state)@.cc(Termios::VSTOP)),
        r ==> (final(state)@, final(out)@) == old(state)@.flow(old(out)@, c),
        !r ==> final(state)@ == old(state)@ && final(out)@ == old(out)@,
        final(state)@.wf(),
        final(state)@.termios == old(state)@.termios,
        final(state)@.tco_stopped == old(state)@.tco_stopped,
        placed(old(out)@) ==> placed(final(out)@),
{
    if c == state.cc(Termios::VSTART) {
        start(state, out);
    } else if c == state.cc(Termios::VSTOP) {
        state.stopped = true;
    } else {
        return false;
    }
    true
}

/// Releases output and the echo it held back, unless `stop_output` holds them
fn start(state: &mut State, out: &mut InputResult)
    requires
        old(state)@.wf(),
    ensures
        (final(state)@, final(out)@) == old(state)@.start(old(out)@),
        final(state)@.wf(),
        final(state)@.termios == old(state)@.termios,
        final(state)@.tco_stopped == old(state)@.tco_stopped,
        placed(old(out)@) ==> placed(final(out)@),
{
    if !state.tco_stopped {
        state.stopped = false;
    }
    echo::release(state, &mut out.to_master);
}

/// Under `IXANY` any byte releases held output
fn restart_on_any(state: &mut State, out: &mut InputResult)
    requires
        old(state)@.wf(),
    ensures
        (final(state)@, final(out)@) == old(state)@.restart_on_any(old(out)@),
        final(state)@.wf(),
        final(state)@.termios == old(state)@.termios,
        final(state)@.tco_stopped == old(state)@.tco_stopped,
        placed(old(out)@) ==> placed(final(out)@),
{
    if state.stopped && !state.tco_stopped && state.iflag(Termios::IXON) && state.iflag(
        Termios::IXANY,
    ) {
        start(state, out);
    }
}

/// Keeps the signal events of a flushed call, each moved to the start of the flushed input
fn keep_signals(events: &mut Vec<Event>)
    ensures
        final(events)@ == kept_signals(old(events)@),
        forall|i: int| 0 <= i < final(events)@.len() ==> #[trigger] final(events)@[i].offset() == 0,
{
    let mut kept: Vec<Event> = Vec::new();
    let mut i: usize = 0;
    while i < events.len()
        invariant
            i <= events@.len(),
            events@ == old(events)@,
            kept@ == kept_signals(events@.take(i as int)),
            forall|k: int| 0 <= k < kept@.len() ==> #[trigger] kept@[k].offset() == 0,
        decreases events@.len() - i,
    {
        assert(events@.take(i + 1).drop_last() =~= events@.take(i as int));
        match events[i] {
            Event::Signal { signal, .. } => kept.push(Event::Signal { at: 0, signal }),
            Event::Eof { .. } => {},
        }
        i = i + 1;
    }
    assert(events@.take(events@.len() as int) =~= events@);
    *events = kept;
}

/// `isig`: the flush unless `NOFLSH`, the signal event, the release under `IXON`, then the echo
fn raise(state: &mut State, signal: Signal, c: u8, out: &mut InputResult)
    requires
        old(state)@.wf(),
    ensures
        (final(state)@, final(out)@) == old(state)@.raise(old(out)@, signal, c),
        final(state)@.wf(),
        final(state)@.termios == old(state)@.termios,
        final(state)@.tco_stopped == old(state)@.tco_stopped,
        placed(old(out)@) ==> placed(final(out)@),
{
    if !state.lflag(Termios::NOFLSH) {
        state.line.clear();
        echo::clear(state);
        state.erasing = false;
        out.to_master.clear();
        out.to_replica.clear();
        keep_signals(&mut out.events);
    }
    let at = out.to_replica.len();
    out.events.push(Event::Signal { at, signal });
    if state.iflag(Termios::IXON) && !state.tco_stopped {
        state.stopped = false;
    }
    if state.lflag(Termios::ECHO) {
        echo::visible(state, c);
    }
}

/// An end of file the program reads once the input before it is drained
fn eof(out: &mut InputResult)
    ensures
        final(out)@ == (Produced {
            events: old(out)@.events.push(Event::Eof { at: old(out)@.to_replica.len() as usize }),
            ..old(out)@
        }),
        placed(old(out)@) ==> placed(final(out)@),
{
    let at = out.to_replica.len();
    out.events.push(Event::Eof { at });
    proof {
        if placed(old(out)@) {
            let n = old(out)@.events.len();
            assert(out@.events[n as int].offset() == at);
            assert forall|i: int| 0 <= i < out@.events.len() implies #[trigger] out@.events[i].offset()
                <= out@.to_replica.len() by {
                if i < n {
                    assert(out@.events[i] == old(out)@.events[i]);
                }
            }
            assert forall|i: int, j: int| 0 <= i <= j < out@.events.len() implies #[trigger] out@.events[i].offset()
                <= #[trigger] out@.events[j].offset() by {
                if j < n {
                    assert(out@.events[i] == old(out)@.events[i]);
                    assert(out@.events[j] == old(out)@.events[j]);
                } else if i < n {
                    assert(out@.events[i] == old(out)@.events[i]);
                }
            }
        }
    }
}

/// Under `EXTPROC` the byte goes to the program untouched, but a `VEOF` in canonical mode is an
/// end of file
fn extproc(state: &mut State, c: u8, out: &mut InputResult)
    requires
        old(state)@.wf(),
    ensures
        (final(state)@, final(out)@) == old(state)@.extproc(old(out)@, c),
        final(state)@.wf(),
        final(state)@.termios == old(state)@.termios,
        final(state)@.tco_stopped == old(state)@.tco_stopped,
        placed(old(out)@) ==> placed(final(out)@),
{
    if state.lflag(Termios::ICANON) && c == state.cc(Termios::VEOF) {
        eof(out);
    } else {
        queue(state, c, out);
    }
}

/// `n_tty_receive_char`: echo and queue an ordinary byte
fn plain(state: &mut State, c: u8, out: &mut InputResult)
    requires
        old(state)@.wf(),
    ensures
        (final(state)@, final(out)@) == old(state)@.plain(old(out)@, c),
        final(state)@.wf(),
        final(state)@.termios == old(state)@.termios,
        final(state)@.tco_stopped == old(state)@.tco_stopped,
        placed(old(out)@) ==> placed(final(out)@),
{
    restart_on_any(state, out);
    accept(state, c, false, out);
}

/// Echo, with a bare newline when the special path asks for one, then queue with `PARMRK` doubling
fn accept(state: &mut State, c: u8, raw_newline: bool, out: &mut InputResult)
    requires
        old(state)@.wf(),
    ensures
        (final(state)@, final(out)@) == old(state)@.accept(old(out)@, c, raw_newline),
        final(state)@.wf(),
        final(state)@.termios == old(state)@.termios,
        final(state)@.tco_stopped == old(state)@.tco_stopped,
        placed(old(out)@) ==> placed(final(out)@),
{
    if state.lflag(Termios::ECHO) {
        echo::finish_erasing(state);
        if raw_newline && c == 10 {
            echo::raw(state, 10);
        } else {
            echo::set_canon_column(state);
            echo::visible(state, c);
        }
    }
    if c == 0xff && state.iflag(Termios::PARMRK) {
        queue(state, c, out);
    }
    queue(state, c, out);
}

/// Adds a byte to the line under edit, or hands it to the program outside canonical mode
fn queue(state: &mut State, c: u8, out: &mut InputResult)
    requires
        old(state)@.wf(),
    ensures
        (final(state)@, final(out)@) == old(state)@.queue(old(out)@, c),
        final(state)@.wf(),
        final(state)@.termios == old(state)@.termios,
        final(state)@.tco_stopped == old(state)@.tco_stopped,
        placed(old(out)@) ==> placed(final(out)@),
{
    if state.lflag(Termios::ICANON) && !state.lflag(Termios::EXTPROC) {
        state.push_line(c);
    } else {
        out.to_replica.push(c);
        proof {
            if placed(old(out)@) {
                assert forall|i: int| 0 <= i < out@.events.len() implies #[trigger] out@.events[i].offset()
                    <= out@.to_replica.len() by {
                    assert(old(out)@.events[i].offset() <= old(out)@.to_replica.len());
                }
            }
        }
    }
}

} // verus!
