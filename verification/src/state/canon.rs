//! The canonical line: editing, literal next, reprint and the line ends
use vstd::prelude::*;

use super::echo;
use super::model::{continues, last_start, placed, tab_scan, word_char, Discipline, LINE_MAX};
use super::State;
use crate::ctype::{is_alnum, is_cntrl};
use crate::result::InputResult;
use crate::termios::Termios;

verus! {

/// What the canonical rules did with a byte
#[derive(Clone, Copy, PartialEq, Eq, Structural)]
pub enum Outcome {
    /// The byte edited or ended the line
    Handled,
    /// The byte was an end of file on an empty line
    Eof,
    /// The byte is ordinary input
    Plain,
}

/// How much one kill character removes
#[derive(Clone, Copy, PartialEq, Eq, Structural)]
pub enum Kill {
    /// `VERASE`: the last character
    Char,
    /// `VWERASE`: the trailing separators and then one word
    Word,
    /// `VKILL`: the line
    Line,
}

/// `n_tty_receive_char_canon`: editing, literal next and reprint, then the line ends
pub fn receive(state: &mut State, c: u8, out: &mut InputResult) -> (r: Outcome)
    requires
        old(state)@.wf(),
    ensures
        r == old(state)@.canon_outcome(c),
        (final(state)@, final(out)@) == old(state)@.canon(old(out)@, c),
        final(state)@.wf(),
        final(state)@.termios == old(state)@.termios,
        final(state)@.tco_stopped == old(state)@.tco_stopped,
        placed(old(out)@) ==> placed(final(out)@),
{
    let iexten = state.lflag(Termios::IEXTEN);
    if is_erase(state, c) {
        eraser(state, c);
    } else if iexten && c == state.cc(Termios::VLNEXT) {
        literal_next(state);
    } else if iexten && state.lflag(Termios::ECHO) && c == state.cc(Termios::VREPRINT) {
        reprint(state, c);
    } else {
        return line_end(state, c, out);
    }
    Outcome::Handled
}

/// `VERASE`, `VKILL`, and `VWERASE` under `IEXTEN`
fn is_erase(state: &State, c: u8) -> (r: bool)
    ensures
        r == state@.is_erase(c),
{
    c == state.cc(Termios::VERASE) || c == state.cc(Termios::VKILL) || (state.lflag(
        Termios::IEXTEN,
    ) && c == state.cc(Termios::VWERASE))
}

/// A newline, an end of file, or a `VEOL` or `VEOL2` byte ends the line
fn line_end(state: &mut State, c: u8, out: &mut InputResult) -> (r: Outcome)
    requires
        old(state)@.wf(),
        !old(state)@.is_edit(c),
    ensures
        r == old(state)@.canon_outcome(c),
        (final(state)@, final(out)@) == old(state)@.canon(old(out)@, c),
        final(state)@.wf(),
        final(state)@.termios == old(state)@.termios,
        final(state)@.tco_stopped == old(state)@.tco_stopped,
        placed(old(out)@) ==> placed(final(out)@),
{
    let iexten = state.lflag(Termios::IEXTEN);
    if c == 10 {
        if state.lflag(Termios::ECHO) || state.lflag(Termios::ECHONL) {
            echo::raw(state, 10);
        }
        complete(state, Some(10), out);
    } else if c == state.cc(Termios::VEOF) {
        if state.line.len() == 0 {
            return Outcome::Eof;
        }
        complete(state, None, out);
    } else if c == state.cc(Termios::VEOL) || (iexten && c == state.cc(Termios::VEOL2)) {
        end_of_line(state, c, out);
    } else {
        return Outcome::Plain;
    }
    Outcome::Handled
}

/// A `VEOL` or `VEOL2` byte is echoed, doubled under `PARMRK` and ends the line
fn end_of_line(state: &mut State, c: u8, out: &mut InputResult)
    requires
        old(state)@.wf(),
    ensures
        (final(state)@, final(out)@) == old(state)@.end_of_line(old(out)@, c),
        final(state)@.wf(),
        final(state)@.termios == old(state)@.termios,
        final(state)@.tco_stopped == old(state)@.tco_stopped,
        placed(old(out)@) ==> placed(final(out)@),
{
    if state.lflag(Termios::ECHO) {
        echo::set_canon_column(state);
        echo::visible(state, c);
    }
    if c == 0xff && state.iflag(Termios::PARMRK) {
        state.push_line(c);
    }
    complete(state, Some(c), out);
}

/// Hands the line to the program, with its terminator unless an end of file ended it
fn complete(state: &mut State, terminator: Option<u8>, out: &mut InputResult)
    requires
        old(state)@.wf(),
    ensures
        (final(state)@, final(out)@) == old(state)@.complete(old(out)@, terminator),
        final(state)@.wf(),
        final(state)@.termios == old(state)@.termios,
        final(state)@.tco_stopped == old(state)@.tco_stopped,
        placed(old(out)@) ==> placed(final(out)@),
{
    out.to_replica.append(&mut state.line);
    if let Some(t) = terminator {
        out.to_replica.push(t);
    }
    assert(state@.line =~= Seq::<u8>::empty());
    assert(out@.to_replica =~= old(state)@.complete(old(out)@, terminator).1.to_replica);
}

/// `VLNEXT` takes the next byte literally and shows `^` with a backspace over it
fn literal_next(state: &mut State)
    requires
        old(state)@.wf(),
    ensures
        final(state)@ == old(state)@.literal_next(),
        final(state)@.wf(),
        final(state)@.termios == old(state)@.termios,
        final(state)@.tco_stopped == old(state)@.tco_stopped,
{
    state.lnext = true;
    if !state.lflag(Termios::ECHO) {
        return;
    }
    echo::finish_erasing(state);
    if state.lflag(Termios::ECHOCTL) {
        echo::raw(state, 0x5e);
        echo::raw(state, 8);
    }
}

/// `VREPRINT` echoes itself, a newline and the line under edit
fn reprint(state: &mut State, c: u8)
    requires
        old(state)@.wf(),
    ensures
        final(state)@ == old(state)@.reprint(c),
        final(state)@.wf(),
        final(state)@.termios == old(state)@.termios,
        final(state)@.tco_stopped == old(state)@.tco_stopped,
{
    echo::finish_erasing(state);
    echo::visible(state, c);
    echo::raw(state, 10);
    let ghost start = state@;
    let ghost line = old(state)@.line;
    let mut index: usize = 0;
    while index < state.line.len()
        invariant
            state@.wf(),
            state@.line == line,
            start.line == line,
            state@.termios == old(state)@.termios,
            state@.tco_stopped == old(state)@.tco_stopped,
            index <= line.len(),
            state@ == start.visible_all(line.take(index as int)),
        decreases line.len() - index,
    {
        assert(line.take(index + 1).drop_last() =~= line.take(index as int));
        let byte = state.line[index];
        echo::visible(state, byte);
        index = index + 1;
    }
    assert(line.take(line.len() as int) =~= line);
}

/// `eraser`: remove one character, one word or the line, echoing the way the flags ask
fn eraser(state: &mut State, c: u8)
    requires
        old(state)@.wf(),
    ensures
        final(state)@ == old(state)@.eraser(c),
        final(state)@.wf(),
        final(state)@.termios == old(state)@.termios,
        final(state)@.tco_stopped == old(state)@.tco_stopped,
{
    if state.line.len() == 0 {
        return;
    }
    let kind = if c == state.cc(Termios::VERASE) {
        Kill::Char
    } else if c == state.cc(Termios::VWERASE) {
        Kill::Word
    } else {
        Kill::Line
    };
    if kind == Kill::Line && !erases_line_visibly(state) {
        kill_line(state);
        return;
    }
    erase_run(state, kind);
    if state.line.len() == 0 && state.lflag(Termios::ECHO) {
        echo::finish_erasing(state);
    }
}

/// Erases from the end of the line as far as the kind allows, one character at a time
fn erase_run(state: &mut State, kind: Kill)
    requires
        old(state)@.wf(),
    ensures
        final(state)@ == old(state)@.erase_run(kind, false),
        final(state)@.termios == old(state)@.termios,
        final(state)@.wf(),
        final(state)@.termios == old(state)@.termios,
        final(state)@.tco_stopped == old(state)@.tco_stopped,
{
    let ghost goal = old(state)@.erase_run(kind, false);
    let mut seen_alnum = false;
    loop
        invariant_except_break
            state@.wf(),
            goal == state@.erase_run(kind, seen_alnum),
            kind != Kill::Word ==> !seen_alnum,
            state@.termios == old(state)@.termios,
            state@.tco_stopped == old(state)@.tco_stopped,
        ensures
            state@.wf(),
            state@ == goal,
            state@.termios == old(state)@.termios,
            state@.tco_stopped == old(state)@.tco_stopped,
        decreases state@.line.len(),
    {
        let found = last_char_start(state);
        proof {
            super::model::lemma_last_start(state@.termios, state@.line);
        }
        match found {
            None => {
                break;
            },
            Some(head) => {
                let c = state.line[head];
                if kind == Kill::Word && !within_word(c, &mut seen_alnum) {
                    break;
                }
                erase_char(state, head, c, kind);
                if kind == Kill::Char {
                    break;
                }
            },
        }
    }
}

/// `ECHOK`, `ECHOKE` and `ECHOE` together erase a killed line from the display
fn erases_line_visibly(state: &State) -> (r: bool)
    ensures
        r == state@.erases_line_visibly(),
{
    state.lflag(Termios::ECHO) && state.lflag(Termios::ECHOK) && state.lflag(Termios::ECHOKE)
        && state.lflag(Termios::ECHOE)
}

/// A kill the display cannot undo: drop the line and echo the kill character, with a newline under `ECHOK`
fn kill_line(state: &mut State)
    requires
        old(state)@.wf(),
    ensures
        final(state)@ == old(state)@.kill_line(),
        final(state)@.wf(),
        final(state)@.termios == old(state)@.termios,
        final(state)@.tco_stopped == old(state)@.tco_stopped,
{
    state.line.clear();
    if !state.lflag(Termios::ECHO) {
        return;
    }
    echo::finish_erasing(state);
    let kill = state.cc(Termios::VKILL);
    echo::visible(state, kill);
    if state.lflag(Termios::ECHOK) {
        echo::raw(state, 10);
    }
}

/// Where the last character starts, none when the line is empty or holds only continuation bytes
fn last_char_start(state: &State) -> (r: Option<usize>)
    ensures
        match r {
            Some(head) => last_start(state@.termios, state@.line) == Some(head as int),
            None => last_start(state@.termios, state@.line) is None,
        },
{
    let ghost line = state@.line;
    let mut i = state.line.len();
    assert(line.take(i as int) =~= line);
    while i > 0
        invariant
            i <= line.len(),
            line == state@.line,
            last_start(state@.termios, line) == last_start(state@.termios, line.take(i as int)),
        decreases i,
    {
        assert(line.take(i as int).drop_last() =~= line.take(i - 1));
        if !state.is_continuation(state.line[i - 1]) {
            return Some(i - 1);
        }
        i = i - 1;
    }
    None
}

/// `VWERASE` erases through the trailing separators and then one run of word characters
fn within_word(c: u8, seen_alnum: &mut bool) -> (r: bool)
    ensures
        r == (word_char(c) || !*old(seen_alnum)),
        *final(seen_alnum) == (*old(seen_alnum) || word_char(c)),
{
    if is_alnum(c) || c == 0x5f {
        *seen_alnum = true;
        true
    } else {
        !*seen_alnum
    }
}

/// Echoes one erased character and drops it from the line
fn erase_char(state: &mut State, head: usize, c: u8, kind: Kill)
    requires
        old(state)@.wf(),
        head < old(state)@.line.len(),
    ensures
        final(state)@ == old(state)@.erase_char(head as int, c, kind),
        final(state)@.termios == old(state)@.termios,
        final(state)@.wf(),
        final(state)@.termios == old(state)@.termios,
        final(state)@.tco_stopped == old(state)@.tco_stopped,
{
    if state.lflag(Termios::ECHO) {
        if state.lflag(Termios::ECHOPRT) {
            echo_printed(state, head, c);
        } else if kind == Kill::Char && !state.lflag(Termios::ECHOE) {
            let erase = state.cc(Termios::VERASE);
            echo::visible(state, erase);
        } else if c == 9 {
            erase_tab(state, head);
        } else {
            erase_visible(state, c);
        }
    }
    state.line.truncate(head);
}

/// `ECHOPRT`: print the erased character between a backslash and the slash that ends the run
fn echo_printed(state: &mut State, head: usize, c: u8)
    requires
        old(state)@.wf(),
        head < old(state)@.line.len(),
    ensures
        final(state)@ == old(state)@.echo_printed(head as int, c),
        final(state)@.line == old(state)@.line,
        final(state)@.termios == old(state)@.termios,
        final(state)@.wf(),
        final(state)@.termios == old(state)@.termios,
        final(state)@.tco_stopped == old(state)@.tco_stopped,
{
    if !state.erasing {
        echo::raw(state, 0x5c);
        state.erasing = true;
    }
    echo::visible(state, c);
    let ghost start = state@;
    let ghost line = old(state)@.line;
    let mut index = head + 1;
    while index < state.line.len()
        invariant
            state@.wf(),
            state@.line == line,
            state@.termios == old(state)@.termios,
            state@.tco_stopped == old(state)@.tco_stopped,
            head < index <= line.len(),
            state@ == start.printed_tail(line.subrange(head + 1, index as int)),
        decreases line.len() - index,
    {
        assert(line.subrange(head + 1, index + 1).drop_last() =~= line.subrange(
            head + 1,
            index as int,
        ));
        let byte = state.line[index];
        echo::raw(state, byte);
        echo::move_back_column(state);
        index = index + 1;
    }
}

/// Backs up over a tab by the columns the line used since the previous tab or its start
fn erase_tab(state: &mut State, head: usize)
    requires
        old(state)@.wf(),
        head <= old(state)@.line.len(),
    ensures
        final(state)@ == ({
            let (columns, after_tab) = tab_scan(old(state)@.termios, old(state)@.line, head as int, 0);
            old(state)@.erase_tab_op(columns, after_tab)
        }),
        final(state)@.wf(),
        final(state)@.termios == old(state)@.termios,
        final(state)@.tco_stopped == old(state)@.tco_stopped,
{
    let ghost goal = tab_scan(state@.termios, state@.line, head as int, 0);
    let mut columns: usize = 0;
    let mut after_tab = false;
    let mut i = head;
    while i > 0
        invariant_except_break
            i <= head,
            head <= state@.line.len(),
            !after_tab,
            goal == tab_scan(state@.termios, state@.line, i as int, columns),
        ensures
            goal == (columns, after_tab),
        decreases i,
    {
        let byte = state.line[i - 1];
        if byte == 9 {
            after_tab = true;
            break;
        }
        if is_cntrl(byte) {
            if state.lflag(Termios::ECHOCTL) {
                columns = columns.saturating_add(2);
            }
        } else if !state.is_continuation(byte) {
            columns = columns.saturating_add(1);
        }
        i = i - 1;
    }
    echo::erase_tab(state, columns, after_tab);
}

/// Rubs out one display cell, or two for a control character shown as `^X`
fn erase_visible(state: &mut State, c: u8)
    requires
        old(state)@.wf(),
    ensures
        final(state)@ == old(state)@.erase_visible(c),
        final(state)@.wf(),
        final(state)@.termios == old(state)@.termios,
        final(state)@.tco_stopped == old(state)@.tco_stopped,
{
    let echoctl = state.lflag(Termios::ECHOCTL);
    if is_cntrl(c) && echoctl {
        rubout(state);
    }
    if !is_cntrl(c) || echoctl {
        rubout(state);
    }
}

/// Backspace, space, backspace
fn rubout(state: &mut State)
    requires
        old(state)@.wf(),
    ensures
        final(state)@ == old(state)@.with_echo(seq![8u8, 32, 8]),
        final(state)@.wf(),
        final(state)@.termios == old(state)@.termios,
        final(state)@.tco_stopped == old(state)@.tco_stopped,
{
    echo::raw(state, 8);
    echo::raw(state, 32);
    echo::raw(state, 8);
    assert(state@.echo =~= old(state)@.echo + seq![8u8, 32, 8]);
}

} // verus!
