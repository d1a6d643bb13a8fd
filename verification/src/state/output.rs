//! What the program writes, post-processed for the terminal
use vstd::prelude::*;

use super::echo;
use super::model::{Cursor, Discipline};
use super::State;
use crate::ctype::{is_cntrl, to_upper};
use crate::result::OutputResult;
use crate::termios::Termios;

verus! {

/// `n_tty_write`: pending echo first, then the bytes through `OPOST`, none while `VSTOP` holds output
pub fn write(state: &mut State, bytes: &[u8]) -> (out: OutputResult)
    requires
        old(state)@.wf(),
    ensures
        (final(state)@, out.consumed, out.to_master@) == old(state)@.output(bytes@),
        final(state)@.wf(),
{
    let mut out = OutputResult { consumed: 0, to_master: Vec::new() };
    echo::release(state, &mut out.to_master);
    if state.stopped {
        return out;
    }
    let ghost d = state@;
    let ghost m = out.to_master@;
    if state.oflag(Termios::OPOST) {
        let termios = state.termios;
        let mut i: usize = 0;
        while i < bytes.len()
            invariant
                d.wf(),
                !d.stopped,
                termios == d.termios,
                i <= bytes@.len(),
                state@ == (Discipline { cursor: state@.cursor, ..d }),
                (state@.cursor, out.to_master@) == d.cursor.wrote_all(termios, m, bytes@.take(i as int)),
            decreases bytes@.len() - i,
        {
            assert(bytes@.take(i + 1).drop_last() =~= bytes@.take(i as int));
            state.cursor.write(&termios, bytes[i], &mut out.to_master);
            i = i + 1;
        }
        assert(bytes@.take(bytes@.len() as int) =~= bytes@);
    } else {
        let mut i: usize = 0;
        while i < bytes.len()
            invariant
                i <= bytes@.len(),
                out.to_master@ == m + bytes@.take(i as int),
            decreases bytes@.len() - i,
        {
            out.to_master.push(bytes[i]);
            i = i + 1;
            assert(out.to_master@ =~= m + bytes@.take(i as int));
        }
        assert(bytes@.take(bytes@.len() as int) =~= bytes@);
    }
    out.consumed = bytes.len();
    out
}

impl Cursor {
    /// `do_output_char`: one byte through the output flags, tracking the column it leaves
    pub fn write(&mut self, termios: &Termios, c: u8, out: &mut Vec<u8>)
        ensures
            *final(self) == old(self).wrote(*termios, c).0,
            final(out)@ == old(out)@ + old(self).wrote(*termios, c).1,
    {
        if c == 10 {
            self.newline(termios, out);
        } else if c == 13 {
            self.carriage_return(termios, out);
        } else if c == 9 {
            self.tab(termios, out);
        } else if c == 8 {
            self.column = self.column.saturating_sub(1);
            out.push(c);
            assert(out@ =~= old(out)@ + seq![8u8]);
        } else {
            self.plain(termios, c, out);
        }
    }

    /// A newline, with a carriage return first under `ONLCR`, and the column reset under `ONLRET`
    fn newline(&mut self, termios: &Termios, out: &mut Vec<u8>)
        ensures
            *final(self) == old(self).wrote(*termios, 10).0,
            final(out)@ == old(out)@ + old(self).wrote(*termios, 10).1,
    {
        if termios.output_flags & Termios::ONLRET != 0 {
            self.column = 0;
        }
        if termios.output_flags & Termios::ONLCR != 0 {
            self.column = 0;
            self.canon_column = 0;
            out.push(13);
            out.push(10);
            assert(out@ =~= old(out)@ + seq![13u8, 10]);
            return;
        }
        self.canon_column = self.column;
        out.push(10);
        assert(out@ =~= old(out)@ + seq![10u8]);
    }

    /// A carriage return, dropped at column zero under `ONOCR` and turned into a newline under `OCRNL`
    fn carriage_return(&mut self, termios: &Termios, out: &mut Vec<u8>)
        ensures
            *final(self) == old(self).wrote(*termios, 13).0,
            final(out)@ == old(out)@ + old(self).wrote(*termios, 13).1,
    {
        if termios.output_flags & Termios::ONOCR != 0 && self.column == 0 {
            assert(out@ =~= old(out)@ + Seq::<u8>::empty());
            return;
        }
        if termios.output_flags & Termios::OCRNL != 0 {
            if termios.output_flags & Termios::ONLRET != 0 {
                self.column = 0;
                self.canon_column = 0;
            }
            out.push(10);
            assert(out@ =~= old(out)@ + seq![10u8]);
            return;
        }
        self.column = 0;
        self.canon_column = 0;
        out.push(13);
        assert(out@ =~= old(out)@ + seq![13u8]);
    }

    /// A tab moves to the next stop, as spaces under `XTABS`
    fn tab(&mut self, termios: &Termios, out: &mut Vec<u8>)
        ensures
            *final(self) == old(self).wrote(*termios, 9).0,
            final(out)@ == old(out)@ + old(self).wrote(*termios, 9).1,
    {
        let column = self.column;
        assert(column & 7 <= 7) by (bit_vector);
        let spaces = 8 - (self.column & 7);
        self.column = self.column.saturating_add(spaces);
        if termios.output_flags & Termios::TABDLY == Termios::XTABS {
            let mut i: usize = 0;
            while i < spaces
                invariant
                    i <= spaces,
                    out@ == old(out)@ + Seq::new(i as nat, |k: int| 32u8),
                decreases spaces - i,
            {
                out.push(32);
                i = i + 1;
                assert(out@ =~= old(out)@ + Seq::new(i as nat, |k: int| 32u8));
            }
        } else {
            out.push(9);
            assert(out@ =~= old(out)@ + seq![9u8]);
        }
    }

    /// A printing byte advances the column unless it continues a UTF-8 sequence, and `OLCUC` uppercases it
    fn plain(&mut self, termios: &Termios, c: u8, out: &mut Vec<u8>)
        requires
            c != 10 && c != 13 && c != 9 && c != 8,
        ensures
            *final(self) == old(self).wrote(*termios, c).0,
            final(out)@ == old(out)@ + old(self).wrote(*termios, c).1,
    {
        let mut c = c;
        if !is_cntrl(c) {
            if termios.output_flags & Termios::OLCUC != 0 {
                c = to_upper(c);
            }
            if !super::is_continuation(termios, c) {
                self.column = self.column.saturating_add(1);
            }
        }
        out.push(c);
        assert(out@ =~= old(out)@ + seq![c]);
    }
}

} // verus!
