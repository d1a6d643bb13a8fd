//! The echo buffer: echo is recorded in the kernel's operation format and written out on the
//! kernel's schedule
use vstd::prelude::*;

use super::model::{boundary, discard_from, op_len, reaches, Cursor, Discipline, COMMIT_WATERMARK, DISCARD_WATERMARK, ERASE_TAB, MOVE_BACK_COL, SET_CANON_COL, START};
use super::State;
use crate::ctype::is_cntrl;
use crate::termios::Termios;

verus! {

/// Stepping from `a` to `b` and on to `c` steps from `a` to `c`
pub(crate) proof fn lemma_reaches_trans(echo: Seq<u8>, a: int, b: int, c: int)
    requires
        reaches(echo, a, b),
        reaches(echo, b, c),
    ensures
        reaches(echo, a, c),
    decreases b - a,
{
    if a < b {
        lemma_reaches_trans(echo, a + op_len(echo, a), b, c);
    }
}

/// Stepping from `a` passes every boundary `b` it reaches on its way to `c`
pub(crate) proof fn lemma_reaches_split(echo: Seq<u8>, a: int, b: int, c: int)
    requires
        reaches(echo, a, c),
        reaches(echo, a, b),
        b <= c,
    ensures
        reaches(echo, b, c),
    decreases b - a,
{
    if a < b {
        lemma_reaches_split(echo, a + op_len(echo, a), b, c);
    }
}

/// Bytes appended after `b` leave the steps up to `b` alone
pub(crate) proof fn lemma_reaches_append(echo: Seq<u8>, more: Seq<u8>, a: int, b: int)
    requires
        reaches(echo, a, b),
        0 <= a,
        b <= echo.len(),
    ensures
        reaches(echo + more, a, b),
    decreases b - a,
{
    if a < b {
        assert((echo + more)[a] == echo[a]);
        if echo[a] == START {
            assert((echo + more)[a + 1] == echo[a + 1]);
        }
        lemma_reaches_append(echo, more, a + op_len(echo, a), b);
    }
}

/// Dropping the operations before `k` keeps the steps after it
pub(crate) proof fn lemma_reaches_skip(echo: Seq<u8>, k: int, a: int, b: int)
    requires
        reaches(echo, a, b),
        0 <= k <= a,
        b <= echo.len(),
    ensures
        reaches(echo.skip(k), a - k, b - k),
    decreases b - a,
{
    if a < b {
        assert(echo.skip(k)[a - k] == echo[a]);
        if echo[a] == START {
            assert(echo.skip(k)[a - k + 1] == echo[a + 1]);
        }
        lemma_reaches_skip(echo, k, a + op_len(echo, a), b);
    }
}

/// Between two boundaries lie whole operations
pub(crate) proof fn lemma_between(echo: Seq<u8>, a: int, b: int)
    requires
        boundary(echo, a),
        boundary(echo, b),
        a <= b,
    ensures
        reaches(echo, a, b),
{
    lemma_reaches_split(echo, 0, a, b);
}

/// A whole operation appended keeps every boundary and ends on a new one
pub(crate) proof fn lemma_push_op(echo: Seq<u8>, op: Seq<u8>, commit: int, mark: int)
    requires
        boundary(echo, echo.len() as int),
        boundary(echo, commit),
        boundary(echo, mark),
        op_len(echo + op, echo.len() as int) == op.len(),
    ensures
        boundary(echo + op, (echo + op).len() as int),
        boundary(echo + op, commit),
        boundary(echo + op, mark),
{
    let n = echo.len() as int;
    lemma_reaches_append(echo, op, 0, n);
    lemma_reaches_append(echo, op, 0, commit);
    lemma_reaches_append(echo, op, 0, mark);
    assert(reaches(echo + op, n + op.len(), n + op.len()));
    assert(reaches(echo + op, n, n + op.len()));
    lemma_reaches_trans(echo + op, 0, n, n + op.len());
}

/// The drained buffer keeps its boundaries past `tail`
pub(crate) proof fn lemma_drain(echo: Seq<u8>, tail: int, b: int)
    requires
        boundary(echo, tail),
        boundary(echo, b),
        tail <= b,
    ensures
        boundary(echo.skip(tail), b - tail),
{
    lemma_between(echo, tail, b);
    lemma_reaches_skip(echo, tail, tail, b);
}

impl State {
    /// One byte that is not the operation byte appended to the echo buffer
    fn echo_byte(&mut self, c: u8)
        requires
            old(self)@.wf(),
            c != START,
        ensures
            final(self)@ == old(self)@.with_echo(seq![c]),
            final(self)@.wf(),
    {
        proof {
            let d = self@;
            lemma_push_op(d.echo, seq![c], d.echo_commit as int, d.echo_mark as int);
        }
        self.echo.push(c);
        assert(self@.echo =~= old(self)@.echo + seq![c]);
    }

    /// A two-byte operation appended to the echo buffer
    fn echo_pair(&mut self, op: u8)
        requires
            old(self)@.wf(),
            op != ERASE_TAB,
        ensures
            final(self)@ == old(self)@.with_echo(seq![START, op]),
            final(self)@.wf(),
    {
        proof {
            let d = self@;
            let both = seq![START, op];
            assert((d.echo + both)[d.echo.len() as int] == START);
            assert((d.echo + both)[d.echo.len() as int + 1] == op);
            lemma_push_op(d.echo, both, d.echo_commit as int, d.echo_mark as int);
        }
        self.echo.push(START);
        self.echo.push(op);
        assert(self@.echo =~= old(self)@.echo + seq![START, op]);
    }

    /// An erased tab's three-byte operation appended to the echo buffer
    fn echo_triple(&mut self, count: u8)
        requires
            old(self)@.wf(),
        ensures
            final(self)@ == old(self)@.with_echo(seq![START, ERASE_TAB, count]),
            final(self)@.wf(),
    {
        proof {
            let d = self@;
            let all = seq![START, ERASE_TAB, count];
            assert((d.echo + all)[d.echo.len() as int] == START);
            assert((d.echo + all)[d.echo.len() as int + 1] == ERASE_TAB);
            lemma_push_op(d.echo, all, d.echo_commit as int, d.echo_mark as int);
        }
        self.echo.push(START);
        self.echo.push(ERASE_TAB);
        self.echo.push(count);
        assert(self@.echo =~= old(self)@.echo + seq![START, ERASE_TAB, count]);
    }
}

/// `echo_char`: a control character under `ECHOCTL` is tagged to show as `^X` when written out
pub fn visible(state: &mut State, c: u8)
    requires
        old(state)@.wf(),
    ensures
        final(state)@ == old(state)@.visible(c),
        final(state)@.wf(),
{
    if c != START && state.lflag(Termios::ECHOCTL) && is_cntrl(c) && c != 9 {
        state.echo_pair(c);
    } else {
        raw(state, c);
    }
}

/// `echo_char_raw`: one byte as is, with the operation byte escaped
pub fn raw(state: &mut State, c: u8)
    requires
        old(state)@.wf(),
    ensures
        final(state)@ == old(state)@.raw(c),
        final(state)@.wf(),
{
    if c == START {
        state.echo_pair(START);
    } else {
        state.echo_byte(c);
    }
}

/// Ends an `ECHOPRT` run with the closing slash
pub fn finish_erasing(state: &mut State)
    requires
        old(state)@.wf(),
    ensures
        final(state)@ == old(state)@.finish_erasing(),
        final(state)@.wf(),
{
    if state.erasing {
        raw(state, 0x2f);
        state.erasing = false;
    }
}

/// `echo_set_canon_col` before a line's first byte, recorded when the echo is written out
pub fn set_canon_column(state: &mut State)
    requires
        old(state)@.wf(),
    ensures
        final(state)@ == old(state)@.set_canon_column(),
        final(state)@.wf(),
{
    if state.line.len() == 0 {
        state.echo_pair(SET_CANON_COL);
    }
}

/// `echo_move_back_col`
pub fn move_back_column(state: &mut State)
    requires
        old(state)@.wf(),
    ensures
        final(state)@ == old(state)@.move_back_column(),
        final(state)@.wf(),
{
    state.echo_pair(MOVE_BACK_COL);
}

/// `echo_erase_tab`: the columns used since the line start or the previous tab, modulo 8
pub fn erase_tab(state: &mut State, columns: usize, after_tab: bool)
    requires
        old(state)@.wf(),
    ensures
        final(state)@ == old(state)@.erase_tab_op(columns, after_tab),
        final(state)@.wf(),
{
    assert(columns & 7 <= 7) by (bit_vector);
    let mut count = (columns & 7) as u8;
    if after_tab {
        count = count | 0x80;
    }
    state.echo_triple(count);
}

/// How far into its 256 byte block a length reaches, the kernel's `% ECHO_BLOCK`
fn within_block(length: usize) -> (r: usize)
    ensures
        r == length & 255,
{
    length & 255
}

/// `commit_echoes`: marks the echo so far and writes it out once another block of 256 bytes waits
pub fn commit(state: &mut State, to_master: &mut Vec<u8>)
    requires
        old(state)@.wf(),
    ensures
        (final(state)@, final(to_master)@) == old(state)@.commit(old(to_master)@),
        final(state)@.wf(),
{
    let head = state.echo.len();
    state.echo_mark = head;
    let old = state.echo_commit;
    if head < COMMIT_WATERMARK || within_block(head) > within_block(old) {
        return;
    }
    state.echo_commit = head;
    process(state, to_master);
}

/// `process_echoes`: writes out the echo marked so far, which a restart or a program write releases
pub fn release(state: &mut State, to_master: &mut Vec<u8>)
    requires
        old(state)@.wf(),
    ensures
        (final(state)@, final(to_master)@) == old(state)@.release(old(to_master)@),
        final(state)@.wf(),
{
    if state.echo_mark == 0 {
        return;
    }
    state.echo_commit = state.echo_mark;
    process(state, to_master);
}

/// `flush_echoes`: writes out every echo byte at the end of an input call
pub fn flush(state: &mut State, to_master: &mut Vec<u8>)
    requires
        old(state)@.wf(),
    ensures
        (final(state)@, final(to_master)@) == old(state)@.flush_echo(old(to_master)@),
        final(state)@.wf(),
        (old(state)@.lflag(Termios::ECHO) || old(state)@.lflag(Termios::ECHONL))
            ==> final(state)@.echo_commit == final(state)@.echo.len(),
{
    let head = state.echo.len();
    let silent = !state.lflag(Termios::ECHO) && !state.lflag(Termios::ECHONL);
    if silent || state.echo_commit == head {
        return;
    }
    state.echo_commit = head;
    process(state, to_master);
}

/// The echo buffer reset `isig` performs
pub fn clear(state: &mut State)
    requires
        old(state)@.wf(),
    ensures
        final(state)@ == (Discipline { echo: Seq::empty(), echo_commit: 0, echo_mark: 0, ..old(state)@ }),
        final(state)@.wf(),
{
    state.echo.clear();
    state.echo_commit = 0;
    state.echo_mark = 0;
}

/// `__process_echoes`: writes out the committed echo unless output is held, then discards past the watermark
fn process(state: &mut State, to_master: &mut Vec<u8>)
    requires
        old(state)@.wf_base(),
    ensures
        (final(state)@, final(to_master)@) == old(state)@.process(old(to_master)@),
        final(state)@.wf(),
        old(state)@.echo_commit == old(state)@.echo.len() ==> final(state)@.echo_commit
            == final(state)@.echo.len(),
{
    let ghost d = state@;
    let mut tail: usize = 0;
    if !state.stopped {
        while tail < state.echo_commit
            invariant
                state@ == (Discipline { cursor: state@.cursor, ..d }),
                d.wf_base(),
                boundary(d.echo, tail as int),
                tail <= d.echo_commit,
                d.cursor.render_from(d.termios, d.echo, d.echo_commit as int, old(to_master)@, 0)
                    == state@.cursor.render_from(
                    d.termios,
                    d.echo,
                    d.echo_commit as int,
                    to_master@,
                    tail as int,
                ),
            decreases d.echo_commit - tail,
        {
            proof {
                lemma_between(d.echo, tail as int, d.echo_commit as int);
            }
            let next = render(state, tail, to_master);
            proof {
                assert(reaches(d.echo, next as int, next as int));
                lemma_reaches_trans(d.echo, 0, tail as int, next as int);
            }
            tail = next;
        }
    }
    let ghost rendered = tail;
    while state.echo_commit - tail > DISCARD_WATERMARK
        invariant
            state@ == (Discipline { cursor: state@.cursor, ..d }),
            d.wf_base(),
            boundary(d.echo, tail as int),
            tail <= d.echo_commit,
            discard_from(d.echo, d.echo_commit as int, rendered as int) == discard_from(
                d.echo,
                d.echo_commit as int,
                tail as int,
            ),
        decreases d.echo_commit - tail,
    {
        proof {
            lemma_between(d.echo, tail as int, d.echo_commit as int);
        }
        let next = skip(state, tail);
        proof {
            assert(reaches(d.echo, next as int, next as int));
            lemma_reaches_trans(d.echo, 0, tail as int, next as int);
        }
        tail = next;
    }
    proof {
        lemma_drain(d.echo, tail as int, d.echo.len() as int);
        lemma_drain(d.echo, tail as int, d.echo_commit as int);
        if d.echo_mark >= tail {
            lemma_drain(d.echo, tail as int, d.echo_mark as int);
        }
        assert(boundary(d.echo.skip(tail as int), 0));
    }
    let rest = state.echo.split_off(tail);
    state.echo = rest;
    state.echo_commit = state.echo_commit - tail;
    state.echo_mark = state.echo_mark.saturating_sub(tail);
    assert(state@.echo =~= d.echo.skip(tail as int));
}

/// Writes out the byte or operation at `tail` and returns where the next one starts
fn render(state: &mut State, tail: usize, to_master: &mut Vec<u8>) -> (next: usize)
    requires
        old(state)@.wf_base(),
        tail < old(state)@.echo_commit,
        reaches(old(state)@.echo, tail as int, old(state)@.echo_commit as int),
    ensures
        final(state)@ == (Discipline { cursor: final(state)@.cursor, ..old(state)@ }),
        next == tail + op_len(old(state)@.echo, tail as int),
        next <= old(state)@.echo_commit,
        reaches(old(state)@.echo, next as int, old(state)@.echo_commit as int),
        (final(state)@.cursor, final(to_master)@) == ({
            let (cursor, shown) = old(state)@.cursor.rendered(
                old(state)@.termios,
                old(state)@.echo,
                tail as int,
            );
            (cursor, old(to_master)@ + shown)
        }),
{
    let c = state.echo[tail];
    if c != START {
        if state.oflag(Termios::OPOST) {
            let termios = state.termios;
            state.cursor.write(&termios, c, to_master);
        } else {
            to_master.push(c);
        }
        return tail + 1;
    }
    let op = state.echo[tail + 1];
    if op == ERASE_TAB {
        erase_tab_columns(state, tail, to_master);
        tail + 3
    } else if op == SET_CANON_COL {
        state.cursor.canon_column = state.cursor.column;
        tail + 2
    } else if op == MOVE_BACK_COL {
        state.cursor.column = state.cursor.column.saturating_sub(1);
        tail + 2
    } else if op == START {
        to_master.push(START);
        state.cursor.column = state.cursor.column.saturating_add(1);
        tail + 2
    } else {
        to_master.push(0x5e);
        to_master.push(op ^ 0x40);
        state.cursor.column = state.cursor.column.saturating_add(2);
        tail + 2
    }
}

/// `ECHO_OP_ERASE_TAB`: backspaces to the tab stop the erased tab left
fn erase_tab_columns(state: &mut State, tail: usize, to_master: &mut Vec<u8>)
    requires
        tail + 2 < old(state)@.echo.len(),
    ensures
        final(state)@ == (Discipline { cursor: final(state)@.cursor, ..old(state)@ }),
        (final(state)@.cursor, final(to_master)@) == ({
            let (cursor, shown) = old(state)@.cursor.tab_back(old(state)@.echo[tail + 2]);
            (cursor, old(to_master)@ + shown)
        }),
{
    assert(tail + 2 < state.echo.len());
    let count = state.echo[tail + 2];
    let mut used = (count & 0x7f) as usize;
    if count & 0x80 == 0 {
        used = used.wrapping_add(state.cursor.canon_column);
    }
    assert(used & 7 <= 7) by (bit_vector);
    let n = 8 - (used & 7);
    let ghost start = to_master@;
    let ghost column = state.cursor.column;
    let mut i: usize = 0;
    while i < n
        invariant
            state@ == (Discipline { cursor: state@.cursor, ..old(state)@ }),
            i <= n,
            n == (8 - (used & 7)) as usize,
            used == ({
                let low = (count & 0x7f) as usize;
                if count & 0x80 == 0 {
                    low.wrapping_add(old(state)@.cursor.canon_column)
                } else {
                    low
                }
            }),
            count == old(state)@.echo[tail + 2],
            state@.cursor == (Cursor { column: column.saturating_sub(i), ..old(state)@.cursor }),
            to_master@ == start + Seq::new(i as nat, |k: int| 8u8),
            start == old(to_master)@,
            column == old(state)@.cursor.column,
        decreases n - i,
    {
        to_master.push(8);
        state.cursor.column = state.cursor.column.saturating_sub(1);
        i = i + 1;
        assert(to_master@ =~= start + Seq::new(i as nat, |k: int| 8u8));
    }
}

/// Steps over the byte or operation at `tail` that the discard drops
fn skip(state: &State, tail: usize) -> (next: usize)
    requires
        state@.wf_base(),
        tail < state@.echo_commit,
        reaches(state@.echo, tail as int, state@.echo_commit as int),
    ensures
        next == tail + op_len(state@.echo, tail as int),
        next <= state@.echo_commit,
        reaches(state@.echo, next as int, state@.echo_commit as int),
{
    if state.echo[tail] != START {
        return tail + 1;
    }
    if state.echo[tail + 1] == ERASE_TAB {
        tail + 3
    } else {
        tail + 2
    }
}

} // verus!
