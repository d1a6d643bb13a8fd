//! A discipline as plain values, for a checkpoint taken in the middle of a line and resumed later
use vstd::prelude::*;

use super::echo::{lemma_reaches_split, lemma_reaches_trans};
use super::model::{
    boundary, op_len, reaches, Cursor, Discipline, DISCARD_WATERMARK, ERASE_TAB, LINE_MAX, START,
};
use super::State;
use crate::termios::Termios;

verus! {

/// Everything a [`State`] holds, as plain values
#[derive(Debug, Clone, PartialEq, Eq)]
pub struct Snapshot {
    /// The termios in force
    pub termios: Termios,
    /// The canonical line under edit
    pub line: Vec<u8>,
    /// The echo buffer, in the kernel's operation format
    pub echo: Vec<u8>,
    /// How much of the echo buffer may be written out
    pub echo_commit: usize,
    /// How much of the echo buffer a restart or a program write releases
    pub echo_mark: usize,
    /// The screen column
    pub column: usize,
    /// The column the line under edit started at
    pub canon_column: usize,
    /// Inside an `ECHOPRT` run
    pub erasing: bool,
    /// The next byte is taken literally
    pub lnext: bool,
    /// `VSTOP` or `stop_output` holds output
    pub stopped: bool,
    /// `stop_output` holds output
    pub tco_stopped: bool,
}

impl Snapshot {
    /// The discipline a snapshot describes
    pub open spec fn discipline(&self) -> Discipline {
        Discipline {
            termios: self.termios,
            line: self.line@,
            echo: self.echo@,
            echo_commit: self.echo_commit as nat,
            echo_mark: self.echo_mark as nat,
            cursor: Cursor { column: self.column, canon_column: self.canon_column },
            erasing: self.erasing,
            lnext: self.lnext,
            stopped: self.stopped,
            tco_stopped: self.tco_stopped,
        }
    }
}

/// A copy of a byte vector
fn copied(v: &Vec<u8>) -> (r: Vec<u8>)
    ensures
        r@ == v@,
{
    let mut r: Vec<u8> = Vec::new();
    let mut i: usize = 0;
    while i < v.len()
        invariant
            i <= v@.len(),
            r@ == v@.take(i as int),
        decreases v@.len() - i,
    {
        r.push(v[i]);
        i = i + 1;
        assert(r@ =~= v@.take(i as int));
    }
    assert(v@.take(v@.len() as int) =~= v@);
    r
}

/// Whether an echo buffer is made of whole operations and `commit` and `mark` fall between them
fn echo_is_whole(echo: &Vec<u8>, commit: usize, mark: usize) -> (r: bool)
    ensures
        r == (boundary(echo@, echo@.len() as int) && boundary(echo@, commit as int) && boundary(
            echo@,
            mark as int,
        )),
{
    let ghost e = echo@;
    let n = echo.len();
    let mut i: usize = 0;
    let mut hit_commit = commit == 0;
    let mut hit_mark = mark == 0;
    assert(reaches(e, 0, 0));
    while i < n
        invariant
            n == e.len(),
            echo@ == e,
            i <= n,
            boundary(e, i as int),
            hit_commit == (commit <= i && boundary(e, commit as int)),
            hit_mark == (mark <= i && boundary(e, mark as int)),
        decreases n - i,
    {
        let step: usize = if echo[i] != START {
            1
        } else if i + 1 >= n {
            proof {
                lemma_incomplete(e, i as int);
            }
            return false;
        } else if echo[i + 1] == ERASE_TAB {
            3
        } else {
            2
        };
        assert(step == op_len(e, i as int));
        if step > n - i {
            proof {
                lemma_incomplete(e, i as int);
            }
            return false;
        }
        let next = i + step;
        proof {
            assert(reaches(e, next as int, next as int));
            lemma_reaches_trans(e, 0, i as int, next as int);
            lemma_passed_over(e, i as int, commit as int);
            lemma_passed_over(e, i as int, mark as int);
        }
        i = next;
        if i == commit {
            hit_commit = true;
        }
        if i == mark {
            hit_mark = true;
        }
    }
    hit_commit && hit_mark
}

/// An operation that runs past the end of the buffer leaves its end off the boundaries
proof fn lemma_incomplete(e: Seq<u8>, i: int)
    requires
        boundary(e, i),
        i < e.len(),
        i + op_len(e, i) > e.len(),
    ensures
        !boundary(e, e.len() as int),
{
    if boundary(e, e.len() as int) {
        lemma_reaches_split(e, 0, i, e.len() as int);
    }
}

/// No boundary lies strictly inside an operation
proof fn lemma_passed_over(e: Seq<u8>, i: int, b: int)
    requires
        boundary(e, i),
    ensures
        i < b < i + op_len(e, i) ==> !boundary(e, b),
{
    if i < b < i + op_len(e, i) && boundary(e, b) {
        lemma_reaches_split(e, 0, i, b);
    }
}

impl State {
    /// Everything the discipline holds, as plain values
    pub fn snapshot(&self) -> (s: Snapshot)
        ensures
            s.discipline() == self@,
    {
        Snapshot {
            termios: self.termios,
            line: copied(&self.line),
            echo: copied(&self.echo),
            echo_commit: self.echo_commit,
            echo_mark: self.echo_mark,
            column: self.cursor.column,
            canon_column: self.cursor.canon_column,
            erasing: self.erasing,
            lnext: self.lnext,
            stopped: self.stopped,
            tco_stopped: self.tco_stopped,
        }
    }

    /// The discipline a snapshot describes, when it is one a discipline can be in: a line of at
    /// most 4096 bytes, an echo buffer of whole operations with its commit and mark between
    /// them, no more committed echo than the discard watermark, and `stop_output` holding output
    /// whenever it is in force
    pub fn restore(snapshot: Snapshot) -> (r: Option<State>)
        ensures
            r is Some <==> snapshot.discipline().wf(),
            r matches Some(state) ==> state@ == snapshot.discipline(),
    {
        let whole = echo_is_whole(&snapshot.echo, snapshot.echo_commit, snapshot.echo_mark);
        if snapshot.line.len() > LINE_MAX || !whole || snapshot.echo_commit > DISCARD_WATERMARK
            || (snapshot.tco_stopped && !snapshot.stopped) {
            return None;
        }
        Some(
            State {
                termios: snapshot.termios,
                line: snapshot.line,
                echo: snapshot.echo,
                echo_commit: snapshot.echo_commit,
                echo_mark: snapshot.echo_mark,
                cursor: Cursor { column: snapshot.column, canon_column: snapshot.canon_column },
                erasing: snapshot.erasing,
                lnext: snapshot.lnext,
                stopped: snapshot.stopped,
                tco_stopped: snapshot.tco_stopped,
            },
        )
    }
}

/// A snapshot restores to the discipline it was taken from
pub proof fn a_snapshot_restores_what_it_took(state: State, snapshot: Snapshot)
    requires
        state@.wf(),
        snapshot.discipline() == state@,
    ensures
        snapshot.discipline().wf(),
{
}

} // verus!
