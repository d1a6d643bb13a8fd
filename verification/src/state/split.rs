//! Writing out held echo in pieces leaves the cursor where writing it out at once would: the
//! facts behind typing in two calls leaving the state one call would
use vstd::prelude::*;

use super::echo::lemma_drain;
use super::frame::{lemma_erase_char_core, lemma_erase_run_core, lemma_printed_tail_core, lemma_render_from_out, lemma_visible_all_core, rest_of};
use super::echo::{lemma_reaches_append, lemma_reaches_trans};
use super::model::{boundary, discard_from, op_len, reaches, Cursor, Discipline, LINE_MAX, ERASE_TAB, MOVE_BACK_COL, SET_CANON_COL, START};
use super::canon::Kill;
use crate::result::Produced;
use crate::termios::Termios;

verus! {

/// Writing out up to `m` and then on to `n` writes out up to `n`
pub proof fn lemma_render_compose(
    c: Cursor,
    t: Termios,
    echo: Seq<u8>,
    m: int,
    n: int,
    out: Seq<u8>,
    tail: int,
)
    requires
        m <= n,
    ensures
        c.render_from(t, echo, n, out, tail) == ({
            let (c1, o1, t1) = c.render_from(t, echo, m, out, tail);
            c1.render_from(t, echo, n, o1, t1)
        }),
    decreases m - tail + 3,
{
    if tail < m {
        assert(op_len(echo, tail) >= 1);
        let (next, shown) = c.rendered(t, echo, tail);
        lemma_render_compose(next, t, echo, m, n, out + shown, tail + op_len(echo, tail));
    }
}

/// Writing out the same whole operations from two buffers, `a` read `k` bytes further on in
/// `b`, moves the cursor the same way and stops at the same place
pub proof fn lemma_render_shift(
    c: Cursor,
    t: Termios,
    a: Seq<u8>,
    b: Seq<u8>,
    k: int,
    n: int,
    hi: int,
    out: Seq<u8>,
    tail: int,
)
    requires
        0 <= tail,
        0 <= k,
        reaches(a, tail, hi),
        n <= hi,
        hi <= a.len(),
        hi + k <= b.len(),
        forall|i: int| tail <= i < hi ==> #[trigger] a[i] == b[i + k],
    ensures
        c.render_from(t, a, n, out, tail).0 == c.render_from(t, b, n + k, out, tail + k).0,
        c.render_from(t, a, n, out, tail).1 == c.render_from(t, b, n + k, out, tail + k).1,
        c.render_from(t, a, n, out, tail).2 + k == c.render_from(t, b, n + k, out, tail + k).2,
    decreases n - tail + 3,
{
    if tail < n {
        assert(a[tail] == b[tail + k]);
        if a[tail] == super::model::START {
            assert(a[tail + 1] == b[tail + 1 + k]);
            if a[tail + 1] == super::model::ERASE_TAB {
                assert(a[tail + 2] == b[tail + 2 + k]);
            }
        }
        assert(op_len(a, tail) == op_len(b, tail + k));
        assert(c.rendered(t, a, tail) == c.rendered(t, b, tail + k));
        assert(op_len(a, tail) >= 1);
        let (next, shown) = c.rendered(t, a, tail);
        lemma_render_shift(next, t, a, b, k, n, hi, out + shown, tail + op_len(a, tail));
    }
}

/// Writing out from one boundary to another stops exactly at the second
pub proof fn lemma_render_stops(c: Cursor, t: Termios, echo: Seq<u8>, n: int, out: Seq<u8>, tail: int)
    requires
        reaches(echo, tail, n),
    ensures
        c.render_from(t, echo, n, out, tail).2 == n,
    decreases n - tail + 3,
{
    if tail < n {
        assert(op_len(echo, tail) >= 1);
        let (next, shown) = c.rendered(t, echo, tail);
        lemma_render_stops(next, t, echo, n, out + shown, tail + op_len(echo, tail));
    }
}

/// The echo buffer is made of whole operations, with its commit and mark between them
pub open spec fn held_whole(d: Discipline) -> bool {
    &&& boundary(d.echo, d.echo.len() as int)
    &&& boundary(d.echo, d.echo_commit as int)
    &&& boundary(d.echo, d.echo_mark as int)
}

/// Where the cursor stands once all the held echo is written out
pub open spec fn shown_cursor(d: Discipline) -> Cursor {
    d.cursor.render_from(d.termios, d.echo, d.echo.len() as int, Seq::empty(), 0).0
}

/// Writing out committed echo while output runs moves the cursor on the way to where writing
/// out all of it would leave it, drops nothing, and leaves nothing committed
pub proof fn lemma_process_shown(d: Discipline, out: Seq<u8>)
    requires
        held_whole(d),
        !d.stopped,
    ensures
        held_whole(d.process(out).0),
        d.process(out).0.echo_commit == 0,
        shown_cursor(d.process(out).0) == shown_cursor(d),
        rest_of(d.process(out).0) == rest_of(d),
        d.process(out).0.echo == d.echo.skip(d.echo_commit as int),
{
    let e = d.echo;
    let t = d.termios;
    let commit = d.echo_commit as int;
    let len = e.len() as int;
    lemma_render_stops(d.cursor, t, e, commit, out, 0);
    let (c1, o1, tail) = d.cursor.render_from(t, e, commit, out, 0);
    assert(tail == commit);
    assert(discard_from(e, commit, tail) == tail);
    lemma_drain(e, commit, len);
    if d.echo_mark >= d.echo_commit {
        lemma_drain(e, commit, d.echo_mark as int);
    }
    assert(reaches(e.skip(commit), 0, 0));
    lemma_render_shift(c1, t, e.skip(commit), e, commit, len - commit, len - commit, Seq::empty(), 0);
    lemma_render_compose(d.cursor, t, e, commit, len, Seq::empty(), 0);
    lemma_render_from_out(d.cursor, t, e, commit, out, Seq::empty(), 0);
    lemma_render_stops(d.cursor, t, e, commit, Seq::empty(), 0);
    let o2 = d.cursor.render_from(t, e, commit, Seq::empty(), 0).1;
    lemma_render_from_out(c1, t, e, len, o2, Seq::empty(), commit);
}

/// Whole operations from start to end
pub open spec fn whole(e: Seq<u8>) -> bool {
    reaches(e, 0, e.len() as int)
}

/// Steps through `y` are steps through `x + y`, `x.len()` further on
pub proof fn lemma_reaches_prepend(x: Seq<u8>, y: Seq<u8>, a: int, b: int)
    requires
        reaches(y, a, b),
        0 <= a,
        b <= y.len(),
    ensures
        reaches(x + y, a + x.len(), b + x.len()),
    decreases b - a,
{
    if a < b {
        let n = x.len() as int;
        assert((x + y)[a + n] == y[a]);
        if y[a] == START {
            assert((x + y)[a + n + 1] == y[a + 1]);
        }
        assert(op_len(x + y, a + n) == op_len(y, a));
        lemma_reaches_prepend(x, y, a + op_len(y, a), b);
    }
}

/// Whole operations followed by whole operations are whole operations
pub proof fn lemma_whole_concat(x: Seq<u8>, y: Seq<u8>)
    requires
        whole(x),
        whole(y),
    ensures
        whole(x + y),
{
    lemma_reaches_append(x, y, 0, x.len() as int);
    lemma_reaches_prepend(x, y, 0, y.len() as int);
    lemma_reaches_trans(x + y, 0, x.len() as int, (x + y).len() as int);
}

/// The operations the echo rules append are whole
pub proof fn lemma_whole_ops(c: u8, n: u8)
    ensures
        c != START ==> whole(seq![c]),
        whole(seq![START, START]),
        c != ERASE_TAB ==> whole(seq![START, c]),
        whole(seq![START, SET_CANON_COL]),
        whole(seq![START, MOVE_BACK_COL]),
        whole(seq![START, ERASE_TAB, n]),
        whole(seq![8u8, 32, 8]),
        whole(Seq::<u8>::empty()),
{
    let one = seq![8u8];
    let two = seq![32u8];
    assert(reaches(one, 1, 1));
    assert(whole(one));
    assert(reaches(two, 1, 1));
    assert(whole(two));
    lemma_whole_concat(one, two);
    lemma_whole_concat(one + two, one);
    assert(one + two + one =~= seq![8u8, 32, 8]);
    assert(reaches(seq![c], 1, 1));
    assert(reaches(seq![START, START], 2, 2));
    assert(reaches(seq![START, c], 2, 2));
    assert(reaches(seq![START, SET_CANON_COL], 2, 2));
    assert(reaches(seq![START, MOVE_BACK_COL], 2, 2));
    assert(reaches(seq![START, ERASE_TAB, n], 3, 3));
}

/// `r` is `d` with the whole operations of `r0`'s echo appended, and nothing written out
pub open spec fn appends(d: Discipline, r: Discipline, r0: Discipline) -> bool {
    &&& r.echo == d.echo + r0.echo
    &&& whole(r0.echo)
    &&& r.echo_commit == d.echo_commit
    &&& r.echo_mark == d.echo_mark
    &&& r.cursor == d.cursor
}

/// Appending `g1` after appending `h0` appends both
pub proof fn lemma_appends_then(
    d: Discipline,
    h: Discipline,
    h0: Discipline,
    g: Discipline,
    g0: Discipline,
    g1: Discipline,
)
    requires
        appends(d, h, h0),
        appends(h, g, g1),
        appends(h0, g0, g1),
    ensures
        appends(d, g, g0),
{
    lemma_whole_concat(h0.echo, g1.echo);
    assert(g.echo =~= d.echo + g0.echo);
}

/// The single echo operations append the same whole operations to any discipline
pub proof fn lemma_leaf_appends(d: Discipline, c: u8, columns: usize, after_tab: bool)
    ensures
        appends(d, d.raw(c), rest_of(d).raw(c)),
        appends(d, d.visible(c), rest_of(d).visible(c)),
        appends(d, d.set_canon_column(), rest_of(d).set_canon_column()),
        appends(d, d.move_back_column(), rest_of(d).move_back_column()),
        appends(d, d.erase_tab_op(columns, after_tab), rest_of(d).erase_tab_op(columns, after_tab)),
        appends(d, d.erase_visible(c), rest_of(d).erase_visible(c)),
        appends(d, d.finish_erasing(), rest_of(d).finish_erasing()),
        appends(d, d, rest_of(d)),
{
    lemma_whole_ops(c, super::model::tab_count(columns, after_tab));
    lemma_whole_ops(0x2f, 0);
    let e: Seq<u8> = Seq::empty();
    assert(e + seq![c] =~= seq![c]);
    assert(e + seq![START, START] =~= seq![START, START]);
    assert(e + seq![START, c] =~= seq![START, c]);
    assert(e + seq![0x2fu8] =~= seq![0x2fu8]);
    assert(e + seq![START, SET_CANON_COL] =~= seq![START, SET_CANON_COL]);
    assert(e + seq![START, MOVE_BACK_COL] =~= seq![START, MOVE_BACK_COL]);
    let tab = seq![START, ERASE_TAB, super::model::tab_count(columns, after_tab)];
    assert(e + tab =~= tab);
    let rub = seq![8u8, 32, 8];
    assert(e + rub =~= rub);
    lemma_whole_concat(rub, rub);
    assert(e + rub + rub =~= rub + rub);
    assert(d.echo + rub + rub =~= d.echo + (rub + rub));
    assert(e =~= Seq::<u8>::empty());
}

/// Echoing a sequence appends the same whole operations to any discipline
pub proof fn lemma_visible_all_appends(d: Discipline, bytes: Seq<u8>)
    ensures
        appends(d, d.visible_all(bytes), rest_of(d).visible_all(bytes)),
    decreases bytes.len(),
{
    if bytes.len() == 0 {
        lemma_leaf_appends(d, 0, 0, false);
    } else {
        let r = rest_of(d);
        let h = d.visible_all(bytes.drop_last());
        let h0 = r.visible_all(bytes.drop_last());
        lemma_visible_all_appends(d, bytes.drop_last());
        lemma_visible_all_core(d, bytes.drop_last());
        lemma_visible_all_core(r, bytes.drop_last());
        lemma_leaf_appends(h, bytes.last(), 0, false);
        lemma_leaf_appends(h0, bytes.last(), 0, false);
        lemma_appends_then(d, h, h0, h.visible(bytes.last()), h0.visible(bytes.last()), rest_of(h).visible(bytes.last()));
    }
}

/// Printing continuation bytes appends the same whole operations to any discipline
pub proof fn lemma_printed_tail_appends(d: Discipline, bytes: Seq<u8>)
    ensures
        appends(d, d.printed_tail(bytes), rest_of(d).printed_tail(bytes)),
    decreases bytes.len(),
{
    if bytes.len() == 0 {
        lemma_leaf_appends(d, 0, 0, false);
    } else {
        let r = rest_of(d);
        let b = bytes.last();
        let h = d.printed_tail(bytes.drop_last());
        let h0 = r.printed_tail(bytes.drop_last());
        lemma_printed_tail_appends(d, bytes.drop_last());
        lemma_printed_tail_core(d, bytes.drop_last());
        lemma_printed_tail_core(r, bytes.drop_last());
        lemma_leaf_appends(h, b, 0, false);
        lemma_leaf_appends(h0, b, 0, false);
        lemma_appends_then(d, h, h0, h.raw(b), h0.raw(b), rest_of(h).raw(b));
        let k = h.raw(b);
        let k0 = h0.raw(b);
        lemma_leaf_appends(k, b, 0, false);
        lemma_leaf_appends(k0, b, 0, false);
        lemma_appends_then(d, k, k0, k.move_back_column(), k0.move_back_column(), rest_of(k).move_back_column());
    }
}

/// Erasing one character appends the same whole operations to any discipline
pub proof fn lemma_erase_char_appends(d: Discipline, head: int, c: u8, kind: Kill)
    ensures
        appends(d, d.erase_char(head, c, kind), rest_of(d).erase_char(head, c, kind)),
{
    let r = rest_of(d);
    let (columns, after_tab) = super::model::tab_scan(d.termios, d.line, head, 0);
    lemma_leaf_appends(d, c, columns, after_tab);
    lemma_leaf_appends(d, d.cc(Termios::VERASE), columns, after_tab);
    if d.lflag(Termios::ECHO) && d.lflag(Termios::ECHOPRT) {
        let od = if !d.erasing {
            Discipline { erasing: true, ..d.raw(0x5c) }
        } else {
            d
        };
        let oe = if !r.erasing {
            Discipline { erasing: true, ..r.raw(0x5c) }
        } else {
            r
        };
        lemma_leaf_appends(d, 0x5c, 0, false);
        lemma_leaf_appends(od, c, 0, false);
        lemma_leaf_appends(oe, c, 0, false);
        lemma_appends_then(d, od, oe, od.visible(c), oe.visible(c), rest_of(od).visible(c));
        let tail = d.line.subrange(head + 1, d.line.len() as int);
        let v = od.visible(c);
        let v0 = oe.visible(c);
        lemma_printed_tail_appends(v, tail);
        lemma_printed_tail_appends(v0, tail);
        lemma_appends_then(d, v, v0, v.printed_tail(tail), v0.printed_tail(tail), rest_of(v).printed_tail(tail));
    }
}

/// An erase run appends the same whole operations to any discipline
pub proof fn lemma_erase_run_appends(d: Discipline, kind: Kill, seen_word: bool)
    ensures
        appends(d, d.erase_run(kind, seen_word), rest_of(d).erase_run(kind, seen_word)),
    decreases d.line.len(),
{
    let r = rest_of(d);
    lemma_leaf_appends(d, 0, 0, false);
    match super::model::last_start(d.termios, d.line) {
        None => {},
        Some(head) => {
            super::model::lemma_last_start(d.termios, d.line);
            let c = d.line[head];
            lemma_erase_char_appends(d, head, c, kind);
            if !(kind == Kill::Word && !super::model::word_char(c) && seen_word) && kind
                != Kill::Char {
                let h = d.erase_char(head, c, kind);
                let h0 = r.erase_char(head, c, kind);
                lemma_erase_char_core(d, head, c, kind);
                lemma_erase_char_core(r, head, c, kind);
                let sw = kind == Kill::Word && (seen_word || super::model::word_char(c));
                lemma_erase_run_appends(h, kind, sw);
                lemma_erase_run_appends(h0, kind, sw);
                lemma_appends_then(d, h, h0, h.erase_run(kind, sw), h0.erase_run(kind, sw), rest_of(h).erase_run(kind, sw));
            }
        },
    }
}

/// A kill the display cannot undo appends the same whole operations to any discipline
pub proof fn lemma_kill_line_appends(d: Discipline)
    ensures
        appends(d, d.kill_line(), rest_of(d).kill_line()),
{
    let r = rest_of(d);
    let k = d.cc(Termios::VKILL);
    let d1 = Discipline { line: Seq::empty(), ..d };
    let r1 = Discipline { line: Seq::empty(), ..r };
    lemma_leaf_appends(d1, k, 0, false);
    lemma_leaf_appends(r1, k, 0, false);
    let f = d1.finish_erasing();
    let f0 = r1.finish_erasing();
    assert(rest_of(d1) == r1);
    assert(appends(d, d1, r1));
    lemma_appends_then(d, d1, r1, f, f0, rest_of(d1).finish_erasing());
    lemma_leaf_appends(f, k, 0, false);
    lemma_leaf_appends(f0, k, 0, false);
    lemma_appends_then(d, f, f0, f.visible(k), f0.visible(k), rest_of(f).visible(k));
    let v = f.visible(k);
    let v0 = f0.visible(k);
    lemma_leaf_appends(v, 10, 0, false);
    lemma_leaf_appends(v0, 10, 0, false);
    lemma_appends_then(d, v, v0, v.raw(10), v0.raw(10), rest_of(v).raw(10));
}

/// An erase appends the same whole operations to any discipline
pub proof fn lemma_eraser_appends(d: Discipline, c: u8)
    ensures
        appends(d, d.eraser(c), rest_of(d).eraser(c)),
{
    let r = rest_of(d);
    lemma_leaf_appends(d, 0, 0, false);
    if d.line.len() > 0 {
        let kind = if c == d.cc(Termios::VERASE) {
            Kill::Char
        } else if c == d.cc(Termios::VWERASE) {
            Kill::Word
        } else {
            Kill::Line
        };
        lemma_kill_line_appends(d);
        lemma_erase_run_appends(d, kind, false);
        let h = d.erase_run(kind, false);
        let h0 = r.erase_run(kind, false);
        lemma_erase_run_core(d, kind, false);
        lemma_erase_run_core(r, kind, false);
        lemma_leaf_appends(h, 0, 0, false);
        lemma_leaf_appends(h0, 0, 0, false);
        lemma_appends_then(d, h, h0, h.finish_erasing(), h0.finish_erasing(), rest_of(h).finish_erasing());
    }
}

/// A change that leaves the echo buffer, its commit and mark and the cursor alone appends nothing
pub proof fn lemma_same_echo(d: Discipline, d1: Discipline)
    requires
        d1.echo == d.echo,
        d1.echo_commit == d.echo_commit,
        d1.echo_mark == d.echo_mark,
        d1.cursor == d.cursor,
    ensures
        appends(d, d1, rest_of(d1)),
{
    lemma_whole_ops(0, 0);
    assert(d.echo + Seq::<u8>::empty() =~= d.echo);
}

/// Echo then one more single operation, given what the echo so far appended
pub proof fn lemma_then_leaf(d: Discipline, h: Discipline, h0: Discipline, c: u8)
    requires
        appends(d, h, h0),
        rest_of(h) == rest_of(h0),
    ensures
        appends(d, h.raw(c), h0.raw(c)),
        appends(d, h.visible(c), h0.visible(c)),
        appends(d, h.set_canon_column(), h0.set_canon_column()),
        appends(d, h.finish_erasing(), h0.finish_erasing()),
        rest_of(h.raw(c)) == rest_of(h0.raw(c)),
        rest_of(h.visible(c)) == rest_of(h0.visible(c)),
        rest_of(h.set_canon_column()) == rest_of(h0.set_canon_column()),
        rest_of(h.finish_erasing()) == rest_of(h0.finish_erasing()),
{
    lemma_leaf_appends(h, c, 0, false);
    lemma_leaf_appends(h0, c, 0, false);
    lemma_appends_then(d, h, h0, h.raw(c), h0.raw(c), rest_of(h).raw(c));
    lemma_appends_then(d, h, h0, h.visible(c), h0.visible(c), rest_of(h).visible(c));
    lemma_appends_then(d, h, h0, h.set_canon_column(), h0.set_canon_column(), rest_of(h).set_canon_column());
    lemma_appends_then(d, h, h0, h.finish_erasing(), h0.finish_erasing(), rest_of(h).finish_erasing());
}

/// Echo and queue append the same whole operations to any discipline
pub proof fn lemma_accept_appends(d: Discipline, p: Produced, q: Produced, c: u8, raw_newline: bool)
    ensures
        appends(d, d.accept(p, c, raw_newline).0, rest_of(d).accept(q, c, raw_newline).0),
        rest_of(d.accept(p, c, raw_newline).0) == rest_of(rest_of(d).accept(q, c, raw_newline).0),
{
    let r = rest_of(d);
    lemma_leaf_appends(d, 0, 0, false);
    let f = d.finish_erasing();
    let f0 = r.finish_erasing();
    lemma_then_leaf(d, d, r, c);
    lemma_then_leaf(d, f, f0, 10);
    let s = f.set_canon_column();
    let s0 = f0.set_canon_column();
    lemma_then_leaf(d, f, f0, c);
    lemma_then_leaf(d, s, s0, c);
    let (echoed, echoed0) = if d.lflag(Termios::ECHO) {
        if raw_newline && c == 10 {
            (f.raw(10), f0.raw(10))
        } else {
            (s.visible(c), s0.visible(c))
        }
    } else {
        (d, r)
    };
    assert(appends(d, echoed, echoed0) && rest_of(echoed) == rest_of(echoed0));
    let (x, xp) = if c == 0xff && d.iflag(Termios::PARMRK) {
        echoed.queue(p, c)
    } else {
        (echoed, p)
    };
    let (x0, xq) = if c == 0xff && d.iflag(Termios::PARMRK) {
        echoed0.queue(q, c)
    } else {
        (echoed0, q)
    };
    assert(appends(d, x, x0) && rest_of(x) == rest_of(x0));
    assert(appends(d, x.queue(xp, c).0, x0.queue(xq, c).0));
}

/// The canonical rules append the same whole operations to any discipline
#[verifier::rlimit(50)]
pub proof fn lemma_canon_appends(d: Discipline, p: Produced, q: Produced, c: u8)
    ensures
        appends(d, d.canon(p, c).0, rest_of(d).canon(q, c).0),
        rest_of(d.canon(p, c).0) == rest_of(rest_of(d).canon(q, c).0),
{
    let r = rest_of(d);
    lemma_leaf_appends(d, 0, 0, false);
    lemma_eraser_appends(d, c);
    lemma_eraser_rest_same(d, c);
    let l = Discipline { lnext: true, ..d };
    let l0 = Discipline { lnext: true, ..r };
    lemma_same_echo(d, l);
    assert(rest_of(l) == rest_of(l0));
    lemma_then_leaf(d, l, l0, 0);
    let lf = l.finish_erasing();
    let lf0 = l0.finish_erasing();
    lemma_then_leaf(d, lf, lf0, 0x5e);
    lemma_then_leaf(d, lf.raw(0x5e), lf0.raw(0x5e), 8);
    lemma_then_leaf(d, d, r, c);
    let rf = d.finish_erasing();
    let rf0 = r.finish_erasing();
    lemma_then_leaf(d, rf, rf0, c);
    lemma_then_leaf(d, rf.visible(c), rf0.visible(c), 10);
    let rv = rf.visible(c).raw(10);
    let rv0 = rf0.visible(c).raw(10);
    lemma_visible_all_appends(rv, d.line);
    lemma_visible_all_appends(rv0, d.line);
    lemma_visible_all_core(rv, d.line);
    lemma_visible_all_core(rv0, d.line);
    lemma_appends_then(d, rv, rv0, rv.visible_all(d.line), rv0.visible_all(d.line), rest_of(rv).visible_all(d.line));
    lemma_then_leaf(d, d, r, 10);
    let nl = if d.lflag(Termios::ECHO) || d.lflag(Termios::ECHONL) { d.raw(10) } else { d };
    let nl0 = if d.lflag(Termios::ECHO) || d.lflag(Termios::ECHONL) { r.raw(10) } else { r };
    assert(appends(d, nl, nl0) && rest_of(nl) == rest_of(nl0));
    lemma_same_echo(nl, nl.complete(p, Some(10u8)).0);
    assert(appends(d, nl.complete(p, Some(10u8)).0, nl0.complete(q, Some(10u8)).0));
    lemma_same_echo(d, d.complete(p, None).0);
    assert(appends(d, d.complete(p, None).0, r.complete(q, None).0));
    let s = d.set_canon_column();
    let s0 = r.set_canon_column();
    lemma_then_leaf(d, s, s0, c);
    let ev = if d.lflag(Termios::ECHO) { s.visible(c) } else { d };
    let ev0 = if d.lflag(Termios::ECHO) { s0.visible(c) } else { r };
    assert(appends(d, ev, ev0) && rest_of(ev) == rest_of(ev0));
    let dbl = if c == 0xff && d.iflag(Termios::PARMRK) { ev.push_line(c) } else { ev };
    let dbl0 = if c == 0xff && d.iflag(Termios::PARMRK) { ev0.push_line(c) } else { ev0 };
    assert(appends(d, dbl, dbl0) && rest_of(dbl) == rest_of(dbl0));
    assert(appends(d, dbl.complete(p, Some(c)).0, dbl0.complete(q, Some(c)).0));
}

/// An erase leaves the same rest of the discipline whatever the echo
pub proof fn lemma_eraser_rest_same(d: Discipline, c: u8)
    ensures
        rest_of(d.eraser(c)) == rest_of(rest_of(d).eraser(c)),
{
    super::frame::lemma_eraser_rest(d, rest_of(d), c);
}

/// A byte that neither raises a signal nor starts or stops output appends the same whole
/// operations to any discipline whose output runs, and writes nothing out
#[verifier::rlimit(100)]
pub proof fn lemma_receive_appends(d: Discipline, p: Produced, q: Produced, b: u8)
    requires
        !d.stopped,
        !(!d.lnext && !d.lflag(Termios::EXTPROC) && d.iflag(Termios::IXON) && d.preprocess(b)
            == d.cc(Termios::VSTART) && d.preprocess(b) != 0),
        !(d.iflag(Termios::IXON) && d.preprocess(b) == d.cc(Termios::VSTOP)),
        !(d.lflag(Termios::ISIG) && d.signal_of(d.preprocess(b)) is Some),
    ensures
        appends(d, d.receive(p, b).0, rest_of(d).receive(q, b).0),
        rest_of(d.receive(p, b).0) == rest_of(rest_of(d).receive(q, b).0),
{
    let r = rest_of(d);
    let d0 = if d.lflag(Termios::ICANON) && d.line.len() >= LINE_MAX {
        Discipline { line: d.line.drop_last(), ..d }
    } else {
        d
    };
    let r0 = if r.lflag(Termios::ICANON) && r.line.len() >= LINE_MAX {
        Discipline { line: r.line.drop_last(), ..r }
    } else {
        r
    };
    lemma_same_echo(d, d0);
    assert(rest_of(d0) == r0);
    let c = d0.preprocess(b);
    assert(c == d.preprocess(b));
    let n = Discipline { lnext: false, ..d0 };
    let n0 = Discipline { lnext: false, ..r0 };
    lemma_same_echo(d, n);
    assert(rest_of(n) == n0);
    lemma_accept_appends(n, p, q, c, false);
    lemma_accept_appends(d0, p, q, c, false);
    let t = d0.crnl_mapped(c);
    lemma_accept_appends(d0, p, q, t, true);
    lemma_canon_appends(d0, p, q, t);
    assert(n.plain(p, c).0 == n.accept(p, c, false).0);
    lemma_appends_then(d, n, n0, n.accept(p, c, false).0, n0.accept(q, c, false).0, n0.accept(q, c, false).0);
}

/// Where the cursor stands once whole operations are written out from `c`
pub open spec fn moved(c: Cursor, t: Termios, ops: Seq<u8>) -> Cursor {
    c.render_from(t, ops, ops.len() as int, Seq::empty(), 0).0
}

/// Appending whole operations moves where writing out all the echo leaves the cursor by
/// exactly those operations, and keeps the buffer whole
pub proof fn lemma_appends_shown(d: Discipline, r: Discipline, r0: Discipline)
    requires
        held_whole(d),
        appends(d, r, r0),
        r.termios == d.termios,
    ensures
        held_whole(r),
        shown_cursor(r) == moved(shown_cursor(d), d.termios, r0.echo),
{
    let e = d.echo;
    let a = r0.echo;
    let t = d.termios;
    let n = e.len() as int;
    lemma_whole_concat(e, a);
    lemma_reaches_append(e, a, 0, d.echo_commit as int);
    lemma_reaches_append(e, a, 0, d.echo_mark as int);
    lemma_render_compose(d.cursor, t, e + a, n, (e + a).len() as int, Seq::empty(), 0);
    lemma_render_shift(d.cursor, t, e, e + a, 0, n, n, Seq::empty(), 0);
    lemma_render_stops(d.cursor, t, e, n, Seq::empty(), 0);
    let (c1, o1, t1) = d.cursor.render_from(t, e + a, n, Seq::empty(), 0);
    assert(t1 == n);
    assert(c1 == shown_cursor(d));
    lemma_render_shift(c1, t, a, e + a, n, a.len() as int, a.len() as int, o1, 0);
    lemma_render_from_out(c1, t, a, a.len() as int, o1, Seq::empty(), 0);
}

/// Output keeps running through a byte that neither raises a signal nor stops output
#[verifier::rlimit(100)]
pub proof fn lemma_receive_runs(d: Discipline, p: Produced, b: u8)
    requires
        !d.stopped,
        !(d.iflag(Termios::IXON) && d.preprocess(b) == d.cc(Termios::VSTOP)),
        !(d.lflag(Termios::ISIG) && d.signal_of(d.preprocess(b)) is Some),
    ensures
        !d.receive(p, b).0.stopped,
        d.receive(p, b).0.termios == d.termios,
        d.receive(p, b).0.tco_stopped == d.tco_stopped,
{
    assert(p.to_replica == Seq::<u8>::empty() + p.to_replica);
    super::frame::lemma_receive_rest(d, d, p, p, Seq::empty(), b);
    let d0 = if d.lflag(Termios::ICANON) && d.line.len() >= LINE_MAX {
        Discipline { line: d.line.drop_last(), ..d }
    } else {
        d
    };
    let c = d0.preprocess(b);
    assert(!d0.stopped);
    let n = Discipline { lnext: false, ..d0 };
    assert(!n.accept(p, c, false).0.stopped);
    let t = d0.crnl_mapped(c);
    assert(!d0.accept(p, t, true).0.stopped);
    assert(!d0.accept(p, c, false).0.stopped);
    super::frame::lemma_eraser_rest(d0, d0, t);
    let rv = d0.finish_erasing().visible(t).raw(10);
    lemma_visible_all_core(rv, d0.line);
    assert(!d0.canon(p, t).0.stopped);
}

/// Output runs, nothing but `VSTOP` or `stop_output` could hold it, and the echo buffer is whole
pub open spec fn runs(d: Discipline) -> bool {
    &&& held_whole(d)
    &&& !d.stopped
    &&& !d.tco_stopped
}

/// Nothing is committed, or some held echo is not committed yet
pub open spec fn pending(d: Discipline) -> bool {
    d.echo_commit == 0 || d.echo_commit < d.echo.len()
}

/// A byte that neither raises a signal nor stops output
pub open spec fn keeps_running(d: Discipline, b: u8) -> bool {
    &&& !(d.iflag(Termios::IXON) && d.preprocess(b) == d.cc(Termios::VSTOP))
    &&& !(d.lflag(Termios::ISIG) && d.signal_of(d.preprocess(b)) is Some)
}

/// `VSTART` taken as flow control
pub open spec fn restarts(d: Discipline, b: u8) -> bool {
    &&& !d.lnext
    &&& !d.lflag(Termios::EXTPROC)
    &&& d.iflag(Termios::IXON)
    &&& d.preprocess(b) == d.cc(Termios::VSTART)
    &&& d.preprocess(b) != 0
}

/// The echo operations a byte adds, which depend on the rest of the discipline alone
pub open spec fn added(d: Discipline, b: u8) -> Seq<u8> {
    if restarts(d, b) {
        Seq::empty()
    } else {
        rest_of(d).receive(Produced::empty(), b).0.echo
    }
}

/// One byte taken and the echo committed, while output runs: the held echo stays whole, the
/// cursor it would leave moves by what the byte adds, and what is committed only shrinks to
/// nothing or stays short of the buffer
#[verifier::rlimit(50)]
pub proof fn lemma_step_shown(d: Discipline, p: Produced, b: u8)
    requires
        runs(d),
        keeps_running(d, b),
    ensures
        runs(d.step(p, b).0),
        d.step(p, b).0.termios == d.termios,
        rest_of(d.step(p, b).0) == rest_of(d.receive(p, b).0),
        shown_cursor(d.step(p, b).0) == moved(shown_cursor(d), d.termios, added(d, b)),
        d.echo_commit == 0 ==> d.step(p, b).0.echo_commit == 0,
        pending(d) ==> pending(d.step(p, b).0),
{
    let t = d.termios;
    lemma_receive_runs(d, p, b);
    let (r, q) = d.receive(p, b);
    let d0 = if d.lflag(Termios::ICANON) && d.line.len() >= LINE_MAX {
        Discipline { line: d.line.drop_last(), ..d }
    } else {
        d
    };
    lemma_whole_ops(0, 0);
    assert(shown_cursor(d).render_from(t, Seq::<u8>::empty(), 0, Seq::empty(), 0).0 == shown_cursor(d));
    if restarts(d, b) {
        let c = d0.preprocess(b);
        assert(d0.is_special(c));
        assert(d.receive(p, b) == d0.special(p, c));
        assert(d0.special(p, c) == d0.start(p));
        if d0.echo_mark != 0 {
            let m = Discipline { echo_commit: d0.echo_mark, ..d0 };
            lemma_process_shown(m, p.to_master);
            assert(shown_cursor(m) == shown_cursor(d));
        }
        assert(held_whole(r) && shown_cursor(r) == shown_cursor(d));
        assert(d.echo_commit == 0 ==> r.echo_commit == 0);
        assert(pending(d) ==> pending(r));
    } else {
        lemma_receive_appends(d, p, Produced::empty(), b);
        let r0 = rest_of(d).receive(Produced::empty(), b).0;
        lemma_appends_shown(d, r, r0);
        assert(pending(d) ==> pending(r));
    }
    let head = r.echo.len();
    let marked = Discipline { echo_mark: head, ..r };
    assert(held_whole(marked));
    if !(head < super::model::COMMIT_WATERMARK || (head as usize) & 255 > (r.echo_commit as usize) & 255) {
        let m = Discipline { echo_commit: head, ..marked };
        lemma_process_shown(m, q.to_master);
    }
}

/// No byte of a sequence raises a signal or stops output
pub open spec fn all_keep_running(d: Discipline, bytes: Seq<u8>) -> bool {
    forall|k: int| 0 <= k < bytes.len() ==> #[trigger] keeps_running(d, bytes[k])
}

/// Two runs over the same bytes from disciplines that differ only in how much echo they wrote
/// out keep differing only in that
pub proof fn lemma_runs_agree(x: Discipline, px: Produced, y: Discipline, py: Produced, bytes: Seq<u8>)
    requires
        runs(x),
        runs(y),
        rest_of(x) == rest_of(y),
        shown_cursor(x) == shown_cursor(y),
        x.echo_commit == 0,
        pending(y),
        all_keep_running(x, bytes),
    ensures
        runs(x.steps(px, bytes).0),
        runs(y.steps(py, bytes).0),
        rest_of(x.steps(px, bytes).0) == rest_of(y.steps(py, bytes).0),
        shown_cursor(x.steps(px, bytes).0) == shown_cursor(y.steps(py, bytes).0),
        x.steps(px, bytes).0.echo_commit == 0,
        pending(y.steps(py, bytes).0),
        x.steps(px, bytes).0.termios == x.termios,
    decreases bytes.len(),
{
    if bytes.len() > 0 {
        let shorter = bytes.drop_last();
        assert forall|k: int| 0 <= k < shorter.len() implies #[trigger] keeps_running(x, shorter[k]) by {
            assert(shorter[k] == bytes[k]);
            assert(keeps_running(x, bytes[k]));
        }
        lemma_runs_agree(x, px, y, py, shorter);
        let (x1, p1) = x.steps(px, shorter);
        let (y1, q1) = y.steps(py, shorter);
        let b = bytes.last();
        assert(keeps_running(x, bytes[bytes.len() - 1]));
        assert(keeps_running(x1, b));
        assert(keeps_running(y1, b));
        lemma_step_shown(x1, p1, b);
        lemma_step_shown(y1, q1, b);
        super::frame::lemma_receive_out(y1, q1, p1, b);
        assert(p1.to_replica == Seq::<u8>::empty() + p1.to_replica);
        super::frame::lemma_receive_rest(x1, y1, p1, p1, Seq::empty(), b);
        assert(added(x1, b) == added(y1, b));
    }
}

/// Bytes that keep output running keep it running and the echo buffer whole
pub proof fn lemma_run_keeps_running(x: Discipline, px: Produced, bytes: Seq<u8>)
    requires
        runs(x),
        all_keep_running(x, bytes),
    ensures
        runs(x.steps(px, bytes).0),
        x.steps(px, bytes).0.termios == x.termios,
    decreases bytes.len(),
{
    if bytes.len() > 0 {
        let shorter = bytes.drop_last();
        assert forall|k: int| 0 <= k < shorter.len() implies #[trigger] keeps_running(x, shorter[k]) by {
            assert(shorter[k] == bytes[k]);
            assert(keeps_running(x, bytes[k]));
        }
        lemma_run_keeps_running(x, px, shorter);
        let (x1, p1) = x.steps(px, shorter);
        assert(keeps_running(x, bytes[bytes.len() - 1]));
        assert(keeps_running(x1, bytes.last()));
        lemma_step_shown(x1, p1, bytes.last());
    }
}

/// The flush at the end of a call that echoes writes out all the held echo, leaving the
/// cursor where writing it out leaves it
pub proof fn lemma_flush_all(f: Discipline, out: Seq<u8>)
    requires
        runs(f),
        pending(f),
        f.lflag(Termios::ECHO) || f.lflag(Termios::ECHONL),
    ensures
        f.flush_echo(out).0.echo.len() == 0,
        f.flush_echo(out).0.echo_commit == 0,
        f.flush_echo(out).0.echo_mark == 0,
        f.flush_echo(out).0.cursor == shown_cursor(f),
        rest_of(f.flush_echo(out).0) == rest_of(f),
{
    if f.echo_commit == f.echo.len() {
        assert(f.echo.len() == 0);
        assert(reaches(f.echo, 0, f.echo_mark as int));
        assert(f.echo_mark == 0);
    } else {
        let m = Discipline { echo_commit: f.echo.len(), ..f };
        lemma_process_shown(m, out);
        let r = m.process(out).0;
        assert(r.echo.len() == 0);
        assert(reaches(m.echo, 0, m.echo_mark as int));
        assert(shown_cursor(r) == r.cursor);
    }
}

} // verus!
