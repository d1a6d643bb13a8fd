use line_discipline::pty::{input, output, NoopSys, State, WindowSize};
use line_discipline::{Signal, Termios};

fn state() -> State {
    State::new(Termios::default(), WindowSize { rows: 24, cols: 80 })
}

#[test]
fn basic_canonical_line() {
    let mut s = state();
    let r = input(&mut s, &NoopSys, b"ls\n");
    assert_eq!(r.consumed, 3);
    assert_eq!(r.to_replica, b"ls\n");
    assert_eq!(r.output, b"ls\r\n");
}

#[test]
fn canonical_buffers_until_newline() {
    let mut s = state();
    let r = input(&mut s, &NoopSys, b"ls");
    assert_eq!(r.consumed, 2);
    assert!(r.to_replica.is_empty());
    assert_eq!(r.output, b"ls");

    let r = input(&mut s, &NoopSys, b"\n");
    assert_eq!(r.to_replica, b"ls\n");
    assert_eq!(r.output, b"\r\n");
}

#[test]
fn signal_generation() {
    let mut s = state();
    let r = input(&mut s, &NoopSys, b"\x03");
    assert_eq!(r.signals, vec![Signal::Interrupt]);
    assert!(r.to_replica.is_empty());
}

#[test]
fn cr_to_nl_translation() {
    let mut s = state();
    let r = input(&mut s, &NoopSys, b"a\r");
    assert_eq!(r.to_replica, b"a\n");
}

#[test]
fn backspace_erases() {
    let mut s = state();
    input(&mut s, &NoopSys, b"ab");
    let r = input(&mut s, &NoopSys, b"\x7f\n");
    assert_eq!(r.to_replica, b"a\n");
}

#[test]
fn eof_on_empty_delivers_empty() {
    let mut s = state();
    let r = input(&mut s, &NoopSys, b"\x04");
    assert!(r.to_replica.is_empty());
}

#[test]
fn eof_with_data_delivers_without_eof_char() {
    let mut s = state();
    input(&mut s, &NoopSys, b"hi");
    let r = input(&mut s, &NoopSys, b"\x04");
    assert_eq!(r.to_replica, b"hi");
}

#[test]
fn nl_to_crnl() {
    let mut s = state();
    let r = output(&mut s, b"hello\nworld\n");
    assert_eq!(r.output, b"hello\r\nworld\r\n");
}

#[test]
fn no_opost_passthrough() {
    let mut t = Termios::default();
    t.output_flags = 0;
    let mut s = State::new(t, WindowSize::default());
    let r = output(&mut s, b"hello\nworld");
    assert_eq!(r.output, b"hello\nworld");
}

#[test]
fn tab_expansion() {
    let mut t = Termios::default();
    t.output_flags = Termios::OPOST | Termios::XTABS;
    let mut s = State::new(t, WindowSize::default());
    let r = output(&mut s, b"\t");
    assert_eq!(r.output, b"        ");
}

#[test]
fn column_tracking() {
    let mut s = state();
    output(&mut s, b"abc");
    assert_eq!(s.column(), 3);
    output(&mut s, b"\r");
    assert_eq!(s.column(), 0);
}
