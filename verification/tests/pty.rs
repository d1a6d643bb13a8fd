use line_discipline::pty::{
    char_len, input, output, word_erase_goes_on, Endpoint, FlushTarget, NoopSys, State, Sys, WindowSize,
};
use line_discipline::{Signal, Termios};
use std::cell::RefCell;

struct Recorder(RefCell<Vec<Signal>>);

impl Sys for Recorder {
    fn signal_foreground(&self, sig: Signal) {
        self.0.borrow_mut().push(sig);
    }
}

fn raw() -> Termios {
    let mut t = Termios::default();
    t.local_flags = 0;
    t
}

#[test]
fn signals_reach_the_foreground_through_sys() {
    let mut s = State::default();
    let sys = Recorder(RefCell::new(Vec::new()));
    let r = input(&mut s, &sys, b"\x03\x1a\x1c");
    assert_eq!(r.consumed, 3);
    assert_eq!(r.signals, vec![Signal::Interrupt, Signal::Suspend, Signal::Quit]);
    assert_eq!(*sys.0.borrow(), vec![Signal::Interrupt, Signal::Suspend, Signal::Quit]);
}

#[test]
fn word_erase_stops_at_a_separator_after_a_word() {
    let mut s = State::default();
    input(&mut s, &NoopSys, b"ab cd");
    let r = input(&mut s, &NoopSys, b"\x17\n");
    assert_eq!(r.to_replica, b"ab \n");
    assert_eq!(r.output, b"\x08 \x08\x08 \x08\r\n");
}

#[test]
fn latin_letters_are_word_characters_for_word_erase() {
    let mut s = State::default();
    input(&mut s, &NoopSys, b"ab \xe9\xe9");
    let r = input(&mut s, &NoopSys, b"\x17\n");
    assert_eq!(r.to_replica, b"ab \n");

    let mut s = State::default();
    input(&mut s, &NoopSys, b"ab\xd7cd");
    let r = input(&mut s, &NoopSys, b"\x17\n");
    assert_eq!(r.to_replica, b"ab\xd7\n");
}

#[test]
fn erasing_a_control_character_rubs_out_two_cells() {
    let mut s = State::default();
    input(&mut s, &NoopSys, b"a\x01");
    let r = input(&mut s, &NoopSys, b"\x7f");
    assert_eq!(r.output, b"\x08 \x08\x08 \x08");
}

#[test]
fn raw_input_stops_at_the_buffer_limit() {
    let mut s = State::new(raw(), WindowSize::default());
    let r = input(&mut s, &NoopSys, &[b'x'; 5000]);
    assert_eq!(r.consumed, 4095);
    assert_eq!(r.to_replica.len(), 4095);
    assert!(r.output.is_empty());
}

#[test]
fn a_canonical_line_keeps_room_for_its_newline() {
    let mut t = Termios::default();
    t.local_flags &= !Termios::ECHO;
    let mut s = State::new(t, WindowSize::default());
    let r = input(&mut s, &NoopSys, &[b'a'; 5000]);
    assert_eq!((r.consumed, r.to_replica.len()), (5000, 0));
    let r = input(&mut s, &NoopSys, b"\n");
    assert_eq!(r.to_replica.len(), 4096);
    assert_eq!(r.to_replica.last(), Some(&b'\n'));
}

#[test]
fn a_waiting_canonical_line_blocks_input() {
    let mut s = State::default();
    input(&mut s, &NoopSys, b"ab");
    s.set_termios(raw());
    assert!(s.replica_readiness().readable);
    s.set_termios(Termios::default());
    let r = input(&mut s, &NoopSys, b"x");
    assert_eq!((r.consumed, r.to_replica.len(), r.output.len()), (0, 0, 0));
}

#[test]
fn flushing_the_replica_input_drops_the_pending_line() {
    let mut s = State::default();
    input(&mut s, &NoopSys, b"ab");
    s.flush(Endpoint::Replica, FlushTarget::Input);
    let r = input(&mut s, &NoopSys, b"\n");
    assert_eq!(r.to_replica, b"\n");
}

#[test]
fn flushing_the_master_output_drops_the_pending_line() {
    let mut s = State::default();
    input(&mut s, &NoopSys, b"ab");
    s.flush(Endpoint::Master, FlushTarget::Output);
    let r = input(&mut s, &NoopSys, b"\n");
    assert_eq!(r.to_replica, b"\n");
}

#[test]
fn readiness_follows_the_replicas_and_packet_mode() {
    let mut s = State::default();
    assert!(s.master_readiness().hup);
    assert!(s.master_readiness().writable);
    assert!(!s.master_readiness().readable);
    s.replica_open();
    s.replica_open();
    assert!(!s.master_readiness().hup);
    assert!(!s.replica_close());
    assert!(s.replica_close());
    assert!(s.replica_close());
    assert!(!s.replica_readiness().hup);
    assert!(!s.packet_mode());
    s.set_packet_mode(true);
    assert!(s.packet_mode());
    s.set_packet_mode(false);
    assert!(!s.packet_mode());
}

#[test]
fn the_window_size_is_kept() {
    let mut s = State::new(Termios::default(), WindowSize { rows: 24, cols: 80 });
    assert_eq!(s.window_size(), WindowSize { rows: 24, cols: 80 });
    s.set_window_size(WindowSize { rows: 50, cols: 132 });
    assert_eq!(s.window_size(), WindowSize { rows: 50, cols: 132 });
    assert_eq!(s.termios(), &Termios::default());
}

#[test]
fn output_takes_at_most_4095_bytes() {
    let mut s = State::default();
    let r = output(&mut s, &[b'a'; 5000]);
    assert_eq!((r.consumed, r.output.len()), (4095, 4095));
    assert_eq!(s.column(), 4095);
}

#[test]
fn a_newline_that_does_not_fit_is_left_for_the_next_call() {
    let mut s = State::default();
    let mut bytes = vec![b'a'; 4094];
    bytes.push(b'\n');
    let r = output(&mut s, &bytes);
    assert_eq!((r.consumed, r.output.len()), (4094, 4094));
}

#[test]
fn tabs_and_backspaces_move_the_column() {
    let mut t = Termios::default();
    t.output_flags = Termios::OPOST | Termios::XTABS;
    let mut s = State::new(t, WindowSize::default());
    let r = output(&mut s, b"ab\t");
    assert_eq!(r.output, b"ab      ");
    assert_eq!(s.column(), 8);
    output(&mut s, b"\x08\x08");
    assert_eq!(s.column(), 6);
}

#[test]
fn onocr_and_ocrnl_apply_to_carriage_returns() {
    let mut t = Termios::default();
    t.output_flags = Termios::OPOST | Termios::ONOCR | Termios::OCRNL;
    let mut s = State::new(t, WindowSize::default());
    let r = output(&mut s, b"\ra\r");
    assert_eq!(r.output, b"a\n");
}

#[test]
fn utf8_sequences_pass_whole_under_iutf8() {
    let mut t = Termios::default();
    t.input_flags |= Termios::IUTF8;
    let mut s = State::new(t, WindowSize::default());
    let r = input(&mut s, &NoopSys, b"\xc3\xa9\n");
    assert_eq!(r.to_replica, b"\xc3\xa9\n");
    assert_eq!(r.output, b"\xc3\xa9\r\n");
    input(&mut s, &NoopSys, b"x\xe2\x82\xac");
    let r = input(&mut s, &NoopSys, b"\x7f\n");
    assert_eq!(r.to_replica, b"x\n");
}

#[test]
fn terminating_characters_end_a_canonical_line() {
    let t = Termios::default();
    assert!(t.is_terminating(b"\n"));
    assert!(t.is_terminating(b"\x04"));
    assert!(!t.is_terminating(b"a"));
    assert!(!t.is_terminating(b"\n\n"));
    assert!(!t.is_terminating(b"\x00"));
    assert!(t.is_eof(4));
    assert!(!t.is_eof(0));
    assert!(t.l_enabled(Termios::ICANON | Termios::ECHO));
    assert!(!t.i_enabled(Termios::IXON | Termios::IXANY));
    assert!(t.o_enabled(Termios::ONLCR));
}

#[test]
fn char_len_reads_the_lead_byte_under_iutf8() {
    let mut t = Termios::default();
    assert_eq!(char_len(&t, b"\xe2\x82\xac"), 1);
    t.input_flags |= Termios::IUTF8;
    assert_eq!(char_len(&t, b"\xe2\x82\xac"), 3);
    assert_eq!(char_len(&t, b"\xe2\x82"), 2);
    assert_eq!(char_len(&t, b"\xc3\xa9"), 2);
    assert_eq!(char_len(&t, b"\xf0\x9f\x98\x80"), 4);
    assert_eq!(char_len(&t, b"\x80"), 1);
    assert_eq!(char_len(&t, b""), 0);
}

#[test]
fn a_word_erase_goes_on_until_a_separator_follows_a_word() {
    let mut seen = false;
    assert!(word_erase_goes_on(false, b' ', &mut seen));
    assert!(!seen);
    assert!(word_erase_goes_on(true, 0xe9, &mut seen));
    assert!(seen);
    assert!(word_erase_goes_on(false, b'7', &mut seen));
    assert!(word_erase_goes_on(false, b'_', &mut seen));
    assert!(!word_erase_goes_on(false, b' ', &mut seen));
    assert!(seen);
}
