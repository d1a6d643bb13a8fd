use line_discipline::{Event, Signal, Snapshot, State, Termios};

fn with_local(on: u32, off: u32) -> Termios {
    let mut termios = Termios::default();
    termios.local_flags |= on;
    termios.local_flags &= !off;
    termios
}

fn with_input(on: u32, off: u32) -> Termios {
    let mut termios = Termios::default();
    termios.input_flags |= on;
    termios.input_flags &= !off;
    termios
}

fn with_output(flags: u32) -> Termios {
    let mut termios = Termios::default();
    termios.output_flags = flags;
    termios
}

#[test]
fn word_erase_removes_the_last_word() {
    let mut state = State::default();
    let typed = state.input(b"ls foo bar\x17\n");
    assert_eq!(typed.to_replica, b"ls foo \n");
    assert_eq!(typed.to_master, b"ls foo bar\x08 \x08\x08 \x08\x08 \x08\r\n");
}

#[test]
fn word_erase_takes_trailing_separators_then_one_word() {
    let mut state = State::default();
    let typed = state.input(b"ab cd  \x17\n");
    assert_eq!(typed.to_replica, b"ab \n");
}

#[test]
fn kill_erases_the_line_visibly_under_echoke() {
    let mut state = State::default();
    let typed = state.input(b"abc\x15xy\n");
    assert_eq!(typed.to_replica, b"xy\n");
    assert_eq!(typed.to_master, b"abc\x08 \x08\x08 \x08\x08 \x08xy\r\n");
}

#[test]
fn kill_without_echoke_echoes_the_kill_character_and_a_newline() {
    let mut state = State::new(with_local(0, Termios::ECHOKE));
    let typed = state.input(b"abc\x15xy\n");
    assert_eq!(typed.to_replica, b"xy\n");
    assert_eq!(typed.to_master, b"abc^U\r\nxy\r\n");
}

#[test]
fn control_characters_echo_as_caret_letters() {
    let mut state = State::default();
    let typed = state.input(b"\x01\n");
    assert_eq!(typed.to_replica, b"\x01\n");
    assert_eq!(typed.to_master, b"^A\r\n");
}

#[test]
fn reprint_echoes_a_newline_and_the_line() {
    let mut state = State::default();
    let typed = state.input(b"ab\x12");
    assert_eq!(typed.to_replica, b"");
    assert_eq!(typed.to_master, b"ab^R\r\nab");
}

#[test]
fn literal_next_queues_a_signal_character_as_input() {
    let mut state = State::default();
    let typed = state.input(b"\x16\x03\n");
    assert_eq!(typed.to_replica, b"\x03\n");
    assert_eq!(typed.to_master, b"^\x08^C\r\n");
    assert!(typed.events.is_empty());
}

#[test]
fn echoprt_prints_erased_characters_between_backslash_and_slash() {
    let mut state = State::new(with_local(Termios::ECHOPRT, 0));
    let typed = state.input(b"abc\x7f\x7fd\n");
    assert_eq!(typed.to_replica, b"ad\n");
    assert_eq!(typed.to_master, b"abc\\cb/d\r\n");
}

#[test]
fn erase_without_echoe_echoes_the_erase_character() {
    let mut state = State::new(with_local(0, Termios::ECHOE));
    let typed = state.input(b"ab\x7f\n");
    assert_eq!(typed.to_replica, b"a\n");
    assert_eq!(typed.to_master, b"ab^?\r\n");
}

#[test]
fn erasing_a_tab_backs_up_to_the_column_it_left() {
    let mut state = State::default();
    let typed = state.input(b"a\t\x7f\n");
    assert_eq!(typed.to_replica, b"a\n");
    assert_eq!(typed.to_master, b"a\t\x08\x08\x08\x08\x08\x08\x08\r\n");
}

#[test]
fn iutf8_erases_a_whole_sequence() {
    let mut state = State::new(with_input(Termios::IUTF8, 0));
    let typed = state.input(b"x\xc3\xa9\x7f\n");
    assert_eq!(typed.to_replica, b"x\n");
    assert_eq!(typed.to_master, b"x\xc3\xa9\x08 \x08\r\n");
}

#[test]
fn an_erase_on_an_empty_line_does_nothing() {
    let mut state = State::default();
    let typed = state.input(b"\x7f\x17\x15\n");
    assert_eq!(typed.to_replica, b"\n");
    assert_eq!(typed.to_master, b"\r\n");
}

#[test]
fn veol_ends_the_line_with_itself() {
    let mut termios = Termios::default();
    termios.control_characters[Termios::VEOL] = b'!';
    let mut state = State::new(termios);
    let typed = state.input(b"ab!cd");
    assert_eq!(typed.to_replica, b"ab!");
    assert_eq!(typed.to_master, b"ab!cd");
}

#[test]
fn igncr_drops_carriage_returns() {
    let mut state = State::new(with_input(Termios::IGNCR, 0));
    let typed = state.input(b"a\rb\n");
    assert_eq!(typed.to_replica, b"ab\n");
    assert_eq!(typed.to_master, b"ab\r\n");
}

#[test]
fn inlcr_turns_a_newline_into_a_carriage_return() {
    let mut state = State::new(with_input(Termios::INLCR, Termios::ICRNL));
    let typed = state.input(b"a\n");
    assert_eq!(typed.to_replica, b"");
    assert_eq!(typed.to_master, b"a^M");
    let ended = state.input(b"\x04");
    assert_eq!(ended.to_replica, b"a\r");
}

#[test]
fn istrip_clears_the_high_bit() {
    let mut state = State::new(with_input(Termios::ISTRIP, 0));
    assert_eq!(state.input(b"\xe1\n").to_replica, b"a\n");
}

#[test]
fn iuclc_lowercases_under_iexten() {
    let mut state = State::new(with_input(Termios::IUCLC, 0));
    assert_eq!(state.input(b"AB\xc9\n").to_replica, b"ab\xe9\n");
}

#[test]
fn olcuc_uppercases_output() {
    let mut state = State::new(with_output(Termios::OPOST | Termios::OLCUC));
    assert_eq!(state.output(b"abc\xe9").to_master, b"ABC\xc9");
}

#[test]
fn onocr_drops_a_carriage_return_at_column_zero() {
    let mut state = State::new(with_output(Termios::OPOST | Termios::ONOCR));
    assert_eq!(state.output(b"\rab\r").to_master, b"ab\r");
}

#[test]
fn ocrnl_turns_a_carriage_return_into_a_newline() {
    let mut state = State::new(with_output(Termios::OPOST | Termios::OCRNL));
    assert_eq!(state.output(b"a\r").to_master, b"a\n");
}

#[test]
fn xtabs_expands_to_the_next_stop() {
    let mut state = State::new(with_output(Termios::OPOST | Termios::XTABS));
    assert_eq!(state.output(b"ab\n\t").to_master, b"ab\n      ");
    let mut state = State::new(with_output(Termios::OPOST | Termios::XTABS | Termios::ONLRET));
    assert_eq!(state.output(b"ab\n\t").to_master, b"ab\n        ");
}

#[test]
fn a_continuation_byte_takes_no_column_under_iutf8() {
    let mut termios = with_output(Termios::OPOST | Termios::XTABS);
    termios.input_flags |= Termios::IUTF8;
    let mut state = State::new(termios);
    assert_eq!(state.output(b"\xc3\xa9\t").to_master, b"\xc3\xa9       ");
}

#[test]
fn extproc_passes_bytes_and_turns_veof_into_an_end_of_file() {
    let mut state = State::new(with_local(Termios::EXTPROC, 0));
    let typed = state.input(b"ab\x04\x03");
    assert_eq!(typed.to_replica, b"ab\x03");
    assert_eq!(typed.events, [Event::Eof { at: 2 }]);
    assert_eq!(typed.to_master, b"");
}

#[test]
fn noflsh_keeps_the_line_across_a_signal() {
    let mut state = State::new(with_local(Termios::NOFLSH, 0));
    let typed = state.input(b"ab\x03cd\n");
    assert_eq!(typed.to_replica, b"abcd\n");
    assert_eq!(typed.to_master, b"ab^Ccd\r\n");
    assert_eq!(typed.events, [Event::Signal { at: 0, signal: Signal::Interrupt }]);
}

#[test]
fn a_signal_keeps_the_signals_named_before_it() {
    let mut state = State::default();
    let typed = state.input(b"a\n\x1cb\x1a");
    assert_eq!(typed.to_replica, b"");
    assert_eq!(typed.to_master, b"^Z");
    assert_eq!(
        typed.events,
        [
            Event::Signal { at: 0, signal: Signal::Quit },
            Event::Signal { at: 0, signal: Signal::Suspend }
        ]
    );
}

#[test]
fn quit_and_suspend_echo_their_characters() {
    let mut state = State::default();
    let quit = state.input(b"\x1c");
    assert_eq!(quit.to_master, b"^\\");
    assert_eq!(quit.events, [Event::Signal { at: 0, signal: Signal::Quit }]);
    let suspend = state.input(b"\x1a");
    assert_eq!(suspend.to_master, b"^Z");
    assert_eq!(suspend.events, [Event::Signal { at: 0, signal: Signal::Suspend }]);
}

#[test]
fn an_end_of_file_lands_after_the_lines_before_it() {
    let mut state = State::default();
    let typed = state.input(b"a\n\x04b\n");
    assert_eq!(typed.to_replica, b"a\nb\n");
    assert_eq!(typed.events, [Event::Eof { at: 2 }]);
}

#[test]
fn a_veof_after_input_hands_over_the_line_without_it() {
    let mut state = State::default();
    let typed = state.input(b"hi\x04");
    assert_eq!(typed.to_replica, b"hi");
    assert!(typed.events.is_empty());
}

#[test]
fn ixany_lets_any_byte_release_held_output() {
    let mut state = State::new(with_input(Termios::IXANY, 0));
    let typed = state.input(b"\x13ab");
    assert_eq!(typed.to_master, b"ab");
    assert!(!state.is_output_stopped());
}

#[test]
fn stop_output_holds_until_start_output() {
    let mut state = State::default();
    state.stop_output();
    assert_eq!(state.input(b"ab\x11").to_master, b"");
    assert!(state.is_output_stopped());
    let held = state.output(b"x");
    assert_eq!((held.consumed, held.to_master.as_slice()), (0, &b""[..]));
    state.start_output();
    assert!(!state.is_output_stopped());
    let shown = state.output(b"x");
    assert_eq!((shown.consumed, shown.to_master.as_slice()), (1, &b"abx"[..]));
}

#[test]
fn dropping_ixon_releases_held_echo() {
    let mut state = State::default();
    assert_eq!(state.input(b"\x13ab").to_master, b"");
    let released = state.set_termios(with_input(0, Termios::IXON));
    assert_eq!(released.to_master, b"ab");
    assert_eq!(released.to_replica, b"");
    assert!(!state.is_output_stopped());
}

#[test]
fn echonl_without_echo_shows_only_the_newline() {
    let mut state = State::new(with_local(Termios::ECHONL, Termios::ECHO));
    let typed = state.input(b"ab\n");
    assert_eq!(typed.to_replica, b"ab\n");
    assert_eq!(typed.to_master, b"\r\n");
}

#[test]
fn without_echo_nothing_is_shown() {
    let mut state = State::new(with_local(0, Termios::ECHO));
    let typed = state.input(b"ab\n");
    assert_eq!(typed.to_replica, b"ab\n");
    assert_eq!(typed.to_master, b"");
}

#[test]
fn raw_mode_hands_every_byte_over_unchanged() {
    let mut raw = Termios::default();
    raw.local_flags = 0;
    raw.input_flags = 0;
    let mut state = State::new(raw);
    let bytes = b"\x03\x04\r\n\x13\x11\x7f\x17\x15a";
    let typed = state.input(bytes);
    assert_eq!(typed.to_replica, bytes);
    assert!(typed.events.is_empty());
}

#[test]
fn canonical_input_waits_for_a_line_end() {
    let mut state = State::default();
    let typed = state.input(b"hello world");
    assert_eq!(typed.to_replica, b"");
    assert!(typed.events.is_empty());
    assert_eq!(state.input(b"\r").to_replica, b"hello world\n");
}

#[test]
fn leaving_canonical_mode_hands_over_the_line() {
    let mut state = State::default();
    assert_eq!(state.input(b"ab").to_replica, b"");
    let changed = state.set_termios(with_local(0, Termios::ICANON));
    assert_eq!(changed.to_replica, b"ab");
    assert_eq!(state.input(b"c").to_replica, b"c");
}

#[test]
fn termios_returns_what_set_termios_installed() {
    let mut state = State::default();
    let raw = with_local(0, Termios::ICANON | Termios::ECHO | Termios::ISIG);
    let changed = state.set_termios(raw);
    assert_eq!(changed.to_replica, b"");
    assert_eq!(state.termios(), &raw);
}

#[test]
fn a_full_line_keeps_its_first_bytes_and_the_newest() {
    let mut state = State::new(with_local(0, Termios::ECHO));
    let mut typed = vec![b'a'; 4095];
    typed.extend_from_slice(b"xyz");
    assert_eq!(state.input(&typed).to_replica, b"");
    let line = state.input(b"\n").to_replica;
    assert_eq!(line.len(), 4096);
    assert_eq!(&line[4093..], b"aa\n");
}

#[test]
fn output_after_echo_tracks_the_line_start() {
    let mut state = State::default();
    assert_eq!(state.output(b"$ ").to_master, b"$ ");
    let typed = state.input(b"x\t\x7f");
    assert_eq!(typed.to_master, b"x\t\x08\x08\x08\x08\x08");
}

#[test]
fn a_snapshot_mid_line_resumes_where_it_stopped() {
    let mut state = State::default();
    assert_eq!(state.input(b"ab\x13c").to_master, b"");
    let mut restored = State::restore(state.snapshot()).expect("a snapshot of a state restores");
    assert_eq!(restored, state);
    assert_eq!(restored.input(b"\x11\n").to_master, b"abc\r\n");
    assert_eq!(restored.input(b"").to_replica, b"");
    assert_eq!(state.input(b"\x11\n").to_replica, b"abc\n");
}

#[test]
fn restore_refuses_an_inconsistent_snapshot() {
    let state = State::default();
    let whole: Snapshot = state.snapshot();
    let mut cut = whole.clone();
    cut.echo = vec![b'a', 0xff];
    assert!(State::restore(cut).is_none());
    let mut long = whole.clone();
    long.line = vec![b'a'; 4097];
    assert!(State::restore(long).is_none());
    let mut inside = whole.clone();
    inside.echo = vec![0xff, 0x80, 3];
    inside.echo_commit = 1;
    assert!(State::restore(inside).is_none());
    let mut held = whole.clone();
    held.tco_stopped = true;
    assert!(State::restore(held).is_none());
    let mut fine = whole;
    fine.echo = vec![b'a', 0xff, 0x80, 3, 0xff, 0xff];
    fine.echo_commit = 4;
    fine.echo_mark = 6;
    assert!(State::restore(fine).is_some());
}

#[test]
fn splitting_an_input_hands_over_the_same_lines() {
    let mut split = State::default();
    let mut whole = State::default();
    let mut handed = split.input(b"ab\x7fc\nde").to_replica;
    handed.extend(split.input(b"f\x15gh\n").to_replica);
    assert_eq!(handed, b"ac\ngh\n");
    assert_eq!(whole.input(b"ab\x7fc\ndef\x15gh\n").to_replica, handed);
}

#[test]
fn splitting_a_silent_input_leaves_the_same_state() {
    let termios = with_local(0, Termios::ECHO | Termios::ECHONL);
    let mut split = State::new(termios);
    let mut whole = State::new(termios);
    let first = split.input(b"one\ntw");
    let second = split.input(b"o\nthr");
    let once = whole.input(b"one\ntwo\nthr");
    assert_eq!([first.to_replica, second.to_replica].concat(), once.to_replica);
    assert_eq!(split, whole);
}

#[test]
fn a_signal_character_without_isig_raises_no_event() {
    let mut state = State::new(with_local(0, Termios::ISIG));
    let typed = state.input(b"a\x03\n");
    assert_eq!(typed.events, []);
    assert_eq!(typed.to_replica, b"a\x03\n");
}

#[test]
fn splitting_an_echoed_input_leaves_the_same_state() {
    let mut split = State::default();
    let mut whole = State::default();
    let first = split.input(b"ls -la\x7f\x7f");
    let second = split.input(b"l\tx\x17y\n");
    let once = whole.input(b"ls -la\x7f\x7fl\tx\x17y\n");
    assert_eq!([first.to_replica, second.to_replica].concat(), once.to_replica);
    assert_eq!([first.to_master, second.to_master].concat(), once.to_master);
    assert_eq!(split, whole);
}
