use line_discipline::{Event, Signal, Snapshot, State, Termios};

/// The default termios without the local flags named
fn without(local: u32) -> Termios {
    let mut termios = Termios::default();
    termios.local_flags &= !local;
    termios
}

#[test]
fn flush_input_drops_the_pending_line() {
    let mut state = State::default();
    assert_eq!(state.input(b"ab").to_replica, b"");
    state.flush_input();
    assert_eq!(state.input(b"\n").to_replica, b"\n");
}

#[test]
fn stop_holds_output_and_echo_until_start() {
    let mut state = State::default();
    assert_eq!(state.input(b"\x13ab").to_master, b"");
    let held = state.output(b"x");
    assert_eq!((held.consumed, held.to_master.as_slice()), (0, &b""[..]));
    assert_eq!(state.input(b"\x11").to_master, b"ab");
    let shown = state.output(b"x");
    assert_eq!((shown.consumed, shown.to_master.as_slice()), (1, &b"x"[..]));
}

#[test]
fn output_without_opost_passes_through() {
    let mut termios = Termios::default();
    termios.output_flags = 0;
    let mut state = State::new(termios);
    assert_eq!(state.output(b"a\n\tb").to_master, b"a\n\tb");
}

#[test]
fn the_default_termios_is_the_pty_replica_default() {
    let termios = Termios::default();
    assert_eq!(termios.input_flags, Termios::ICRNL | Termios::IXON);
    assert_eq!(termios.output_flags, Termios::OPOST | Termios::ONLCR);
    assert_eq!(termios.control_characters.get(Termios::VEOF), Some(&4));
    assert_eq!(termios.control_characters.len(), Termios::NCCS);
    assert_eq!(
        (
            termios.input_speed,
            termios.output_speed,
            termios.line_discipline
        ),
        (38400, 38400, 0)
    );
}

#[test]
fn a_parmrk_flood_keeps_the_line_within_the_kernel_buffer() {
    let mut termios = Termios::default();
    termios.input_flags |= Termios::PARMRK;
    let mut state = State::new(termios);
    assert_eq!(state.input(&[0xff; 5000]).to_replica, b"");
    let line = state.input(b"\n").to_replica;
    assert_eq!(line.len(), 4096);
    assert_eq!((line.first(), line.last()), (Some(&0xff), Some(&b'\n')));
}

#[test]
fn held_echo_drops_its_oldest_bytes_past_the_kernel_watermark() {
    let mut state = State::default();
    assert_eq!(state.input(b"\x13").to_master, b"");
    assert_eq!(state.input(&[b'a'; 4096]).to_master, b"");
    assert_eq!(state.input(b"b").to_master, b"");
    let released = state.input(b"\x11").to_master;
    assert_eq!(released.len(), 3808);
    assert_eq!(
        (released.first(), released.last()),
        (Some(&b'a'), Some(&b'b'))
    );
}

#[test]
fn a_line_from_keystrokes_is_edited_and_echoed() {
    let mut state = State::default();
    let typed = state.input(b"ls -la\x7f\x7fl\n");
    assert_eq!(typed.to_replica, b"ls -l\n");
    assert_eq!(typed.to_master, b"ls -la\x08 \x08\x08 \x08l\r\n");
    let shown = state.output(b"file.txt\n");
    assert_eq!(shown.to_master, b"file.txt\r\n");
}

#[test]
fn a_signal_drops_the_line_and_lands_at_its_offset() {
    let mut state = State::default();
    let interrupted = state.input(b"ab\x03cd\n");
    assert_eq!(interrupted.to_replica, b"cd\n");
    assert_eq!(interrupted.to_master, b"^Ccd\r\n");
    assert_eq!(
        interrupted.events,
        [Event::Signal { at: 0, signal: Signal::Interrupt }]
    );
}

#[test]
fn an_end_of_file_on_an_empty_line_is_an_event() {
    let mut state = State::default();
    let ended = state.input(b"\x04echo\n");
    assert_eq!(ended.to_replica, b"echo\n");
    assert_eq!(ended.events, [Event::Eof { at: 0 }]);
}

#[test]
fn flow_control_holds_and_releases_output() {
    let mut state = State::default();
    assert_eq!(state.input(b"\x13ab").to_master, b"");
    let held = state.output(b"hello\n");
    assert_eq!(held.consumed, 0);
    assert!(state.is_output_stopped());
    assert_eq!(state.input(b"\x11").to_master, b"ab");
    let shown = state.output(b"hello\n");
    assert_eq!(shown.to_master, b"hello\r\n");
}

#[test]
fn raw_mode_releases_the_line_and_passes_bytes() {
    let mut raw = Termios::default();
    raw.local_flags &= !(Termios::ICANON | Termios::ECHO | Termios::ISIG);
    raw.input_flags &= !Termios::ICRNL;
    raw.output_flags &= !Termios::OPOST;
    let mut state = State::default();
    assert_eq!(state.input(b"ab").to_master, b"ab");
    assert_eq!(state.set_termios(raw).to_replica, b"ab");
    assert_eq!(state.input(b"\x03\r").to_replica, b"\x03\r");
    assert_eq!(state.termios(), &raw);
}

#[test]
fn a_termios_change_within_canonical_mode_releases_nothing() {
    let mut state = State::default();
    assert_eq!(state.input(b"ab").to_replica, b"");
    let changed = state.set_termios(without(Termios::ECHO));
    assert_eq!((changed.to_replica.as_slice(), changed.to_master.as_slice()), (&b""[..], &b""[..]));
    assert_eq!(state.input(b"\n").to_replica, b"ab\n");
}

#[test]
fn a_canonical_line_reaches_the_program_with_its_echo() {
    let mut state = State::default();
    let result = state.input(b"ls\n");
    assert_eq!(result.events, []);
    assert_eq!(result.to_replica, b"ls\n");
    assert_eq!(result.to_master, b"ls\r\n");
    assert!(!result.events.iter().any(|e| matches!(e, Event::Signal { .. })));
}

#[test]
fn each_signal_character_names_its_signal_and_ends_the_call() {
    let mut state = State::default();
    let typed = b"\x03\x1c\x1a";
    let mut signals = Vec::new();
    for byte in typed {
        let result = state.input(&[*byte]);
        signals.push((result.events, result.to_replica.len(), result.to_master));
    }
    assert_eq!(
        signals,
        [
            (vec![Event::Signal { at: 0, signal: Signal::Interrupt }], 0, b"^C".to_vec()),
            (vec![Event::Signal { at: 0, signal: Signal::Quit }], 0, b"^\\".to_vec()),
            (vec![Event::Signal { at: 0, signal: Signal::Suspend }], 0, b"^Z".to_vec()),
        ]
    );
}

#[test]
fn a_signal_flushes_the_line_and_the_echo_unless_noflsh() {
    let mut state = State::default();
    let flushed = state.input(b"ab\x03c\n");
    assert_eq!(
        (
            flushed.events.as_slice(),
            flushed.to_replica.as_slice(),
            flushed.to_master.as_slice()
        ),
        (
            &[Event::Signal { at: 0, signal: Signal::Interrupt }][..],
            &b"c\n"[..],
            &b"^Cc\r\n"[..]
        )
    );
    assert_eq!(state.input(b"c\n").to_replica, b"c\n");

    let mut termios = Termios::default();
    termios.local_flags |= Termios::NOFLSH;
    let mut state = State::new(termios);
    let kept = state.input(b"ab\x03c\n");
    assert_eq!(
        (
            kept.events.as_slice(),
            kept.to_replica.as_slice(),
            kept.to_master.as_slice()
        ),
        (
            &[Event::Signal { at: 0, signal: Signal::Interrupt }][..],
            &b"abc\n"[..],
            &b"ab^Cc\r\n"[..]
        )
    );
    assert_eq!(state.input(b"c\n").to_replica, b"c\n");
}

#[test]
fn an_end_of_file_on_an_empty_line_ends_the_call() {
    let mut state = State::default();
    let result = state.input(b"a\n\x04b\n");
    assert_eq!(result.events, [Event::Eof { at: 2 }]);
    assert_eq!(result.to_replica, b"a\nb\n");
    let rest = state.input(b"b\n");
    assert_eq!(rest.events, []);
    assert_eq!(rest.to_replica, b"b\n");
}

#[test]
fn an_end_of_file_after_input_delivers_the_line_without_it() {
    let mut state = State::default();
    let result = state.input(b"hi\x04");
    assert_eq!(result.events, []);
    assert_eq!(result.to_replica, b"hi");
}

#[test]
fn leaving_canonical_mode_releases_the_pending_line() {
    let mut state = State::default();
    assert_eq!(state.input(b"ab").to_replica, b"");
    assert_eq!(state.set_termios(without(Termios::ICANON)).to_replica, b"ab");
    assert_eq!(state.input(b"c").to_replica, b"c");
}

#[test]
fn a_termios_change_within_canonical_mode_keeps_the_pending_line() {
    let mut state = State::default();
    assert_eq!(state.input(b"ab").to_replica, b"");
    assert_eq!(state.set_termios(without(Termios::ECHO)).to_replica, b"");
    assert_eq!(state.input(b"\n").to_replica, b"ab\n");
}

#[test]
fn the_termios_accessor_returns_what_was_set() {
    let mut state = State::default();
    let raw = without(Termios::ICANON | Termios::ECHO | Termios::ISIG);
    assert_eq!(state.set_termios(raw).to_replica, b"");
    assert_eq!(state.termios(), &raw);
}

/// A snapshot as values rkyv archives on its own
type Record = (
    (u32, u32, u32, u32, u8, [u8; 19], u32, u32),
    (Vec<u8>, Vec<u8>, u64, u64, u64, u64),
    (bool, bool, bool, bool),
);

fn record(s: &Snapshot) -> Record {
    let t = &s.termios;
    (
        (
            t.input_flags,
            t.output_flags,
            t.control_flags,
            t.local_flags,
            t.line_discipline,
            t.control_characters,
            t.input_speed,
            t.output_speed,
        ),
        (
            s.line.clone(),
            s.echo.clone(),
            s.echo_commit as u64,
            s.echo_mark as u64,
            s.column as u64,
            s.canon_column as u64,
        ),
        (s.erasing, s.lnext, s.stopped, s.tco_stopped),
    )
}

fn snapshot(r: Record) -> Snapshot {
    let ((i, o, c, l, d, cc, ispeed, ospeed), (line, echo, commit, mark, column, canon), flags) = r;
    let mut termios = Termios::default();
    termios.input_flags = i;
    termios.output_flags = o;
    termios.control_flags = c;
    termios.local_flags = l;
    termios.line_discipline = d;
    termios.control_characters = cc;
    termios.input_speed = ispeed;
    termios.output_speed = ospeed;
    Snapshot {
        termios,
        line,
        echo,
        echo_commit: commit as usize,
        echo_mark: mark as usize,
        column: column as usize,
        canon_column: canon as usize,
        erasing: flags.0,
        lnext: flags.1,
        stopped: flags.2,
        tco_stopped: flags.3,
    }
}

#[test]
fn a_state_mid_line_survives_an_rkyv_round_trip() {
    let mut state = State::default();
    assert_eq!(state.input(b"ab\x13c").to_master, b"");
    let bytes = rkyv::to_bytes::<rkyv::rancor::Error>(&record(&state.snapshot())).expect("serialize");
    let back = rkyv::from_bytes::<Record, rkyv::rancor::Error>(&bytes).expect("deserialize");
    let mut restored = State::restore(snapshot(back)).expect("consistent");
    assert_eq!(restored, state);
    assert_eq!(restored.input(b"\x11\n").to_master, b"abc\r\n");
    assert_eq!(restored.input(b"").to_replica, b"");
    let mut original = state;
    assert_eq!(original.input(b"\x11\n").to_replica, b"abc\n");
}
