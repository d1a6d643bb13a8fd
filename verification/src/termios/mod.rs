//! `struct ktermios` as an open record, with the flag bits and `c_cc` indices of `termbits.h`
use vstd::prelude::*;

mod control;
mod flags;

verus! {

/// Entries in `c_cc`
pub const NCCS: usize = 19;

/// The Linux `struct ktermios` as an open record
#[derive(Debug, Clone, Copy, PartialEq, Eq, Hash)]
#[non_exhaustive]
pub struct Termios {
    /// `c_iflag`
    pub input_flags: u32,
    /// `c_oflag`
    pub output_flags: u32,
    /// `c_cflag`
    pub control_flags: u32,
    /// `c_lflag`
    pub local_flags: u32,
    /// `c_line`
    pub line_discipline: u8,
    /// `c_cc`, indexed by the `V*` constants
    pub control_characters: [u8; NCCS],
    /// `c_ispeed`
    pub input_speed: u32,
    /// `c_ospeed`
    pub output_speed: u32,
}

/// The control character a letter names, `^C` for `C`
pub open spec fn ctrl(letter: u8) -> u8 {
    letter & 0x1f
}

/// The kernel's `INIT_C_CC`: `^C ^\ DEL ^U ^D` for interrupt, quit, erase, kill and end of file,
/// `VMIN` 1, `^Q ^S ^Z` for start, stop and suspend, `^R ^O ^W ^V` for reprint, discard,
/// word erase and literal next, and 0 (disabled) everywhere else
pub open spec fn initial_control_characters() -> Seq<u8> {
    seq![3u8, 28, 0x7f, 21, 4, 0, 1, 0, 17, 19, 26, 0, 18, 15, 23, 22, 0, 0, 0]
}

impl Termios {
    /// The control character at a `c_cc` index, 0 (disabled) past the end
    pub open spec fn cc(self, index: int) -> u8 {
        if 0 <= index < NCCS {
            self.control_characters@[index]
        } else {
            0
        }
    }

    /// Whether every bit of `flag` is set in `c_iflag`
    pub open spec fn iflags(self, flag: u32) -> bool {
        self.input_flags & flag == flag
    }

    /// Whether every bit of `flag` is set in `c_oflag`
    pub open spec fn oflags(self, flag: u32) -> bool {
        self.output_flags & flag == flag
    }

    /// Whether every bit of `flag` is set in `c_lflag`
    pub open spec fn lflags(self, flag: u32) -> bool {
        self.local_flags & flag == flag
    }

    /// A byte the end of file character names, which is never the disabled value 0
    pub open spec fn eof_char(self, c: u8) -> bool {
        self.cc(Termios::VEOF as int) != 0 && c == self.cc(Termios::VEOF as int)
    }

    /// A one-byte sequence that ends a canonical line: end of file, newline, `VEOL`, or `VEOL2`
    /// under `IEXTEN`, none of them NUL
    pub open spec fn terminates(self, c_bytes: Seq<u8>) -> bool {
        &&& c_bytes.len() == 1
        &&& {
            let c = c_bytes[0];
            ||| self.eof_char(c)
            ||| (c != 0 && (c == 10 || c == self.cc(Termios::VEOL as int)))
            ||| (c != 0 && c == self.cc(Termios::VEOL2 as int) && self.lflags(Termios::IEXTEN))
        }
    }

    /// What `tcgetattr` reports on a fresh pty replica: `ICRNL` and `IXON` on input, `OPOST` and
    /// `ONLCR` on output, 38400 baud and eight bits, canonical mode with signals, echo, `ECHOE`,
    /// `ECHOK`, `ECHOCTL`, `ECHOKE` and `IEXTEN`, and the kernel's initial control characters
    pub open spec fn is_pty_default(self) -> bool {
        &&& self.input_flags == Termios::ICRNL | Termios::IXON
        &&& self.output_flags == Termios::OPOST | Termios::ONLCR
        &&& self.control_flags == Termios::B38400 | Termios::CS8 | Termios::CREAD | (Termios::B38400
            << Termios::IBSHIFT)
        &&& self.local_flags == Termios::ISIG | Termios::ICANON | Termios::ECHO | Termios::ECHOE
            | Termios::ECHOK | Termios::ECHOCTL | Termios::ECHOKE | Termios::IEXTEN
        &&& self.line_discipline == 0
        &&& self.control_characters@ == initial_control_characters()
        &&& self.input_speed == 38400
        &&& self.output_speed == 38400
    }

    /// Length of `control_characters`
    pub const NCCS: usize = NCCS;

    /// Whether every bit of `flag` is set in `c_iflag`
    #[must_use]
    pub fn i_enabled(&self, flag: u32) -> (r: bool)
        ensures
            r == self.iflags(flag),
    {
        self.input_flags & flag == flag
    }

    /// Whether every bit of `flag` is set in `c_oflag`
    #[must_use]
    pub fn o_enabled(&self, flag: u32) -> (r: bool)
        ensures
            r == self.oflags(flag),
    {
        self.output_flags & flag == flag
    }

    /// Whether every bit of `flag` is set in `c_lflag`
    #[must_use]
    pub fn l_enabled(&self, flag: u32) -> (r: bool)
        ensures
            r == self.lflags(flag),
    {
        self.local_flags & flag == flag
    }

    /// Whether `c` is the end of file character, which 0 disables
    #[must_use]
    pub fn is_eof(&self, c: u8) -> (r: bool)
        ensures
            r == self.eof_char(c),
    {
        let eof = self.control_characters[Termios::VEOF];
        eof != 0 && c == eof
    }

    /// Whether a one-character sequence ends a canonical line
    #[must_use]
    pub fn is_terminating(&self, c_bytes: &[u8]) -> (r: bool)
        ensures
            r == self.terminates(c_bytes@),
    {
        if c_bytes.len() != 1 {
            return false;
        }
        let c = c_bytes[0];
        if self.is_eof(c) {
            return true;
        }
        if c == 0 {
            return false;
        }
        if c == 10 || c == self.control_characters[Termios::VEOL] {
            return true;
        }
        c == self.control_characters[Termios::VEOL2] && self.l_enabled(Termios::IEXTEN)
    }
}

/// The kernel's `INIT_C_CC`
fn default_control_characters() -> (cc: [u8; NCCS])
    ensures
        cc@ == initial_control_characters(),
        cc@[Termios::VINTR as int] == ctrl(0x43),
        cc@[Termios::VQUIT as int] == ctrl(0x5c),
        cc@[Termios::VERASE as int] == 0x7f,
        cc@[Termios::VKILL as int] == ctrl(0x55),
        cc@[Termios::VEOF as int] == ctrl(0x44),
        cc@[Termios::VMIN as int] == 1,
        cc@[Termios::VSTART as int] == ctrl(0x51),
        cc@[Termios::VSTOP as int] == ctrl(0x53),
        cc@[Termios::VSUSP as int] == ctrl(0x5a),
        cc@[Termios::VREPRINT as int] == ctrl(0x52),
        cc@[Termios::VDISCARD as int] == ctrl(0x4f),
        cc@[Termios::VWERASE as int] == ctrl(0x57),
        cc@[Termios::VLNEXT as int] == ctrl(0x56),
{
    assert(ctrl(0x43) == 3 && ctrl(0x5c) == 28 && ctrl(0x55) == 21 && ctrl(0x44) == 4 && ctrl(0x51)
        == 17 && ctrl(0x53) == 19 && ctrl(0x5a) == 26 && ctrl(0x52) == 18 && ctrl(0x4f) == 15
        && ctrl(0x57) == 23 && ctrl(0x56) == 22) by (bit_vector);
    let cc: [u8; NCCS] = [3, 28, 0x7f, 21, 4, 0, 1, 0, 17, 19, 26, 0, 18, 15, 23, 22, 0, 0, 0];
    assert(cc@ =~= initial_control_characters());
    cc
}

/// What `tcgetattr` reports on a fresh pty replica
impl Default for Termios {
    fn default() -> (t: Self)
        ensures
            t.is_pty_default(),
    {
        Termios {
            input_flags: Termios::ICRNL | Termios::IXON,
            output_flags: Termios::OPOST | Termios::ONLCR,
            control_flags: Termios::B38400 | Termios::CS8 | Termios::CREAD | (Termios::B38400
                << Termios::IBSHIFT),
            local_flags: Termios::ISIG | Termios::ICANON | Termios::ECHO | Termios::ECHOE
                | Termios::ECHOK | Termios::ECHOCTL | Termios::ECHOKE | Termios::IEXTEN,
            line_discipline: 0,
            control_characters: default_control_characters(),
            input_speed: 38400,
            output_speed: 38400,
        }
    }
}

} // verus!
