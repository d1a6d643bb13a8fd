//! How many bytes the next character takes
use vstd::prelude::*;

use crate::termios::Termios;

verus! {

/// The length a UTF-8 lead byte announces, cut at the bytes there are: 2 for 0xC2 to 0xDF, 3 for
/// 0xE0 to 0xEF, 4 for 0xF0 to 0xF4, 1 for any other byte, 0 for no byte
pub open spec fn utf8_length(b: Seq<u8>) -> usize {
    if b.len() == 0 {
        0
    } else {
        let expected: usize = if 0xc2 <= b[0] <= 0xdf {
            2
        } else if 0xe0 <= b[0] <= 0xef {
            3
        } else if 0xf0 <= b[0] <= 0xf4 {
            4
        } else {
            1
        };
        if expected <= b.len() {
            expected
        } else {
            b.len() as usize
        }
    }
}

/// The bytes the next character takes: a UTF-8 sequence under `IUTF8`, one byte otherwise
pub open spec fn char_length(termios: Termios, b: Seq<u8>) -> usize {
    if termios.iflags(Termios::IUTF8) {
        utf8_length(b)
    } else {
        1
    }
}

/// The bytes the character at the start of `b` takes
pub fn char_len(termios: &Termios, b: &[u8]) -> (n: usize)
    ensures
        n == char_length(*termios, b@),
        b@.len() > 0 ==> 1 <= n <= b@.len(),
{
    if termios.i_enabled(Termios::IUTF8) {
        utf8_len(b)
    } else {
        1
    }
}

/// The length the lead byte announces, at most what `b` holds
fn utf8_len(b: &[u8]) -> (n: usize)
    ensures
        n == utf8_length(b@),
{
    if b.len() == 0 {
        return 0;
    }
    let first = b[0];
    let expected: usize = if 0xc2 <= first && first <= 0xdf {
        2
    } else if 0xe0 <= first && first <= 0xef {
        3
    } else if 0xf0 <= first && first <= 0xf4 {
        4
    } else {
        1
    };
    if expected <= b.len() {
        expected
    } else {
        b.len()
    }
}

} // verus!
