//! The kernel's `lib/ctype.c` classes, which the discipline uses instead of ASCII or Unicode ones
use vstd::prelude::*;

verus! {

/// The C0 range and DEL
pub open spec fn cntrl(c: u8) -> bool {
    c < 0x20 || c == 0x7f
}

/// ASCII and Latin-1 uppercase letters, where 0xD7 is the multiplication sign
pub open spec fn upper(c: u8) -> bool {
    (0x41 <= c <= 0x5a) || (0xc0 <= c <= 0xde && c != 0xd7)
}

/// ASCII and Latin-1 lowercase letters, where 0xF7 is the division sign
pub open spec fn lower(c: u8) -> bool {
    (0x61 <= c <= 0x7a) || (0xdf <= c && c != 0xf7)
}

/// ASCII digits
pub open spec fn digit(c: u8) -> bool {
    0x30 <= c <= 0x39
}

/// Letters of either case and digits
pub open spec fn alnum(c: u8) -> bool {
    digit(c) || upper(c) || lower(c)
}

/// The kernel's `tolower`: 32 added to every uppercase letter
pub open spec fn lowered(c: u8) -> u8 {
    if upper(c) { (c + 32) as u8 } else { c }
}

/// The kernel's `toupper`: 32 taken from every lowercase letter
pub open spec fn uppered(c: u8) -> u8 {
    if lower(c) { (c - 32) as u8 } else { c }
}

/// Linux `iscntrl`, the C0 range and DEL
pub fn is_cntrl(c: u8) -> (r: bool)
    ensures
        r == cntrl(c),
{
    c < 0x20 || c == 0x7f
}

/// Linux `isalnum`, ASCII letters and digits plus the Latin-1 letters
pub fn is_alnum(c: u8) -> (r: bool)
    ensures
        r == alnum(c),
{
    (0x30 <= c && c <= 0x39) || is_upper(c) || is_lower(c)
}

/// Linux `tolower`, which adds 32 to every uppercase letter, Latin-1 included
pub fn to_lower(c: u8) -> (r: u8)
    ensures
        r == lowered(c),
{
    if is_upper(c) {
        c + 32
    } else {
        c
    }
}

/// Linux `toupper`, which subtracts 32 from every lowercase letter, so 0xDF gives 0xBF
pub fn to_upper(c: u8) -> (r: u8)
    ensures
        r == uppered(c),
{
    if is_lower(c) {
        c - 32
    } else {
        c
    }
}

/// Linux `isupper`, ASCII and Latin-1 uppercase letters, where 0xD7 is the multiplication sign
fn is_upper(c: u8) -> (r: bool)
    ensures
        r == upper(c),
{
    (0x41 <= c && c <= 0x5a) || (0xc0 <= c && c <= 0xde && c != 0xd7)
}

/// Linux `islower`, ASCII and Latin-1 lowercase letters, where 0xF7 is the division sign
fn is_lower(c: u8) -> (r: bool)
    ensures
        r == lower(c),
{
    (0x61 <= c && c <= 0x7a) || (0xdf <= c && c != 0xf7)
}

/// Lowercasing an uppercase Latin-1 letter gives a lowercase one that uppercases back, and the
/// other way round for every lowercase letter but 0xdf and 0xff, which have no uppercase letter
pub proof fn case_mapping_round_trips(c: u8)
    ensures
        upper(c) ==> lower(lowered(c)) && uppered(lowered(c)) == c,
        lower(c) && c != 0xdf && c != 0xff ==> upper(uppered(c)) && lowered(uppered(c)) == c,
{
}

} // verus!
