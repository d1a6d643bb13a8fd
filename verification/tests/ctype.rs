use line_discipline::ctype::{is_alnum, is_cntrl, to_lower, to_upper};

#[test]
fn high_bytes_below_0xa0_are_not_control_characters() {
    assert_eq!(
        (is_cntrl(0x1f), is_cntrl(0x7f), is_cntrl(0x85)),
        (true, true, false)
    );
}

#[test]
fn latin_letters_are_word_characters_and_the_signs_are_not() {
    assert_eq!(
        (
            is_alnum(0xC3),
            is_alnum(0xD7),
            is_alnum(0xF7),
            is_alnum(0xFF)
        ),
        (true, false, false, true)
    );
}

#[test]
fn case_mapping_covers_latin_letters_only() {
    assert_eq!(
        (
            to_lower(0xC9),
            to_lower(0xD7),
            to_upper(0xE9),
            to_upper(0xF7)
        ),
        (0xE9, 0xD7, 0xC9, 0xF7)
    );
}

#[test]
fn sharp_s_uppercases_by_the_kernel_offset() {
    assert_eq!((to_upper(0xDF), to_upper(0xFF)), (0xBF, 0xDF));
}

#[test]
fn ascii_letters_and_digits_are_word_characters() {
    assert_eq!(
        (is_alnum(b'a'), is_alnum(b'Z'), is_alnum(b'5'), is_alnum(b'_'), is_alnum(b' ')),
        (true, true, true, false, false)
    );
    assert_eq!((to_lower(b'Q'), to_upper(b'q'), to_lower(b'1')), (b'q', b'Q', b'1'));
}
