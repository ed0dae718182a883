use mastermind::input::{decimal_digit, parse_digits, parse_guess};

#[test]
fn a_decimal_digit_has_its_value() {
    assert_eq!(Some(0), decimal_digit('0'));
    assert_eq!(Some(5), decimal_digit('5'));
    assert_eq!(Some(9), decimal_digit('9'));
}

#[test]
fn other_characters_have_no_value() {
    for c in ['/', ':', 'a', 'F', ' ', '\n', '-', '\u{0663}', '\u{ff11}'] {
        assert_eq!(None, decimal_digit(c));
    }
}

#[test]
fn four_digits_make_a_guess() {
    assert_eq!(Some([1, 2, 3, 4]), parse_digits("1234"));
    assert_eq!(Some([0, 9, 0, 9]), parse_digits("0909"));
}

#[test]
fn digits_after_the_fourth_are_ignored() {
    assert_eq!(Some([1, 2, 3, 4]), parse_digits("12345"));
    assert_eq!(Some([9, 8, 7, 6]), parse_digits("9876543210"));
}

#[test]
fn fewer_than_four_digits_make_no_guess() {
    assert_eq!(None, parse_digits(""));
    assert_eq!(None, parse_digits("1"));
    assert_eq!(None, parse_digits("123"));
}

#[test]
fn any_other_character_spoils_the_guess() {
    assert_eq!(None, parse_digits("12a4"));
    assert_eq!(None, parse_digits("1 234"));
    assert_eq!(None, parse_digits("-1234"));
    assert_eq!(None, parse_digits("1234x"));
    assert_eq!(None, parse_digits("12345678 "));
    assert_eq!(None, parse_digits("\u{ff11}\u{ff12}\u{ff13}\u{ff14}"));
}

#[test]
fn digits_alone_are_read_without_trimming() {
    assert_eq!(None, parse_digits(" 1234"));
    assert_eq!(None, parse_digits("1234\n"));
}

#[test]
fn white_space_round_a_line_is_ignored() {
    assert_eq!(Some([1, 2, 3, 4]), parse_guess("1234\n"));
    assert_eq!(Some([1, 2, 3, 4]), parse_guess("  1234 \r\n"));
    assert_eq!(Some([0, 9, 8, 7]), parse_guess("\t0987"));
    assert_eq!(Some([5, 6, 7, 8]), parse_guess("56789\n"));
}

#[test]
fn white_space_inside_a_line_is_not() {
    assert_eq!(None, parse_guess("12 34\n"));
    assert_eq!(None, parse_guess("1234 5\n"));
}

#[test]
fn a_line_without_a_guess_gives_none() {
    assert_eq!(None, parse_guess(""));
    assert_eq!(None, parse_guess("\n"));
    assert_eq!(None, parse_guess("123\n"));
    assert_eq!(None, parse_guess("abcd\n"));
}

#[test]
fn every_character_has_the_value_that_the_standard_library_gives_it() {
    for code in 0..=0x10ffff_u32 {
        if let Some(c) = char::from_u32(code) {
            assert_eq!(c.to_digit(10), decimal_digit(c));
        }
    }
}

#[test]
fn lines_are_read_as_their_trimmed_digits() {
    let lines = [
        "1234\n",
        " 0123456789 ",
        "\u{a0}4321\u{3000}",
        "\u{2003}1234",
        "12\u{a0}34",
        "x1234",
        "987",
        "   ",
        "7777\r\n",
    ];
    for line in lines {
        let digits: Option<Vec<u32>> = line.trim().chars().map(|c| c.to_digit(10)).collect();
        let expected = match digits {
            Some(digits) if digits.len() >= 4 => {
                Some([digits[0], digits[1], digits[2], digits[3]])
            }
            _ => None,
        };
        assert_eq!(expected, parse_guess(line));
    }
    assert_eq!(Some([4, 3, 2, 1]), parse_guess("\u{a0}4321\u{3000}"));
    assert_eq!(None, parse_guess("12\u{a0}34"));
}
