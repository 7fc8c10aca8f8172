use filter_lex::{byte_outcome, hex_byte, oct_byte, LexErrorKind};

#[test]
fn hex_byte_reads_two_digits() {
    assert_eq!(hex_byte("1Fxyz"), Ok((31, "xyz")));
    assert_eq!(hex_byte("ff"), Ok((255, "")));
    assert_eq!(hex_byte("00"), Ok((0, "")));
    assert_eq!(hex_byte("a0b"), Ok((160, "b")));
    assert_eq!(hex_byte("123"), Ok((18, "3")));
}

#[test]
fn hex_byte_accepts_a_plus_sign() {
    assert_eq!(hex_byte("+Fz"), Ok((15, "z")));
}

#[test]
fn hex_byte_fails_at_the_digits() {
    let cause = u8::from_str_radix("GG", 16).unwrap_err();
    assert_eq!(
        hex_byte("GGxyz"),
        Err((
            LexErrorKind::ParseInt {
                err: cause,
                radix: 16
            },
            "GG"
        ))
    );
    let cause = u8::from_str_radix("-1", 16).unwrap_err();
    assert_eq!(
        hex_byte("-1"),
        Err((
            LexErrorKind::ParseInt {
                err: cause,
                radix: 16
            },
            "-1"
        ))
    );
    let cause = u8::from_str_radix("1 ", 16).unwrap_err();
    assert_eq!(
        hex_byte("1 2"),
        Err((
            LexErrorKind::ParseInt {
                err: cause,
                radix: 16
            },
            "1 "
        ))
    );
}

#[test]
fn hex_byte_needs_two_bytes() {
    assert_eq!(
        hex_byte("f"),
        Err((
            LexErrorKind::CountMismatch {
                name: "character",
                actual: 1,
                expected: 2
            },
            "f"
        ))
    );
    assert_eq!(
        hex_byte(""),
        Err((
            LexErrorKind::CountMismatch {
                name: "character",
                actual: 0,
                expected: 2
            },
            ""
        ))
    );
}

#[test]
fn hex_byte_rejects_a_wide_character() {
    let cause = u8::from_str_radix("é", 16).unwrap_err();
    assert_eq!(
        hex_byte("é1"),
        Err((
            LexErrorKind::ParseInt {
                err: cause,
                radix: 16
            },
            "é"
        ))
    );
}

#[test]
fn oct_byte_reads_three_digits() {
    assert_eq!(oct_byte("101abc"), Ok((65, "abc")));
    assert_eq!(oct_byte("377"), Ok((255, "")));
    assert_eq!(oct_byte("0007"), Ok((0, "7")));
    assert_eq!(oct_byte("+17"), Ok((15, "")));
}

#[test]
fn oct_byte_needs_three_bytes() {
    assert_eq!(
        oct_byte("9"),
        Err((
            LexErrorKind::CountMismatch {
                name: "character",
                actual: 1,
                expected: 3
            },
            "9"
        ))
    );
}

#[test]
fn oct_byte_rejects_what_is_no_byte() {
    let overflow = u8::from_str_radix("400", 8).unwrap_err();
    assert_eq!(
        oct_byte("400"),
        Err((
            LexErrorKind::ParseInt {
                err: overflow,
                radix: 8
            },
            "400"
        ))
    );
    let digit = u8::from_str_radix("778", 8).unwrap_err();
    assert_eq!(
        oct_byte("7789"),
        Err((
            LexErrorKind::ParseInt {
                err: digit,
                radix: 8
            },
            "778"
        ))
    );
}

#[test]
fn byte_outcome_keeps_the_value_or_the_cause() {
    assert_eq!(byte_outcome(Ok(7), "07", "rest", 16), Ok((7, "rest")));
    let cause = "x".parse::<u8>().unwrap_err();
    assert_eq!(
        byte_outcome(Err(cause.clone()), "x", "rest", 8),
        Err((
            LexErrorKind::ParseInt {
                err: cause,
                radix: 8
            },
            "x"
        ))
    );
}

#[test]
fn byte_failures_repeat() {
    assert_eq!(hex_byte("GGxyz"), hex_byte("GGxyz"));
    assert_eq!(oct_byte("9"), oct_byte("9"));
    assert_eq!(oct_byte("400"), oct_byte("400"));
}
