use filter_lex::{expect, span, take, take_while, LexErrorKind};

#[test]
fn expect_removes_the_literal() {
    assert_eq!(expect("GETx", "GET"), Ok("x"));
    assert_eq!(expect("GET", "GET"), Ok(""));
    assert_eq!(expect("==1", "="), Ok("=1"));
}

#[test]
fn expect_accepts_the_empty_literal() {
    assert_eq!(expect("abc", ""), Ok("abc"));
    assert_eq!(expect("", ""), Ok(""));
}

#[test]
fn expect_fails_at_the_whole_input() {
    assert_eq!(
        expect("POST", "GET"),
        Err((LexErrorKind::ExpectedLiteral("GET"), "POST"))
    );
    assert_eq!(
        expect("GE", "GET"),
        Err((LexErrorKind::ExpectedLiteral("GET"), "GE"))
    );
    assert_eq!(
        expect("", "GET"),
        Err((LexErrorKind::ExpectedLiteral("GET"), ""))
    );
    assert_eq!(
        expect("xGET", "GET"),
        Err((LexErrorKind::ExpectedLiteral("GET"), "xGET"))
    );
}

#[test]
fn expect_is_case_sensitive() {
    assert_eq!(
        expect("get", "GET"),
        Err((LexErrorKind::ExpectedLiteral("GET"), "get"))
    );
}

#[test]
fn expect_handles_wide_characters() {
    assert_eq!(expect("héllo", "hé"), Ok("llo"));
    assert_eq!(expect("→x", "→"), Ok("x"));
    assert_eq!(
        expect("hello", "hé"),
        Err((LexErrorKind::ExpectedLiteral("hé"), "hello"))
    );
}

#[test]
fn take_splits_after_the_count() {
    assert_eq!(take("abcdef", 2), Ok(("ab", "cdef")));
    assert_eq!(take("abc", 3), Ok(("abc", "")));
    assert_eq!(take("abc", 0), Ok(("", "abc")));
    assert_eq!(take("", 0), Ok(("", "")));
}

#[test]
fn take_counts_bytes() {
    assert_eq!(take("é1", 2), Ok(("é", "1")));
    assert_eq!(take("a→b", 4), Ok(("a→", "b")));
}

#[test]
fn take_reports_a_short_input() {
    assert_eq!(
        take("ab", 3),
        Err((
            LexErrorKind::CountMismatch {
                name: "character",
                actual: 2,
                expected: 3,
            },
            "ab"
        ))
    );
    assert_eq!(
        take("", 1),
        Err((
            LexErrorKind::CountMismatch {
                name: "character",
                actual: 0,
                expected: 1,
            },
            ""
        ))
    );
    assert_eq!(
        take("é", 3),
        Err((
            LexErrorKind::CountMismatch {
                name: "character",
                actual: 2,
                expected: 3,
            },
            "é"
        ))
    );
}

#[test]
fn take_while_returns_the_longest_run() {
    assert_eq!(
        take_while("123abc", "digit", |c| c.is_ascii_digit()),
        Ok(("123", "abc"))
    );
    assert_eq!(
        take_while("1a2", "digit", |c| c.is_ascii_digit()),
        Ok(("1", "a2"))
    );
}

#[test]
fn take_while_may_consume_everything() {
    assert_eq!(
        take_while("2024", "digit", |c| c.is_ascii_digit()),
        Ok(("2024", ""))
    );
}

#[test]
fn take_while_rejects_an_empty_run() {
    assert_eq!(
        take_while("abc", "digit", |c| c.is_ascii_digit()),
        Err((LexErrorKind::ExpectedName("digit"), "abc"))
    );
    assert_eq!(
        take_while("", "digit", |c| c.is_ascii_digit()),
        Err((LexErrorKind::ExpectedName("digit"), ""))
    );
}

#[test]
fn take_while_walks_wide_characters() {
    assert_eq!(
        take_while("ééx→", "letter", |c| c.is_alphabetic()),
        Ok(("ééx", "→"))
    );
    assert_eq!(
        take_while("→é", "letter", |c| c.is_alphabetic()),
        Err((LexErrorKind::ExpectedName("letter"), "→é"))
    );
}

#[test]
fn span_is_what_was_consumed() {
    let input = "field == 10";
    assert_eq!(span(input, &input[5..]), "field");
    assert_eq!(span(input, input), "");
    assert_eq!(span(input, &input[input.len()..]), input);
}

#[test]
fn span_and_remainder_restore_the_input() {
    let input = "héllo wörld";
    let (token, rest) = take_while(input, "word", |c| c != ' ').unwrap();
    assert_eq!(span(input, rest), token);
    assert_eq!(format!("{}{}", span(input, rest), rest), input);

    let rest = expect(input, "hé").unwrap();
    assert_eq!(format!("{}{}", span(input, rest), rest), input);

    let (_, rest) = take(input, 3).unwrap();
    assert_eq!(format!("{}{}", span(input, rest), rest), input);
}

#[test]
fn failures_repeat() {
    assert_eq!(expect("POST", "GET"), expect("POST", "GET"));
    assert_eq!(take("ab", 3), take("ab", 3));
    assert_eq!(
        take_while("abc", "digit", |c| c.is_ascii_digit()),
        take_while("abc", "digit", |c| c.is_ascii_digit())
    );
}
