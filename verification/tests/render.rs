use filter_lex::LexErrorKind;

#[test]
fn message_of_an_expected_name() {
    assert_eq!(
        LexErrorKind::ExpectedName("digit").message(),
        "expected digit"
    );
}

#[test]
fn message_of_an_expected_literal_quotes_it() {
    assert_eq!(
        LexErrorKind::ExpectedLiteral("GET").message(),
        "expected literal \"GET\""
    );
    assert_eq!(
        LexErrorKind::ExpectedLiteral("\"\n").message(),
        "expected literal \"\\\"\\n\""
    );
}

#[test]
fn message_of_a_parse_failure_names_the_radix() {
    let err = u8::from_str_radix("GG", 16).unwrap_err();
    assert_eq!(
        LexErrorKind::ParseInt { err, radix: 16 }.message(),
        "invalid digit found in string while parsing with radix 16"
    );
    let err = u8::from_str_radix("400", 8).unwrap_err();
    assert_eq!(
        LexErrorKind::ParseInt { err, radix: 8 }.message(),
        "number too large to fit in target type while parsing with radix 8"
    );
}

#[test]
fn message_of_a_network_failure_is_its_cause() {
    let err = "300.0.0.0/8".parse::<cidr::IpCidr>().unwrap_err();
    let expected = err.to_string();
    assert_eq!(LexErrorKind::ParseNetwork(err).message(), expected);
}

#[test]
fn message_of_a_regex_failure_is_its_cause() {
    let err = regex::Regex::new("(").unwrap_err();
    let expected = err.to_string();
    assert_eq!(LexErrorKind::ParseRegex(err).message(), expected);
}

#[test]
fn message_of_a_count_mismatch_writes_both_counts() {
    assert_eq!(
        LexErrorKind::CountMismatch {
            name: "character",
            actual: 1,
            expected: 3
        }
        .message(),
        "expected 3 characters, but found 1"
    );
    assert_eq!(
        LexErrorKind::CountMismatch {
            name: "byte",
            actual: 0,
            expected: 10
        }
        .message(),
        "expected 10 bytes, but found 0"
    );
    assert_eq!(
        LexErrorKind::CountMismatch {
            name: "item",
            actual: 18446744073709551615,
            expected: 1005
        }
        .message(),
        "expected 1005 items, but found 18446744073709551615"
    );
}

#[test]
fn message_of_an_unsupported_operation_names_both() {
    assert_eq!(
        LexErrorKind::UnsupportedOp {
            lhs: "Bytes",
            op: "GreaterThan"
        }
        .message(),
        "cannot use operation GreaterThan on type Bytes"
    );
}

#[test]
fn messages_without_payload() {
    assert_eq!(
        LexErrorKind::InvalidCharacterEscape.message(),
        "expected \", xHH or OOO after \\"
    );
    assert_eq!(
        LexErrorKind::MissingEndingQuote.message(),
        "could not find an ending quote"
    );
    assert_eq!(LexErrorKind::UnknownField.message(), "unknown field");
    assert_eq!(LexErrorKind::EOF.message(), "unrecognised input");
}

#[test]
fn kinds_compare_by_variant_and_payload() {
    assert_eq!(
        LexErrorKind::ExpectedName("a"),
        LexErrorKind::ExpectedName("a")
    );
    assert_ne!(
        LexErrorKind::ExpectedName("a"),
        LexErrorKind::ExpectedName("b")
    );
    assert_ne!(
        LexErrorKind::ExpectedName("a"),
        LexErrorKind::ExpectedLiteral("a")
    );
    assert_ne!(LexErrorKind::UnknownField, LexErrorKind::EOF);
}
