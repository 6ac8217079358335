use codespan_reporting::diagnostic::{LabelStyle, Severity};
use parser::diagnostic::DiagnosticParts;
use parser::text::decimal_string;
use parser::{Error, ErrorType, Lexer, Position};

fn primary_message(parts: &DiagnosticParts) -> String {
    assert!(parts.labels[0].primary);
    parts.labels[0].message.clone()
}

#[test]
fn an_error_gives_back_its_position_and_kind() {
    let position = Position::new(4, 9, 2, 3);
    let error = Error::new(position, ErrorType::UnknownIdentifier("x".to_string()));
    assert_eq!(error.get_position(), position);
    match error.get_error_type() {
        ErrorType::UnknownIdentifier(name) => assert_eq!(name, "x"),
        other => panic!("unexpected kind {:?}", other),
    }
}

#[test]
fn each_constructor_makes_its_kind() {
    let p = Position::new(1, 2, 1, 2);
    assert!(matches!(Error::new_expect_arguments(p, 2, 3).get_error_type(), ErrorType::ExpectArguments(2, 3)));
    match Error::new_expect_token(p, ")", "]").get_error_type() {
        ErrorType::ExpectToken(e, g) => assert_eq!((e.as_str(), g.as_str()), (")", "]")),
        other => panic!("unexpected kind {:?}", other),
    }
    match Error::new_expect_type(p, "number", "string").get_error_type() {
        ErrorType::ExpectType(e, g) => assert_eq!((e.as_str(), g.as_str()), ("number", "string")),
        other => panic!("unexpected kind {:?}", other),
    }
    match Error::new_lexical(p, "Unknown character.").get_error_type() {
        ErrorType::Lexical(m) => assert_eq!(m, "Unknown character."),
        other => panic!("unexpected kind {:?}", other),
    }
    assert!(matches!(Error::new_unknown_token(p).get_error_type(), ErrorType::UnknownToken));
    assert_eq!(Error::new_unknown_token(p).get_position(), p);
}

#[test]
fn an_unknown_position_stands_at_the_start() {
    let p = Position::new(7, 8, 3, 2);
    let error = Error::new_unknown_position(p);
    assert_eq!(error.get_position(), Position::new(0, 0, 1, 1));
    assert!(matches!(error.get_error_type(), ErrorType::UnknownPosition(q) if q == p));
}

#[test]
fn diagnostic_of_expected_arguments() {
    let error = Error::new_expect_arguments(Position::new(5, 9, 1, 6), 2, 13);
    let parts = error.diagnostic_parts();
    assert_eq!(parts.message, "Expected arguments");
    assert_eq!(parts.labels.len(), 1);
    assert_eq!((parts.labels[0].start, parts.labels[0].end), (5, 9));
    assert_eq!(primary_message(&parts), "Expect `2` arguments, got `13` instead.");
}

#[test]
fn diagnostic_of_each_kind() {
    let p = Position::new(0, 3, 1, 1);
    let cases: Vec<(Error, &str, &str)> = vec![
        (Error::new_expect_token(p, ")", "]"), "Expected token", "Expect `)`, got `]` instead."),
        (
            Error::new_expect_type(p, "number", "string"),
            "Expected data type",
            "Expect `number` data type, got `string` instead.",
        ),
        (Error::new_lexical(p, "Unknown character."), "Lexical", "Unknown character."),
        (
            Error::new_unknown_identifier(p, "foo".to_string()),
            "Unknown identifier",
            "Cannot find `foo` in this scope.",
        ),
        (
            Error::new_unknown_position(Position::new(10, 12, 4, 7)),
            "Unknown position",
            "Cannot recognize the position at 4:7.",
        ),
        (Error::new_unknown_token(p), "Unknown token", "Cannot recognize this token."),
    ];
    for (error, header, label) in cases {
        let parts = error.diagnostic_parts();
        assert_eq!(parts.message, header);
        assert_eq!(parts.labels.len(), 1);
        assert_eq!(primary_message(&parts), label);
    }
}

#[test]
fn diagnostic_of_a_name_in_use_points_at_both_places() {
    let error = Error::new(
        Position::new(20, 23, 3, 5),
        ErrorType::NameInUse("abc".to_string(), Position::new(4, 7, 1, 5)),
    );
    let parts = error.diagnostic_parts();
    assert_eq!(parts.message, "The identifier is already in use");
    assert_eq!(parts.labels.len(), 2);
    assert_eq!(primary_message(&parts), "The `abc` identifier is already in use.");
    assert!(!parts.labels[1].primary);
    assert_eq!((parts.labels[1].start, parts.labels[1].end), (4, 7));
    assert_eq!(parts.labels[1].message, "The `abc` identifier is used here.");

    let d = error.to_diagnostic();
    assert_eq!(d.labels.len(), 2);
    assert_eq!(d.labels[1].style, LabelStyle::Secondary);
    assert_eq!(d.labels[1].range, 4..7);
    assert_eq!(d.labels[1].message, "The `abc` identifier is used here.");
}

#[test]
fn to_diagnostic_builds_an_error_diagnostic() {
    let mut lexer = Lexer::new("a | b".to_string());
    let error = lexer.run().unwrap_err();
    let d = error.to_diagnostic();
    assert_eq!(d.severity, Severity::Error);
    assert_eq!(d.message, "Lexical");
    assert_eq!(d.code, None);
    assert!(d.notes.is_empty());
    assert_eq!(d.labels.len(), 1);
    assert_eq!(d.labels[0].style, LabelStyle::Primary);
    assert_eq!(d.labels[0].range, 2..2);
    assert_eq!(d.labels[0].message, "Maybe do you wish to use `||` instead of `|`?");
}

#[test]
fn numbers_are_written_in_decimal() {
    assert_eq!(decimal_string(0), "0");
    assert_eq!(decimal_string(7), "7");
    assert_eq!(decimal_string(10), "10");
    assert_eq!(decimal_string(1234567890), "1234567890");
    assert_eq!(decimal_string(usize::MAX), usize::MAX.to_string());
}

#[test]
fn positions_are_written_as_line_and_column() {
    assert_eq!(Position::new(0, 0, 12, 345).to_text(), "12:345");
}

#[test]
fn a_position_moves_its_end_only() {
    let mut p = Position::new(3, 3, 1, 4);
    p.set_end_position(8);
    assert_eq!(p, Position::new(3, 8, 1, 4));
    assert_eq!(p.get_range(), 3..8);
}

#[test]
fn an_error_kind_clones_to_itself() {
    let kind = ErrorType::NameInUse("n".to_string(), Position::new(1, 2, 3, 4));
    match kind.clone() {
        ErrorType::NameInUse(name, p) => {
            assert_eq!(name, "n");
            assert_eq!(p, Position::new(1, 2, 3, 4));
        }
        other => panic!("unexpected kind {:?}", other),
    }
}
