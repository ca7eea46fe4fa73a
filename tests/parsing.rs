use stage_pipeline::message::Message;
use stage_pipeline::parse::{operation_name, parse_message, read_command, Operation, ParseError};

#[test]
fn parses_binary_commands() {
    assert!(matches!(parse_message("add 2 3"), Ok(Message::Add(2, 3))));
    assert!(matches!(parse_message("sub 10 -4"), Ok(Message::Sub(10, -4))));
    assert!(matches!(parse_message("mult +6 7"), Ok(Message::Mult(6, 7))));
    assert!(matches!(parse_message("div 7 2"), Ok(Message::Div(7, 2))));
}

#[test]
fn parses_unary_commands() {
    assert!(matches!(parse_message("neg 5"), Ok(Message::Neg(5))));
    assert!(matches!(parse_message("sqrt 16"), Ok(Message::Sqrt(16))));
    assert!(matches!(parse_message("sqrt -9"), Ok(Message::Sqrt(-9))));
}

#[test]
fn words_may_be_separated_by_any_whitespace() {
    assert!(matches!(parse_message("  add\t1 \u{3000} 2\n"), Ok(Message::Add(1, 2))));
}

#[test]
fn wrong_operand_counts_name_the_command() {
    assert_eq!(parse_message("add 1").err(), Some(ParseError::InvalidCommand(Operation::Add)));
    assert_eq!(parse_message("sub 1 2 3").err(), Some(ParseError::InvalidCommand(Operation::Sub)));
    assert_eq!(parse_message("neg").err(), Some(ParseError::InvalidCommand(Operation::Neg)));
    assert_eq!(parse_message("sqrt 1 2").err(), Some(ParseError::InvalidCommand(Operation::Sqrt)));
}

#[test]
fn operands_must_be_decimal_i32() {
    assert_eq!(parse_message("add 1 x").err(), Some(ParseError::InvalidNumber));
    assert_eq!(parse_message("div 1.5 2").err(), Some(ParseError::InvalidNumber));
    assert_eq!(parse_message("neg -").err(), Some(ParseError::InvalidNumber));
    assert_eq!(parse_message("neg +").err(), Some(ParseError::InvalidNumber));
    assert_eq!(parse_message("neg 1a").err(), Some(ParseError::InvalidNumber));
    assert_eq!(parse_message("neg --1").err(), Some(ParseError::InvalidNumber));
}

#[test]
fn operand_range_is_that_of_i32() {
    assert!(matches!(parse_message("neg 2147483647"), Ok(Message::Neg(2147483647))));
    assert!(matches!(parse_message("neg -2147483648"), Ok(Message::Neg(i32::MIN))));
    assert_eq!(parse_message("neg 2147483648").err(), Some(ParseError::InvalidNumber));
    assert_eq!(parse_message("neg -2147483649").err(), Some(ParseError::InvalidNumber));
    assert_eq!(parse_message("neg 99999999999999999999").err(), Some(ParseError::InvalidNumber));
    assert!(matches!(parse_message("neg 0000000000000012"), Ok(Message::Neg(12))));
}

#[test]
fn unknown_command_is_rejected() {
    assert_eq!(parse_message("foo bar").err(), Some(ParseError::UnknownCommand));
    assert_eq!(parse_message("Add 1 2").err(), Some(ParseError::UnknownCommand));
    assert_eq!(ParseError::UnknownCommand.text(), "Unknown command");
}

#[test]
fn empty_line_is_rejected() {
    assert_eq!(parse_message("").err(), Some(ParseError::EmptyInput));
    assert_eq!(parse_message(" \t ").err(), Some(ParseError::EmptyInput));
}

#[test]
fn list_keeps_its_words() {
    match parse_message("list 2 4.5 x") {
        Ok(Message::List(l)) => assert_eq!(l, vec!["2".to_string(), "4.5".to_string(), "x".to_string()]),
        _ => panic!("expected a list"),
    }
    match parse_message("list") {
        Ok(Message::List(l)) => assert!(l.is_empty()),
        _ => panic!("expected a list"),
    }
}

#[test]
fn error_text_is_joined_by_single_spaces() {
    match parse_message("Error  some   text") {
        Ok(Message::Error(e)) => assert_eq!(e, "some text"),
        _ => panic!("expected an error message"),
    }
    assert_eq!(parse_message("Error").err(), Some(ParseError::MissingDescription));
}

#[test]
fn error_texts() {
    assert_eq!(ParseError::EmptyInput.text(), "Empty input");
    assert_eq!(ParseError::InvalidNumber.text(), "Invalid number");
    assert_eq!(ParseError::InvalidCommand(Operation::Mult).text(), "Invalid mult command");
    assert_eq!(ParseError::InvalidCommand(Operation::Div).text(), "Invalid div command");
    assert_eq!(
        ParseError::MissingDescription.text(),
        "Error message must contain a description"
    );
    assert_eq!(operation_name(Operation::Sqrt), "sqrt");
}

#[test]
fn exit_keyword_becomes_halt() {
    assert!(matches!(read_command("all_done"), Ok(Message::Halt)));
    assert!(matches!(read_command("  all_done \n"), Ok(Message::Halt)));
    assert_eq!(read_command("all_done now").err(), Some(ParseError::UnknownCommand));
    assert_eq!(read_command("All_done").err(), Some(ParseError::UnknownCommand));
    assert!(matches!(read_command("add 1 2"), Ok(Message::Add(1, 2))));
}

#[test]
fn parser_never_yields_halt() {
    assert_eq!(parse_message("all_done").err(), Some(ParseError::UnknownCommand));
}
