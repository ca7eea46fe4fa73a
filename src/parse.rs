use vstd::prelude::*;

use crate::message::Message;
use crate::text::{i32_value, join_words, join_with_spaces, parse_i32, same_text, split_words, tokens};

verus! {

/// The arithmetic commands, which take integer operands.
#[derive(Clone, Copy, Debug, PartialEq, Eq, Structural)]
pub enum Operation {
    Add,
    Sub,
    Mult,
    Div,
    Neg,
    Sqrt,
}

/// Why a line of input did not become a message.
#[derive(Clone, Copy, Debug, PartialEq, Eq, Structural)]
pub enum ParseError {
    /// The line holds no word.
    EmptyInput,
    /// An operand of an arithmetic command is not a decimal `i32`.
    InvalidNumber,
    /// An arithmetic command with the wrong number of operands.
    InvalidCommand(Operation),
    /// `Error` with no text after it.
    MissingDescription,
    /// The first word names no command.
    UnknownCommand,
}

/// The text that describes `e` to a user.
pub open spec fn error_text(e: ParseError) -> Seq<char> {
    match e {
        ParseError::EmptyInput => "Empty input"@,
        ParseError::InvalidNumber => "Invalid number"@,
        ParseError::InvalidCommand(op) => "Invalid "@ + operation_word(op) + " command"@,
        ParseError::MissingDescription => "Error message must contain a description"@,
        ParseError::UnknownCommand => "Unknown command"@,
    }
}

impl ParseError {
    /// A sentence that describes the error.
    pub fn text(&self) -> (r: String)
        ensures
            r@ == error_text(*self),
    {
        match self {
            ParseError::EmptyInput => String::from_str("Empty input"),
            ParseError::InvalidNumber => String::from_str("Invalid number"),
            ParseError::InvalidCommand(op) => {
                let mut t = String::from_str("Invalid ");
                t.append(operation_name(*op));
                t.append(" command");
                t
            },
            ParseError::MissingDescription => String::from_str(
                "Error message must contain a description",
            ),
            ParseError::UnknownCommand => String::from_str("Unknown command"),
        }
    }
}

/// The word that introduces `op`.
pub fn operation_name(op: Operation) -> (r: &'static str)
    ensures
        r@ == operation_word(op),
{
    match op {
        Operation::Add => "add",
        Operation::Sub => "sub",
        Operation::Mult => "mult",
        Operation::Div => "div",
        Operation::Neg => "neg",
        Operation::Sqrt => "sqrt",
    }
}

/// The word that introduces `op`.
pub open spec fn operation_word(op: Operation) -> Seq<char> {
    match op {
        Operation::Add => "add"@,
        Operation::Sub => "sub"@,
        Operation::Mult => "mult"@,
        Operation::Div => "div"@,
        Operation::Neg => "neg"@,
        Operation::Sqrt => "sqrt"@,
    }
}

/// The operation that the word `w` introduces, if any.
pub open spec fn operation_of(w: Seq<char>) -> Option<Operation> {
    if w == "add"@ {
        Some(Operation::Add)
    } else if w == "sub"@ {
        Some(Operation::Sub)
    } else if w == "mult"@ {
        Some(Operation::Mult)
    } else if w == "div"@ {
        Some(Operation::Div)
    } else if w == "neg"@ {
        Some(Operation::Neg)
    } else if w == "sqrt"@ {
        Some(Operation::Sqrt)
    } else {
        None
    }
}

/// How many operands `op` takes.
pub open spec fn arity(op: Operation) -> nat {
    match op {
        Operation::Neg | Operation::Sqrt => 1,
        _ => 2,
    }
}

/// The message for `op` on the operand words `args`, which are as many as
/// `op` takes.
pub open spec fn operation_message(op: Operation, args: Seq<Seq<char>>) -> Result<
    Message<String>,
    ParseError,
> {
    if arity(op) == 1 {
        match i32_value(args[0]) {
            Some(x) => Ok(
                match op {
                    Operation::Neg => Message::Neg(x),
                    _ => Message::Sqrt(x),
                },
            ),
            None => Err(ParseError::InvalidNumber),
        }
    } else {
        match (i32_value(args[0]), i32_value(args[1])) {
            (Some(x), Some(y)) => Ok(
                match op {
                    Operation::Add => Message::Add(x, y),
                    Operation::Sub => Message::Sub(x, y),
                    Operation::Mult => Message::Mult(x, y),
                    _ => Message::Div(x, y),
                },
            ),
            _ => Err(ParseError::InvalidNumber),
        }
    }
}

/// `r` is what the words `ws` of a line parse to.
pub open spec fn parses_to(ws: Seq<Seq<char>>, r: Result<Message<String>, ParseError>) -> bool {
    if ws.len() == 0 {
        r == Err::<Message<String>, ParseError>(ParseError::EmptyInput)
    } else {
        match operation_of(ws[0]) {
            Some(op) => if ws.len() == arity(op) + 1 {
                r == operation_message(op, ws.drop_first())
            } else {
                r == Err::<Message<String>, ParseError>(ParseError::InvalidCommand(op))
            },
            None => if ws[0] == "list"@ {
                r matches Ok(Message::List(l)) && l@.map_values(|w: String| w@) == ws.drop_first()
            } else if ws[0] == "Error"@ {
                if ws.len() > 1 {
                    r matches Ok(Message::Error(e)) && e@ == join_words(ws.drop_first())
                } else {
                    r == Err::<Message<String>, ParseError>(ParseError::MissingDescription)
                }
            } else {
                r == Err::<Message<String>, ParseError>(ParseError::UnknownCommand)
            },
        }
    }
}

/// The operation that the word `w` introduces, if any.
fn operation_named(w: &str) -> (r: Option<Operation>)
    ensures
        r == operation_of(w@),
{
    if same_text(w, "add") {
        Some(Operation::Add)
    } else if same_text(w, "sub") {
        Some(Operation::Sub)
    } else if same_text(w, "mult") {
        Some(Operation::Mult)
    } else if same_text(w, "div") {
        Some(Operation::Div)
    } else if same_text(w, "neg") {
        Some(Operation::Neg)
    } else if same_text(w, "sqrt") {
        Some(Operation::Sqrt)
    } else {
        None
    }
}

/// Turns a line of whitespace-separated words into a message.
///
/// The words of a `list` are handed on as they stand: what they mean as
/// numbers is for the stage that aggregates them.
pub fn parse_message(input: &str) -> (r: Result<Message<String>, ParseError>)
    ensures
        parses_to(tokens(input@), r),
{
    parse_words(split_words(input))
}

/// The words of the line that ends input.
pub open spec fn exit_words() -> Seq<Seq<char>> {
    seq!["all_done"@]
}

/// Reads one line of input: the exit keyword alone becomes `Halt`, anything
/// else is parsed as a command.
pub fn read_command(line: &str) -> (r: Result<Message<String>, ParseError>)
    ensures
        tokens(line@) == exit_words() ==> r == Ok::<Message<String>, ParseError>(Message::Halt),
        tokens(line@) != exit_words() ==> parses_to(tokens(line@), r),
{
    let parts = split_words(line);
    if parts.len() == 1 && same_text(parts[0].as_str(), "all_done") {
        assert(parts@.map_values(|w: String| w@) =~= exit_words());
        return Ok(Message::Halt);
    }
    proof {
        let ws = parts@.map_values(|w: String| w@);
        if ws == exit_words() {
            assert(ws.len() == 1);
            assert(ws[0] == parts@[0]@);
            assert(exit_words()[0] == "all_done"@);
        }
    }
    parse_words(parts)
}

/// Parses a line already split into words.
fn parse_words(mut parts: Vec<String>) -> (r: Result<Message<String>, ParseError>)
    ensures
        parses_to(parts@.map_values(|w: String| w@), r),
{
    let ghost ws = parts@.map_values(|w: String| w@);
    assert(ws.len() == parts@.len());
    if parts.len() == 0 {
        return Err(ParseError::EmptyInput);
    }
    assert(parts@[0]@ == ws[0]);
    let n = parts.len();
    match operation_named(parts[0].as_str()) {
        Some(op) => {
            let want: usize = match op {
                Operation::Neg | Operation::Sqrt => 1,
                _ => 2,
            };
            if n != want + 1 {
                return Err(ParseError::InvalidCommand(op));
            }
            let ghost args = ws.drop_first();
            assert(parts@[1]@ == args[0]);
            let x = match parse_i32(parts[1].as_str()) {
                Some(x) => x,
                None => {
                    return Err(ParseError::InvalidNumber);
                },
            };
            if want == 1 {
                return Ok(
                    match op {
                        Operation::Neg => Message::Neg(x),
                        _ => Message::Sqrt(x),
                    },
                );
            }
            assert(parts@[2]@ == args[1]);
            let y = match parse_i32(parts[2].as_str()) {
                Some(y) => y,
                None => {
                    return Err(ParseError::InvalidNumber);
                },
            };
            Ok(
                match op {
                    Operation::Add => Message::Add(x, y),
                    Operation::Sub => Message::Sub(x, y),
                    Operation::Mult => Message::Mult(x, y),
                    _ => Message::Div(x, y),
                },
            )
        },
        None => {
            if same_text(parts[0].as_str(), "list") {
                let rest = parts.split_off(1);
                assert(rest@.map_values(|w: String| w@) =~= ws.drop_first());
                Ok(Message::List(rest))
            } else if same_text(parts[0].as_str(), "Error") {
                if n > 1 {
                    let rest = parts.split_off(1);
                    assert(rest@.map_values(|w: String| w@) =~= ws.drop_first());
                    Ok(Message::Error(join_with_spaces(rest.as_slice())))
                } else {
                    Err(ParseError::MissingDescription)
                }
            } else {
                Err(ParseError::UnknownCommand)
            }
        },
    }
}

} // verus!
