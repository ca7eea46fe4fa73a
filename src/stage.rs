use vstd::prelude::*;

use crate::message::{Message, StageId};

verus! {

/// What a stage says about a message it handles.
///
/// Quotients, square roots and list aggregates are real numbers: a report
/// carries their operands, and the driver computes and prints the value.
#[derive(Debug)]
pub enum Report<V> {
    /// The stage has seen `Halt`, passed it on, and stops.
    Halting,
    Sum { x: i32, y: i32, result: i64 },
    Difference { x: i32, y: i32, result: i64 },
    Product { x: i32, y: i32, result: i64 },
    /// `x / y` with `y` not zero.
    Quotient { x: i32, y: i32 },
    DivisionByZero,
    Negation { x: i32, result: i64 },
    /// The square root of `x`, which is not negative.
    SquareRoot { x: i32 },
    NegativeSquareRoot,
    /// A non-empty list, to be summed or multiplied out.
    Aggregate(Vec<V>),
    /// The text of an `Error` message.
    ErrorText(String),
    /// A message that no stage recognised, and how many such messages the
    /// sink has seen so far, this one included.
    NotHandled { message: Message<V>, number: usize },
    /// The sink has seen `Halt`; `unhandled` messages reached it before.
    Halted { unhandled: usize },
    /// The sink's inbound link closed before any `Halt`.
    ReceiverError,
}

/// The outcome of one message at a forwarding stage.
pub struct Step<V> {
    pub report: Option<Report<V>>,
    pub forward: Option<Message<V>>,
}

/// Whether `stage` passes `m` on to the next stage. `Halt` is passed on
/// by every stage but the last; the sink passes on nothing.
pub open spec fn passes<V>(stage: StageId, m: Message<V>) -> bool {
    match stage {
        StageId::Arithmetic => !(m is Add || m is Sub || m is Mult || m is Div || m is Neg
            || m is Sqrt),
        StageId::Aggregation => !(m is List),
        StageId::Sink => false,
    }
}

/// What the arithmetic stage reports on `m`.
pub open spec fn arithmetic_report<V>(m: Message<V>) -> Option<Report<V>> {
    match m {
        Message::Halt => Some(Report::Halting),
        Message::Add(x, y) => Some(Report::Sum { x, y, result: (x + y) as i64 }),
        Message::Sub(x, y) => Some(Report::Difference { x, y, result: (x - y) as i64 }),
        Message::Mult(x, y) => Some(Report::Product { x, y, result: (x * y) as i64 }),
        Message::Div(x, y) => Some(
            if y == 0 {
                Report::DivisionByZero
            } else {
                Report::Quotient { x, y }
            },
        ),
        Message::Neg(x) => Some(Report::Negation { x, result: (-x) as i64 }),
        Message::Sqrt(x) => Some(
            if x < 0 {
                Report::NegativeSquareRoot
            } else {
                Report::SquareRoot { x }
            },
        ),
        _ => None,
    }
}

/// What the aggregation stage reports on `m`.
pub open spec fn aggregation_report<V>(m: Message<V>) -> Option<Report<V>> {
    match m {
        Message::Halt => Some(Report::Halting),
        Message::List(l) => if l@.len() > 0 {
            Some(Report::Aggregate(l))
        } else {
            None
        },
        _ => None,
    }
}

/// Whether the sink counts `m` as unhandled.
pub open spec fn counts_as_unhandled<V>(m: Message<V>) -> bool {
    !(m is Halt) && !(m is Error)
}

/// What the sink reports on `m` after `n` unhandled messages.
pub open spec fn sink_report<V>(m: Message<V>, n: nat) -> Report<V> {
    match m {
        Message::Halt => Report::Halted { unhandled: n as usize },
        Message::Error(e) => Report::ErrorText(e),
        _ => Report::NotHandled { message: m, number: (n + 1) as usize },
    }
}

/// The outcome at `stage` of a message whose report there is `report`.
pub open spec fn step_of<V>(stage: StageId, m: Message<V>, report: Option<Report<V>>) -> Step<V> {
    Step { report, forward: if passes(stage, m) { Some(m) } else { None } }
}

/// The arithmetic stage on one message: it computes what it owns and
/// passes on the rest unchanged.
pub fn arithmetic_step<V>(msg: Message<V>) -> (r: Step<V>)
    ensures
        r == step_of(StageId::Arithmetic, msg, arithmetic_report(msg)),
{
    match msg {
        Message::Halt => Step { report: Some(Report::Halting), forward: Some(Message::Halt) },
        Message::Add(x, y) => Step {
            report: Some(Report::Sum { x, y, result: x as i64 + y as i64 }),
            forward: None,
        },
        Message::Sub(x, y) => Step {
            report: Some(Report::Difference { x, y, result: x as i64 - y as i64 }),
            forward: None,
        },
        Message::Mult(x, y) => {
            assert(i32::MIN * i32::MAX <= x * y <= i32::MIN * i32::MIN) by (nonlinear_arith)
                requires
                    i32::MIN <= x <= i32::MAX,
                    i32::MIN <= y <= i32::MAX,
            ;
            Step {
                report: Some(Report::Product { x, y, result: x as i64 * y as i64 }),
                forward: None,
            }
        },
        Message::Div(x, y) => Step {
            report: Some(
                if y == 0 {
                    Report::DivisionByZero
                } else {
                    Report::Quotient { x, y }
                },
            ),
            forward: None,
        },
        Message::Neg(x) => Step {
            report: Some(Report::Negation { x, result: -(x as i64) }),
            forward: None,
        },
        Message::Sqrt(x) => Step {
            report: Some(
                if x < 0 {
                    Report::NegativeSquareRoot
                } else {
                    Report::SquareRoot { x }
                },
            ),
            forward: None,
        },
        other => Step { report: None, forward: Some(other) },
    }
}

/// The aggregation stage on one message: it reports non-empty lists, drops
/// empty ones, and passes on the rest unchanged.
pub fn aggregation_step<V>(msg: Message<V>) -> (r: Step<V>)
    ensures
        r == step_of(StageId::Aggregation, msg, aggregation_report(msg)),
{
    match msg {
        Message::Halt => Step { report: Some(Report::Halting), forward: Some(Message::Halt) },
        Message::List(l) => Step {
            report: if l.len() > 0 {
                Some(Report::Aggregate(l))
            } else {
                None
            },
            forward: None,
        },
        other => Step { report: None, forward: Some(other) },
    }
}

/// Where the sink stands: listening until `Halt` arrives or its inbound link
/// closes.
#[derive(Clone, Copy, Debug, PartialEq, Eq, Structural)]
pub enum SinkState {
    Listening,
    Halted,
    ReceiverError,
}

/// The terminal stage, with its count of unhandled messages.
pub struct SinkStage {
    pub unhandled: usize,
    pub state: SinkState,
}

impl SinkStage {
    pub fn new() -> (s: SinkStage)
        ensures
            s.unhandled == 0,
            s.state == SinkState::Listening,
    {
        SinkStage { unhandled: 0, state: SinkState::Listening }
    }

    /// Takes one message: `Halt` ends the stage with the final count, an
    /// `Error` is surfaced uncounted, anything else is counted and shown.
    pub fn step<V>(&mut self, msg: Message<V>) -> (r: Report<V>)
        requires
            old(self).state == SinkState::Listening,
            old(self).unhandled < usize::MAX,
        ensures
            r == sink_report(msg, old(self).unhandled as nat),
            final(self).unhandled == old(self).unhandled + if counts_as_unhandled(msg) {
                1int
            } else {
                0int
            },
            final(self).state == if msg is Halt {
                SinkState::Halted
            } else {
                SinkState::Listening
            },
    {
        match msg {
            Message::Halt => {
                self.state = SinkState::Halted;
                Report::Halted { unhandled: self.unhandled }
            },
            Message::Error(e) => Report::ErrorText(e),
            other => {
                self.unhandled = self.unhandled + 1;
                Report::NotHandled { message: other, number: self.unhandled }
            },
        }
    }

    /// The inbound link closed while the sink was still listening.
    pub fn disconnect<V>(&mut self) -> (r: Report<V>)
        requires
            old(self).state == SinkState::Listening,
        ensures
            r == Report::<V>::ReceiverError,
            final(self).state == SinkState::ReceiverError,
            final(self).unhandled == old(self).unhandled,
    {
        self.state = SinkState::ReceiverError;
        Report::ReceiverError
    }
}

} // verus!
