use stage_pipeline::message::{Message, StageId};
use stage_pipeline::pipeline::Pipeline;
use stage_pipeline::stage::{aggregation_step, arithmetic_step, Report, SinkStage, SinkState};

#[test]
fn arithmetic_results_are_exact() {
    let s = arithmetic_step::<f64>(Message::Add(2, 3));
    assert!(matches!(s.report, Some(Report::Sum { x: 2, y: 3, result: 5 })));
    assert!(s.forward.is_none());
    let s = arithmetic_step::<f64>(Message::Sub(3, 10));
    assert!(matches!(s.report, Some(Report::Difference { x: 3, y: 10, result: -7 })));
    let s = arithmetic_step::<f64>(Message::Mult(-4, 6));
    assert!(matches!(s.report, Some(Report::Product { x: -4, y: 6, result: -24 })));
    let s = arithmetic_step::<f64>(Message::Neg(5));
    assert!(matches!(s.report, Some(Report::Negation { x: 5, result: -5 })));
}

#[test]
fn arithmetic_does_not_wrap() {
    let s = arithmetic_step::<f64>(Message::Add(i32::MAX, 1));
    assert!(matches!(s.report, Some(Report::Sum { result: 2147483648, .. })));
    let s = arithmetic_step::<f64>(Message::Mult(i32::MIN, i32::MIN));
    assert!(matches!(s.report, Some(Report::Product { result: 4611686018427387904, .. })));
    let s = arithmetic_step::<f64>(Message::Neg(i32::MIN));
    assert!(matches!(s.report, Some(Report::Negation { result: 2147483648, .. })));
    let s = arithmetic_step::<f64>(Message::Sub(i32::MIN, i32::MAX));
    assert!(matches!(s.report, Some(Report::Difference { result: -4294967295, .. })));
}

#[test]
fn division_by_zero_is_absorbed() {
    let s = arithmetic_step::<f64>(Message::Div(7, 0));
    assert!(matches!(s.report, Some(Report::DivisionByZero)));
    assert!(s.forward.is_none());
}

#[test]
fn division_reports_its_operands() {
    let s = arithmetic_step::<f64>(Message::Div(7, 2));
    match s.report {
        Some(Report::Quotient { x, y }) => assert_eq!(x as f64 / y as f64, 3.5),
        _ => panic!("expected a quotient"),
    }
    assert!(s.forward.is_none());
}

#[test]
fn square_roots() {
    let s = arithmetic_step::<f64>(Message::Sqrt(-4));
    assert!(matches!(s.report, Some(Report::NegativeSquareRoot)));
    assert!(s.forward.is_none());
    let s = arithmetic_step::<f64>(Message::Sqrt(16));
    match s.report {
        Some(Report::SquareRoot { x }) => assert_eq!((x as f64).sqrt(), 4.0),
        _ => panic!("expected a square root"),
    }
    assert!(s.forward.is_none());
}

#[test]
fn arithmetic_forwards_the_rest() {
    let s = arithmetic_step::<f64>(Message::List(vec![1.0]));
    assert!(s.report.is_none());
    assert!(matches!(s.forward, Some(Message::List(ref l)) if l == &vec![1.0]));
    let s = arithmetic_step::<f64>(Message::Error("e".to_string()));
    assert!(matches!(s.forward, Some(Message::Error(ref e)) if e == "e"));
    let s = arithmetic_step::<f64>(Message::Unhandled);
    assert!(matches!(s.forward, Some(Message::Unhandled)));
    let s = arithmetic_step::<f64>(Message::Halt);
    assert!(matches!(s.report, Some(Report::Halting)));
    assert!(matches!(s.forward, Some(Message::Halt)));
}

#[test]
fn aggregation_reports_lists() {
    let s = aggregation_step(Message::List(vec![2.0, 4.0, 6.0]));
    assert!(matches!(s.report, Some(Report::Aggregate(ref l)) if l == &vec![2.0, 4.0, 6.0]));
    assert!(s.forward.is_none());
    let s = aggregation_step::<f64>(Message::List(vec![]));
    assert!(s.report.is_none());
    assert!(s.forward.is_none());
    let s = aggregation_step::<f64>(Message::Add(1, 2));
    assert!(s.report.is_none());
    assert!(matches!(s.forward, Some(Message::Add(1, 2))));
    let s = aggregation_step::<f64>(Message::Halt);
    assert!(matches!(s.report, Some(Report::Halting)));
    assert!(matches!(s.forward, Some(Message::Halt)));
}

#[test]
fn sink_counts_unhandled_but_not_errors() {
    let mut sink = SinkStage::new();
    let r = sink.step::<f64>(Message::Unhandled);
    assert!(matches!(r, Report::NotHandled { message: Message::Unhandled, number: 1 }));
    let r = sink.step::<f64>(Message::Error("some text".to_string()));
    assert!(matches!(r, Report::ErrorText(ref e) if e == "some text"));
    assert_eq!(sink.unhandled, 1);
    let r = sink.step::<f64>(Message::Neg(3));
    assert!(matches!(r, Report::NotHandled { message: Message::Neg(3), number: 2 }));
    let r = sink.step::<f64>(Message::Halt);
    assert!(matches!(r, Report::Halted { unhandled: 2 }));
    assert_eq!(sink.state, SinkState::Halted);
}

#[test]
fn sink_disconnect_reports_no_count() {
    let mut sink = SinkStage::new();
    let r = sink.disconnect::<f64>();
    assert!(matches!(r, Report::ReceiverError));
    assert_eq!(sink.state, SinkState::ReceiverError);
}

#[test]
fn empty_list_makes_no_report() {
    let mut p = Pipeline::<f64>::new();
    let events = p.send(Message::List(vec![]));
    assert!(events.is_empty());
    assert_eq!(p.unhandled(), 0);
}

#[test]
fn error_message_surfaces_at_sink_uncounted() {
    let mut p = Pipeline::<f64>::new();
    p.send(Message::Unhandled);
    let events = p.send(Message::Error("some text".to_string()));
    assert_eq!(events.len(), 1);
    assert_eq!(events[0].stage, StageId::Sink);
    assert!(matches!(events[0].report, Report::ErrorText(ref e) if e == "some text"));
    assert_eq!(p.unhandled(), 1);
}

#[test]
fn division_by_zero_leaves_count() {
    let mut p = Pipeline::<f64>::new();
    let events = p.send(Message::Div(1, 0));
    assert_eq!(events.len(), 1);
    assert_eq!(events[0].stage, StageId::Arithmetic);
    assert!(matches!(events[0].report, Report::DivisionByZero));
    assert_eq!(p.unhandled(), 0);
}

#[test]
fn unhandled_messages_are_counted_to_the_end() {
    let mut p = Pipeline::<f64>::new();
    for i in 1..=5usize {
        let events = p.send(Message::Unhandled);
        assert_eq!(events.len(), 1);
        assert!(matches!(events[0].report, Report::NotHandled { number, .. } if number == i));
    }
    let events = p.send(Message::Halt);
    assert_eq!(events.len(), 3);
    assert!(matches!(events[2].report, Report::Halted { unhandled: 5 }));
    assert!(p.is_halted());
}

#[test]
fn halt_first_goes_through_every_stage() {
    let mut p = Pipeline::<f64>::new();
    assert!(!p.is_halted());
    let events = p.send(Message::Halt);
    assert_eq!(events.len(), 3);
    assert_eq!(events[0].stage, StageId::Arithmetic);
    assert!(matches!(events[0].report, Report::Halting));
    assert_eq!(events[1].stage, StageId::Aggregation);
    assert!(matches!(events[1].report, Report::Halting));
    assert_eq!(events[2].stage, StageId::Sink);
    assert!(matches!(events[2].report, Report::Halted { unhandled: 0 }));
    assert!(p.is_halted());
}

#[test]
fn reports_follow_the_order_of_sending() {
    let mut p = Pipeline::<f64>::new();
    let mut seen: Vec<(StageId, String)> = Vec::new();
    let inputs = vec![
        Message::Error("one".to_string()),
        Message::List(vec![1.5, 2.0]),
        Message::Error("two".to_string()),
        Message::Add(1, 1),
        Message::Error("three".to_string()),
        Message::Halt,
    ];
    for m in inputs {
        for e in p.send(m) {
            seen.push((e.stage, format!("{:?}", e.report)));
        }
    }
    let sink: Vec<&String> = seen.iter().filter(|(s, _)| *s == StageId::Sink).map(|(_, r)| r).collect();
    assert_eq!(sink.len(), 4);
    assert!(sink[0].contains("one"));
    assert!(sink[1].contains("two"));
    assert!(sink[2].contains("three"));
    assert!(sink[3].contains("Halted"));
    assert_eq!(seen.last().map(|(s, _)| *s), Some(StageId::Sink));
    assert_eq!(seen[0].0, StageId::Sink);
    assert_eq!(seen[1].0, StageId::Aggregation);
}
