//! Properties of the pipeline as a whole, proved over the stages' own
//! contracts.
use vstd::prelude::*;

use crate::message::{Message, StageId};
use crate::pipeline::{
    forwarded, halt_only_last, message_events, sink_count, stage_input, unhandled_count, Event,
};
use crate::stage::{arithmetic_report, passes, Report};

verus! {

/// `f` places the elements of `a` at strictly increasing positions of `b`.
pub open spec fn embeds<T>(a: Seq<T>, b: Seq<T>, f: Seq<int>) -> bool {
    &&& f.len() == a.len()
    &&& forall|i: int, j: int| 0 <= i < j < f.len() ==> f[i] < f[j]
    &&& forall|i: int| 0 <= i < f.len() ==> 0 <= #[trigger] f[i] < b.len() && a[i] == b[f[i]]
}

/// `a` is `b` with some elements left out and the rest in their order.
pub open spec fn is_subsequence<T>(a: Seq<T>, b: Seq<T>) -> bool {
    exists|f: Seq<int>| embeds(a, b, f)
}

/// The stage that `stage` hands its messages to.
pub open spec fn next_stage(stage: StageId) -> StageId {
    match stage {
        StageId::Arithmetic => StageId::Aggregation,
        _ => StageId::Sink,
    }
}

proof fn lemma_forwarded_embeds<V>(stage: StageId, s: Seq<Message<V>>) -> (f: Seq<int>)
    ensures
        embeds(forwarded(stage, s), s, f),
    decreases s.len(),
{
    if s.len() == 0 {
        Seq::empty()
    } else {
        let g = lemma_forwarded_embeds(stage, s.drop_last());
        if passes(stage, s.last()) {
            let f = g.push(s.len() - 1);
            assert forall|i: int| 0 <= i < f.len() implies 0 <= #[trigger] f[i] < s.len()
                && forwarded(stage, s)[i] == s[f[i]] by {
                if i < g.len() {
                    assert(s.drop_last()[g[i]] == s[g[i]]);
                }
            }
            f
        } else {
            assert forall|i: int| 0 <= i < g.len() implies 0 <= #[trigger] g[i] < s.len()
                && forwarded(stage, s)[i] == s[g[i]] by {
                assert(s.drop_last()[g[i]] == s[g[i]]);
            }
            g
        }
    }
}

proof fn lemma_forwarded_keeps_halt_last<V>(stage: StageId, s: Seq<Message<V>>)
    requires
        halt_only_last(s),
    ensures
        halt_only_last(forwarded(stage, s)),
        s.len() > 0 && s.last() is Halt && passes(stage, s.last()) ==> forwarded(stage, s).len() > 0
            && forwarded(stage, s).last() is Halt,
    decreases s.len(),
{
    if s.len() > 0 {
        let t = s.drop_last();
        assert forall|i: int| 0 <= i < t.len() - 1 implies !(#[trigger] t[i] is Halt) by {
            assert(t[i] == s[i]);
        }
        lemma_forwarded_keeps_halt_last(stage, t);
        let f = lemma_forwarded_embeds(stage, t);
        let r = forwarded(stage, t);
        assert forall|i: int| 0 <= i < r.len() implies !(#[trigger] r[i] is Halt) by {
            assert(r[i] == t[f[i]]);
            assert(t[f[i]] == s[f[i]]);
        }
    }
}

/// The messages that reach a stage are those its predecessor received, some
/// left out, in the order in which they arrived there.
pub proof fn lemma_links_keep_order<V>(stage: StageId, sent: Seq<Message<V>>)
    requires
        stage != StageId::Sink,
    ensures
        is_subsequence(stage_input(next_stage(stage), sent), stage_input(stage, sent)),
{
    let f = lemma_forwarded_embeds(stage, stage_input(stage, sent));
}

/// While `Halt` enters the pipeline last, if at all, no stage receives a
/// message after `Halt`.
pub proof fn lemma_nothing_after_halt<V>(stage: StageId, sent: Seq<Message<V>>)
    requires
        halt_only_last(sent),
    ensures
        halt_only_last(stage_input(stage, sent)),
{
    lemma_forwarded_keeps_halt_last(StageId::Arithmetic, sent);
    lemma_forwarded_keeps_halt_last(StageId::Aggregation, forwarded(StageId::Arithmetic, sent));
}

/// `Halt`, sent at any point before any other `Halt`, reaches every stage as
/// its last message, and each stage reports on it in pipeline order, the
/// sink with its final count.
pub proof fn lemma_halt_reaches_every_stage<V>(sent: Seq<Message<V>>, stage: StageId)
    requires
        forall|i: int| 0 <= i < sent.len() ==> !(#[trigger] sent[i] is Halt),
    ensures
        ({
            let input = stage_input(stage, sent.push(Message::Halt));
            input.len() > 0 && input.last() is Halt && halt_only_last(input)
        }),
        message_events(Message::<V>::Halt, sink_count(sent)) == seq![
            Event { stage: StageId::Arithmetic, report: Report::<V>::Halting },
            Event { stage: StageId::Aggregation, report: Report::<V>::Halting },
            Event {
                stage: StageId::Sink,
                report: Report::<V>::Halted { unhandled: sink_count(sent) as usize },
            },
        ],
{
    let s = sent.push(Message::Halt);
    assert(s.drop_last() =~= sent);
    assert forall|i: int| 0 <= i < s.len() - 1 implies !(#[trigger] s[i] is Halt) by {
        assert(s[i] == sent[i]);
    }
    lemma_forwarded_keeps_halt_last(StageId::Arithmetic, s);
    lemma_forwarded_keeps_halt_last(StageId::Aggregation, forwarded(StageId::Arithmetic, s));
    assert(message_events(Message::<V>::Halt, sink_count(sent)) =~= seq![
        Event { stage: StageId::Arithmetic, report: Report::<V>::Halting },
        Event { stage: StageId::Aggregation, report: Report::<V>::Halting },
        Event {
            stage: StageId::Sink,
            report: Report::<V>::Halted { unhandled: sink_count(sent) as usize },
        },
    ]);
}

/// Sums, differences, products and negations are reported exactly.
pub proof fn lemma_arithmetic_exact<V>(x: i32, y: i32)
    ensures
        arithmetic_report(Message::<V>::Add(x, y)) matches Some(Report::Sum { x: a, y: b, result })
            && a == x && b == y && result == x + y,
        arithmetic_report(Message::<V>::Sub(x, y)) matches Some(
            Report::Difference { x: a, y: b, result },
        ) && a == x && b == y && result == x - y,
        arithmetic_report(Message::<V>::Mult(x, y)) matches Some(
            Report::Product { x: a, y: b, result },
        ) && a == x && b == y && result == x * y,
        arithmetic_report(Message::<V>::Neg(x)) matches Some(Report::Negation { x: a, result })
            && a == x && result == -x,
{
    assert(i32::MIN * i32::MAX <= x * y <= i32::MIN * i32::MIN) by (nonlinear_arith)
        requires
            i32::MIN <= x <= i32::MAX,
            i32::MIN <= y <= i32::MAX,
    ;
}

/// A message that the arithmetic stage absorbs reaches no later stage and
/// leaves the sink's count as it was.
proof fn lemma_absorbed_by_arithmetic<V>(sent: Seq<Message<V>>, m: Message<V>)
    requires
        !passes(StageId::Arithmetic, m),
    ensures
        stage_input(StageId::Aggregation, sent.push(m)) == stage_input(StageId::Aggregation, sent),
        stage_input(StageId::Sink, sent.push(m)) == stage_input(StageId::Sink, sent),
        sink_count(sent.push(m)) == sink_count(sent),
{
    assert(sent.push(m).drop_last() =~= sent);
}

/// Division by zero is reported by the arithmetic stage alone: nothing goes
/// further, and the sink's count does not move.
pub proof fn lemma_division_by_zero_absorbed<V>(sent: Seq<Message<V>>, x: i32)
    ensures
        message_events(Message::<V>::Div(x, 0), sink_count(sent)) == seq![
            Event { stage: StageId::Arithmetic, report: Report::<V>::DivisionByZero },
        ],
        stage_input(StageId::Aggregation, sent.push(Message::Div(x, 0))) == stage_input(
            StageId::Aggregation,
            sent,
        ),
        sink_count(sent.push(Message::Div(x, 0))) == sink_count(sent),
{
    lemma_absorbed_by_arithmetic(sent, Message::Div(x, 0));
    assert(message_events(Message::<V>::Div(x, 0), sink_count(sent)) =~= seq![
        Event { stage: StageId::Arithmetic, report: Report::<V>::DivisionByZero },
    ]);
}

/// The square root of a negative number is a domain error reported by the
/// arithmetic stage alone: nothing goes further.
pub proof fn lemma_negative_sqrt_absorbed<V>(sent: Seq<Message<V>>, x: i32)
    requires
        x < 0,
    ensures
        message_events(Message::<V>::Sqrt(x), sink_count(sent)) == seq![
            Event { stage: StageId::Arithmetic, report: Report::<V>::NegativeSquareRoot },
        ],
        stage_input(StageId::Aggregation, sent.push(Message::Sqrt(x))) == stage_input(
            StageId::Aggregation,
            sent,
        ),
        sink_count(sent.push(Message::Sqrt(x))) == sink_count(sent),
{
    lemma_absorbed_by_arithmetic(sent, Message::Sqrt(x));
    assert(message_events(Message::<V>::Sqrt(x), sink_count(sent)) =~= seq![
        Event { stage: StageId::Arithmetic, report: Report::<V>::NegativeSquareRoot },
    ]);
}

/// An empty list makes no report anywhere and leaves the sink's count as it
/// was.
pub proof fn lemma_empty_list_silent<V>(sent: Seq<Message<V>>, l: Vec<V>)
    requires
        l@.len() == 0,
    ensures
        message_events(Message::List(l), sink_count(sent)) == Seq::<Event<V>>::empty(),
        stage_input(StageId::Sink, sent.push(Message::List(l))) == stage_input(
            StageId::Sink,
            sent,
        ),
        sink_count(sent.push(Message::List(l))) == sink_count(sent),
{
    let s = sent.push(Message::List(l));
    assert(s.drop_last() =~= sent);
    assert(forwarded(StageId::Arithmetic, s).drop_last() =~= forwarded(StageId::Arithmetic, sent));
    assert(message_events(Message::List(l), sink_count(sent)) =~= Seq::<Event<V>>::empty());
}

/// An `Error` message is surfaced by the sink with its text and is not
/// counted as unhandled.
pub proof fn lemma_error_not_counted<V>(sent: Seq<Message<V>>, e: String)
    ensures
        message_events(Message::<V>::Error(e), sink_count(sent)) == seq![
            Event { stage: StageId::Sink, report: Report::<V>::ErrorText(e) },
        ],
        sink_count(sent.push(Message::Error(e))) == sink_count(sent),
{
    let s = sent.push(Message::Error(e));
    assert(s.drop_last() =~= sent);
    let s1 = forwarded(StageId::Arithmetic, s);
    assert(s1.drop_last() =~= forwarded(StageId::Arithmetic, sent));
    assert(forwarded(StageId::Aggregation, s1).drop_last() =~= stage_input(StageId::Sink, sent));
    assert(message_events(Message::<V>::Error(e), sink_count(sent)) =~= seq![
        Event { stage: StageId::Sink, report: Report::<V>::ErrorText(e) },
    ]);
}

/// `n` messages that no stage recognises, then `Halt`: the sink's final
/// report counts exactly `n`.
pub proof fn lemma_unhandled_total<V>(n: nat)
    requires
        n < usize::MAX,
    ensures
        ({
            let sent = Seq::new(n, |i: int| Message::<V>::Unhandled);
            &&& sink_count(sent) == n
            &&& message_events(Message::<V>::Halt, sink_count(sent)).last() == (Event {
                stage: StageId::Sink,
                report: Report::<V>::Halted { unhandled: n as usize },
            })
        }),
    decreases n,
{
    let sent = Seq::new(n, |i: int| Message::<V>::Unhandled);
    lemma_all_unhandled_counted::<V>(n);
    lemma_halt_reaches_every_stage(sent, StageId::Sink);
}

proof fn lemma_all_unhandled_counted<V>(n: nat)
    ensures
        ({
            let sent = Seq::new(n, |i: int| Message::<V>::Unhandled);
            &&& forwarded(StageId::Arithmetic, sent) == sent
            &&& forwarded(StageId::Aggregation, sent) == sent
            &&& sink_count(sent) == n
        }),
    decreases n,
{
    let sent = Seq::new(n, |i: int| Message::<V>::Unhandled);
    if n > 0 {
        lemma_all_unhandled_counted::<V>((n - 1) as nat);
        let prev = Seq::new((n - 1) as nat, |i: int| Message::<V>::Unhandled);
        assert(sent.drop_last() =~= prev);
        assert(sent.last() == Message::<V>::Unhandled);
        assert(prev.push(sent.last()) =~= sent);
    } else {
        assert(sent =~= Seq::<Message<V>>::empty());
    }
}

} // verus!
