use vstd::prelude::*;

use crate::message::{Message, StageId};
use crate::stage::{
    aggregation_report, aggregation_step, arithmetic_report, arithmetic_step, counts_as_unhandled,
    passes, sink_report, Report, SinkStage, SinkState,
};

verus! {

/// A report together with the stage that made it.
pub struct Event<V> {
    pub stage: StageId,
    pub report: Report<V>,
}

/// The messages of `s` that `stage` passes on, in the order of `s`.
pub open spec fn forwarded<V>(stage: StageId, s: Seq<Message<V>>) -> Seq<Message<V>>
    decreases s.len(),
{
    if s.len() == 0 {
        Seq::empty()
    } else {
        let rest = forwarded(stage, s.drop_last());
        if passes(stage, s.last()) {
            rest.push(s.last())
        } else {
            rest
        }
    }
}

/// The messages that reach `stage` when `sent` enters the pipeline.
pub open spec fn stage_input<V>(stage: StageId, sent: Seq<Message<V>>) -> Seq<Message<V>> {
    match stage {
        StageId::Arithmetic => sent,
        StageId::Aggregation => forwarded(StageId::Arithmetic, sent),
        StageId::Sink => forwarded(StageId::Aggregation, forwarded(StageId::Arithmetic, sent)),
    }
}

/// How many messages of `s` the sink counts as unhandled.
pub open spec fn unhandled_count<V>(s: Seq<Message<V>>) -> nat
    decreases s.len(),
{
    if s.len() == 0 {
        0
    } else {
        unhandled_count(s.drop_last()) + if counts_as_unhandled(s.last()) {
            1nat
        } else {
            0nat
        }
    }
}

/// The sink's count after the messages `sent` entered the pipeline.
pub open spec fn sink_count<V>(sent: Seq<Message<V>>) -> nat {
    unhandled_count(stage_input(StageId::Sink, sent))
}

/// Whether `m` gets through the first two stages to the sink.
pub open spec fn reaches_sink<V>(m: Message<V>) -> bool {
    passes(StageId::Arithmetic, m) && passes(StageId::Aggregation, m)
}

/// `Halt` comes, if at all, only last.
pub open spec fn halt_only_last<V>(s: Seq<Message<V>>) -> bool {
    forall|i: int| 0 <= i < s.len() - 1 ==> !(#[trigger] s[i] is Halt)
}

/// The report of `stage`, if it makes one, as a sequence of events.
pub open spec fn events_of<V>(stage: StageId, report: Option<Report<V>>) -> Seq<Event<V>> {
    match report {
        Some(r) => seq![Event { stage, report: r }],
        None => Seq::empty(),
    }
}

/// The reports, in pipeline order, that message `m` causes when the sink has
/// counted `n` unhandled messages before it.
pub open spec fn message_events<V>(m: Message<V>, n: nat) -> Seq<Event<V>> {
    let first = events_of(StageId::Arithmetic, arithmetic_report(m));
    let second = events_of(StageId::Aggregation, aggregation_report(m));
    let third = seq![Event { stage: StageId::Sink, report: sink_report(m, n) }];
    if !passes(StageId::Arithmetic, m) {
        first
    } else if !passes(StageId::Aggregation, m) {
        first + second
    } else {
        first + second + third
    }
}

/// The three stages run one message at a time, each message carried through
/// every stage that it reaches before the next one enters.
///
/// Each link is first-in first-out and each stage decides alone, so every
/// stage sees the same messages, and reports the same, as it would with a
/// queue and a thread of its own.
pub struct Pipeline<V> {
    sink: SinkStage,
    sent: Ghost<Seq<Message<V>>>,
}

impl<V> Pipeline<V> {
    /// The messages that have entered the pipeline, in order.
    pub closed spec fn sent(&self) -> Seq<Message<V>> {
        self.sent@
    }

    pub open spec fn halted(&self) -> bool {
        self.sent().len() > 0 && self.sent().last() is Halt
    }

    pub closed spec fn wf(&self) -> bool {
        &&& halt_only_last(self.sent@)
        &&& self.sink.unhandled == sink_count(self.sent@)
        &&& self.sink.state == if self.halted() {
            SinkState::Halted
        } else {
            SinkState::Listening
        }
    }

    pub fn new() -> (p: Pipeline<V>)
        ensures
            p.wf(),
            p.sent() == Seq::<Message<V>>::empty(),
    {
        Pipeline { sink: SinkStage::new(), sent: Ghost(Seq::empty()) }
    }

    /// Whether `Halt` has gone through.
    pub fn is_halted(&self) -> (r: bool)
        requires
            self.wf(),
        ensures
            r == self.halted(),
    {
        match self.sink.state {
            SinkState::Halted => true,
            _ => false,
        }
    }

    /// How many unhandled messages have reached the sink.
    pub fn unhandled(&self) -> (r: usize)
        requires
            self.wf(),
        ensures
            r == sink_count(self.sent()),
    {
        self.sink.unhandled
    }

    /// Carries `msg` through the stages and returns their reports in
    /// pipeline order.
    pub fn send(&mut self, msg: Message<V>) -> (events: Vec<Event<V>>)
        requires
            old(self).wf(),
            !old(self).halted(),
            sink_count(old(self).sent()) < usize::MAX,
        ensures
            final(self).wf(),
            final(self).sent() == old(self).sent().push(msg),
            events@ == message_events(msg, sink_count(old(self).sent())),
            final(self).halted() == msg is Halt,
            sink_count(final(self).sent()) == sink_count(old(self).sent()) + if reaches_sink(msg)
                && counts_as_unhandled(msg) {
                1nat
            } else {
                0nat
            },
    {
        let ghost old_sent = self.sent@;
        let ghost m = msg;
        let ghost n = sink_count(old_sent);
        let ghost new_sent = old_sent.push(msg);
        assert(new_sent.drop_last() =~= old_sent);
        assert(forwarded(StageId::Arithmetic, new_sent).drop_last() =~= forwarded(StageId::Arithmetic, old_sent)
            || !passes(StageId::Arithmetic, m));
        let mut events: Vec<Event<V>> = Vec::new();
        let first = arithmetic_step(msg);
        if let Some(report) = first.report {
            events.push(Event { stage: StageId::Arithmetic, report });
        }
        if let Some(msg) = first.forward {
            let second = aggregation_step(msg);
            if let Some(report) = second.report {
                events.push(Event { stage: StageId::Aggregation, report });
            }
            if let Some(msg) = second.forward {
                let ghost s1 = forwarded(StageId::Arithmetic, new_sent);
                assert(s1.drop_last() =~= forwarded(StageId::Arithmetic, old_sent));
                let report = self.sink.step(msg);
                events.push(Event { stage: StageId::Sink, report });
                let ghost s2 = forwarded(StageId::Aggregation, s1);
                assert(s2.drop_last() =~= stage_input(StageId::Sink, old_sent));
            }
        }
        self.sent = Ghost(new_sent);
        assert(events@ =~= message_events(m, n));
        events
    }
}

} // verus!
