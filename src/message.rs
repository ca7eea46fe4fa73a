use vstd::prelude::*;

verus! {

/// A command or control signal travelling between stages.
///
/// The payload of a `List` is left to the driver: the pipeline only asks
/// whether the list is empty and hands it on whole.
#[derive(Debug)]
pub enum Message<V> {
    /// Shutdown signal; every stage forwards it once and then stops.
    Halt,
    Add(i32, i32),
    Sub(i32, i32),
    Mult(i32, i32),
    Div(i32, i32),
    Neg(i32),
    Sqrt(i32),
    List(Vec<V>),
    /// A ready-made error report, surfaced by the sink without being counted.
    Error(String),
    /// Reserved marker that no stage recognises.
    Unhandled,
}

/// The stages of the pipeline, in the order messages visit them.
#[derive(Clone, Copy, Debug, PartialEq, Eq, Structural)]
pub enum StageId {
    Arithmetic,
    Aggregation,
    Sink,
}

} // verus!
