//! A fixed three-stage message pipeline: an arithmetic stage, an aggregation
//! stage and a terminal sink that counts what nobody handled.
//!
//! The library holds the message vocabulary, the parser that turns a line of
//! text into a message, the decision each stage makes for one message, and a
//! synchronous model of the whole pipeline over which its laws are proved.
//! Queues, threads, floating-point results and printing belong to the driver.
pub mod laws;
pub mod message;
pub mod parse;
pub mod pipeline;
pub mod stage;
pub mod text;
