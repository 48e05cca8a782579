//! Decision core of a coprocessor endpoint: the rules by which pushed-down
//! read requests are admitted, batched by region, tracked, chunked into
//! responses and answered, together with the tick rules of the garbage
//! collection worker. Every function here is a pure step over plain values;
//! clocks, thread pools, storage and the wire are left to the caller.

pub mod context;
pub mod dag;
pub mod datum;
pub mod gc;
pub mod host;
pub mod keys;
pub mod metrics;
pub mod pool;
pub mod request;
pub mod response;
pub mod row;
pub mod task;
pub mod text;
pub mod tracker;
pub mod worker;
