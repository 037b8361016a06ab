//! Lazily decoded, cached streams of fixed-size event records.
//!
//! `event` holds the event-type codes; `data` the typed view over a decoded
//! buffer and the container decoding; `cache` the reference-counted store of
//! buffers by source; `reader` the sequential reader over a list of sources.
use vstd::prelude::*;

pub mod cache;
pub mod data;
pub mod event;
pub mod reader;

verus! {

} // verus!
