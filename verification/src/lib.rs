//! A verified model of a minimal GPU compute dispatch layer.
//!
//! The crate covers the dispatch and memory-visibility core of such a layer:
//! pipeline construction from a kernel archive, buffer allocation under the
//! two storage-visibility modes, sizing of the parallel execution grid
//! against hardware limits, the explicit synchronization step that managed
//! buffers need before host read-back, and the typed result reader.

pub mod buffer;
pub mod byte_rep;
pub mod codec;
pub mod dispatch;
pub mod kernel;
pub mod matrix;
pub mod ops;

use vstd::prelude::*;

verus! {

} // verus!
