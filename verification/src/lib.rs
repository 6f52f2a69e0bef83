//! Poll-driven combinators, verified with Verus.
//!
//! * [`future`]: the fan-in join of two to five futures, built on a
//!   single-operand slot.
//! * [`io`]: the cursor of a chain of two byte sources.
//! * [`task`]: the poll outcome type and the spawn bridge.

pub mod future;
pub mod io;
pub mod task;
