//! Lazy, stateful numeric range generators.
//!
//! A range value holds a cursor, an optional stop bound, and a step. Each
//! pull returns the current cursor and advances it by the step; the boundary
//! variant decides when pulls stop producing values:
//!
//! * [`ExclusiveRange`] yields values strictly below its stop bound;
//! * [`InclusiveRange`] also yields a value exactly equal to its stop bound;
//! * [`UnboundedRange`] has no stop bound and yields a value on every pull.
//!
//! Cursor and step types are generic over the [`RangeNum`] capability:
//! an ordering against the stop bound and an advance by a step value.

pub mod lemmas;
pub mod num;
pub mod ranges;

pub use num::RangeNum;
pub use ranges::ExclusiveRange;
pub use ranges::InclusiveRange;
pub use ranges::StepBy;
pub use ranges::UnboundedRange;
