//! Measuring how much call stack a recursion consumes per level.
//!
//! A countdown from `n` to `0` is walked either directly over a counter or
//! over a heap-allocated chain that was built beforehand. Every level of the
//! walk asks the stack probe how many bytes are left and records the answer;
//! the recorded samples are then reduced to the total number of bytes used.

pub mod chain;
pub mod driver;
pub mod label;
pub mod probe;
pub mod trial;
pub mod usage;
pub mod walk;

pub use chain::{
    make_boxed_fact_u128, make_boxed_fact_u64, make_boxed_fact_u8, make_boxed_string, BoxedFact,
    BoxedString,
};
pub use label::countdown_label;
pub use probe::record_sample;
pub use usage::{analyze_stack, StackUsage};
pub use walk::{
    eval_boxed_fact_tracked, eval_boxed_string_tracked, simple_factorial_tracked_u128,
    simple_factorial_tracked_u64, simple_factorial_tracked_u8, simple_string_tracked,
};
