//! Mean deviation over a sliding window of samples.
//!
//! The window bookkeeping (a bounded ring buffer and the warm-up state
//! machine of the indicator) is verified here; the arithmetic on the samples
//! is left to the caller, which receives the full window once it is warm.
pub mod fixed_queue;
pub mod md;

pub use fixed_queue::FixedQueue;
pub use md::{MdError, MD};
