//! Batch image-compression job library.
//!
//! The crate models a batch job pipeline: a fixed set of weighted stages,
//! a resolver and validator that admit job requests, a job store that owns
//! all job and file state, integer progress aggregation across stages and
//! files, and steppers that drive one file and one whole job through the
//! pipeline under cooperative cancellation.  All progress values are kept
//! in hundredths of a percent (0 ..= 10_000), so the weighted aggregation
//! is exact integer arithmetic.

pub mod executor;
pub mod image_ops;
pub mod manager;
pub mod orchestrator;
pub mod paths;
pub mod progress;
pub mod stage;
pub mod text;
pub mod types;
pub mod validator;
