//! A chaos-testing harness: plan expansion, trial classification, a
//! shrinking search over a bounded timing domain, and result aggregation.
//!
//! The library decides; it never touches a file, a process or a clock. A
//! driver builds and runs the targets and feeds back what it saw.

pub mod entry;
pub mod expand;
pub mod filter;
pub mod flunk;
pub mod order;
pub mod plan;
pub mod project;
pub mod report;
pub mod run;
pub mod sampler;
pub mod search;
pub mod span;
pub mod text;
pub mod trial;

pub use plan::Runs;
pub use project::Project;
pub use run::Runner;
