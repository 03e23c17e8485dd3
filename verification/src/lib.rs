//! Simulation of anonymous randomized leader-election protocols.
//!
//! A population of indistinguishable processes is modelled as a vector of
//! candidate flags. Five interchangeable randomized rules advance the
//! population round by round until exactly one candidate remains; the
//! statistics functions summarize the run lengths of many such simulations
//! through order statistics (median and distribution-free confidence
//! intervals for a quantile).

pub mod rounds;
pub mod driver;
pub mod stats;

pub use rounds::count_true;
pub use rounds::naive_gen;
pub use rounds::tournament_gen;
pub use rounds::biased_tournament_gen;
pub use rounds::biased_fixed_gen;
pub use rounds::biased_single_gen;
pub use rounds::apply_generator;
pub use rounds::Mode;
pub use driver::single_run;
pub use stats::median_pair;
pub use stats::confidence_interval;
pub use stats::sorted_sample;
pub use stats::sample_run_lengths;
