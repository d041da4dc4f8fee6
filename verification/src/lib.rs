//! A parallel evolutionary search: a fixed-size population of byte sequences
//! is evolved towards an exact match of a target byte string.
//!
//! Every generation is scored, ranked, and replaced by children bred from its
//! elite through single-point crossover and per-gene mutation, until a
//! candidate matches the target or the generations run out.
//!
//! The library is verified with Verus. Its contracts are stated over
//! mathematical models: a gene sequence is a `Seq<u8>`, a candidate an
//! [`agent::AgentView`], and the fitness of a sequence the cardinality of
//! its set of matching positions ([`fitness::score`]).
//!
//! # Modules
//!
//! - [`fitness`]: the score of a gene sequence against the target.
//! - [`agent`]: a candidate with its memoized score.
//! - [`config`]: the settings of a search, and the size of the elite.
//! - [`selection`], [`crossover`], [`mutation`]: the three operators that
//!   lead from a ranked population to a child.
//! - [`evaluation`], [`ranking`], [`breeding`]: the three phases of a
//!   generation, each carried out in parallel.
//! - [`scheduler`]: the search itself, generation by generation.
//!
//! # What is left to chance
//!
//! Random draws come from the `rand` crate. Wherever a function draws, what
//! it does with the draw stands in a deterministic counterpart that takes
//! the draw as an argument ([`crossover::crossover_at`],
//! [`mutation::is_hit`], [`mutation::apply_mutations`]) and has an exact
//! contract; the drawing function promises what holds of every draw.
//!
//! # What is trusted
//!
//! The calls into `rand` and `rayon`, and one call into `String`, stand in
//! small functions marked `external_body`. Verus takes their contracts on
//! trust; each says in its documentation what it claims of the call.

pub mod agent;
pub mod breeding;
pub mod config;
pub mod crossover;
pub mod evaluation;
pub mod fitness;
pub mod mutation;
mod random;
pub mod ranking;
pub mod scheduler;
pub mod selection;
