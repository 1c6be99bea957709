//! Core building blocks of a coverage-guided, structure-aware fuzzing engine:
//! a mutator algebra over typed values with undoable mutations and complexity
//! tracking, sensors that record observations from a test run, pools that
//! retain interesting test cases, and serializers for persisting them.

pub mod args;
pub mod ast;
pub mod integer;
pub mod mutator;
pub mod pool;
pub mod recursive;
pub mod rng;
pub mod sensors;
pub mod serializers;
pub mod simplest_to_activate_counter_pool;
pub mod stats;
pub mod strings;
