//! Fitness evaluation for an evolutionary experiment runner: the run
//! configuration, the 3-SAT evaluator and the factory that builds a problem
//! from its name, its instance text and its configuration document.

pub mod binary64;
pub mod config;
pub mod factory;
pub mod instance;
pub mod json;
pub mod sat3;
pub mod schema;
