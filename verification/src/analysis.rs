//! The analyses: points-to, callgraph and integer values.

pub mod binary;
pub mod binary_at;
pub mod callgraph;
pub mod canonical;
pub mod checks;
pub mod dispatch;
pub mod emit;
pub mod engine;
pub mod facts;
pub mod initial;
pub mod integer;
pub mod laws;
pub mod lookup;
pub mod output;
pub mod pointer;
pub mod rows;
pub mod rules;
pub mod runs;
pub mod setup;
pub mod unary;
pub mod unary_at;
pub mod values;
pub mod values_derive;
