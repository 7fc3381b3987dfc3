//! Front end of a small typed expression language: a tokenizer over raw
//! byte buffers, a tree of tagged syntax nodes, a chained symbol
//! environment, and a single-pass parser that recognizes integer literals,
//! bare symbols, and `symbol : type` variable declarations, resolving type
//! names against a pre-seeded type environment.

pub mod context;
pub mod env;
pub mod error;
pub mod literal;
pub mod node;
pub mod parser;
pub mod token;
