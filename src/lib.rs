//! A stack-based scripting calculator: a tokenizer, a session of tables and
//! stacks, and an engine that executes token streams against a session.

pub mod text;
pub mod table;
pub mod tokenizer;
pub mod number;
pub mod session;
pub mod model;
pub mod ops;
pub mod optable;
pub mod semantics;
pub mod engine;
pub mod laws;
