pub mod types;
pub mod op;
pub mod literals;
pub mod expr;
pub mod decl;
pub mod numbers;
pub mod precedence;
pub mod grammar;
pub mod parsing;
