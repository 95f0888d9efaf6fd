pub mod error;
pub mod frontend;
pub mod lexer;
pub mod parser;
pub mod semantics;
pub mod util;
