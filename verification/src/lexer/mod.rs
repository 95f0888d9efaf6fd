pub mod keywords;
pub mod tokens;
pub mod scanner;
pub mod symbols;
