pub mod symbols;
pub mod typing;
pub mod type_checking;
