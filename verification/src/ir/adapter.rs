pub mod cfg;
pub mod constant;
pub mod function;
pub mod global;
pub mod instruction;
pub mod module;
pub mod typing;
pub mod value;
