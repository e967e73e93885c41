pub mod adapter;
pub mod cfg;
pub mod constant;
pub mod expression;
pub mod function;
pub mod graph;
pub mod instruction;
pub mod intrinsics;
pub mod operator;
pub mod shared;
pub mod typing;
pub mod value;
pub mod model;
pub mod context;
pub mod conversion;
pub mod equality;
pub mod building;
pub mod global;
pub mod module;
