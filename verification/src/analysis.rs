pub mod bits;
pub mod constant;
pub mod domain;
pub mod generic;
pub mod keyed;
pub mod laws;
pub mod liveness;
pub mod mapping;
pub mod pair;
pub mod powerset;
pub mod range;
pub mod sign;
pub mod store;
