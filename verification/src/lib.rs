//! A pooled-deposit ledger with lazy proportional yield, and the public
//! account that keeps a sealed copy of it in step with an outside computation
//! network.

pub mod laws;
pub mod ledger;
pub mod model;
pub mod pool;
pub mod request;
pub mod reserve;
