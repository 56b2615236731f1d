//! An observable cell: a single value plus a set of keyed subscriber
//! callbacks that are called, synchronously, with the new value on every `set`.
pub mod cell;
pub mod ident;
pub mod laws;

pub use cell::Obv;
