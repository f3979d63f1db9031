//! Memoizing thunks, the lazy persistent lists built on the same kind of cell, and
//! multivectors whose absent components cost nothing.

pub mod combine;
pub mod list;
pub mod multivector;
pub mod render;
pub mod thunk;
