//! What the operations of the library are for, stated over the operations
//! themselves: of every call, what its result has to do with its arguments, and of
//! several calls, what they have to do with each other.

pub mod audio;
pub mod crossover;
pub mod device;
pub mod metadata;
pub mod panel;
pub mod text;
pub mod view;
