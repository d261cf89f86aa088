//! Shape, index and element-conversion logic of a tensor library whose
//! storage lives in the TH C library. The functions here take plain values
//! (sizes, indices, element buffers) and return plain values or the plan of
//! calls that the storage layer performs.

pub mod data;
pub mod element;
pub mod index;
pub mod select;
pub mod shape;
