//! Types for dealing with nibbles, that is, four-bit numbers.
//!
//! Two nibbles are packed into one byte. On top of that packing the crate offers
//! growable and fixed-capacity vectors of nibbles, and views over runs of packed
//! bytes that may begin or end in the middle of a byte.
pub mod array;
pub mod base;
pub mod cmp;
pub mod common;
pub mod compare;
pub mod iter;
pub mod num;
pub mod ops;
pub mod pair;
pub mod slice;
pub mod text;
pub mod vec;

pub use crate::array::{NibArray, NibArrayVec};
pub use crate::base::{u4, u4hi, u4lo, ParseNibbleError};
pub use crate::pair::{u4x2, U4Cell, U4HiCell, U4LoCell};
pub use crate::slice::{NibSlice, NibSliceExt, NibSliceMut, NibSliceMutExt};
pub use crate::vec::NibVec;
