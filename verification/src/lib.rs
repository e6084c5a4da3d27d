//! Capacity planning for the multi-level, fixed-fanout indexes of a layer file.
//!
//! Given the total amount of data, the size of one value and the minimum block
//! sizes and branching factor, the library works out how many levels each kind
//! of index needs, how many values one block of each level covers, and how
//! many bytes the index takes across all of its levels.

pub mod coverage;
pub mod error;
pub mod human;
pub mod index;
pub mod layer_file;
pub mod params;
pub mod sweep;
