//! A growable contiguous container whose backing buffer doubles on demand,
//! with zero-sized element types handled without any storage growth.
pub mod naive_vec;
pub mod raw_vec;
pub mod val_iter;

pub use naive_vec::{Drain, IntoIter, NaiveVec};
