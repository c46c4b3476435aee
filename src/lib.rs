//! Memoizing wrappers around computations: a keyed cache for functions of one
//! argument and a positional cache for seeded sequential generators.

pub mod capability;
pub mod keyed;
pub mod sequential;

pub use capability::Mimetize;
pub use keyed::HashMimetize;
pub use sequential::{RngState, Sample, SeededRng};
