//! Values shared across the library.
pub mod traits;
pub mod values;
