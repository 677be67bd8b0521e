//! The integral computation structure: definitions, builder methods,
//! computation and error estimation.

pub mod definitions;
pub mod implementations;

pub use definitions::{Integraal, IntegraalError};
