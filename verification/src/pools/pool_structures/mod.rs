//! The records of the two pool families and their transitions.

pub mod v2_structure;
pub mod v3_laws;
pub mod v3_structure;
