//! Verifier index for a PLONK-style proof system over the Pallas scalar
//! field: evaluation domains, coset shifts, shared reference strings, the
//! index itself and its binary encoding.

pub mod error;
pub mod field;
pub mod domain;
pub mod shifts;
pub mod urs;
pub mod index;
pub mod builder;
pub mod serial;
pub mod cosets;
