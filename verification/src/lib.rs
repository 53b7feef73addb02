//! Authority-gated storage for a simple publishing application.
//!
//! Records live as fixed-capacity accounts at deterministically derived
//! addresses: one collection account per authority, and one entry account per
//! post created under it. The library covers address derivation, storage
//! capacity planning, the binary layout of the two record kinds, and the four
//! authority-checked instructions that create, mutate and retire records.

pub mod addresses;
pub mod capacity;
pub mod laws;
pub mod ledger;
pub mod records;
