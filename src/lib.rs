//! Poseidon hash over the BN254 scalar field: a constant table loaded from
//! decimal numerals, the three round operations and the permutation that
//! sequences them into full and partial rounds.
pub mod field;
pub mod laws;
pub mod poseidon;
