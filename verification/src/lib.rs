//! Updating and auditing a powers-of-tau accumulator over BLS12-381.

pub mod accumulator;
pub mod encoding;
pub mod field;
pub mod g1;
pub mod g2;
pub mod keypair;
pub mod pairing;
pub mod serialisation;
pub mod update_proof;
