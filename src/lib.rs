//! Asset ledger with genetic breeding, listings and schema migrations, plus a
//! registry of content-hash claims.

pub mod balances;
pub mod dna;
pub mod kitties;
pub mod migrations;
pub mod poe;
