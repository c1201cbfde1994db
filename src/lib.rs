//! Custody vaults for campaign funding: an admin configuration, one vault per
//! campaign identifier, and a per-depositor ledger whose operations are
//! verified state transitions that hand token movements back to the caller.
pub mod address;
pub mod accounts;
pub mod allowed_mints;
pub mod digest;
pub mod errors;
pub mod events;
pub mod laws;
pub mod spark_idea_vault;
pub mod state;
