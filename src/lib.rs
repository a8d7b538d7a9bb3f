/// Command-line flags of the campaign driver.
pub mod cli;
/// The campaign driver and the lock-step comparison engine.
pub mod fuzz;
/// Operation generation over a fixed roster of accounts.
pub mod generate;
/// The ledger under test.
pub mod ledger;
/// The order of account names.
pub mod names;
/// Operations and the business error.
pub mod op;
/// A reference ledger with canonical rules.
pub mod reference;
/// The text of a failure report.
pub mod report;
/// Seeded pseudo-random streams.
pub mod rng;
/// The interface shared by compared systems.
pub mod subject;
/// Per-account balances kept as a canonical sorted list.
pub mod table;
