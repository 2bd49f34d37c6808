pub mod contract;
pub mod error;
pub mod laws;
pub mod ledger;
pub mod metadata;
pub mod whitelist;

pub use contract::{Contract, PendingTransfer, Resolution, TransferEvent};
pub use error::FtError;
pub use ledger::Ledger;
pub use metadata::TokenMetadata;
pub use whitelist::Whitelist;
