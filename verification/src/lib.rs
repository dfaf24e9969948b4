//! Instruction processor for a bank-assurance ledger program.
//!
//! One call of [`processor::process_instruction`] validates the supplied
//! accounts, applies one operation to the records stored in their buffers and
//! either commits every change or leaves every buffer as it was.

pub mod account;
pub mod amount;
pub mod codec;
pub mod domain;
pub mod error;
pub mod identity;
pub mod laws;
pub mod processor;
pub mod records;

pub use account::AccountInfo;
pub use error::ProgramError;
pub use identity::Pubkey;
pub use processor::process_instruction;
