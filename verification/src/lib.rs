//! Statement import core: converts bank and credit-card statement exports
//! (spreadsheet or delimited-text files) into normalized, deduplicable
//! transaction records.
//!
//! The per-institution extraction rules, the content-addressed row identity
//! scheme, and the processor-selection registry are verified; reading file
//! bytes and decoding the container formats (a workbook, a delimited byte
//! stream) are delegated to outside crates behind trusted declarations.

pub mod amount;
pub mod dates;
pub mod errors;
pub mod hashing;
pub mod hdfc_bank_acct_processor;
pub mod hdfc_credit_card_processor;
pub mod statement_processor;
pub mod statement_processor_provider;
pub mod text;
pub mod txn_store;
