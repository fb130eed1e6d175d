//! Privacy-preserving donation tiering: a donor's contribution amount is
//! evaluated against fixed thresholds inside a confidential executor, and only
//! the resulting tier is published, on an idempotent receipt ledger keyed by a
//! cryptographic commitment.

pub mod address;
pub mod bytes;
pub mod circuits;
pub mod protocol;
pub mod tipjar_mxe;
pub mod tipjar_receipts;
