//! Computing and checking the checksum field (tag `10`) of FIX messages.
//!
//! A FIX message is a run of `tag=value` fields, each closed by the SOH byte
//! (`0x01`). The checksum field holds the sum of every byte before it, taken
//! modulo 256 and written as three decimal digits.

pub mod checksum;
pub mod validator;

pub use checksum::{checksum, generate};
pub use validator::{validate, FIXChecksumValidatorError};
