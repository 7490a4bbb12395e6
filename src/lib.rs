//! Validation of 18-character resident identity numbers, and extraction of
//! the region code, date of birth, sequence order and gender they carry.

pub mod date;
pub mod identity;

pub use date::Date;
pub use identity::{validate, Gender, PersonalInfo, ValidationError};
