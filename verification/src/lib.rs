//! Correction of text typed in the wrong one of the English (US QWERTY) and
//! Russian (ЙЦУКЕН) keyboard layouts.

pub mod case;
pub mod cli;
pub mod convert;
pub mod layout;
pub mod laws;
pub mod selection;
pub mod session;
pub mod typing;
pub mod unicode;
pub mod utf16;

pub use case::MappedChar;
pub use convert::convert;
pub use layout::Direction;
