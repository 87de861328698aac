//! The protocol-handling components that the bus delivers events to.

pub mod contact;
pub mod disco;
