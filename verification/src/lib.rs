//! Door access terminal for ISO 18013-5 mobile driving licences and EUDI
//! wallets: the byte formats, protocol state machines and access decisions
//! of the terminal, with their contracts proved by Verus.

pub mod bytes;
pub mod transport;
pub mod policy;
pub mod reader;
pub mod text;
pub mod ui;
pub mod door;
