//! Verified core of an OCPI toolkit: the scalar types, the transport rules and the small
//! decision tables the protocol is built from.

pub mod protocol;
pub mod strings;
pub mod tariffs;
pub mod testkit;
pub mod transport;
pub mod types;
pub mod v2_1_1;

pub use protocol::{InterfaceRole, ModuleId, VersionNumber};
