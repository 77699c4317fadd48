//! The protocol's own vocabulary: version numbers, module identifiers and interface roles.

use vstd::prelude::*;

verus! {

/// An OCPI version this toolkit knows.
#[derive(Clone, Copy, Debug, PartialEq, Eq, Hash, Structural)]
#[non_exhaustive]
pub enum VersionNumber {
    /// OCPI 2.0.
    V2_0,
    /// OCPI 2.1.
    V2_1,
    /// OCPI 2.1.1.
    V2_1_1,
    /// OCPI 2.2.
    V2_2,
    /// OCPI 2.2.1.
    V2_2_1,
    /// OCPI 2.3.0.
    V2_3_0,
}

/// Whether a version has the four `OCPI-*` routing headers: they arrived in 2.2.
pub open spec fn version_has_routing_headers(v: VersionNumber) -> bool {
    match v {
        VersionNumber::V2_2 | VersionNumber::V2_2_1 | VersionNumber::V2_3_0 => true,
        _ => false,
    }
}

impl VersionNumber {
    /// Whether this version has the routing headers, which arrived in 2.2.
    pub fn has_routing_headers(&self) -> (r: bool)
        ensures
            r == version_has_routing_headers(*self),
    {
        match self {
            VersionNumber::V2_2 | VersionNumber::V2_2_1 | VersionNumber::V2_3_0 => true,
            _ => false,
        }
    }

    /// The version as the Versions endpoint writes it.
    pub fn as_str(&self) -> (s: &'static str)
        ensures
            s@ == version_text(*self),
    {
        match self {
            VersionNumber::V2_0 => "2.0",
            VersionNumber::V2_1 => "2.1",
            VersionNumber::V2_1_1 => "2.1.1",
            VersionNumber::V2_2 => "2.2",
            VersionNumber::V2_2_1 => "2.2.1",
            VersionNumber::V2_3_0 => "2.3.0",
        }
    }
}

/// The text of a version number.
pub open spec fn version_text(v: VersionNumber) -> Seq<char> {
    match v {
        VersionNumber::V2_0 => "2.0"@,
        VersionNumber::V2_1 => "2.1"@,
        VersionNumber::V2_1_1 => "2.1.1"@,
        VersionNumber::V2_2 => "2.2"@,
        VersionNumber::V2_2_1 => "2.2.1"@,
        VersionNumber::V2_3_0 => "2.3.0"@,
    }
}

/// An OCPI module, as the version details list it.
#[derive(Clone, Copy, Debug, PartialEq, Eq, Hash, Structural)]
#[non_exhaustive]
pub enum ModuleId {
    /// `cdrs`.
    Cdrs,
    /// `chargingprofiles`.
    ChargingProfiles,
    /// `commands`.
    Commands,
    /// `credentials`: a configuration module.
    Credentials,
    /// `hubclientinfo`: a configuration module.
    HubClientInfo,
    /// `locations`.
    Locations,
    /// `sessions`.
    Sessions,
    /// `tariffs`.
    Tariffs,
    /// `tokens`.
    Tokens,
    /// `versions`: a configuration module.
    Versions,
    /// `payments`.
    Payments,
    /// `bookings`.
    Bookings,
}

/// Whether a module is functional, as opposed to one of the configuration modules
/// (Credentials, Versions, Hub Client Info) that are never routed.
pub open spec fn module_is_functional(m: ModuleId) -> bool {
    match m {
        ModuleId::Credentials | ModuleId::Versions | ModuleId::HubClientInfo => false,
        _ => true,
    }
}

impl ModuleId {
    /// Whether this is a functional module rather than a configuration module.
    pub fn is_functional(&self) -> (r: bool)
        ensures
            r == module_is_functional(*self),
    {
        match self {
            ModuleId::Credentials | ModuleId::Versions | ModuleId::HubClientInfo => false,
            _ => true,
        }
    }
}

/// Which side of a module's interface a party implements.
#[derive(Clone, Copy, Debug, PartialEq, Eq, Hash, Structural)]
pub enum InterfaceRole {
    /// The interface that owns the objects and serves them.
    Sender,
    /// The interface that is told about the objects.
    Receiver,
}

} // verus!
