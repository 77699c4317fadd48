//! `Quirks`: per-peer interoperability flags, each with the sentence that makes it necessary.
//!
//! Defaults are the strict, specification-conformant reading; every flag here changes
//! behaviour somewhere.

use vstd::prelude::*;

use crate::protocol::{VersionNumber, version_has_routing_headers};

verus! {

/// Per-peer interoperability settings.
#[derive(Clone, Debug, PartialEq, Eq, Structural)]
#[non_exhaustive]
pub struct Quirks {
    /// Accept an `Authorization` header whose token is not Base64-encoded: many 2.1.1 and 2.2
    /// implementations do not encode it; since 2.2-d2 the specification requires it.
    pub accept_unencoded_token: bool,
    /// Send the `Authorization` token without Base64, for a peer that cannot decode it.
    pub send_unencoded_token: bool,
    /// Omit the four `OCPI-*` routing headers: 2.1.1 and older have no message routing.
    pub omit_routing_headers: bool,
    /// Match module identifiers ignoring ASCII case when reading version details; the Bookings
    /// module identifier is spelled two ways in the wild.
    pub case_insensitive_module_ids: bool,
    /// Clamp an outgoing `limit` to what the peer tolerates.
    pub peer_max_page_limit: Option<u64>,
    /// Accept a `Content-Type` other than `application/json` on a request with a body.
    pub lenient_content_type: bool,
}

/// The conformant profile: nothing relaxed but case-insensitive module identifiers.
pub open spec fn default_quirks() -> Quirks {
    Quirks {
        accept_unencoded_token: false,
        send_unencoded_token: false,
        omit_routing_headers: false,
        case_insensitive_module_ids: true,
        peer_max_page_limit: None,
        lenient_content_type: false,
    }
}

/// Whether a version predates the Base64 requirement for the token.
pub open spec fn predates_base64(v: VersionNumber) -> bool {
    match v {
        VersionNumber::V2_0 | VersionNumber::V2_1 | VersionNumber::V2_1_1 | VersionNumber::V2_2 => true,
        _ => false,
    }
}

/// The page size to ask for: what the caller wants, clamped to the peer's cap when both are
/// known; the cap alone when the caller has no preference.
pub open spec fn effective_limit_of(requested: Option<u64>, max: Option<u64>) -> Option<u64> {
    match (requested, max) {
        (Some(r), Some(m)) => Some(if r <= m { r } else { m }),
        (Some(r), None) => Some(r),
        (None, m) => m,
    }
}

impl Default for Quirks {
    fn default() -> (q: Self)
        ensures
            q == default_quirks(),
    {
        Quirks {
            accept_unencoded_token: false,
            send_unencoded_token: false,
            omit_routing_headers: false,
            case_insensitive_module_ids: true,
            peer_max_page_limit: None,
            lenient_content_type: false,
        }
    }
}

impl Quirks {
    /// The strict profile, for a conformance run: anything the peer gets wrong shows up as an
    /// error.
    pub fn strict() -> (q: Self)
        ensures
            q == (Quirks { case_insensitive_module_ids: false, ..default_quirks() }),
    {
        Quirks { case_insensitive_module_ids: false, ..Self::default() }
    }

    /// Everything on this side's reading relaxed, for a peer whose behaviour is not yet known.
    /// Sending an unencoded token or dropping the routing headers is not relaxed even here: that
    /// would make this side the non-conformant one.
    pub fn permissive() -> (q: Self)
        ensures
            q == (Quirks {
                accept_unencoded_token: true,
                send_unencoded_token: false,
                omit_routing_headers: false,
                case_insensitive_module_ids: true,
                peer_max_page_limit: None,
                lenient_content_type: true,
            }),
    {
        Quirks {
            accept_unencoded_token: true,
            case_insensitive_module_ids: true,
            lenient_content_type: true,
            send_unencoded_token: false,
            omit_routing_headers: false,
            peer_max_page_limit: None,
        }
    }

    /// The profile a peer speaking `version` needs: versions before 2.2-d2 neither send nor
    /// expect a Base64 token, and versions before 2.2 have no routing headers.
    pub fn for_version(version: &VersionNumber) -> (q: Self)
        ensures
            q == (Quirks {
                accept_unencoded_token: predates_base64(*version),
                send_unencoded_token: predates_base64(*version),
                omit_routing_headers: !version_has_routing_headers(*version),
                ..default_quirks()
            }),
    {
        let mut quirks = Self::default();
        match version {
            VersionNumber::V2_0 | VersionNumber::V2_1 | VersionNumber::V2_1_1 | VersionNumber::V2_2 => {
                quirks.accept_unencoded_token = true;
                quirks.send_unencoded_token = true;
            },
            _ => {},
        }
        if !version.has_routing_headers() {
            quirks.omit_routing_headers = true;
        }
        quirks
    }

    /// This profile with the peer's advertised `X-Limit` as the page-size cap.
    pub fn with_peer_max_page_limit(self, limit: u64) -> (q: Self)
        ensures
            q == (Quirks { peer_max_page_limit: Some(limit), ..self }),
    {
        Quirks { peer_max_page_limit: Some(limit), ..self }
    }

    /// The page size to ask for, given what the caller wants.
    pub fn effective_limit(&self, requested: Option<u64>) -> (r: Option<u64>)
        ensures
            r == effective_limit_of(requested, self.peer_max_page_limit),
    {
        match (requested, self.peer_max_page_limit) {
            (Some(r), Some(max)) => Some(
                if r <= max {
                    r
                } else {
                    max
                },
            ),
            (Some(r), None) => Some(r),
            (None, max) => max,
        }
    }
}

/// The page size asked for never exceeds what the peer advertised: whatever the caller requests,
/// with a known cap the effective limit is present and at most the cap.
pub proof fn lemma_effective_limit_respects_peer(requested: Option<u64>, max: u64)
    ensures
        effective_limit_of(requested, Some(max)) matches Some(l) && l <= max,
        forall|r: u64|
            requested == Some(r) && r <= max ==> effective_limit_of(requested, Some(max)) == Some(r),
{
}

} // verus!
