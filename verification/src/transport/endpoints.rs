//! Endpoint URL builders, one per documented URL shape.
//!
//! The URLs in the specification are descriptive only: every builder takes the discovered base
//! URL of a module and appends only the parts the specification defines (the client-owned
//! object path, the nested Location path, the command name). Nothing here invents a base path,
//! and every id is appended as one percent-encoded path segment, so that an id such as
//! `../credentials` cannot address another endpoint.

use vstd::prelude::*;
use vstd::utf8::encode_utf8;

use crate::strings::{dec_digits, ends_with, push_decimal, push_str, str_ends_with, trim_end, trim_end_char};
use crate::types::ids::PartyRef;
use crate::types::url::{Url, encode_query_component, joined_url, percent_encoded, segment_joined, with_query_text};

use super::pagination::{PageQuery, query_text};

verus! {

/// `base`, or `base/segment` unless the peer already advertised the segment there.
pub open spec fn sub_path_of(base: Seq<char>, segment: Seq<char>) -> Seq<char> {
    if ends_with(trim_end(base, '/'), segment) {
        base
    } else {
        joined_url(base, segment)
    }
}

/// Appends `segment` to `base`, unless the peer already advertised it there: the Payments module
/// has one identifier and two endpoint URLs, so peers differ on what they publish.
fn sub_path(base: &Url, segment: &str) -> (u: Url)
    ensures
        u@ == sub_path_of(base@, segment@),
{
    if str_ends_with(trim_end_char(base.as_str(), '/'), segment) {
        return base.clone();
    }
    base.join(segment)
}

/// The nested Location path under `url`: the EVSE, and the connector only after an EVSE, each
/// as one encoded path segment.
pub open spec fn nested_location(
    url: Seq<char>,
    evse_uid: Option<Seq<char>>,
    connector_id: Option<Seq<char>>,
) -> Seq<char> {
    match evse_uid {
        None => url,
        Some(e) => match connector_id {
            None => segment_joined(url, e),
            Some(c) => segment_joined(segment_joined(url, e), c),
        },
    }
}

/// The view of an optional text.
pub open spec fn opt_text(s: Option<&str>) -> Option<Seq<char>> {
    match s {
        Some(t) => Some(t@),
        None => None,
    }
}

/// `url` with `?type=<t>` when a type is given.
pub open spec fn typed(url: Seq<char>, token_type: Option<Seq<char>>) -> Seq<char> {
    match token_type {
        Some(t) => with_query_text(url, "type="@ + t),
        None => url,
    }
}

/// Appends the nested Location segments to `url`.
fn nest_location(url: Url, evse_uid: Option<&str>, connector_id: Option<&str>) -> (u: Url)
    ensures
        u@ == nested_location(url@, opt_text(evse_uid), opt_text(connector_id)),
{
    match evse_uid {
        Some(evse) => {
            let u = url.join_segment(evse);
            match connector_id {
                Some(connector) => u.join_segment(connector),
                None => u,
            }
        },
        None => url,
    }
}

/// Adds `?type=<t>` to `url` when a type is given.
fn with_type(url: Url, token_type: Option<&str>) -> (u: Url)
    ensures
        u@ == typed(url@, opt_text(token_type)),
{
    match token_type {
        Some(t) => {
            let mut q = String::new();
            push_str(&mut q, "type=");
            push_str(&mut q, t);
            url.with_query(q.as_str())
        },
        None => url,
    }
}

/// URLs on a module's Sender interface: the data owner's own objects, addressed by id alone.
#[derive(Debug, PartialEq, Eq)]
pub struct SenderEndpoint {
    base: Url,
}

impl View for SenderEndpoint {
    type V = Seq<char>;

    closed spec fn view(&self) -> Seq<char> {
        self.base@
    }
}

impl Clone for SenderEndpoint {
    fn clone(&self) -> (r: Self)
        ensures
            r@ == self@,
    {
        SenderEndpoint { base: self.base.clone() }
    }
}

impl SenderEndpoint {
    /// Wraps a discovered Sender endpoint URL.
    pub fn new(base: Url) -> (e: Self)
        ensures
            e@ == base@,
    {
        SenderEndpoint { base }
    }

    /// The base URL as discovered.
    pub fn base(&self) -> (u: &Url)
        ensures
            u@ == self@,
    {
        &self.base
    }

    /// `GET {base}?[date_from]&[date_to]&[offset]&[limit]`: the paginated list.
    pub fn list(&self, query: &PageQuery) -> (u: Url)
        ensures
            u@ == with_query_text(self@, query_text(*query)),
    {
        query.apply_to(&self.base)
    }

    /// `GET {base}/{id}`: one object.
    pub fn object(&self, id: &str) -> (u: Url)
        ensures
            u@ == segment_joined(self@, id@),
    {
        self.base.join_segment(id)
    }

    /// `{locations}/{location_id}[/{evse_uid}[/{connector_id}]]`; a connector without an EVSE
    /// is not addressable, so the path stops at the Location.
    pub fn location(&self, location_id: &str, evse_uid: Option<&str>, connector_id: Option<&str>) -> (u:
        Url)
        ensures
            u@ == nested_location(
                segment_joined(self@, location_id@),
                opt_text(evse_uid),
                opt_text(connector_id),
            ),
    {
        nest_location(self.base.join_segment(location_id), evse_uid, connector_id)
    }

    /// `POST {tokens}/{token_uid}/authorize[?type={type}]`: real-time authorization.
    pub fn token_authorize(&self, token_uid: &str, token_type: Option<&str>) -> (u: Url)
        ensures
            u@ == typed(joined_url(segment_joined(self@, token_uid@), "authorize"@), opt_text(token_type)),
    {
        with_type(self.base.join_segment(token_uid).join("authorize"), token_type)
    }

    /// `PUT {sessions}/{session_id}/charging_preferences`.
    pub fn charging_preferences(&self, session_id: &str) -> (u: Url)
        ensures
            u@ == joined_url(segment_joined(self@, session_id@), "charging_preferences"@),
    {
        self.base.join_segment(session_id).join("charging_preferences")
    }

    /// `POST {commands}/{command}`.
    pub fn command(&self, command: &str) -> (u: Url)
        ensures
            u@ == segment_joined(self@, command@),
    {
        self.base.join_segment(command)
    }

    /// The Payments terminals sub-interface, `{payments}/terminals`; a peer that advertised the
    /// sub-path directly is tolerated.
    pub fn payments_terminals(&self) -> (e: Self)
        ensures
            e@ == sub_path_of(self@, "terminals"@),
    {
        SenderEndpoint::new(sub_path(&self.base, "terminals"))
    }

    /// The Payments financial advice confirmations sub-interface.
    pub fn payments_financial_advice_confirmations(&self) -> (e: Self)
        ensures
            e@ == sub_path_of(self@, "financial-advice-confirmations"@),
    {
        SenderEndpoint::new(sub_path(&self.base, "financial-advice-confirmations"))
    }

    /// `{payments}/terminals/{terminal_id}`: one payment terminal.
    pub fn terminal(&self, terminal_id: &str) -> (u: Url)
        ensures
            u@ == segment_joined(self@, terminal_id@),
    {
        self.base.join_segment(terminal_id)
    }

    /// `POST {payments}/terminals/{terminal_id}/deactivate`.
    pub fn terminal_deactivate(&self, terminal_id: &str) -> (u: Url)
        ensures
            u@ == joined_url(segment_joined(self@, terminal_id@), "deactivate"@),
    {
        self.base.join_segment(terminal_id).join("deactivate")
    }

    /// `POST {payments}/terminals/activate`.
    pub fn terminal_activate(&self) -> (u: Url)
        ensures
            u@ == joined_url(self@, "activate"@),
    {
        self.base.join("activate")
    }
}

/// The client-owned object URL: `{base}/{country_code}/{party_id}/{object_id}`, each part one
/// encoded path segment.
pub open spec fn owned_object(base: Seq<char>, owner: PartyRef, object_id: Seq<char>) -> Seq<char> {
    segment_joined(segment_joined(segment_joined(base, owner.country_code@), owner.party_id@), object_id)
}

/// URLs on a module's Receiver interface: objects owned by the client.
#[derive(Debug, PartialEq, Eq)]
pub struct ReceiverEndpoint {
    base: Url,
}

impl View for ReceiverEndpoint {
    type V = Seq<char>;

    closed spec fn view(&self) -> Seq<char> {
        self.base@
    }
}

impl Clone for ReceiverEndpoint {
    fn clone(&self) -> (r: Self)
        ensures
            r@ == self@,
    {
        ReceiverEndpoint { base: self.base.clone() }
    }
}

impl ReceiverEndpoint {
    /// Wraps a discovered Receiver endpoint URL.
    pub fn new(base: Url) -> (e: Self)
        ensures
            e@ == base@,
    {
        ReceiverEndpoint { base }
    }

    /// The base URL as discovered.
    pub fn base(&self) -> (u: &Url)
        ensures
            u@ == self@,
    {
        &self.base
    }

    /// `{base}/{country_code}/{party_id}/{object_id}`.
    pub fn object(&self, owner: &PartyRef, object_id: &str) -> (u: Url)
        ensures
            u@ == owned_object(self@, *owner, object_id@),
    {
        self.base.join_segment(owner.country_code.as_str()).join_segment(owner.party_id.as_str()).join_segment(
            object_id,
        )
    }

    /// `{locations}/{country_code}/{party_id}/{location_id}[/{evse_uid}[/{connector_id}]]`.
    pub fn location(
        &self,
        owner: &PartyRef,
        location_id: &str,
        evse_uid: Option<&str>,
        connector_id: Option<&str>,
    ) -> (u: Url)
        ensures
            u@ == nested_location(
                owned_object(self@, *owner, location_id@),
                opt_text(evse_uid),
                opt_text(connector_id),
            ),
    {
        nest_location(self.object(owner, location_id), evse_uid, connector_id)
    }

    /// `{chargingprofiles}/{session_id}`: the interface is keyed by session.
    pub fn charging_profile(&self, session_id: &str) -> (u: Url)
        ensures
            u@ == segment_joined(self@, session_id@),
    {
        self.base.join_segment(session_id)
    }

    /// `GET {chargingprofiles}/{session_id}?duration={duration}&response_url={response_url}`,
    /// with the response URL percent-encoded.
    pub fn active_charging_profile(&self, session_id: &str, duration_seconds: u64, response_url: &Url) -> (u:
        Url)
        ensures
            u@ == with_query_text(
                segment_joined(self@, session_id@),
                "duration="@ + dec_digits(duration_seconds as nat) + "&response_url="@
                    + percent_encoded(encode_utf8(response_url@), false),
            ),
    {
        let mut q = String::new();
        push_str(&mut q, "duration=");
        push_decimal(&mut q, duration_seconds);
        push_str(&mut q, "&response_url=");
        let encoded = encode_query_component(response_url.as_str());
        push_str(&mut q, encoded.as_str());
        self.base.join_segment(session_id).with_query(q.as_str())
    }

    /// `DELETE {chargingprofiles}/{session_id}?response_url={response_url}`.
    pub fn clear_charging_profile(&self, session_id: &str, response_url: &Url) -> (u: Url)
        ensures
            u@ == with_query_text(
                segment_joined(self@, session_id@),
                "response_url="@ + percent_encoded(encode_utf8(response_url@), false),
            ),
    {
        let mut q = String::new();
        push_str(&mut q, "response_url=");
        let encoded = encode_query_component(response_url.as_str());
        push_str(&mut q, encoded.as_str());
        self.base.join_segment(session_id).with_query(q.as_str())
    }

    /// `{tokens}/{country_code}/{party_id}/{token_uid}[?type={type}]`.
    pub fn token(&self, owner: &PartyRef, token_uid: &str, token_type: Option<&str>) -> (u: Url)
        ensures
            u@ == typed(owned_object(self@, *owner, token_uid@), opt_text(token_type)),
    {
        with_type(self.object(owner, token_uid), token_type)
    }

    /// `{payments}/terminals` on a CPO's Receiver interface.
    pub fn payments_terminals(&self) -> (e: Self)
        ensures
            e@ == sub_path_of(self@, "terminals"@),
    {
        ReceiverEndpoint::new(sub_path(&self.base, "terminals"))
    }

    /// `{payments}/financial-advice-confirmations` on a CPO's Receiver interface.
    pub fn payments_financial_advice_confirmations(&self) -> (e: Self)
        ensures
            e@ == sub_path_of(self@, "financial-advice-confirmations"@),
    {
        ReceiverEndpoint::new(sub_path(&self.base, "financial-advice-confirmations"))
    }
}

} // verus!
