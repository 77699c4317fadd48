//! Message routing: the four `OCPI-*` headers and the scenarios that decide what goes in them.
//!
//! The specification gives one table per scenario of who goes in `to` and who in `from`;
//! [`RoutingScenario`] encodes them, so an integrator picks a scenario rather than filling
//! headers by hand.

use vstd::prelude::*;

use crate::protocol::{ModuleId, module_is_functional};
use crate::strings::push_str;
use crate::types::ids::{PartyRef, party_text};

verus! {

/// The `OCPI-to-*` and `OCPI-from-*` headers of one message; `to` is absent for an Open Routing
/// Request, where the hub decides the destination from the content.
#[derive(Debug, PartialEq, Eq)]
pub struct RoutingHeaders {
    /// The party this message is to be sent to, absent for an Open Routing Request.
    pub to: Option<PartyRef>,
    /// The party this message is sent from.
    pub from: PartyRef,
}

impl Clone for RoutingHeaders {
    fn clone(&self) -> (r: Self)
        ensures
            r == *self,
    {
        let to = match &self.to {
            Some(p) => Some(p.clone()),
            None => None,
        };
        RoutingHeaders { to, from: self.from.clone() }
    }
}

/// `Some` of a clone of the party, or `None`.
fn cloned_party(p: Option<&PartyRef>) -> (r: Option<PartyRef>)
    ensures
        r == match p {
            Some(q) => Some(*q),
            None => None::<PartyRef>,
        },
{
    match p {
        Some(q) => Some(q.clone()),
        None => None,
    }
}

/// The headers as `Display` writes them: `from -> to`, or `from -> (open)`.
pub open spec fn routing_text(h: RoutingHeaders) -> Seq<char> {
    party_text(h.from) + " -> "@ + match h.to {
        Some(to) => party_text(to),
        None => "(open)"@,
    }
}

impl RoutingHeaders {
    /// Headers addressed from `from` to `to`.
    pub fn new(from: PartyRef, to: PartyRef) -> (h: Self)
        ensures
            h == (RoutingHeaders { to: Some(to), from }),
    {
        RoutingHeaders { to: Some(to), from }
    }

    /// Headers with no `to`, for an Open Routing Request, whose first hop MUST omit them.
    pub fn open(from: PartyRef) -> (h: Self)
        ensures
            h == (RoutingHeaders { to: None, from }),
    {
        RoutingHeaders { to: None, from }
    }

    /// The headers of the response to this request: the requester becomes `to`, and `from` is
    /// the party that answered, which for an Open Routing Request the requester did not know.
    pub fn response_from(&self, responder: PartyRef) -> (h: Self)
        ensures
            h == (RoutingHeaders { to: Some(self.from), from: responder }),
    {
        RoutingHeaders { to: Some(self.from.clone()), from: responder }
    }

    /// Whether these headers belong on a request to `module`: the configuration modules
    /// (Credentials, Versions, Hub Client Info) are never routed.
    pub fn applies_to(module: &ModuleId) -> (r: bool)
        ensures
            r == module_is_functional(*module),
    {
        module.is_functional()
    }

    /// The headers as text: `from -> to`, or `from -> (open)`.
    pub fn to_string(&self) -> (s: String)
        ensures
            s@ == routing_text(*self),
    {
        let mut s = self.from.to_string();
        push_str(&mut s, " -> ");
        match &self.to {
            Some(to) => {
                let t = to.to_string();
                push_str(&mut s, t.as_str());
            },
            None => push_str(&mut s, "(open)"),
        }
        s
    }
}

/// One of the routing arrangements the specification tabulates.
#[derive(Clone, Debug, PartialEq, Eq)]
#[non_exhaustive]
pub enum RoutingScenario {
    /// Requesting platform to receiving platform, directly or through a hub that just relays.
    Direct,
    /// A push to every connected party with the opposite role, fanned out by the hub. GET SHALL
    /// NOT be used with it.
    BroadcastPush {
        /// The hub that fans the message out.
        hub: PartyRef,
    },
    /// The requester does not know the destination; the hub decides from the content.
    OpenRoutingRequest,
    /// A GET on a Sender interface implemented by the hub, merging several parties' objects.
    GetAllViaHub {
        /// The hub that merges the objects.
        hub: PartyRef,
    },
}

/// The headers of the request the requesting party sends.
pub open spec fn request_headers_of(
    s: RoutingScenario,
    requester: PartyRef,
    receiver: Option<PartyRef>,
) -> RoutingHeaders {
    match s {
        RoutingScenario::Direct => RoutingHeaders { to: receiver, from: requester },
        RoutingScenario::BroadcastPush { hub } => RoutingHeaders { to: Some(hub), from: requester },
        RoutingScenario::GetAllViaHub { hub } => RoutingHeaders { to: Some(hub), from: requester },
        RoutingScenario::OpenRoutingRequest => RoutingHeaders { to: None, from: requester },
    }
}

/// The headers of the response the requesting party receives.
pub open spec fn response_headers_of(
    s: RoutingScenario,
    requester: PartyRef,
    receiver: Option<PartyRef>,
) -> RoutingHeaders {
    match s {
        RoutingScenario::Direct | RoutingScenario::OpenRoutingRequest => RoutingHeaders {
            to: Some(requester),
            from: match receiver {
                Some(r) => r,
                None => requester,
            },
        },
        RoutingScenario::BroadcastPush { hub } => RoutingHeaders { to: Some(requester), from: hub },
        RoutingScenario::GetAllViaHub { hub } => RoutingHeaders { to: Some(requester), from: hub },
    }
}

/// The headers the hub puts on the request it forwards to the receiving party; none for a
/// GET All, which the hub answers from its own merged view.
pub open spec fn forwarded_headers_of(
    s: RoutingScenario,
    requester: PartyRef,
    receiver: PartyRef,
) -> Option<RoutingHeaders> {
    match s {
        RoutingScenario::Direct | RoutingScenario::OpenRoutingRequest => Some(
            RoutingHeaders { to: Some(receiver), from: requester },
        ),
        RoutingScenario::BroadcastPush { hub } => Some(RoutingHeaders { to: Some(receiver), from: hub }),
        RoutingScenario::GetAllViaHub { .. } => None,
    }
}

impl RoutingScenario {
    /// The headers of the request the requesting party sends. `receiver` is ignored by the
    /// scenarios that address the hub or omit the `to` headers.
    pub fn request_headers(&self, requester: &PartyRef, receiver: Option<&PartyRef>) -> (h:
        RoutingHeaders)
        ensures
            h == request_headers_of(
                *self,
                *requester,
                match receiver {
                    Some(r) => Some(*r),
                    None => None::<PartyRef>,
                },
            ),
    {
        match self {
            RoutingScenario::Direct => RoutingHeaders {
                to: cloned_party(receiver),
                from: requester.clone(),
            },
            RoutingScenario::BroadcastPush { hub } => RoutingHeaders {
                to: Some(hub.clone()),
                from: requester.clone(),
            },
            RoutingScenario::GetAllViaHub { hub } => RoutingHeaders {
                to: Some(hub.clone()),
                from: requester.clone(),
            },
            RoutingScenario::OpenRoutingRequest => RoutingHeaders::open(requester.clone()),
        }
    }

    /// The headers of the response the requesting party will receive; `receiver` is the party
    /// that actually answered, which the hub knows even when the requester did not.
    pub fn response_headers(&self, requester: &PartyRef, receiver: Option<&PartyRef>) -> (h:
        RoutingHeaders)
        ensures
            h == response_headers_of(
                *self,
                *requester,
                match receiver {
                    Some(r) => Some(*r),
                    None => None::<PartyRef>,
                },
            ),
    {
        match self {
            RoutingScenario::Direct | RoutingScenario::OpenRoutingRequest => {
                let from = match receiver {
                    Some(r) => r.clone(),
                    None => requester.clone(),
                };
                RoutingHeaders { to: Some(requester.clone()), from }
            },
            RoutingScenario::BroadcastPush { hub } => RoutingHeaders {
                to: Some(requester.clone()),
                from: hub.clone(),
            },
            RoutingScenario::GetAllViaHub { hub } => RoutingHeaders {
                to: Some(requester.clone()),
                from: hub.clone(),
            },
        }
    }

    /// The headers the hub puts on the request it forwards to the receiving party.
    pub fn forwarded_request_headers(&self, requester: &PartyRef, receiver: &PartyRef) -> (h:
        Option<RoutingHeaders>)
        ensures
            h == forwarded_headers_of(*self, *requester, *receiver),
    {
        match self {
            RoutingScenario::Direct | RoutingScenario::OpenRoutingRequest => Some(
                RoutingHeaders::new(requester.clone(), receiver.clone()),
            ),
            RoutingScenario::BroadcastPush { hub } => Some(
                RoutingHeaders::new(hub.clone(), receiver.clone()),
            ),
            RoutingScenario::GetAllViaHub { .. } => None,
        }
    }

    /// Whether a GET may use this scenario: not a Broadcast Push.
    pub fn allows_get(&self) -> (r: bool)
        ensures
            r == !(*self is BroadcastPush),
    {
        match self {
            RoutingScenario::BroadcastPush { .. } => false,
            _ => true,
        }
    }

    /// Whether a write (POST, PUT, PATCH, DELETE) may use this scenario: a GET All is a read.
    pub fn allows_write(&self) -> (r: bool)
        ensures
            r == !(*self is GetAllViaHub),
    {
        match self {
            RoutingScenario::GetAllViaHub { .. } => false,
            _ => true,
        }
    }
}

/// A response answers the request it belongs to: in a direct exchange, and in an open routing
/// exchange once the receiver is known, the response goes back `to` the requester `from` the
/// party the request was addressed to, which is what [`RoutingHeaders::response_from`] gives.
pub proof fn lemma_direct_response_swaps_parties(requester: PartyRef, receiver: PartyRef)
    ensures
        ({
            let req = request_headers_of(RoutingScenario::Direct, requester, Some(receiver));
            let resp = response_headers_of(RoutingScenario::Direct, requester, Some(receiver));
            &&& resp.to == Some(req.from)
            &&& req.to == Some(resp.from)
            &&& resp == (RoutingHeaders { to: Some(req.from), from: receiver })
        }),
        response_headers_of(RoutingScenario::OpenRoutingRequest, requester, Some(receiver))
            == forwarded_headers_of(RoutingScenario::OpenRoutingRequest, requester, receiver)->0.swapped(),
{
}

impl RoutingHeaders {
    /// The headers with `to` and `from` exchanged, for headers that have a `to`.
    pub open spec fn swapped(self) -> RoutingHeaders {
        RoutingHeaders {
            to: Some(self.from),
            from: match self.to {
                Some(t) => t,
                None => self.from,
            },
        }
    }
}

/// Through a hub, the hub speaks for itself: in a Broadcast Push and a GET All, the request is
/// addressed to the hub and the response comes from it.
pub proof fn lemma_hub_scenarios_address_the_hub(
    hub: PartyRef,
    requester: PartyRef,
    receiver: Option<PartyRef>,
)
    ensures
        request_headers_of(RoutingScenario::BroadcastPush { hub }, requester, receiver).to == Some(
            hub,
        ),
        response_headers_of(RoutingScenario::BroadcastPush { hub }, requester, receiver).from
            == hub,
        request_headers_of(RoutingScenario::GetAllViaHub { hub }, requester, receiver).to == Some(
            hub,
        ),
        response_headers_of(RoutingScenario::GetAllViaHub { hub }, requester, receiver).from
            == hub,
{
}

} // verus!
