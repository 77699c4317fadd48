//! Everything between the JSON and the HTTP: envelope, status codes, headers, credentials
//! tokens, pagination, routing, endpoint URLs, PATCH and per-peer quirks.

pub mod auth;
pub mod endpoints;
pub mod envelope;
pub mod headers;
pub mod pagination;
pub mod patch;
pub mod quirks;
pub mod routing;
pub mod status;

pub use auth::{CredentialsToken, InvalidToken, TOKEN_PREFIX, TokenRole};
pub use endpoints::{ReceiverEndpoint, SenderEndpoint};
pub use envelope::{OcpiError, OcpiResponse};
pub use headers::{RequestIds, link_next, parse_link_next};
pub use pagination::{CrawlAdjustment, Page, PageMeta, PageQuery, crawl_adjustment};
pub use patch::{JsonValue, Patch, PatchFallback, merge, patch_fallback};
pub use quirks::Quirks;
pub use routing::{RoutingHeaders, RoutingScenario};
pub use status::{StatusClass, StatusCode};
