//! The scalar and leaf types the whole specification is built from.

pub mod cistring;
pub mod cistring_order;
pub mod datetime;
pub mod display_text;
pub mod extensions;
pub mod ids;
mod instant_order;
pub mod local;
pub mod number;
mod number_order;
pub mod open_enum;
pub mod string;
pub mod text;
pub mod url;
pub mod validate;

pub use cistring::CiString;
pub use datetime::{DateTime, InvalidDateTime};
pub use display_text::DisplayText;
pub use extensions::Extensions;
pub use ids::{
    InvalidPartyRef,
    ContractId, CountryCode, CountryCodeExt, Currency, EvseId, EvseIdParts, PartyId, PartyRef,
};
pub use local::{InvalidLocalDate, InvalidLocalTime, LocalDate, LocalTime};
pub use number::{InvalidNumber, Number, RoundingStrategy};
pub use string::OcpiString;
pub use text::{InvalidString, StringKind};
pub use validate::{Validate, Validator, Violation, ViolationCode, Violations};
pub use open_enum::{UnknownVariant, validate_closed_enum_value, validate_open_enum_value};
pub use url::{InvalidUrl, ParsedUrl, URL_MAX_LEN, Url, UrlHost, UrlPolicy, UrlRefused, encode_path_segment, encode_query_component};
