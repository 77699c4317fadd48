use std::collections::HashSet;
use ocpi_kit::strings::eq_ignore_ascii_case;
use ocpi_kit::types::open_enum::{UnknownVariant, validate_closed_enum_value, validate_open_enum_value};
use ocpi_kit::types::{Validate, Validator, ViolationCode};
use ocpi_kit::v2_1_1::cdrs::{AuthMethod, CdrDimensionType};
use ocpi_kit::v2_1_1::commands::CommandType;
use ocpi_kit::v2_1_1::sessions::SessionStatus;

/// An enum the specification declares closed, written as the library's enums are.
#[derive(Clone, Debug, PartialEq, Eq)]
enum Closed {
    Alpha,
    Beta,
}

const CLOSED_WIRE: &[&str] = &["ALPHA", "BETA"];

impl Closed {
    fn from_str(s: &str) -> Result<Self, UnknownVariant> {
        match s {
            "ALPHA" => Ok(Closed::Alpha),
            "BETA" => Ok(Closed::Beta),
            other => Err(UnknownVariant::new("Closed", other, CLOSED_WIRE)),
        }
    }

    fn from_str_ignore_case(s: &str) -> Option<Self> {
        if eq_ignore_ascii_case(s, "ALPHA") {
            Some(Closed::Alpha)
        } else if eq_ignore_ascii_case(s, "BETA") {
            Some(Closed::Beta)
        } else {
            None
        }
    }
}

/// An open enum, written as the library's enums are.
#[derive(Clone, Debug, PartialEq, Eq)]
enum Open {
    Alpha,
    Custom(String),
}

impl Open {
    fn from_str(s: &str) -> Result<Self, core::convert::Infallible> {
        Ok(if s == "ALPHA" { Open::Alpha } else { Open::Custom(s.to_owned()) })
    }

    fn from_str_ignore_case(s: &str) -> Self {
        if eq_ignore_ascii_case(s, "ALPHA") { Open::Alpha } else { Open::Custom(s.to_owned()) }
    }

    fn validate(&self) -> Result<(), ocpi_kit::types::Violations> {
        let mut v = Validator::new();
        if let Open::Custom(value) = self {
            validate_open_enum_value("Open", value, &mut v);
        }
        v.finish()
    }
}

#[test]
fn case_insensitive_parsing_is_opt_in() {
    assert_eq!(Open::from_str("alpha").unwrap(), Open::Custom("alpha".into()));
    assert_eq!(Open::from_str_ignore_case("alpha"), Open::Alpha);
    assert_eq!(Closed::from_str_ignore_case("beta"), Some(Closed::Beta));
}

#[test]
fn open_enum_other_payload_is_validated() {
    assert!(Open::Custom("fine".into()).validate().is_ok());
    assert!(Open::Custom(String::new()).validate().is_err());
    assert!(Open::Custom("bad\nvalue".into()).validate().is_err());
}

#[test]
fn an_unknown_closed_value_names_the_allowed_ones() {
    let err = Closed::from_str("GAMMA").unwrap_err().to_string();
    assert!(err.contains("GAMMA") && err.contains("ALPHA"), "{err}");
    assert_eq!(Closed::from_str("ALPHA").unwrap(), Closed::Alpha);
}

#[test]
fn a_closed_in_spec_value_is_kept_and_reported() {
    let mut v = Validator::new();
    validate_closed_enum_value("ConnectorType", "MCS", &mut v);
    let err = v.finish().unwrap_err();
    assert_eq!(err.as_slice()[0].code, ViolationCode::Inconsistent);
    assert!(err.as_slice()[0].message.contains("\"MCS\""));
}

#[test]
fn the_2_1_1_dimension_set_is_the_small_one() {
    assert_eq!(CdrDimensionType::all_known().len(), 6);
    assert!(!CdrDimensionType::from("STATE_OF_CHARGE").is_known());
    assert!(!AuthMethod::from("COMMAND").is_known(), "COMMAND arrived with the Commands module");
}

#[test]
fn cancel_reservation_arrived_after_2_1_1() {
    assert_eq!(CommandType::all_known().len(), 4);
    assert!(!CommandType::from("CANCEL_RESERVATION").is_known());
}

#[test]
fn the_reservation_status_arrived_later() {
    assert_eq!(SessionStatus::all_known().len(), 4);
    assert!(!SessionStatus::from("RESERVATION").is_known());
}

#[test]
fn a_2_1_1_value_is_written_as_it_was_read() {
    assert_eq!(SessionStatus::from("COMPLETED"), SessionStatus::Completed);
    assert!(!SessionStatus::Completed.is_terminal() && !SessionStatus::Invalid.is_terminal());
    assert!(SessionStatus::Active.is_terminal() && SessionStatus::Pending.is_terminal());
    assert_eq!(SessionStatus::from_str_ignore_case("completed"), SessionStatus::Completed);
    assert_eq!(SessionStatus::from("completed").as_str(), "completed");
    assert_eq!(SessionStatus::Custom("ACTIVE".into()), SessionStatus::Active);
    assert!(SessionStatus::Active.validate().is_ok());
    assert_eq!(
        SessionStatus::from("RESERVATION").validate().unwrap_err().as_slice()[0].code,
        ViolationCode::Inconsistent
    );
    assert_eq!(CdrDimensionType::all_known_wire()[4], "PARKING_TIME");
}

#[test]
fn open_enum_equality_goes_through_the_wire_value() {
    assert_eq!(AuthMethod::Custom("WHITELIST".into()), AuthMethod::Whitelist);
    let mut set = HashSet::new();
    set.insert(AuthMethod::Custom("WHITELIST".into()));
    assert!(set.contains(&AuthMethod::Whitelist), "Hash must agree with Eq");
    let mut statuses = HashSet::new();
    statuses.insert(SessionStatus::parse("ACTIVE"));
    assert!(statuses.contains(&SessionStatus::parse("ACTIVE")));
}
