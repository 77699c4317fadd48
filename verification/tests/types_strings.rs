use ocpi_kit::types::cistring::CiString;
use ocpi_kit::types::ids::{CountryCode, CountryCodeExt, EvseIdParts, PartyRef};
use ocpi_kit::types::string::OcpiString;
use ocpi_kit::types::text::{StringKind, check_printable_ascii, check_printable_utf8};
use ocpi_kit::types::{Validate, ViolationCode};

#[test]
fn ascii_rules() {
    assert!(check_printable_ascii("Hello, World! ~", StringKind::Ci).is_ok());
    assert!(check_printable_ascii("tab\there", StringKind::Ci).is_err());
    assert!(check_printable_ascii("\u{7f}", StringKind::Ci).is_err(), "DEL is not printable");
    assert!(check_printable_ascii("é", StringKind::Ci).is_err());
}

#[test]
fn utf8_rules() {
    assert!(check_printable_utf8("Straße — 日本語 🚗", StringKind::Utf8).is_ok());
    assert!(check_printable_utf8("line\nbreak", StringKind::Utf8).is_err());
    assert!(check_printable_utf8("\u{85}", StringKind::Utf8).is_err(), "C1 NEL is a control");
}

#[test]
fn error_messages_name_the_offending_index() {
    let e = check_printable_ascii("ab\tcd", StringKind::Ci).unwrap_err();
    assert!(e.to_string().contains("index 2"), "{}", e.to_string());
    assert!(!e.is_too_long());
}

#[test]
fn counts_characters_not_bytes() {
    let s = OcpiString::<5>::new("日本語です").unwrap();
    assert_eq!(s.len(), 5);
    assert_eq!(s.len_bytes(), 15);
    assert!(s.is_conformant());
    assert!(!s.is_conformant_in_bytes(), "the byte reading is stricter");
    assert!(OcpiString::<4>::new("日本語です").is_err());
}

#[test]
fn accepts_utf8_but_rejects_control_characters() {
    assert!(OcpiString::<64>::new("Straße 12 — Küche 🚗").is_ok());
    assert!(OcpiString::<64>::new("a\rb").is_err());
}

#[test]
fn a_lenient_string_is_kept_and_reported() {
    let s = OcpiString::<2>::new_lenient("much too long");
    assert_eq!(s.as_str(), "much too long");
    assert_eq!(s.validate().unwrap_err().as_slice()[0].code, ViolationCode::TooLong);
}

#[test]
fn rejects_non_printable_and_non_ascii() {
    assert!(CiString::<36>::new("ok").is_ok());
    assert!(CiString::<36>::new("no\nnewline").is_err());
    assert!(CiString::<36>::new("no\ttab").is_err());
    assert!(CiString::<36>::new("caf\u{e9}").is_err(), "CiString is ASCII-only");
    assert!(CiString::<3>::new("abcd").is_err());
}

#[test]
fn ci_string_equality_ignores_case() {
    let a = CiString::<36>::new("NL*TNM*001").unwrap();
    let b = CiString::<36>::new("nl*tnm*001").unwrap();
    assert_eq!(a, b);
    assert!(a.eq_ignore_case("Nl*TnM*001"));
}

#[test]
fn a_lenient_ci_string_is_kept_and_reported() {
    let long = CiString::<3>::new_lenient("abcdef");
    assert_eq!(long.as_str(), "abcdef", "peer data is never dropped");
    let err = long.validate().unwrap_err();
    assert_eq!(err.as_slice()[0].code, ViolationCode::TooLong);
    assert!(!long.is_conformant());
}

#[test]
fn na_sentinel_is_recognised() {
    assert!(CiString::<36>::new("#NA").unwrap().is_not_available());
    assert!(!CiString::<36>::new("NA").unwrap().is_not_available());
}

#[test]
fn party_refs_compare_case_insensitively() {
    assert_eq!(PartyRef::new("NL", "TNM").unwrap(), PartyRef::new("nl", "tnm").unwrap());
    assert_eq!("NL/TNM".parse::<PartyRef>().unwrap(), PartyRef::new("NL", "TNM").unwrap());
    assert!("NLTNM".parse::<PartyRef>().is_err());
}

#[test]
fn a_party_is_written_with_a_slash() {
    assert_eq!(PartyRef::new("NL", "TNM").unwrap().to_string(), "NL/TNM");
    assert_eq!("DE*ABC".parse::<PartyRef>().unwrap().to_string(), "DE/ABC");
    let e = "NL/TOOLONG".parse::<PartyRef>().unwrap_err();
    assert!(e.to_string().contains("3"), "{}", e.to_string());
}

#[test]
fn hub_party_id_is_the_concatenation() {
    let p = PartyRef::new("NL", "TNM").unwrap();
    let hub = p.to_hub_party_id();
    assert_eq!(hub.as_str(), "NLTNM");
    assert_eq!(PartyRef::from_hub_party_id(&hub).unwrap(), p);
}

#[test]
fn evse_id_parsing_accepts_both_forms_and_declines_others() {
    let sep = EvseIdParts::parse("NL*TNM*E1234").unwrap();
    assert_eq!(sep.to_separated(), "NL*TNM*E1234");
    assert_eq!(EvseIdParts::parse("NLTNME1234").unwrap(), sep);
    assert_eq!(sep.party().unwrap(), PartyRef::new("NL", "TNM").unwrap());
    for other in ["", "short", "12*TNM*E1", "NL*TNM*X1234"] {
        assert!(EvseIdParts::parse(other).is_none(), "{other} should not parse");
    }
}

#[test]
fn country_code_shape_check_is_advisory() {
    assert!(CountryCode::new("NL").unwrap().is_iso_shaped());
    assert!(!CountryCode::new("N1").unwrap().is_iso_shaped());
}

#[test]
fn equality_and_hashing_ignore_case() {
    let a = CiString::<36>::new("NL*TNM*001").unwrap();
    let b = CiString::<36>::new("nl*tnm*001").unwrap();
    assert_eq!(a, b);
    let mut set = std::collections::HashSet::new();
    set.insert(a);
    assert!(set.contains(&b), "case-folded hash must agree with case-folded Eq");
}

#[test]
fn ordering_ignores_case_and_agrees_with_equality() {
    let a = CiString::<36>::new("abc").unwrap();
    let b = CiString::<36>::new("ABD").unwrap();
    let c = CiString::<36>::new("ABC").unwrap();
    assert!(a < b);
    assert!(b > c);
    assert_eq!(a.partial_cmp(&c), Some(std::cmp::Ordering::Equal));
    assert!(CiString::<36>::new("ab").unwrap() < a, "a prefix comes first");
}

#[test]
fn construction_and_validation_agree() {
    for text in ["abc", "abcdef", "tab\t", "é"] {
        let strict = CiString::<3>::new(text).is_ok();
        let lenient = CiString::<3>::new_lenient(text).validate().is_ok();
        assert_eq!(strict, lenient, "{text:?}");
        let strict = OcpiString::<3>::new(text).is_ok();
        let lenient = OcpiString::<3>::new_lenient(text).validate().is_ok();
        assert_eq!(strict, lenient, "{text:?}");
    }
}

#[test]
fn resize_reports_a_too_long_ci_string() {
    let s = CiString::<36>::new("abcdef").unwrap();
    let e = s.clone().resize::<3>().unwrap_err();
    assert!(e.is_too_long());
    assert_eq!(e.kind(), StringKind::Ci);
    assert_eq!(s.resize::<6>().unwrap().as_str(), "abcdef");
}

#[test]
fn a_non_ascii_hub_party_id_is_refused() {
    let v = CiString::<5>::new_lenient("a\u{e9}xy");
    assert!(PartyRef::from_hub_party_id(&v).is_err());
    let ok = CiString::<5>::new_lenient("NLTNM");
    let p = PartyRef::from_hub_party_id(&ok).unwrap();
    assert_eq!(p.country_code.as_str(), "NL");
    assert_eq!(p.party_id.as_str(), "TNM");
}

#[test]
fn fitting_in_bytes_means_fitting_in_characters() {
    let s = OcpiString::<4>::new_lenient("abcd");
    assert!(s.is_conformant_in_bytes() && s.is_conformant());
    let wide = OcpiString::<4>::new_lenient("\u{e9}\u{e9}\u{e9}");
    assert!(!wide.is_conformant_in_bytes() && wide.is_conformant());
}

#[test]
fn the_separated_form_is_the_id_without_stars_ignoring_case() {
    let parts = EvseIdParts::parse("nl*tnm*e1234").unwrap();
    let separated = parts.to_separated();
    assert_eq!(separated, "nl*tnm*E1234");
    assert_eq!(separated.replace('*', "").to_ascii_lowercase(), "nltnme1234");
}
