use ocpi_kit::testkit::{test_cpo, test_hub, test_msp};
use ocpi_kit::transport::auth::{CredentialsToken, TokenRole};
use ocpi_kit::transport::envelope::{OcpiError, OcpiResponse};
use ocpi_kit::transport::patch::{PatchFallback, patch_fallback};
use ocpi_kit::transport::quirks::Quirks;
use ocpi_kit::transport::routing::{RoutingHeaders, RoutingScenario};
use ocpi_kit::transport::status::{StatusClass, StatusCode};
use ocpi_kit::types::ids::PartyRef;
use ocpi_kit::{ModuleId, VersionNumber};

#[test]
fn classes_follow_the_ranges() {
    assert_eq!(StatusCode::new(1000).class(), StatusClass::Success);
    assert_eq!(StatusCode::new(1999).class(), StatusClass::Success);
    assert_eq!(StatusCode::new(2001).class(), StatusClass::ClientError);
    assert_eq!(StatusCode::new(3002).class(), StatusClass::ServerError);
    assert_eq!(StatusCode::new(4003).class(), StatusClass::HubError);
    assert_eq!(StatusCode::new(5000).class(), StatusClass::Unknown);
    assert_eq!(StatusCode::new(999).class(), StatusClass::Unknown);
}

#[test]
fn custom_ranges_are_recognised() {
    for code in [1900, 1999, 2900, 3950, 4999] {
        assert!(StatusCode::new(code).is_custom(), "{code} is in a reserved custom range");
    }
    for code in [1000, 2001, 3003, 4000, 2899] {
        assert!(!StatusCode::new(code).is_custom(), "{code} is a standard code");
    }
    assert!(!StatusCode::new(5900).is_custom(), "outside every defined class");
}

#[test]
fn display_includes_the_spec_description() {
    assert_eq!(StatusCode::invalid_parameters().to_string(), "2001 (Invalid or missing parameters)");
    assert_eq!(StatusCode::new(2901).to_string(), "2901");
}

#[test]
fn status_code_basics() {
    assert_eq!(StatusCode::invalid_parameters().get(), 2001);
    assert!(StatusCode::success().is_success());
    assert!(StatusClass::ClientError.is_client_fault() && !StatusClass::ServerError.is_client_fault());
    assert_eq!(StatusCode::from(4002u16), StatusCode::timeout_on_forwarded_request());
    assert_eq!(StatusCode::new(3003).description(), Some("No matching endpoints or expected endpoints missing between parties"));
}

#[test]
fn http_status_mapping_matches_the_spec_table() {
    assert_eq!(OcpiError::MalformedJson("x".into()).http_status(), 400);
    assert_eq!(OcpiError::Unauthorized("x".into()).http_status(), 401);
    assert_eq!(OcpiError::TokenAOutOfScope.http_status(), 401);
    assert_eq!(OcpiError::NotFound("x".into()).http_status(), 404);
    assert_eq!(OcpiError::MethodNotAllowed("x".into()).http_status(), 405);
    assert_eq!(OcpiError::Decode { path: "/evses/0".into(), message: "nope".into() }.http_status(), 200);
    let unroutable = OcpiError::NotRoutable("GET is not a Broadcast Push".into());
    assert_eq!(unroutable.http_status(), 200);
    assert_eq!(unroutable.status_code(), StatusCode::invalid_parameters());
    assert!(!unroutable.is_transient());
    assert_eq!(OcpiError::Transport("timeout".into()).http_status(), 200);
    assert_eq!(OcpiError::Remote { status_code: StatusCode::hub_error(), status_message: None }.http_status(), 200);
}

#[test]
fn server_and_hub_errors_are_transient_client_errors_are_not() {
    let transient = OcpiError::Remote { status_code: StatusCode::connection_problem(), status_message: None };
    assert!(transient.is_transient());
    let permanent = OcpiError::Remote { status_code: StatusCode::unknown_token(), status_message: None };
    assert!(!permanent.is_transient());
    assert!(OcpiError::Transport("reset".into()).is_transient());
}

#[test]
fn into_result_surfaces_the_peers_error() {
    let r: OcpiResponse<String> = OcpiResponse::error(StatusCode::new(2001), "Missing required field: type".into());
    let err = r.into_result().unwrap_err();
    assert_eq!(err.status_code(), StatusCode::invalid_parameters());
    assert!(err.to_string().contains("Missing required field"), "{}", err.to_string());
    assert_eq!(
        err.to_string(),
        "peer returned OCPI status 2001 (Invalid or missing parameters): Missing required field: type"
    );
    assert!(!err.is_transient());
}

#[test]
fn a_list_endpoint_treats_absent_data_as_empty() {
    let r: OcpiResponse<Vec<String>> = OcpiResponse::success_empty();
    assert_eq!(r.into_list().unwrap(), Vec::<String>::new());
    let ok = OcpiResponse::success(7u8).into_result().unwrap();
    assert_eq!(ok, 7);
    let missing: OcpiResponse<u8> = OcpiResponse::success_empty();
    assert!(matches!(missing.into_result(), Err(OcpiError::MissingData { .. })));
    let response: OcpiResponse<u8> = OcpiError::NotFound("no such EVSE".into()).to_response();
    assert_eq!(response.status_code, StatusCode::client_error());
    assert_eq!(response.status_message.as_deref(), Some("not found: no such EVSE"));
}

#[test]
fn the_fallback_matches_the_spec_advice() {
    assert_eq!(patch_fallback(&OcpiError::NotFound("no such EVSE".into())), PatchFallback::PutWholeObject);
    assert_eq!(patch_fallback(&OcpiError::Transport("timeout".into())), PatchFallback::GetThenReconcile);
}

#[test]
fn defaults_are_conformant_not_permissive() {
    let q = Quirks::default();
    assert!(!q.accept_unencoded_token, "2.2-d2 and later require Base64");
    assert!(!q.send_unencoded_token);
    assert!(!q.omit_routing_headers);
    assert!(!q.lenient_content_type);
    assert!(q.case_insensitive_module_ids);
}

#[test]
fn legacy_versions_get_exactly_the_relaxations_they_need() {
    let v211 = Quirks::for_version(&VersionNumber::V2_1_1);
    assert!(v211.accept_unencoded_token && v211.send_unencoded_token);
    assert!(v211.omit_routing_headers);

    let v22 = Quirks::for_version(&VersionNumber::V2_2);
    assert!(v22.accept_unencoded_token, "2.2 predates the Base64 requirement");
    assert!(!v22.omit_routing_headers, "2.2 introduced routing headers");

    let v221 = Quirks::for_version(&VersionNumber::V2_2_1);
    assert!(!v221.accept_unencoded_token);
    assert!(!v221.omit_routing_headers);
}

#[test]
fn page_limits_are_clamped_to_what_the_peer_tolerates() {
    let q = Quirks::default().with_peer_max_page_limit(100);
    assert_eq!(q.effective_limit(Some(2000)), Some(100));
    assert_eq!(q.effective_limit(Some(10)), Some(10));
    assert_eq!(q.effective_limit(None), Some(100));
    assert_eq!(Quirks::default().effective_limit(None), None);
}

#[test]
fn the_strict_profile_accommodates_nothing() {
    let q = Quirks::strict();
    assert!(!q.case_insensitive_module_ids);
    assert!(!q.accept_unencoded_token && !q.lenient_content_type);
    let p = Quirks::permissive();
    assert!(p.accept_unencoded_token && p.lenient_content_type && !p.send_unencoded_token);
}

fn cpo() -> PartyRef {
    PartyRef::new("NL", "TNM").unwrap()
}
fn msp() -> PartyRef {
    PartyRef::new("DE", "ABC").unwrap()
}
fn hub() -> PartyRef {
    PartyRef::new("NL", "HUB").unwrap()
}

#[test]
fn direct_request_and_response_swap_the_parties() {
    let s = RoutingScenario::Direct;
    let req = s.request_headers(&cpo(), Some(&msp()));
    assert_eq!(req.to, Some(msp()));
    assert_eq!(req.from, cpo());
    let resp = s.response_headers(&cpo(), Some(&msp()));
    assert_eq!(resp.to, Some(cpo()));
    assert_eq!(resp.from, msp());
}

#[test]
fn broadcast_push_addresses_the_hub_then_the_hub_speaks_for_itself() {
    let s = RoutingScenario::BroadcastPush { hub: hub() };
    let req = s.request_headers(&cpo(), None);
    assert_eq!((req.to, req.from), (Some(hub()), cpo()));
    let resp = s.response_headers(&cpo(), None);
    assert_eq!((resp.to, resp.from), (Some(cpo()), hub()));
    let fwd = s.forwarded_request_headers(&cpo(), &msp()).unwrap();
    assert_eq!((fwd.to, fwd.from), (Some(msp()), hub()));
    assert!(!s.allows_get(), "GET SHALL NOT be used with Broadcast Push");
}

#[test]
fn open_routing_omits_the_to_headers_only_on_the_first_hop() {
    let s = RoutingScenario::OpenRoutingRequest;
    let req = s.request_headers(&cpo(), None);
    assert_eq!(req.to, None, "the TO headers MUST be omitted");
    let fwd = s.forwarded_request_headers(&cpo(), &msp()).unwrap();
    assert_eq!((fwd.to, fwd.from), (Some(msp()), cpo()));
    assert!(s.allows_get() && s.allows_write());
}

#[test]
fn get_all_via_hub_is_answered_by_the_hub_itself() {
    let s = RoutingScenario::GetAllViaHub { hub: hub() };
    let req = s.request_headers(&msp(), None);
    assert_eq!((req.to, req.from), (Some(hub()), msp()));
    let resp = s.response_headers(&msp(), None);
    assert_eq!((resp.to, resp.from), (Some(msp()), hub()));
    assert_eq!(s.forwarded_request_headers(&msp(), &cpo()), None);
    assert!(!s.allows_write(), "a GET All is a read");
}

#[test]
fn configuration_modules_are_never_routed() {
    assert!(!RoutingHeaders::applies_to(&ModuleId::Credentials));
    assert!(!RoutingHeaders::applies_to(&ModuleId::Versions));
    assert!(!RoutingHeaders::applies_to(&ModuleId::HubClientInfo));
    assert!(RoutingHeaders::applies_to(&ModuleId::Locations));
}

#[test]
fn a_response_from_the_receiver_swaps_the_headers() {
    let request = RoutingHeaders::open(cpo());
    let response = request.response_from(msp());
    assert_eq!((response.to, response.from), (Some(cpo()), msp()));
    assert_eq!(RoutingHeaders::new(cpo(), msp()).to_string(), "NL/TNM -> DE/ABC");
    assert_eq!(RoutingHeaders::open(cpo()).to_string(), "NL/TNM -> (open)");
}

#[test]
fn header_encoding_matches_the_spec_example() {
    let token = CredentialsToken::new("example-token").unwrap();
    assert_eq!(token.to_header_value(), "Token ZXhhbXBsZS10b2tlbg==");
    assert_eq!(token.to_header_value_unencoded(), "Token example-token");
}

#[test]
fn header_parsing_accepts_both_encodings_under_the_flag() {
    let encoded = "Token ZXhhbXBsZS10b2tlbg==";
    let parsed = CredentialsToken::parse_header(encoded, false).unwrap();
    assert_eq!(parsed.expose_secret(), "example-token");

    let bare = "Token 12345678-1234-1234-1234-123456789012";
    assert!(CredentialsToken::parse_header(bare, false).is_err());
    assert_eq!(
        CredentialsToken::parse_header(bare, true).unwrap().expose_secret(),
        "12345678-1234-1234-1234-123456789012"
    );
}

#[test]
fn header_parsing_is_case_insensitive_on_the_scheme_and_rejects_junk() {
    assert!(CredentialsToken::parse_header("token ZXhhbXBsZS10b2tlbg==", false).is_ok());
    assert!(CredentialsToken::parse_header("Bearer abc", true).is_err());
    assert!(CredentialsToken::parse_header("Token ", true).is_err());
    assert!(CredentialsToken::parse_header("", true).is_err());
}

#[test]
fn the_secret_never_appears_in_debug_or_display() {
    let token = CredentialsToken::new("super-secret-value").unwrap();
    let debug = token.to_string();
    let display = token.to_string();
    for rendering in [&debug, &display] {
        assert!(!rendering.contains("super-secret"), "{rendering}");
        assert!(rendering.contains("****alue"), "{rendering}");
    }
    assert_eq!(display, "Token(****alue)");
}

#[test]
fn the_charset_excludes_whitespace() {
    assert!(CredentialsToken::new("has space").is_err());
    assert!(CredentialsToken::new("").is_err());
    assert!(CredentialsToken::new(&"a".repeat(65)).is_err());
    assert!(CredentialsToken::new(&"a".repeat(64)).is_ok());
    assert!(CredentialsToken::new("~!@#$%^&*()_+").is_ok());
}

#[test]
fn token_errors_say_what_is_wrong() {
    assert_eq!(
        CredentialsToken::new("has space").err().unwrap().to_string(),
        "invalid credentials token: a credentials token may only contain U+0021..U+007E; found U+0020"
    );
    assert_eq!(
        CredentialsToken::new(&"a".repeat(65)).err().unwrap().to_string(),
        "invalid credentials token: a credentials token is string(64); this one has 65 characters"
    );
    assert_eq!(CredentialsToken::new("abc").unwrap().hint(), "****abc");
}

#[test]
fn equality_is_value_based_and_generated_tokens_differ() {
    let a = CredentialsToken::new("same").unwrap();
    let b = CredentialsToken::new("same").unwrap();
    let c = CredentialsToken::new("other").unwrap();
    assert!(a == b);
    assert!(a != c);
    assert!(CredentialsToken::generate() != CredentialsToken::generate());
    assert!(CredentialsToken::generate().is_conformant());
}

#[test]
fn token_a_is_scoped_to_credentials_and_versions() {
    assert!(TokenRole::A.may_access(&ModuleId::Credentials));
    assert!(TokenRole::A.may_access(&ModuleId::Versions));
    assert!(!TokenRole::A.may_access(&ModuleId::Locations));
    assert!(!TokenRole::A.may_access(&ModuleId::Cdrs));
    assert!(TokenRole::C.may_access(&ModuleId::Locations));
}

#[test]
fn the_test_parties_are_the_ones_the_spec_examples_use() {
    assert_eq!(test_cpo().to_string(), "NL/TNM");
    assert_eq!(test_msp().to_string(), "DE/ABC");
    assert_eq!(test_hub().to_string(), "NL/HUB");
    assert!(ocpi_kit::testkit::test_token("a").expose_secret().starts_with("test-token-"));
}

#[test]
fn a_token_reads_back_from_its_header() {
    for text in ["example-token", "a", "0123456789abcdefghijklmnopqrstuvwxyzABCDEFGHIJKLMNOPQRSTUVWXYZ!#"] {
        let token = CredentialsToken::new(text).unwrap();
        let header = token.to_header_value();
        for accept in [false, true] {
            assert_eq!(CredentialsToken::parse_header(&header, accept).unwrap().expose_secret(), text);
        }
    }
}
