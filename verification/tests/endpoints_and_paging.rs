use ocpi_kit::testkit::{InMemoryStore, Stored};
use ocpi_kit::transport::endpoints::{ReceiverEndpoint, SenderEndpoint};
use ocpi_kit::transport::headers::{RequestIds, link_next, parse_link_next};
use ocpi_kit::transport::pagination::{CrawlAdjustment, Page, PageQuery, crawl_adjustment};
use ocpi_kit::types::datetime::DateTime;
use ocpi_kit::types::ids::PartyRef;
use ocpi_kit::types::url::Url;

fn sender(path: &str) -> SenderEndpoint {
    SenderEndpoint::new(Url::new(&format!("https://e.com/ocpi/cpo/2.3.0/{path}")).unwrap())
}

fn receiver(path: &str) -> ReceiverEndpoint {
    ReceiverEndpoint::new(Url::new(&format!("https://e.com/ocpi/emsp/2.3.0/{path}")).unwrap())
}

fn dt(s: &str) -> DateTime {
    s.parse().unwrap()
}

#[test]
fn client_owned_object_urls_match_the_spec_example() {
    let e = ReceiverEndpoint::new(Url::new("https://www.server.com/ocpi/cpo/2.2.1/tariffs").unwrap());
    assert_eq!(
        e.object(&PartyRef::new("NL", "TNM").unwrap(), "14").as_str(),
        "https://www.server.com/ocpi/cpo/2.2.1/tariffs/NL/TNM/14"
    );
}

#[test]
fn a_trailing_slash_on_the_discovered_url_does_not_double_up() {
    let e = ReceiverEndpoint::new(Url::new("https://e.com/ocpi/emsp/2.3.0/tariffs/").unwrap());
    assert_eq!(
        e.object(&PartyRef::new("NL", "TNM").unwrap(), "14").as_str(),
        "https://e.com/ocpi/emsp/2.3.0/tariffs/NL/TNM/14"
    );
}

#[test]
fn nested_location_urls_stop_where_the_caller_stops() {
    let s = sender("locations");
    assert_eq!(s.location("LOC1", None, None).as_str(), "https://e.com/ocpi/cpo/2.3.0/locations/LOC1");
    assert_eq!(
        s.location("LOC1", Some("3256"), None).as_str(),
        "https://e.com/ocpi/cpo/2.3.0/locations/LOC1/3256"
    );
    assert_eq!(
        s.location("LOC1", Some("3256"), Some("1")).as_str(),
        "https://e.com/ocpi/cpo/2.3.0/locations/LOC1/3256/1"
    );
    assert_eq!(s.location("LOC1", None, Some("1")).as_str(), "https://e.com/ocpi/cpo/2.3.0/locations/LOC1");
}

#[test]
fn token_authorization_carries_the_type_as_a_query_parameter() {
    let s = sender("tokens");
    assert_eq!(
        s.token_authorize("012345678", Some("RFID")).as_str(),
        "https://e.com/ocpi/cpo/2.3.0/tokens/012345678/authorize?type=RFID"
    );
    assert_eq!(
        s.token_authorize("012345678", None).as_str(),
        "https://e.com/ocpi/cpo/2.3.0/tokens/012345678/authorize"
    );
}

#[test]
fn a_response_url_is_percent_encoded_into_the_query() {
    let r = receiver("chargingprofiles");
    let response = Url::new("https://msp.example.com/cb?id=1").unwrap();
    let url = r.active_charging_profile("101", 900, &response);
    assert_eq!(
        url.as_str(),
        "https://e.com/ocpi/emsp/2.3.0/chargingprofiles/101\
         ?duration=900&response_url=https%3A%2F%2Fmsp.example.com%2Fcb%3Fid%3D1"
    );
}

#[test]
fn payment_terminal_urls_hang_off_the_discovered_payments_endpoint() {
    let s = sender("payments").payments_terminals();
    assert_eq!(s.terminal("TERM1").as_str(), "https://e.com/ocpi/cpo/2.3.0/payments/terminals/TERM1");
    assert_eq!(
        s.terminal_deactivate("TERM1").as_str(),
        "https://e.com/ocpi/cpo/2.3.0/payments/terminals/TERM1/deactivate"
    );
    assert_eq!(s.terminal_activate().as_str(), "https://e.com/ocpi/cpo/2.3.0/payments/terminals/activate");
    assert_eq!(
        sender("payments").payments_financial_advice_confirmations().base().as_str(),
        "https://e.com/ocpi/cpo/2.3.0/payments/financial-advice-confirmations"
    );
}

#[test]
fn a_peer_that_advertised_a_payments_sub_path_directly_still_works() {
    for advertised in ["payments", "payments/terminals", "payments/terminals/"] {
        assert_eq!(
            sender(advertised).payments_terminals().terminal("TERM1").as_str(),
            "https://e.com/ocpi/cpo/2.3.0/payments/terminals/TERM1",
            "advertised as {advertised}"
        );
    }
}

#[test]
fn a_token_url_carries_the_owner_and_the_type() {
    let r = receiver("tokens");
    let owner = PartyRef::new("NL", "TNM").unwrap();
    assert_eq!(
        r.token(&owner, "012345678", Some("APP_USER")).as_str(),
        "https://e.com/ocpi/emsp/2.3.0/tokens/NL/TNM/012345678?type=APP_USER"
    );
    assert_eq!(r.token(&owner, "012345678", None).as_str(), "https://e.com/ocpi/emsp/2.3.0/tokens/NL/TNM/012345678");
}

#[test]
fn clearing_a_charging_profile_carries_the_response_url() {
    let r = receiver("chargingprofiles");
    let response = Url::new("https://msp.example.com/cb?id=1").unwrap();
    assert_eq!(
        r.clear_charging_profile("101", &response).as_str(),
        "https://e.com/ocpi/emsp/2.3.0/chargingprofiles/101\
         ?response_url=https%3A%2F%2Fmsp.example.com%2Fcb%3Fid%3D1"
    );
}

#[test]
fn a_paginated_list_url_carries_the_filters() {
    let s = sender("cdrs");
    let q = PageQuery::new().with_offset(150).with_limit(50);
    assert_eq!(s.list(&q).as_str(), "https://e.com/ocpi/cpo/2.3.0/cdrs?offset=150&limit=50");
}

#[test]
fn object_and_command_urls_on_the_sender_side() {
    let s = sender("sessions");
    assert_eq!(s.object("S1").as_str(), "https://e.com/ocpi/cpo/2.3.0/sessions/S1");
    assert_eq!(
        s.charging_preferences("S1").as_str(),
        "https://e.com/ocpi/cpo/2.3.0/sessions/S1/charging_preferences"
    );
    assert_eq!(sender("commands").command("START_SESSION").as_str(), "https://e.com/ocpi/cpo/2.3.0/commands/START_SESSION");
}

#[test]
fn a_hub_renews_the_request_id_and_keeps_the_correlation_id() {
    let incoming = RequestIds::generate();
    let forwarded = incoming.forwarded();
    assert_ne!(incoming.request_id, forwarded.request_id);
    assert_eq!(incoming.correlation_id, forwarded.correlation_id);
}

#[test]
fn link_headers_round_trip_and_tolerate_the_unquoted_form() {
    let url = Url::new("https://www.server.com/ocpi/cpo/2.3.0/cdrs/?offset=150&limit=50").unwrap();
    let header = link_next(&url);
    assert_eq!(header, r#"<https://www.server.com/ocpi/cpo/2.3.0/cdrs/?offset=150&limit=50>; rel="next""#);
    assert_eq!(parse_link_next(&header), Some(url.clone()));
    assert_eq!(parse_link_next(r"<https://e.com/a>; rel=next"), Some(Url::new_lenient("https://e.com/a")));
}

#[test]
fn link_parsing_picks_next_out_of_several_entries() {
    let header = r#"<https://e.com/a?x=1,2>; rel="prev", <https://e.com/b>; rel="next""#;
    assert_eq!(parse_link_next(header), Some(Url::new_lenient("https://e.com/b")));
    assert_eq!(parse_link_next("garbage"), None);
}

#[test]
fn query_strings_match_the_spec_examples() {
    let q = PageQuery::between(dt("2016-01-01T00:00:00Z"), dt("2016-12-31T23:59:59Z"));
    let base = Url::new("https://www.server.com/ocpi/cpo/2.3.0/cdrs/").unwrap();
    assert_eq!(
        q.apply_to(&base).as_str(),
        "https://www.server.com/ocpi/cpo/2.3.0/cdrs/\
         ?date_from=2016-01-01T00%3A00%3A00Z&date_to=2016-12-31T23%3A59%3A59Z"
    );
    assert_eq!(PageQuery::new().apply_to(&base), base, "an empty query changes nothing");
}

#[test]
fn the_next_interval_starts_where_the_last_one_ended() {
    let first = PageQuery::between(dt("2016-01-01T00:00:00Z"), dt("2016-02-01T00:00:00Z"));
    let second = first.next_interval(dt("2016-03-01T00:00:00Z")).unwrap();
    assert_eq!(second.date_from, first.date_to, "half-open intervals do not overlap");
    assert_eq!(second.date_to, Some(dt("2016-03-01T00:00:00Z")));
    assert!(PageQuery::since(dt("2016-01-01T00:00:00Z")).next_interval(dt("2016-02-01T00:00:00Z")).is_none());
}

#[test]
fn limits_are_clamped_to_what_the_peer_advertises() {
    assert_eq!(PageQuery::new().with_limit(2000).clamped_to(100).limit, Some(100));
    assert_eq!(PageQuery::new().with_limit(50).clamped_to(100).limit, Some(50));
    assert_eq!(PageQuery::new().clamped_to(100).limit, Some(100));
}

#[test]
fn a_shrinking_total_count_rewinds_the_crawl_by_one() {
    assert_eq!(crawl_adjustment(Some(1000), Some(999), 150), CrawlAdjustment::RefetchAt(149));
    assert_eq!(crawl_adjustment(Some(1000), Some(1001), 150), CrawlAdjustment::Continue);
    assert_eq!(crawl_adjustment(Some(1000), Some(999), 0), CrawlAdjustment::Continue);
    assert_eq!(crawl_adjustment(None, Some(999), 150), CrawlAdjustment::Continue);
}

#[test]
fn a_last_page_has_no_next_link() {
    let page = Page::single(vec![1, 2, 3]);
    assert!(!page.has_next());
    assert_eq!(page.meta.total_count, Some(3));
}

#[test]
fn a_query_prints_its_parameters_in_a_fixed_order() {
    let q = PageQuery::since(dt("2016-01-01T00:00:00Z")).with_limit(10).with_offset(20);
    assert_eq!(q.to_query_string(), "offset=20&limit=10&date_from=2016-01-01T00%3A00%3A00Z");
    assert_eq!(PageQuery::new().to_query_string(), "");
    assert_eq!(PageQuery::new().offset_or_default(), 0);
}

#[derive(Clone, Debug, PartialEq)]
struct Loc {
    id: String,
    name: String,
    last_updated: DateTime,
}

impl Stored for Loc {
    fn key(&self) -> String {
        self.id.clone()
    }

    fn last_updated(&self) -> DateTime {
        self.last_updated
    }
}

fn loc(id: &str) -> Loc {
    Loc { id: id.to_string(), name: format!("location {id}"), last_updated: dt("2024-01-15T10:00:00Z") }
}

fn store_with(count: usize, page_size: usize) -> InMemoryStore<Loc> {
    let mut store = InMemoryStore::with_page_size(page_size);
    for i in 0..count {
        let mut location = loc(&format!("LOC{i}"));
        location.last_updated =
            DateTime::from_unix_timestamp(1_705_312_800 + i64::try_from(i).unwrap() * 60).unwrap();
        store.put(location);
    }
    store
}

fn base() -> Url {
    Url::new("https://cpo.example.com/ocpi/cpo/2.3.0/locations").unwrap()
}

#[test]
fn put_reports_whether_the_object_was_created() {
    let mut store = InMemoryStore::new();
    let location = loc("LOC1");
    assert!(store.put(location.clone()), "the first PUT creates");
    assert!(!store.put(location), "the second replaces");
    assert_eq!(store.len(), 1);
}

#[test]
fn ids_are_matched_case_insensitively_as_cistring_requires() {
    let mut store = InMemoryStore::new();
    store.put(loc("LOC1"));
    assert!(store.get("loc1").is_some());
    assert!(store.remove("Loc1"));
    assert!(store.is_empty());
}

#[test]
fn a_replacing_put_keeps_one_object_with_the_new_contents() {
    let mut store = InMemoryStore::new();
    store.put(loc("LOC1"));
    let mut renamed = loc("loc1");
    renamed.name = "renamed".to_string();
    assert!(!store.put(renamed.clone()));
    assert_eq!(store.get("LOC1"), Some(renamed));
    assert!(!store.remove("LOC2"), "removing an absent id reports false");
    assert_eq!(store.len(), 1);
}

#[test]
fn a_page_carries_a_next_link_until_the_last_one() {
    let store = store_with(25, 10);
    let first = store.page(&PageQuery::new(), &base());
    assert_eq!(first.items.len(), 10);
    assert_eq!(first.meta.total_count, Some(25));
    assert_eq!(first.meta.limit, Some(10), "X-Limit is the server maximum");
    let next = first.meta.next.expect("not the last page");
    assert!(next.as_str().contains("offset=10"), "{}", next.as_str());

    let last = store.page(&PageQuery::new().with_offset(20), &base());
    assert_eq!(last.items.len(), 5);
    assert!(last.meta.next.is_none(), "the last page has no Link");
}

#[test]
fn the_date_window_is_half_open() {
    let store = store_with(5, 100);
    let all = store.all();
    let second = all[1].last_updated;
    let fourth = all[3].last_updated;

    let page = store.page(&PageQuery::between(second, fourth), &base());
    assert_eq!(page.items.len(), 2);
    assert_eq!(page.items[0].last_updated, second);
    assert_eq!(page.meta.total_count, Some(2), "the total reflects the filter");
}

#[test]
fn sequential_intervals_do_not_overlap() {
    let store = store_with(6, 100);
    let all = store.all();
    let boundary = all[3].last_updated;
    let first = store.page(&PageQuery::between(all[0].last_updated, boundary), &base());
    let second = store.page(&PageQuery::since(boundary), &base());
    assert_eq!(first.items.len() + second.items.len(), 6, "every object appears exactly once");
}

#[test]
fn the_total_count_excludes_limit_and_offset() {
    let store = store_with(25, 10);
    let page = store.page(&PageQuery::new().with_offset(10).with_limit(5), &base());
    assert_eq!(page.items.len(), 5);
    assert_eq!(page.meta.total_count, Some(25));
}

#[test]
fn objects_come_back_oldest_first() {
    let store = store_with(3, 100);
    let page = store.page(&PageQuery::new(), &base());
    assert!(page.items[0].last_updated < page.items[1].last_updated);
    assert!(page.items[1].last_updated < page.items[2].last_updated);
}

#[test]
fn listing_sorts_by_timestamp_and_keeps_storage_order_for_ties() {
    let mut store = InMemoryStore::new();
    let mut late = loc("LATE");
    late.last_updated = dt("2024-01-15T12:00:00Z");
    store.put(late);
    store.put(loc("TIE1"));
    store.put(loc("TIE2"));
    let ids: Vec<String> = store.all().into_iter().map(|l| l.id).collect();
    assert_eq!(ids, vec!["TIE1", "TIE2", "LATE"]);
}

#[test]
fn the_next_link_keeps_the_filters_and_uses_the_page_size() {
    let store = store_with(5, 2);
    let q = PageQuery::since(dt("2024-01-15T10:00:00Z")).with_limit(50);
    let page = store.page(&q, &base());
    assert_eq!(page.items.len(), 2, "the limit is capped at the page size");
    assert_eq!(
        page.meta.next.unwrap().as_str(),
        "https://cpo.example.com/ocpi/cpo/2.3.0/locations?offset=2&limit=2&date_from=2024-01-15T10%3A00%3A00Z"
    );
    let beyond = store.page(&PageQuery::new().with_offset(99), &base());
    assert!(beyond.items.is_empty() && beyond.meta.next.is_none());
    assert_eq!(beyond.meta.total_count, Some(5));
}

#[test]
fn an_id_cannot_leave_its_endpoint() {
    let s = sender("tokens");
    assert_eq!(s.object("../credentials").as_str(), "https://e.com/ocpi/cpo/2.3.0/tokens/..%2Fcredentials");
    assert_eq!(s.object("BE*BEC*E041503001").as_str(), "https://e.com/ocpi/cpo/2.3.0/tokens/BE*BEC*E041503001");
    assert_eq!(
        s.token_authorize("a?b", None).as_str(),
        "https://e.com/ocpi/cpo/2.3.0/tokens/a%3Fb/authorize"
    );
    let r = receiver("tokens");
    assert_eq!(
        r.object(&PartyRef::new("NL", "TNM").unwrap(), "x/y").as_str(),
        "https://e.com/ocpi/emsp/2.3.0/tokens/NL/TNM/x%2Fy"
    );
}

#[test]
fn a_malformed_link_entry_does_not_hide_a_later_next() {
    assert_eq!(
        parse_link_next(r#"garbage, <https://e.com/b>; rel="next""#),
        Some(Url::new_lenient("https://e.com/b"))
    );
}
