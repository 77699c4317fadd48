use ocpi_kit::transport::envelope::OcpiError;
use ocpi_kit::transport::patch::{JsonValue, Patch, merge};

fn text(s: &str) -> JsonValue {
    JsonValue::String(s.to_string())
}

fn num(s: &str) -> JsonValue {
    JsonValue::Number(s.to_string())
}

fn obj(members: Vec<(&str, JsonValue)>) -> JsonValue {
    JsonValue::Object(members.into_iter().map(|(k, v)| (k.to_string(), v)).collect())
}

#[test]
fn merge_follows_rfc_7396() {
    let cases = vec![
        (obj(vec![("a", text("b"))]), obj(vec![("a", text("c"))]), obj(vec![("a", text("c"))])),
        (obj(vec![("a", text("b"))]), obj(vec![("b", text("c"))]), obj(vec![("a", text("b")), ("b", text("c"))])),
        (obj(vec![("a", text("b"))]), obj(vec![("a", JsonValue::Null)]), obj(vec![])),
        (
            obj(vec![("a", text("b")), ("b", text("c"))]),
            obj(vec![("a", JsonValue::Null)]),
            obj(vec![("b", text("c"))]),
        ),
        (
            obj(vec![("a", JsonValue::Array(vec![obj(vec![("b", text("c"))])]))]),
            obj(vec![("a", JsonValue::Array(vec![num("1")]))]),
            obj(vec![("a", JsonValue::Array(vec![num("1")]))]),
        ),
        (
            obj(vec![("a", obj(vec![("b", text("c"))]))]),
            obj(vec![("a", obj(vec![("b", text("d"))]))]),
            obj(vec![("a", obj(vec![("b", text("d"))]))]),
        ),
        (
            obj(vec![("a", JsonValue::Array(vec![obj(vec![("b", text("c"))])]))]),
            obj(vec![("a", text("replaced"))]),
            obj(vec![("a", text("replaced"))]),
        ),
    ];
    for (mut target, patch, expected) in cases {
        merge(&mut target, &patch);
        assert_eq!(target, expected);
    }
}

#[test]
fn merging_a_non_object_patch_replaces_the_target() {
    let mut target = obj(vec![("a", num("1"))]);
    merge(&mut target, &text("scalar"));
    assert_eq!(target, text("scalar"));
}

#[test]
fn a_patch_reports_the_fields_it_writes_including_nulls() {
    let patch: Patch<()> = Patch::from_value(obj(vec![("status", text("CHARGING")), ("name", JsonValue::Null)]));
    assert!(patch.touches("status") && patch.touches("name"));
    assert!(!patch.touches("id"));
    let mut fields = patch.fields();
    fields.sort_unstable();
    assert_eq!(fields, vec!["name", "status"]);
}

#[test]
fn a_patch_applied_twice_gives_what_it_gave_once() {
    let target = obj(vec![("a", obj(vec![("x", num("1")), ("y", num("2"))])), ("b", JsonValue::Bool(true))]);
    let patch = obj(vec![("a", obj(vec![("y", JsonValue::Null), ("z", num("3"))])), ("c", text("new"))]);
    let mut once = target.clone();
    merge(&mut once, &patch);
    let mut twice = once.clone();
    merge(&mut twice, &patch);
    assert_eq!(once, twice);
    assert_eq!(
        once,
        obj(vec![
            ("a", obj(vec![("x", num("1")), ("z", num("3"))])),
            ("b", JsonValue::Bool(true)),
            ("c", text("new")),
        ])
    );
}

#[test]
fn a_patch_without_last_updated_is_refused_with_2001() {
    let patch: Patch<()> = Patch::from_value(obj(vec![("status", text("CHARGING"))]));
    assert!(patch.last_updated().is_none());
    match patch.merged_into(obj(vec![])) {
        Err(OcpiError::Decode { path, message }) => {
            assert_eq!(path, "/last_updated");
            assert_eq!(message, "a PATCH must carry `last_updated` (2001 (Invalid or missing parameters))");
        },
        other => panic!("expected a refusal, got {other:?}"),
    }
    let stamped: Patch<()> = Patch::from_value(obj(vec![
        ("status", text("CHARGING")),
        ("last_updated", text("2019-06-24T12:39:09Z")),
    ]));
    assert_eq!(stamped.last_updated().unwrap().to_string(), "2019-06-24T12:39:09Z");
    let merged = stamped.merged_into(obj(vec![("status", text("AVAILABLE")), ("uid", text("3256"))])).unwrap();
    assert_eq!(
        merged,
        obj(vec![
            ("status", text("CHARGING")),
            ("uid", text("3256")),
            ("last_updated", text("2019-06-24T12:39:09Z")),
        ])
    );
    let typed: Patch<u8> = stamped.retype();
    assert_eq!(typed.into_value(), obj(vec![("status", text("CHARGING")), ("last_updated", text("2019-06-24T12:39:09Z"))]));
}
