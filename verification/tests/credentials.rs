use ext_authz::credentials::Credentials;
use ext_authz::evidence::{empty_object, text_field, Evidence};
use ext_authz::types::WireContext;

#[test]
fn credentials_are_kept_in_key_order_without_duplicates() {
    let mut c = Credentials::new();
    assert!(c.entries().is_empty());
    for (k, v) in [("x-b", "1"), ("x-a", "2"), ("x-c", "3"), ("x-b", "4"), ("", "5")] {
        c.insert(k.to_string(), v.to_string());
    }
    let entries: Vec<(&str, &str)> = c
        .entries()
        .iter()
        .map(|(k, v)| (k.as_str(), v.as_str()))
        .collect();
    assert_eq!(
        entries,
        vec![("", "5"), ("x-a", "2"), ("x-b", "4"), ("x-c", "3")]
    );
    assert_eq!(c.get("x-b").map(String::as_str), Some("4"));
    assert_eq!(c.get("x-d"), None);
}

#[test]
fn credentials_order_as_an_ordered_map_does() {
    let keys = ["b", "a", "ab", "\u{e9}", "z", "A", "aa", "\u{1f600}", "\u{ffff}"];
    let mut c = Credentials::new();
    let mut map = std::collections::BTreeMap::new();
    for k in keys {
        c.insert(k.to_string(), format!("v-{k}"));
        map.insert(k.to_string(), format!("v-{k}"));
    }
    let ordered: Vec<(String, String)> = map.into_iter().collect();
    assert_eq!(c.entries(), &ordered);
}

#[test]
fn evidence_fields_are_found_by_name() {
    let e = Evidence::Object(vec![
        ("a".into(), Evidence::Bool(true)),
        ("b".into(), Evidence::Number("1".into())),
        ("a".into(), Evidence::Null),
    ]);
    assert_eq!(e.get("a"), Some(&Evidence::Bool(true)));
    assert_eq!(e.get("b"), Some(&Evidence::Number("1".into())));
    assert_eq!(e.get("c"), None);
    assert_eq!(Evidence::Text("a".into()).get("a"), None);
    assert_eq!(Evidence::List(vec![]).get("a"), None);
    assert_eq!(empty_object(), Evidence::Object(vec![]));
    assert_eq!(
        text_field("k", "v"),
        Evidence::Object(vec![("k".into(), Evidence::Text("v".into()))])
    );
}

#[test]
fn copies_are_equal() {
    let e = Evidence::Object(vec![
        ("list".into(), Evidence::List(vec![Evidence::Null, Evidence::Text("t".into())])),
        ("number".into(), Evidence::Number("1.5".into())),
        ("flag".into(), Evidence::Bool(false)),
        ("empty".into(), empty_object()),
    ]);
    assert_eq!(e.clone(), e);
    let mut c = Credentials::new();
    c.insert("b".into(), "1".into());
    c.insert("a".into(), "2".into());
    assert_eq!(c.clone(), c);
}

#[test]
fn a_default_context_is_blank() {
    let c = WireContext::default();
    assert_eq!(c.agent_id, "");
    assert_eq!(c.sandbox_id, "");
    assert_eq!(c.endpoint_rule, "");
    assert_eq!(c.received_at_unix_ms, 0);
    assert!(c.on_behalf_of.is_none());
    assert!(c.agent_class.is_none());
    assert!(c.sandbox_name.is_none());
    assert!(c.policy_revision.is_none());
    assert!(c.request_id.is_none());
}
