use dyndns::{
    listing_from_doc, member, resolve_bindings, resolve_from_doc, Binding, JsonDoc, Listing,
    RemoteRecord, ResolveError,
};

fn names(v: &[&str]) -> Vec<String> {
    v.iter().map(|a| a.to_string()).collect()
}

fn pairs(bs: &[Binding]) -> Vec<(String, String)> {
    bs.iter().map(|b| (b.domain.clone(), b.record_id.clone())).collect()
}

fn text(s: &str) -> JsonDoc {
    JsonDoc::Text(s.to_string())
}

fn object(members: Vec<(&str, JsonDoc)>) -> JsonDoc {
    JsonDoc::Object(members.into_iter().map(|(k, v)| (k.to_string(), v)).collect())
}

fn entry(name: &str, id: &str) -> JsonDoc {
    object(vec![("id", text(id)), ("name", text(name)), ("type", text("A"))])
}

/// {"success": true, "result": [{"name": "a.example.com", "id": "r1"}, {"name": "b.example.com", "id": "r2"}]}
fn listing() -> JsonDoc {
    object(vec![
        ("result", JsonDoc::Array(vec![entry("a.example.com", "r1"), entry("b.example.com", "r2")])),
        ("success", JsonDoc::Bool(true)),
    ])
}

#[test]
fn bindings_follow_domain_order() {
    let bs = resolve_from_doc(&names(&["b.example.com", "a.example.com"]), &listing()).unwrap();
    assert_eq!(pairs(&bs), vec![("b.example.com".to_string(), "r2".to_string()), ("a.example.com".to_string(), "r1".to_string())]);
}

#[test]
fn rejected_listing_fails() {
    let doc = object(vec![
        ("result", JsonDoc::Array(vec![entry("a.example.com", "r1")])),
        ("success", JsonDoc::Bool(false)),
    ]);
    assert_eq!(resolve_from_doc(&names(&["a.example.com"]), &doc).err(), Some(ResolveError::Rejected));
    let doc = object(vec![("errors", JsonDoc::Array(vec![]))]);
    assert_eq!(resolve_from_doc(&names(&["a.example.com"]), &doc).err(), Some(ResolveError::Rejected));
    let doc = object(vec![("success", text("true"))]);
    assert_eq!(resolve_from_doc(&names(&["a.example.com"]), &doc).err(), Some(ResolveError::Rejected));
}

#[test]
fn unmatched_domain_is_named() {
    let r = resolve_from_doc(&names(&["c.example.com"]), &listing());
    assert_eq!(r.err(), Some(ResolveError::NoMatch { domain: "c.example.com".to_string() }));
    let r = resolve_from_doc(&names(&["a.example.com", "c.example.com", "d.example.com"]), &listing());
    assert_eq!(r.err(), Some(ResolveError::NoMatch { domain: "c.example.com".to_string() }));
}

#[test]
fn first_record_of_a_name_wins() {
    let listing = Listing {
        success: true,
        records: vec![
            RemoteRecord { name: "a.example.com".to_string(), id: "first".to_string() },
            RemoteRecord { name: "a.example.com".to_string(), id: "second".to_string() },
        ],
    };
    let bs = resolve_bindings(&names(&["a.example.com"]), &listing).unwrap();
    assert_eq!(pairs(&bs), vec![("a.example.com".to_string(), "first".to_string())]);
}

#[test]
fn listing_doc_is_read() {
    let l = listing_from_doc(&listing()).unwrap();
    assert!(l.success);
    assert_eq!(l.records.len(), 2);
    assert_eq!(l.records[1].name, "b.example.com");
    assert_eq!(l.records[1].id, "r2");
    let failed = listing_from_doc(&object(vec![("success", JsonDoc::Bool(false))])).unwrap();
    assert!(!failed.success);
    assert_eq!(failed.records.len(), 0);
}

#[test]
fn malformed_listings() {
    let no_result = object(vec![("success", JsonDoc::Bool(true))]);
    assert_eq!(listing_from_doc(&no_result).err(), Some(ResolveError::Malformed));
    let not_array = object(vec![("result", text("x")), ("success", JsonDoc::Bool(true))]);
    assert_eq!(listing_from_doc(&not_array).err(), Some(ResolveError::Malformed));
    let bad_name = object(vec![
        ("result", JsonDoc::Array(vec![object(vec![("id", text("x")), ("name", JsonDoc::Number("3".to_string()))])])),
        ("success", JsonDoc::Bool(true)),
    ]);
    assert_eq!(listing_from_doc(&bad_name).err(), Some(ResolveError::Malformed));
    let no_id = object(vec![
        ("result", JsonDoc::Array(vec![object(vec![("name", text("a.example.com"))])])),
        ("success", JsonDoc::Bool(true)),
    ]);
    assert_eq!(listing_from_doc(&no_id).err(), Some(ResolveError::Malformed));
}

#[test]
fn members_by_key() {
    let doc = listing();
    assert!(matches!(member(&doc, "success"), Some(JsonDoc::Bool(true))));
    assert!(member(&doc, "missing").is_none());
    assert!(member(&text("x"), "success").is_none());
}

#[test]
fn no_domains_no_bindings() {
    assert_eq!(resolve_from_doc(&Vec::new(), &listing()).unwrap().len(), 0);
}
