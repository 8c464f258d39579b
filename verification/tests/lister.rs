use dlrs::board::{list_documents, thread_addresses, CatalogPage};
use dlrs::errors::DlError;

#[test]
fn list_documents_two_pages_in_order() {
    let body = r#"[
        {"page":1,"threads":[{"no":10}]},
        {"page":2,"threads":[{"no":20}]}
    ]"#;
    let docs = list_documents(body, "g").unwrap();
    assert_eq!(docs.len(), 2);
    assert!(docs[0] == "https://a.4cdn.org/g/thread/10.json");
    assert!(docs[1] == "https://a.4cdn.org/g/thread/20.json");
}

#[test]
fn list_documents_flattens_page_then_item_order() {
    let body = r#"[
        {"threads":[{"no":1},{"no":2}]},
        {"threads":[]},
        {"threads":[{"no":3}]}
    ]"#;
    let docs = list_documents(body, "wg").unwrap();
    assert_eq!(docs.len(), 3);
    assert!(docs[0] == "https://a.4cdn.org/wg/thread/1.json");
    assert!(docs[1] == "https://a.4cdn.org/wg/thread/2.json");
    assert!(docs[2] == "https://a.4cdn.org/wg/thread/3.json");
}

#[test]
fn list_documents_empty_catalog() {
    let docs = list_documents("[]", "g").unwrap();
    assert_eq!(docs.len(), 0);
}

#[test]
fn list_documents_rejects_malformed_json() {
    assert!(matches!(list_documents("no json", "g"), Err(DlError::Decode)));
}

#[test]
fn list_documents_rejects_non_array_catalog() {
    assert!(matches!(list_documents("{}", "g"), Err(DlError::Decode)));
}

#[test]
fn list_documents_rejects_page_without_threads() {
    assert!(matches!(list_documents(r#"[{"page":1}]"#, "g"), Err(DlError::Decode)));
}

#[test]
fn list_documents_rejects_thread_without_identifier() {
    let body = r#"[{"threads":[{"sub":"hello"}]}]"#;
    assert!(matches!(list_documents(body, "g"), Err(DlError::Decode)));
}

#[test]
fn thread_addresses_from_decoded_pages() {
    let pages = vec![
        CatalogPage { threads: vec![5, 6] },
        CatalogPage { threads: vec![7] },
    ];
    let docs = thread_addresses(&pages, "po");
    assert_eq!(docs.len(), 3);
    assert!(docs[0] == "https://a.4cdn.org/po/thread/5.json");
    assert!(docs[1] == "https://a.4cdn.org/po/thread/6.json");
    assert!(docs[2] == "https://a.4cdn.org/po/thread/7.json");
}
