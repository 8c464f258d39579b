use dlrs::errors::DlError;
use dlrs::extract::{build_pairs, extract_pairs, Attachment, Post};

#[test]
fn extract_pairs_round_trip_three_items() {
    let body = r#"{"posts":[
        {"no":1,"tim":111,"ext":".png"},
        {"no":2},
        {"no":3,"tim":222,"ext":".jpg"}
    ]}"#;
    let pairs = extract_pairs(body, "g", "out").unwrap();
    assert_eq!(pairs.len(), 2);
    assert!(pairs[0].url == "https://i.4cdn.org/g/111.png");
    assert!(pairs[0].path == "out/111.png");
    assert!(pairs[1].url == "https://i.4cdn.org/g/222.jpg");
    assert!(pairs[1].path == "out/222.jpg");
}

#[test]
fn extract_pairs_skips_items_without_numeric_identifier() {
    let body = r#"{"posts":[
        {"no":1},
        {"no":2,"tim":"not-a-number","ext":".png"},
        {"no":3,"tim":3.5,"ext":".png"}
    ]}"#;
    let pairs = extract_pairs(body, "g", "out").unwrap();
    assert_eq!(pairs.len(), 0);
}

#[test]
fn extract_pairs_empty_document() {
    let pairs = extract_pairs(r#"{"posts":[]}"#, "g", "out").unwrap();
    assert_eq!(pairs.len(), 0);
}

#[test]
fn extract_pairs_rejects_malformed_json() {
    assert!(matches!(extract_pairs("not json at all", "g", "out"), Err(DlError::Decode)));
}

#[test]
fn extract_pairs_rejects_missing_posts_member() {
    assert!(matches!(extract_pairs("{}", "g", "out"), Err(DlError::Decode)));
    assert!(matches!(extract_pairs(r#"{"posts":7}"#, "g", "out"), Err(DlError::Decode)));
}

#[test]
fn extract_pairs_rejects_attachment_without_extension() {
    let body = r#"{"posts":[{"no":1,"tim":111}]}"#;
    assert!(matches!(extract_pairs(body, "g", "out"), Err(DlError::Decode)));
    let body2 = r#"{"posts":[{"no":1,"tim":111,"ext":9}]}"#;
    assert!(matches!(extract_pairs(body2, "g", "out"), Err(DlError::Decode)));
}

#[test]
fn extract_pairs_negative_identifier() {
    let body = r#"{"posts":[{"tim":-5,"ext":".png"}]}"#;
    let pairs = extract_pairs(body, "g", "out").unwrap();
    assert_eq!(pairs.len(), 1);
    assert!(pairs[0].url == "https://i.4cdn.org/g/-5.png");
    assert!(pairs[0].path == "out/-5.png");
}

#[test]
fn build_pairs_preserves_item_order() {
    let posts = vec![
        Post { attachment: Some(Attachment { id: 9, ext: String::from(".gif") }) },
        Post { attachment: None },
        Post { attachment: Some(Attachment { id: 1546293487650, ext: String::from(".webm") }) },
    ];
    let pairs = build_pairs(&posts, "wg", "/tmp/imgs");
    assert_eq!(pairs.len(), 2);
    assert!(pairs[0].url == "https://i.4cdn.org/wg/9.gif");
    assert!(pairs[0].path == "/tmp/imgs/9.gif");
    assert!(pairs[1].url == "https://i.4cdn.org/wg/1546293487650.webm");
    assert!(pairs[1].path == "/tmp/imgs/1546293487650.webm");
}
