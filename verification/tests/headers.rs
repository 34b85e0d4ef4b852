use multipart_upload::headers::Headers;

#[test]
fn new_headers_are_empty() {
    let headers = Headers::new();
    assert_eq!(headers.len(), 0);
    assert_eq!(headers.get("etag"), None);
    assert!(headers.into_entries().is_empty());
}

#[test]
fn insert_then_get() {
    let mut headers = Headers::new();
    headers.insert("etag".to_string(), "abc".to_string());
    headers.insert("server".to_string(), "s3".to_string());
    assert_eq!(headers.len(), 2);
    assert_eq!(headers.get("etag"), Some(&"abc".to_string()));
    assert_eq!(headers.get("server"), Some(&"s3".to_string()));
    assert_eq!(headers.get("ETag"), None);
}

#[test]
fn insert_replaces_the_value_of_a_name() {
    let mut headers = Headers::new();
    headers.insert("etag".to_string(), "abc".to_string());
    headers.insert("server".to_string(), "s3".to_string());
    headers.insert("etag".to_string(), "def".to_string());
    assert_eq!(headers.len(), 2);
    assert_eq!(headers.get("etag"), Some(&"def".to_string()));
    assert_eq!(headers.get("server"), Some(&"s3".to_string()));
}

#[test]
fn entries_hold_each_name_once() {
    let mut headers = Headers::new();
    headers.insert("a".to_string(), "1".to_string());
    headers.insert("b".to_string(), "2".to_string());
    headers.insert("a".to_string(), "3".to_string());
    let mut entries = headers.into_entries();
    entries.sort();
    assert_eq!(
        entries,
        vec![("a".to_string(), "3".to_string()), ("b".to_string(), "2".to_string())]
    );
}
