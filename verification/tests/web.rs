use prime::web::{check_content_type, check_status, check_url, FetchBuffer, FetchError, MAX_RESPONSE_BYTES};

#[test]
fn urls_are_checked() {
    assert_eq!(check_url("   "), Err(FetchError::EmptyUrl));
    assert_eq!(FetchError::EmptyUrl.message(), "URL cannot be empty.");
    assert_eq!(check_url("ftp://example.com"), Err(FetchError::InvalidScheme));
    assert!(FetchError::InvalidScheme.message().contains("Invalid URL scheme"));
    assert_eq!(check_url("https://example.com"), Ok(()));
    assert_eq!(check_url("http://x"), Ok(()));
}

#[test]
fn status_and_content_type_are_checked() {
    assert_eq!(check_status("http://x/nf", true, "200 OK"), Ok(()));
    let e = check_status("http://x/nf", false, "404 Not Found").unwrap_err();
    assert!(e.message().contains("failed with status: 404 Not Found"));
    let e = check_content_type(Some("image/jpeg")).unwrap_err();
    assert!(e.message().contains("points to binary or non-text content (image/jpeg)"));
    let e = check_content_type(Some("application/pdf")).unwrap_err();
    assert!(e.message().contains("points to binary or non-text content (application/pdf)"));
    assert!(check_content_type(Some("application/octet-stream")).is_err());
    assert_eq!(check_content_type(Some("text/plain")), Ok(()));
    assert_eq!(check_content_type(None), Ok(()));
}

#[test]
fn body_is_gathered_and_cut_at_the_limit() {
    let mut b = FetchBuffer::new();
    assert!(b.accept(b"Hello, "));
    assert!(b.accept(b"world!"));
    assert_eq!(b.total(), 13);
    assert_eq!(b.finish("http://x").unwrap(), "Hello, world!");

    let mut b = FetchBuffer::new();
    let big = vec![b'a'; 1_500_000];
    assert!(b.accept(&big));
    assert!(!b.accept(&big));
    assert_eq!(b.total(), MAX_RESPONSE_BYTES);
    let text = b.finish("http://x").unwrap();
    assert!(text.ends_with("\n\n... (content truncated due to size limit)"));
    assert_eq!(text.len(), 2_000_000 + "\n\n... (content truncated due to size limit)".len());
}

#[test]
fn empty_and_invalid_bodies() {
    assert_eq!(FetchBuffer::new().finish("u").unwrap(), "");
    let mut b = FetchBuffer::new();
    b.accept(&[0xff, 0xfe]);
    assert_eq!(b.finish("http://bad").unwrap_err(), FetchError::NotUtf8("http://bad".to_string()));
}
