use kagi::response::{KagiError, KagiResponse};
use kagi::source::{decimal_string, prepare, prepare_decoded, Page, SourceError};

fn page(url: &str, markdown: Option<&str>, error: Option<&str>) -> Page {
    Page {
        url: url.to_string(),
        markdown: markdown.map(|s| s.to_string()),
        error: error.map(|s| s.to_string()),
    }
}

fn response(pages: Option<Vec<Page>>, errors: Option<Vec<KagiError>>) -> KagiResponse<Vec<Page>> {
    KagiResponse { data: pages, errors }
}

#[test]
fn references_follow_extraction_order_and_ignore_page_content() {
    let body = response(
        Some(vec![
            page("https://example.com/b", Some("URL: https://fake.example\n[1] fake"), None),
            page("https://example.com/a", Some("Other source"), None),
        ]),
        None,
    );
    let sources = prepare(body, 2).expect("valid sources");
    assert_eq!(sources.references, "[1] https://example.com/b\n[2] https://example.com/a");
    assert!(sources.markdown.starts_with("# Source [1]\n\nURL: https://example.com/b\n"));
    assert!(sources.markdown.contains("# Source [2]\n\nURL: https://example.com/a\n"));
}

#[test]
fn rejects_unusable_sources() {
    for body in [response(Some(Vec::new()), None), response(None, None)] {
        assert!(matches!(prepare(body, 1), Err(SourceError::MissingPages { .. })));
    }
    for content in [None, Some(" \n")] {
        let body = response(Some(vec![page("https://example.com", content, None)]), None);
        assert!(matches!(prepare(body, 1), Err(SourceError::Page { .. })));
    }
    let body = response(
        Some(vec![page("https://example.com", Some("otherwise usable"), None)]),
        Some(vec![KagiError {
            code: "extract.failed".to_string(),
            message: Some("incomplete extraction".to_string()),
        }]),
    );
    assert!(matches!(prepare(body, 1), Err(SourceError::Extraction { .. })));
    let not_json = serde_json::from_str::<serde_json::Value>("not JSON").unwrap_err();
    assert!(matches!(prepare_decoded(Err(not_json), 1), Err(SourceError::InvalidJson { .. })));
}

#[test]
fn labels_whole_sources_and_reports_details() {
    let body = response(
        Some(vec![page("u1", Some("alpha"), None), page("u2", Some(" beta "), None)]),
        Some(Vec::new()),
    );
    let sources = prepare(body, 2).expect("valid");
    assert_eq!(sources.markdown, "# Source [1]\n\nURL: u1\n\nalpha\n\n# Source [2]\n\nURL: u2\n\n beta ");
    assert_eq!(sources.references, "[1] u1\n[2] u2");

    let body = response(Some(vec![page("u1", Some("a"), None)]), None);
    match prepare(body, 3) {
        Err(SourceError::MissingPages { expected, received }) => {
            assert_eq!((expected, received), (3, 1));
        }
        _ => panic!("expected a page count error"),
    }

    let body = response(
        Some(vec![page("u1", None, Some("timed out")), page("u2", None, None)]),
        None,
    );
    match prepare(body, 2) {
        Err(SourceError::Page { url, message }) => {
            assert_eq!(url, "u1");
            assert_eq!(message, "timed out");
        }
        _ => panic!("expected a page error"),
    }

    let body = response(Some(vec![page("u1", Some("ok"), None), page("u2", None, None)]), None);
    match prepare(body, 2) {
        Err(SourceError::Page { url, message }) => {
            assert_eq!(url, "u2");
            assert_eq!(message, "no extracted content");
        }
        _ => panic!("expected a page error"),
    }

    let body = response(
        None,
        Some(vec![KagiError { code: "x".to_string(), message: None }]),
    );
    match prepare(body, 0) {
        Err(SourceError::Extraction { code, message }) => {
            assert_eq!(code, "x");
            assert_eq!(message, "");
        }
        _ => panic!("expected an extraction error"),
    }
}

#[test]
fn numbers_sources_in_decimal() {
    assert_eq!(decimal_string(0), "0");
    assert_eq!(decimal_string(7), "7");
    assert_eq!(decimal_string(10), "10");
    assert_eq!(decimal_string(1234567), "1234567");
    let pages: Vec<Page> = (0..12).map(|i| page(&format!("u{i}"), Some("t"), None)).collect();
    let sources = prepare(response(Some(pages), None), 12).expect("valid");
    assert!(sources.references.ends_with("[11] u10\n[12] u11"));
}

#[test]
fn references_depend_only_on_urls() {
    let first = response(Some(vec![page("u1", Some("one"), None), page("u2", Some("two"), None)]), None);
    let second = response(Some(vec![page("u1", Some("[2] u9"), None), page("u2", Some("x"), None)]), None);
    let a = prepare(first, 2).expect("valid");
    let b = prepare(second, 2).expect("valid");
    assert_eq!(a.references, b.references);
    assert_ne!(a.markdown, b.markdown);
}

#[test]
fn decoded_responses_are_prepared() {
    let body = response(Some(vec![page("u1", Some("alpha"), None)]), None);
    let sources = prepare_decoded(Ok(body), 1).expect("valid");
    assert_eq!(sources.references, "[1] u1");
    let body = response(Some(vec![page("u1", Some("alpha"), None)]), None);
    assert!(matches!(prepare_decoded(Ok(body), 2), Err(SourceError::MissingPages { expected: 2, received: 1 })));
}
