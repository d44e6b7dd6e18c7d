use kagi::cli::ApiFormat;
use kagi::client::{
    ask_extract_body, check_status, compose_answer, endpoint, is_empty_markdown_search_not_found,
    key_from_file, next_key_source, printable, resolve_api_key, search_outcome, ClientError,
    KeyFile, KeySource,
};
use kagi::cli::SearchArgs;

fn search_args(format: Option<ApiFormat>) -> SearchArgs {
    SearchArgs {
        query: vec!["nothing".to_string()],
        workflow: None,
        format,
        json: false,
        markdown: false,
        lens_id: None,
        lens_json: None,
        sites_included: Vec::new(),
        sites_excluded: Vec::new(),
        keywords_included: Vec::new(),
        keywords_excluded: Vec::new(),
        file_type: None,
        time_after: None,
        time_before: None,
        time_relative: None,
        search_region: None,
        timeout: None,
        page: None,
        limit: None,
        region: None,
        after: None,
        before: None,
        extract_count: None,
        extract_timeout: None,
        safe_search: false,
        no_safe_search: false,
        domains: Vec::new(),
        regexes: Vec::new(),
        personalizations_json: None,
        request_json: None,
    }
}

fn status_error(status: u16, body: &str) -> ClientError {
    ClientError::Status { status, body: body.to_string() }
}

#[test]
fn treats_empty_markdown_search_404_as_no_results() {
    assert!(is_empty_markdown_search_not_found(&search_args(None), &status_error(404, "")));
    assert!(is_empty_markdown_search_not_found(
        &search_args(Some(ApiFormat::Markdown)),
        &status_error(404, "\n")
    ));
}

#[test]
fn keeps_other_status_errors() {
    assert!(!is_empty_markdown_search_not_found(
        &search_args(Some(ApiFormat::Json)),
        &status_error(404, "")
    ));
    assert!(!is_empty_markdown_search_not_found(&search_args(None), &status_error(400, "")));
    assert!(!is_empty_markdown_search_not_found(
        &search_args(None),
        &status_error(404, "not found")
    ));
}

#[test]
fn search_outcome_turns_empty_404_into_no_results() {
    let args = search_args(None);
    assert_eq!(search_outcome(&args, Err(status_error(404, " "))).expect("no results"), "No results.");
    assert_eq!(search_outcome(&args, Ok("body".to_string())).expect("body"), "body");
    match search_outcome(&args, Err(status_error(500, ""))) {
        Err(ClientError::Status { status, .. }) => assert_eq!(status, 500),
        _ => panic!("expected the status error"),
    }
    assert!(search_outcome(&search_args(Some(ApiFormat::Json)), Err(status_error(404, ""))).is_err());
    assert!(matches!(
        search_outcome(&args, Err(ClientError::MissingApiKey)),
        Err(ClientError::MissingApiKey)
    ));
}

#[test]
fn only_success_statuses_pass() {
    assert_eq!(check_status(200, "ok".to_string()).expect("success"), "ok");
    assert_eq!(check_status(299, "x".to_string()).expect("success"), "x");
    match check_status(300, "moved".to_string()) {
        Err(ClientError::Status { status, body }) => {
            assert_eq!(status, 300);
            assert_eq!(body, "moved");
        }
        _ => panic!("expected a status error"),
    }
    assert!(check_status(199, String::new()).is_err());
    assert!(check_status(404, String::new()).is_err());
}

#[test]
fn endpoints_join_base_and_path() {
    assert_eq!(endpoint("https://kagi.com/api/v1", "/search"), "https://kagi.com/api/v1/search");
    assert_eq!(endpoint("https://kagi.com/api/v1//", "/extract"), "https://kagi.com/api/v1/extract");
    assert_eq!(endpoint("", "/x"), "/x");
}

#[test]
fn answers_list_their_sources() {
    assert_eq!(
        compose_answer("It is 42.  \n", "[1] https://a"),
        "It is 42.\n\nSources:\n[1] https://a"
    );
}

#[test]
fn key_files_lose_trailing_line_breaks() {
    assert_eq!(key_from_file("secret\r\n\n").expect("key"), "secret");
    assert_eq!(key_from_file(" spaced \n").expect("key"), " spaced ");
    assert!(matches!(key_from_file("\n\r\n"), Err(ClientError::MissingApiKey)));
    assert!(matches!(key_from_file(""), Err(ClientError::MissingApiKey)));
}

#[test]
fn printed_bodies_lose_trailing_line_breaks() {
    assert_eq!(printable("body\n\r\n"), "body");
    assert_eq!(printable("a\nb"), "a\nb");
}

#[test]
fn ask_extraction_requests_every_page_as_json() {
    let body = ask_extract_body("https://example.com/a", &vec!["https://example.com/b".to_string()]);
    let pages = body.get("pages").expect("pages");
    assert_eq!(pages.at(0).and_then(|p| p.get("url")).and_then(|u| u.as_text()).map(|s| s.as_str()), Some("https://example.com/a"));
    assert_eq!(pages.at(1).and_then(|p| p.get("url")).and_then(|u| u.as_text()).map(|s| s.as_str()), Some("https://example.com/b"));
    assert!(pages.at(2).is_none());
    assert_eq!(body.get("format").and_then(|f| f.as_text()).map(|s| s.as_str()), Some("json"));
}

#[test]
fn api_key_lookup_order() {
    assert_eq!(next_key_source(true, true, true), KeySource::Literal);
    assert_eq!(next_key_source(false, true, true), KeySource::Environment);
    assert_eq!(next_key_source(false, false, true), KeySource::SelectedFile);
    assert_eq!(next_key_source(false, false, false), KeySource::DefaultFile);

    let key = resolve_api_key(
        Some("literal".to_string()),
        Some("env".to_string()),
        Some(Ok("file".to_string())),
        KeyFile::Text("default".to_string()),
    );
    assert_eq!(key.unwrap(), "literal");
    let key = resolve_api_key(None, Some("env".to_string()), None, KeyFile::Text("default".to_string()));
    assert_eq!(key.unwrap(), "env");
    let key = resolve_api_key(None, None, Some(Ok("file\n".to_string())), KeyFile::Text("default".to_string()));
    assert_eq!(key.unwrap(), "file");
    let key = resolve_api_key(None, None, None, KeyFile::Text("default\r\n".to_string()));
    assert_eq!(key.unwrap(), "default");
}

#[test]
fn selected_key_file_never_falls_back() {
    let key = resolve_api_key(None, None, Some(Ok("\n".to_string())), KeyFile::Text("default".to_string()));
    assert!(matches!(key, Err(ClientError::MissingApiKey)));
    let key = resolve_api_key(
        None,
        None,
        Some(Err(ClientError::Status { status: 1, body: String::new() })),
        KeyFile::Text("default".to_string()),
    );
    assert!(matches!(key, Err(ClientError::Status { status: 1, .. })));
}

#[test]
fn missing_default_key_file_means_no_key() {
    assert!(matches!(resolve_api_key(None, None, None, KeyFile::NotFound), Err(ClientError::MissingApiKey)));
    let failed = KeyFile::Failed(ClientError::Status { status: 2, body: String::new() });
    assert!(matches!(resolve_api_key(None, None, None, failed), Err(ClientError::Status { status: 2, .. })));
    assert!(matches!(
        resolve_api_key(None, None, None, KeyFile::Text("\n\n".to_string())),
        Err(ClientError::MissingApiKey)
    ));
}
