use kagi::client::ClientError;
use kagi::perplexity::{KagiData, KagiResult, Query, SearchRequest, ValidationError};
use kagi::response::{KagiError, KagiResponse};
use kagi::server::{accept_search_response, search_step, start_search, ApiError, SearchAction};

fn status(code: u16) -> ClientError {
    ClientError::Status { status: code, body: "sensitive upstream body".to_string() }
}

#[test]
fn upstream_failures_are_sanitized() {
    let e = ApiError::upstream(status(429));
    assert_eq!((e.status, e.message.as_str()), (429, "Kagi rate limit exceeded"));
    let e = ApiError::upstream(status(422));
    assert_eq!((e.status, e.message.as_str()), (400, "Kagi rejected the search parameters"));
    let e = ApiError::upstream(status(400));
    assert_eq!(e.status, 400);
    let e = ApiError::upstream(status(500));
    assert_eq!((e.status, e.message.as_str()), (502, "Kagi upstream request failed"));
    let e = ApiError::upstream(ClientError::MissingApiKey);
    assert_eq!((e.status, e.message.as_str()), (502, "Kagi upstream request failed"));
    assert!(!e.message.contains("sensitive"));
}

#[test]
fn local_failures_have_fixed_statuses() {
    assert_eq!(ApiError::capacity_exhausted().status, 503);
    assert_eq!(ApiError::timed_out().status, 504);
    assert_eq!(ApiError::invalid_response().status, 502);
    let e = ApiError::invalid_parameters(&ValidationError::Country);
    assert_eq!((e.status, e.message.as_str()), (422, "country must be a two-letter ISO 3166-1 alpha-2 code"));
}

#[test]
fn upstream_answers_are_checked_and_filtered() {
    let plan = SearchRequest {
        query: Query::Single("rust".to_string()),
        max_results: None,
        search_domain_filter: Some(vec!["docs.rs".to_string()]),
        max_tokens_per_page: None,
        country: None,
    }
    .into_plan()
    .expect("valid");
    let request = &plan.requests[0];
    let data = KagiData {
        search: vec![
            KagiResult { title: "in".to_string(), url: "https://docs.rs/x".to_string(), snippet: None, time: None },
            KagiResult { title: "out".to_string(), url: "https://evil.org".to_string(), snippet: None, time: None },
        ],
    };
    let kept = accept_search_response(request, KagiResponse { data: Some(data), errors: None }).expect("accepted");
    assert_eq!(kept.len(), 1);
    assert_eq!(kept[0].title, "in");
    let e = accept_search_response(
        request,
        KagiResponse {
            data: Some(KagiData { search: Vec::new() }),
            errors: Some(vec![KagiError { code: "search.failed".to_string(), message: None }]),
        },
    )
    .expect_err("error");
    assert_eq!((e.status, e.message.as_str()), (502, "Kagi search failed"));
    let e = accept_search_response(request, KagiResponse { data: None, errors: Some(Vec::new()) }).expect_err("missing");
    assert_eq!((e.status, e.message.as_str()), (502, "Kagi response is missing search data"));
    let empty = accept_search_response(request, KagiResponse { data: Some(KagiData { search: Vec::new() }), errors: None })
        .expect("empty");
    assert!(empty.is_empty());
}

fn hit(url: &str) -> KagiResult {
    KagiResult { title: url.to_string(), url: url.to_string(), snippet: None, time: None }
}

#[test]
fn search_runs_requests_in_order_and_stops_at_first_failure() {
    let batches = match start_search(2, 5) {
        SearchAction::Send(b) => b,
        other => panic!("unexpected {other:?}"),
    };
    assert!(batches.is_empty());
    let batches = match search_step(2, 5, batches, Ok(vec![hit("u1"), hit("u2")])) {
        SearchAction::Send(b) => b,
        other => panic!("unexpected {other:?}"),
    };
    assert_eq!(batches.len(), 1);
    match search_step(2, 5, batches, Ok(vec![hit("u3"), hit("u1")])) {
        SearchAction::Respond(r) => {
            let urls: Vec<&str> = r.iter().map(|x| x.url.as_str()).collect();
            assert_eq!(urls, vec!["u1", "u3", "u2"]);
        }
        other => panic!("unexpected {other:?}"),
    }
    match search_step(3, 5, Vec::new(), Err(ApiError::upstream(status(429)))) {
        SearchAction::Fail(e) => assert_eq!(e.status, 429),
        other => panic!("unexpected {other:?}"),
    }
    match start_search(0, 5) {
        SearchAction::Respond(r) => assert!(r.is_empty()),
        other => panic!("unexpected {other:?}"),
    }
}
