use kagi::perplexity::{
    merge_results, valid_domain, Filters, KagiResult, KagiSearchRequest, Lens, Query, SearchRequest,
    ValidationError,
};

fn strings(items: &[&str]) -> Vec<String> {
    items.iter().map(|s| s.to_string()).collect()
}

fn request(
    query: Query,
    max_results: Option<usize>,
    search_domain_filter: Option<Vec<String>>,
    max_tokens_per_page: Option<u32>,
    country: Option<&str>,
) -> SearchRequest {
    SearchRequest {
        query,
        max_results,
        search_domain_filter,
        max_tokens_per_page,
        country: country.map(|c| c.to_string()),
    }
}

fn rust_request() -> SearchRequest {
    request(Query::Single("rust".to_string()), None, None, None, None)
}

fn result(title: &str, url: &str, snippet: Option<&str>, time: Option<&str>) -> KagiResult {
    KagiResult {
        title: title.to_string(),
        url: url.to_string(),
        snippet: snippet.map(|s| s.to_string()),
        time: time.map(|s| s.to_string()),
    }
}

#[test]
fn translates_litellm_options_and_defaults() {
    let req = request(
        Query::Multiple(strings(&["rust", "tokio"])),
        Some(3),
        Some(strings(&["Docs.RS", "-example.com"])),
        Some(1024),
        Some("DE"),
    );
    let plan = req.into_plan().expect("valid parameters");
    assert_eq!(plan.limit, 3);
    assert_eq!(plan.requests.len(), 2);
    let first = &plan.requests[0];
    assert_eq!(first.query, "rust site:docs.rs -site:example.com");
    assert_eq!(first.format, "json");
    assert_eq!(first.workflow, "search");
    assert_eq!(first.limit, 3);
    let lens = first.lens.as_ref().expect("lens");
    assert_eq!(lens.sites_included, strings(&["docs.rs"]));
    assert_eq!(lens.sites_excluded, strings(&["example.com"]));
    assert_eq!(first.filters.as_ref().expect("filters").region, "de");

    let req = request(Query::Single("rust".to_string()), None, Some(Vec::new()), None, None);
    let plan = req.into_plan().expect("default parameters");
    let first = &plan.requests[0];
    assert_eq!(first.query, "rust");
    assert_eq!(first.format, "json");
    assert_eq!(first.workflow, "search");
    assert_eq!(first.limit, 10);
    assert!(first.lens.is_none());
    assert!(first.filters.is_none());
}

#[test]
fn rejects_invalid_parameters() {
    let single = |q: &str| Query::Single(q.to_string());
    let inputs = vec![
        request(Query::Multiple(Vec::new()), None, None, None, None),
        request(Query::Multiple(strings(&["a", "b", "c", "d", "e", "f"])), None, None, None, None),
        request(Query::Multiple(strings(&["valid", " "])), None, None, None, None),
        request(single(""), None, None, None, None),
        request(single("rust"), Some(0), None, None, None),
        request(single("rust"), Some(21), None, None, None),
        request(single("rust"), None, None, Some(0), None),
        request(single("rust"), None, None, Some(1000001), None),
        request(single("rust"), None, None, None, Some("USA")),
        request(single("rust"), None, None, None, Some("12")),
        request(single("rust"), None, Some(strings(&["https://docs.rs/a"])), None, None),
        request(single("rust"), None, Some(strings(&["-"])), None, None),
        request(single("rust"), None, Some(vec!["example.com".to_string(); 21]), None, None),
    ];
    for input in inputs {
        assert!(input.into_plan().is_err());
    }
}

#[test]
fn domain_filtering_respects_subdomains_and_exclusions() {
    let req = request(
        Query::Single("rust".to_string()),
        None,
        Some(strings(&["example.com", "docs.rs", "-blocked.example.com"])),
        None,
        None,
    );
    let plan = req.into_plan().expect("valid search plan");
    assert_eq!(
        plan.requests[0].query,
        "rust (site:example.com OR site:docs.rs) -site:blocked.example.com"
    );
    for (url, allowed) in [
        ("https://example.com/page", true),
        ("https://WWW.EXAMPLE.COM./page", true),
        ("https://docs.rs", true),
        ("https://blocked.example.com", false),
        ("https://sub.blocked.example.com", false),
        ("https://notexample.com", false),
        ("https://example.com.evil.org", false),
        ("https://example.com@evil.org", false),
        ("https://evil.org/example.com", false),
        ("file://example.com/path", false),
        ("not a URL", false),
    ] {
        let results = vec![result("Result", url, None, None)];
        assert_eq!(!plan.requests[0].filter_results(results).is_empty(), allowed, "{url}");
    }
}

#[test]
fn merges_and_caps_results_without_inventing_metadata() {
    let batches = vec![
        vec![
            result("A", "https://a", Some("Excerpt"), Some("2026-01-02")),
            result("Duplicate", "https://b", None, None),
            result("C", "https://c", None, None),
        ],
        vec![result("B", "https://b", None, None), result("D", "https://d", None, None)],
    ];
    let results = merge_results(batches, 3);
    assert_eq!(results[0].title, "A");
    assert_eq!(results[0].url, "https://a");
    assert_eq!(results[0].snippet, "Excerpt");
    assert_eq!(results[0].date.as_deref(), Some("2026-01-02"));
    assert_eq!(results[0].last_updated, None);
    assert_eq!(results[1].url, "https://b");
    assert_eq!(results[1].snippet, "");
    assert_eq!(results[1].date, None);
    assert_eq!(results[2].url, "https://d");
    assert_eq!(results.len(), 3);
    assert!(merge_results(Vec::new(), 10).is_empty());
}

#[test]
fn validation_errors_follow_checking_order() {
    let req = request(Query::Multiple(Vec::new()), Some(0), None, Some(0), Some("USA"));
    assert_eq!(req.into_plan().err(), Some(ValidationError::QueryCount));
    let req = request(Query::Single("  \t".to_string()), Some(0), None, None, None);
    assert_eq!(req.into_plan().err(), Some(ValidationError::EmptyQuery));
    let req = request(Query::Single("\u{3000}".to_string()), None, None, None, None);
    assert_eq!(req.into_plan().err(), Some(ValidationError::EmptyQuery));
    let req = request(Query::Single("rust".to_string()), Some(21), None, Some(0), None);
    assert_eq!(req.into_plan().err(), Some(ValidationError::ResultLimit));
    let req = request(Query::Single("rust".to_string()), None, None, Some(0), Some("USA"));
    assert_eq!(req.into_plan().err(), Some(ValidationError::TokenLimit));
    let req = request(Query::Single("rust".to_string()), None, Some(strings(&["a/b"])), None, Some("U1"));
    assert_eq!(req.into_plan().err(), Some(ValidationError::Country));
    let many = vec!["bad/".to_string(); 21];
    let req = request(Query::Single("rust".to_string()), None, Some(many), None, None);
    assert_eq!(req.into_plan().err(), Some(ValidationError::DomainCount));
    let req = request(Query::Single("rust".to_string()), None, Some(strings(&["-a_b.com"])), None, None);
    assert_eq!(req.into_plan().err(), Some(ValidationError::Domain));
}

#[test]
fn validation_messages_name_the_limits() {
    assert_eq!(ValidationError::ResultLimit.message(), "max_results must be between 1 and 20");
    assert_eq!(
        ValidationError::TokenLimit.message(),
        "max_tokens_per_page must be between 1 and 1000000"
    );
}

#[test]
fn one_request_per_query_sharing_limit_and_lens() {
    let req = request(
        Query::Multiple(strings(&["a", "b", "c"])),
        Some(20),
        Some(strings(&["Example.ORG"])),
        Some(1_000_000),
        Some("fR"),
    );
    let plan = req.into_plan().expect("valid");
    assert_eq!(plan.requests.len(), 3);
    for (r, q) in plan.requests.iter().zip(["a", "b", "c"]) {
        assert_eq!(r.query, format!("{q} site:example.org"));
        assert_eq!(r.limit, 20);
        assert_eq!(r.lens.as_ref().expect("lens").sites_included, strings(&["example.org"]));
        assert_eq!(r.filters.as_ref().expect("filters").region, "fr");
    }
}

#[test]
fn token_budget_does_not_change_the_plan() {
    let with = request(Query::Single("rust".to_string()), Some(5), None, Some(7), Some("de"));
    let without = request(Query::Single("rust".to_string()), Some(5), None, None, Some("de"));
    let a = with.into_plan().expect("valid");
    let b = without.into_plan().expect("valid");
    assert_eq!(a.limit, b.limit);
    assert_eq!(a.requests[0].query, b.requests[0].query);
    assert_eq!(a.requests[0].limit, b.requests[0].limit);
}

#[test]
fn excluded_only_lens_scopes_query() {
    let req = request(
        Query::Single("q".to_string()),
        None,
        Some(strings(&["-a.com", "-B.com"])),
        None,
        None,
    );
    let plan = req.into_plan().expect("valid");
    assert_eq!(plan.requests[0].query, "q -site:a.com -site:b.com");
    let kept = plan.requests[0].filter_results(vec![
        result("x", "http://c.com", None, None),
        result("y", "https://sub.a.com", None, None),
        result("z", "https://b.com", None, None),
    ]);
    assert_eq!(kept.len(), 1);
    assert_eq!(kept[0].title, "x");
}

#[test]
fn no_lens_keeps_every_result_in_order() {
    let plan = rust_request().into_plan().expect("valid");
    let kept = plan.requests[0].filter_results(vec![
        result("1", "not a URL", None, None),
        result("2", "ftp://x", None, None),
    ]);
    assert_eq!(kept.len(), 2);
    assert_eq!(kept[0].title, "1");
    assert_eq!(kept[1].title, "2");
}

#[test]
fn domain_validity_cases() {
    assert!(valid_domain("docs.rs"));
    assert!(valid_domain("a-b.example"));
    assert!(valid_domain(&"a".repeat(63)));
    assert!(!valid_domain(&"a".repeat(64)));
    assert!(!valid_domain(""));
    assert!(!valid_domain("a..b"));
    assert!(!valid_domain(".a"));
    assert!(!valid_domain("a."));
    assert!(!valid_domain("-a.com"));
    assert!(!valid_domain("a-.com"));
    assert!(!valid_domain("ex ample.com"));
    assert!(!valid_domain("exämple.com"));
    let long = format!("{}.{}.{}.{}", "a".repeat(63), "b".repeat(63), "c".repeat(63), "d".repeat(61));
    assert_eq!(long.len(), 253);
    assert!(valid_domain(&long));
    assert!(!valid_domain(&format!("{long}e")));
}

#[test]
fn merge_round_robin_and_cap() {
    let batches = vec![
        vec![result("a1", "u1", None, None), result("a2", "u2", None, None)],
        vec![],
        vec![result("c1", "u3", None, None), result("c2", "u1", None, None), result("c3", "u4", None, None)],
    ];
    let all = merge_results(batches, 10);
    let urls: Vec<&str> = all.iter().map(|r| r.url.as_str()).collect();
    assert_eq!(urls, vec!["u1", "u3", "u2", "u4"]);
    let batches = vec![vec![result("a", "u1", None, None), result("b", "u2", None, None)]];
    assert_eq!(merge_results(batches, 1).len(), 1);
    let batches = vec![vec![result("a", "u1", None, None)]];
    assert!(merge_results(batches, 0).is_empty());
}

#[test]
fn lens_checks_parsed_url_parts() {
    let lens = Lens { sites_included: strings(&["example.com"]), sites_excluded: strings(&["bad.example.com"]) };
    let parts = |scheme: &str, host: Option<&str>| Some((scheme.to_string(), host.map(|h| h.to_string())));
    assert!(lens.allows_parts(&parts("https", Some("example.com"))));
    assert!(lens.allows_parts(&parts("http", Some("a.example.com.."))));
    assert!(!lens.allows_parts(&parts("HTTPS", Some("example.com"))));
    assert!(!lens.allows_parts(&parts("https", None)));
    assert!(!lens.allows_parts(&None));
    assert!(!lens.allows_parts(&parts("https", Some("x.bad.example.com"))));
    assert!(!lens.allows_parts(&parts("https", Some("xexample.com"))));
    assert!(lens.allows_url("https://A.Example.com:8080/x?y"));
    let open = Lens { sites_included: Vec::new(), sites_excluded: Vec::new() };
    assert!(open.allows_parts(&parts("https", Some("anything"))));
}

#[test]
fn larger_limit_extends_merge() {
    let batches = || {
        vec![
            vec![result("a1", "u1", None, None), result("a2", "u2", None, None)],
            vec![result("b1", "u1", None, None), result("b2", "u5", None, None)],
            vec![result("c1", "u3", None, None), result("c2", "u4", None, None)],
        ]
    };
    let small: Vec<String> = merge_results(batches(), 2).into_iter().map(|r| r.url).collect();
    let large: Vec<String> = merge_results(batches(), 4).into_iter().map(|r| r.url).collect();
    assert_eq!(small, vec!["u1", "u3"]);
    assert_eq!(large, vec!["u1", "u3", "u2", "u5"]);
    assert_eq!(&large[..small.len()], &small[..]);
}

#[test]
fn upstream_request_json_body() {
    let request = KagiSearchRequest {
        query: "rust".to_string(),
        format: "json",
        workflow: "web",
        limit: 7,
        lens: Some(Lens { sites_included: Vec::new(), sites_excluded: strings(&["bad.com", "worse.com"]) }),
        filters: Some(Filters { region: "de".to_string() }),
    };
    let body = request.to_json();
    let object = body.as_object().unwrap();
    assert_eq!(object.get("query").unwrap().as_text().unwrap(), "rust");
    assert_eq!(object.get("format").unwrap().as_text().unwrap(), "json");
    assert_eq!(object.get("workflow").unwrap().as_text().unwrap(), "web");
    assert_eq!(object.get("limit").unwrap().as_integer(), Some(7));
    let lens = object.get("lens").unwrap().as_object().unwrap();
    assert!(lens.get("sites_included").is_none());
    let excluded = lens.get("sites_excluded").unwrap();
    assert_eq!(excluded.as_array().unwrap().len(), 2);
    assert_eq!(excluded.at(1).unwrap().as_text().unwrap(), "worse.com");
    let filters = object.get("filters").unwrap().as_object().unwrap();
    assert_eq!(filters.get("region").unwrap().as_text().unwrap(), "de");

    let bare = KagiSearchRequest {
        query: "q".to_string(),
        format: "json",
        workflow: "web",
        limit: 1,
        lens: None,
        filters: None,
    };
    let body = bare.to_json();
    let object = body.as_object().unwrap();
    assert!(object.get("lens").is_none());
    assert!(object.get("filters").is_none());
    assert_eq!(object.entries.len(), 4);
}
