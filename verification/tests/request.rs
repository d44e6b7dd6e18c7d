use kagi::cli::{ApiFormat, TimeRelative, Workflow};
use kagi::json::JsonValue;
use kagi::cli::{ExtractArgs, SearchArgs};
use kagi::request::{extract_body, resolve_format, search_body, split_assignment, RequestError};

fn search_args() -> SearchArgs {
    SearchArgs {
        query: vec!["rust".to_string(), "tokio".to_string()],
        workflow: Some(Workflow::Search),
        format: None,
        json: true,
        markdown: false,
        lens_id: None,
        lens_json: None,
        sites_included: vec!["docs.rs".to_string()],
        sites_excluded: Vec::new(),
        keywords_included: Vec::new(),
        keywords_excluded: Vec::new(),
        file_type: None,
        time_after: None,
        time_before: None,
        time_relative: None,
        search_region: None,
        timeout: Some("1.0".to_string()),
        page: Some(2),
        limit: Some(5),
        region: Some("DE".to_string()),
        after: None,
        before: None,
        extract_count: Some(3),
        extract_timeout: Some("2.0".to_string()),
        safe_search: false,
        no_safe_search: true,
        domains: vec!["example.com=raise".to_string()],
        regexes: vec!["^https://x=https://y".to_string()],
        personalizations_json: None,
        request_json: None,
    }
}

fn text<'a>(v: Option<&'a JsonValue>) -> Option<&'a str> {
    v.and_then(|v| v.as_text()).map(|s| s.as_str())
}

#[test]
fn builds_search_body_from_flags() {
    let body = search_body(&search_args()).expect("search body should build");
    assert_eq!(text(body.get("query")), Some("rust tokio"));
    assert_eq!(text(body.get("format")), Some("json"));
    assert_eq!(text(body.get("lens").and_then(|l| l.get("sites_included")).and_then(|s| s.at(0))), Some("docs.rs"));
    assert_eq!(text(body.get("filters").and_then(|f| f.get("region"))), Some("DE"));
    assert_eq!(body.get("extract").and_then(|e| e.get("count")).and_then(|c| c.as_integer()), Some(3));
    assert_eq!(body.get("safe_search").and_then(|s| s.as_bool()), Some(false));
    assert_eq!(
        text(body.get("personalizations").and_then(|p| p.get("domains")).and_then(|d| d.at(0)).and_then(|d| d.get("kind"))),
        Some("raise")
    );
}

#[test]
fn search_body_carries_every_flag() {
    let body = search_body(&search_args()).expect("builds");
    assert_eq!(text(body.get("workflow")), Some("search"));
    assert_eq!(body.get("timeout").and_then(|t| t.as_encoded()).map(|s| s.as_str()), Some("1.0"));
    assert_eq!(body.get("page").and_then(|p| p.as_integer()), Some(2));
    assert_eq!(body.get("limit").and_then(|p| p.as_integer()), Some(5));
    assert_eq!(body.get("extract").and_then(|e| e.get("timeout")).and_then(|t| t.as_encoded()).map(|s| s.as_str()), Some("2.0"));
    let regex = body.get("personalizations").and_then(|p| p.get("regexes")).and_then(|r| r.at(0));
    assert_eq!(text(regex.and_then(|r| r.get("regex"))), Some("^https://x"));
    assert_eq!(text(regex.and_then(|r| r.get("replacement"))), Some("https://y"));
    assert!(body.get("lens_id").is_none());
    assert!(body.get("lens").and_then(|l| l.get("sites_excluded")).is_none());
}

#[test]
fn minimal_search_body_has_only_the_query() {
    let mut args = search_args();
    args.workflow = None;
    args.json = false;
    args.sites_included = Vec::new();
    args.timeout = None;
    args.page = None;
    args.limit = None;
    args.region = None;
    args.extract_count = None;
    args.extract_timeout = None;
    args.no_safe_search = false;
    args.domains = Vec::new();
    args.regexes = Vec::new();
    args.query = vec!["one".to_string()];
    let body = search_body(&args).expect("builds");
    let object = body.as_object().expect("object");
    assert_eq!(object.entries.len(), 1);
    assert_eq!(text(body.get("query")), Some("one"));
}

#[test]
fn request_json_overrides_flags() {
    let mut args = search_args();
    args.request_json = Some("{\"safe_search\":true,\"extra\":[1,2]}".to_string());
    let body = search_body(&args).expect("builds");
    assert_eq!(body.get("safe_search").and_then(|v| v.as_encoded()).map(|s| s.as_str()), Some("true"));
    assert_eq!(body.get("extra").and_then(|v| v.as_encoded()).map(|s| s.as_str()), Some("[1,2]"));
    assert_eq!(text(body.get("query")), Some("rust tokio"));
}

#[test]
fn lens_json_alone_makes_a_lens() {
    let mut args = search_args();
    args.sites_included = Vec::new();
    args.lens_json = Some("{\"regions\":\"de\"}".to_string());
    args.time_relative = Some(TimeRelative::Week);
    let body = search_body(&args).expect("builds");
    let lens = body.get("lens").expect("lens");
    assert_eq!(lens.get("regions").and_then(|v| v.as_encoded()).map(|s| s.as_str()), Some("\"de\""));
    assert_eq!(text(lens.get("time_relative")), Some("week"));
}

#[test]
fn invalid_json_arguments_are_reported_by_name() {
    let mut args = search_args();
    args.request_json = Some("{not json".to_string());
    assert!(matches!(search_body(&args), Err(RequestError::InvalidJson { name: "request-json", .. })));
    args.request_json = Some("[1]".to_string());
    assert!(matches!(search_body(&args), Err(RequestError::JsonNotObject { name: "request-json" })));
    let mut args = search_args();
    args.lens_json = Some("3".to_string());
    args.personalizations_json = Some("x".to_string());
    assert!(matches!(search_body(&args), Err(RequestError::JsonNotObject { name: "lens-json" })));
    let mut args = search_args();
    args.personalizations_json = Some("nope".to_string());
    assert!(matches!(
        search_body(&args),
        Err(RequestError::InvalidJson { name: "personalizations-json", .. })
    ));
}

#[test]
fn assignments_need_an_equals_sign() {
    let mut args = search_args();
    args.domains = vec!["ok=1".to_string(), "broken".to_string()];
    args.regexes = vec!["also broken".to_string()];
    assert!(matches!(
        search_body(&args),
        Err(RequestError::InvalidAssignment { name: "domain", usage: "domain=kind" })
    ));
    let mut args = search_args();
    args.regexes = vec!["broken".to_string()];
    assert!(matches!(
        search_body(&args),
        Err(RequestError::InvalidAssignment { name: "rewrite", usage: "regex=replacement" })
    ));
    let (a, b) = split_assignment("n", "u", "a=b=c").expect("splits");
    assert_eq!((a, b), ("a", "b=c"));
    let (a, b) = split_assignment("n", "u", "=").expect("splits");
    assert_eq!((a, b), ("", ""));
    assert!(split_assignment("n", "u", "none").is_err());
}

#[test]
fn format_flags_resolve_in_priority_order() {
    assert_eq!(resolve_format(Some(&ApiFormat::Markdown), true, false), Some("json"));
    assert_eq!(resolve_format(Some(&ApiFormat::Json), false, true), Some("markdown"));
    assert_eq!(resolve_format(Some(&ApiFormat::Markdown), false, false), Some("markdown"));
    assert_eq!(resolve_format(None, false, false), None);
}

#[test]
fn builds_extract_body() {
    let args = ExtractArgs {
        urls: vec!["https://a".to_string(), "https://b".to_string()],
        format: Some(ApiFormat::Markdown),
        json: false,
        markdown: false,
        timeout: Some("5".to_string()),
        request_json: None,
    };
    let body = extract_body(&args).expect("builds");
    let pages = body.get("pages").expect("pages");
    assert_eq!(text(pages.at(1).and_then(|p| p.get("url"))), Some("https://b"));
    assert_eq!(pages.as_array().map(|p| p.len()), Some(2));
    assert_eq!(text(body.get("format")), Some("markdown"));
    assert_eq!(body.get("timeout").and_then(|t| t.as_encoded()).map(|s| s.as_str()), Some("5"));
}

#[test]
fn api_values_spell_flags() {
    assert_eq!(Workflow::Podcasts.as_api_value(), "podcasts");
    assert_eq!(Workflow::Images.as_api_value(), "images");
    assert_eq!(ApiFormat::Json.as_api_value(), "json");
    assert_eq!(TimeRelative::Month.as_api_value(), "month");
    assert_eq!(TimeRelative::Day.as_api_value(), "day");
}
