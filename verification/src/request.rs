//! Request body construction for Kagi API endpoints.

use vstd::prelude::*;

use crate::cli::{ApiFormat, ExtractArgs, SearchArgs, TimeRelative, Workflow};
use crate::json::{json_array, Json, JsonObject, JsonValue};
use crate::perplexity::{join, join_strings, opt_chars};

verus! {

/// Errors raised while building API requests.
#[derive(Debug)]
pub enum RequestError {
    /// A raw JSON argument could not be parsed.
    InvalidJson {
        /// Name of the JSON argument.
        name: &'static str,
        /// Underlying JSON parse failure.
        source: serde_json::Error,
    },
    /// A raw JSON argument was not an object.
    JsonNotObject {
        /// Name of the JSON argument.
        name: &'static str,
    },
    /// A key-value argument was missing `=`.
    InvalidAssignment {
        /// Name of the invalid argument.
        name: &'static str,
        /// Expected assignment form.
        usage: &'static str,
    },
}

/// A request error as mathematical values.
pub enum RequestErrorView {
    InvalidJson { name: &'static str },
    JsonNotObject { name: &'static str },
    InvalidAssignment { name: &'static str, usage: &'static str },
}

impl View for RequestError {
    type V = RequestErrorView;

    open spec fn view(&self) -> RequestErrorView {
        match self {
            RequestError::InvalidJson { name, .. } => RequestErrorView::InvalidJson { name: *name },
            RequestError::JsonNotObject { name } => RequestErrorView::JsonNotObject { name: *name },
            RequestError::InvalidAssignment { name, usage } => RequestErrorView::InvalidAssignment {
                name: *name,
                usage: *usage,
            },
        }
    }
}

/// The members that `serde_json` finds in a JSON text: none if the text is not
/// JSON, `Some(None)` if it is JSON but not an object, else each key with its
/// value re-encoded as compact JSON text.
pub uninterp spec fn json_members(text: Seq<char>) -> Option<Option<Seq<(Seq<char>, Seq<char>)>>>;

/// The characters of a list of key and encoded value pairs.
pub open spec fn pair_views(ps: Seq<(String, String)>) -> Seq<(Seq<char>, Seq<char>)> {
    ps.map_values(|p: (String, String)| (p.0@, p.1@))
}

/// Parses a JSON argument with `serde_json::from_str` into a
/// `serde_json::Value` and, for an object, lists its members with each value
/// re-encoded by `Value`'s `Display`. The claim is only that the outcome is
/// `json_members` of the text, a function of the text alone; what is JSON, and
/// how values are encoded, is not stated.
#[verifier::external_body]
fn parse_json_members(text: &str) -> (r: Result<Option<Vec<(String, String)>>, serde_json::Error>)
    ensures
        match r {
            Err(_) => json_members(text@) is None,
            Ok(None) => json_members(text@) == Some(None::<Seq<(Seq<char>, Seq<char>)>>),
            Ok(Some(ps)) => json_members(text@) == Some(Some(pair_views(ps@))),
        },
{
    match serde_json::from_str::<serde_json::Value>(text) {
        Ok(serde_json::Value::Object(map)) => Ok(Some(map.into_iter().map(|(k, v)| (k, v.to_string())).collect())),
        Ok(_) => Ok(None),
        Err(e) => Err(e),
    }
}

/// Members with encoded values, later keys replacing earlier ones.
pub open spec fn encoded_members(ps: Seq<(Seq<char>, Seq<char>)>) -> Map<Seq<char>, Json>
    decreases ps.len(),
{
    if ps.len() == 0 {
        Map::empty()
    } else {
        encoded_members(ps.drop_last()).insert(ps.last().0, Json::Encoded(ps.last().1))
    }
}

/// The characters of an optional string slice.
pub open spec fn opt_str(o: Option<&str>) -> Option<Seq<char>> {
    match o {
        Some(s) => Some(s@),
        None => None,
    }
}

/// An object with a JSON argument merged in: its members replace earlier values
/// of the same keys; the argument must be a JSON object.
pub open spec fn merged_arg(m: Map<Seq<char>, Json>, name: &'static str, value: Option<Seq<char>>) -> Result<Map<Seq<char>, Json>, RequestErrorView> {
    match value {
        None => Ok(m),
        Some(t) => match json_members(t) {
            None => Err(RequestErrorView::InvalidJson { name: name }),
            Some(None) => Err(RequestErrorView::JsonNotObject { name: name }),
            Some(Some(ps)) => Ok(m.union_prefer_right(encoded_members(ps))),
        },
    }
}

/// `m` with `key` set to a string when there is one.
pub open spec fn with_text(m: Map<Seq<char>, Json>, key: Seq<char>, value: Option<Seq<char>>) -> Map<Seq<char>, Json> {
    match value {
        Some(v) => m.insert(key, Json::Text(v)),
        None => m,
    }
}

/// `m` with `key` set to an array of strings when there are any.
pub open spec fn with_texts(m: Map<Seq<char>, Json>, key: Seq<char>, values: Seq<Seq<char>>) -> Map<Seq<char>, Json> {
    if values.len() > 0 {
        m.insert(key, Json::Array(Seq::new(values.len(), |i: int| Json::Text(values[i]))))
    } else {
        m
    }
}

/// `m` with `key` set to an integer when there is one.
pub open spec fn with_integer(m: Map<Seq<char>, Json>, key: Seq<char>, value: Option<u64>) -> Map<Seq<char>, Json> {
    match value {
        Some(v) => m.insert(key, Json::Integer(v)),
        None => m,
    }
}

/// `m` with `key` set to an encoded number when there is one.
pub open spec fn with_number(m: Map<Seq<char>, Json>, key: Seq<char>, value: Option<Seq<char>>) -> Map<Seq<char>, Json> {
    match value {
        Some(v) => m.insert(key, Json::Encoded(v)),
        None => m,
    }
}

/// The API spelling of an optional flag value.
pub open spec fn opt_api<T>(o: Option<T>, f: spec_fn(T) -> &'static str) -> Option<Seq<char>> {
    match o {
        Some(v) => Some(f(v)@),
        None => None,
    }
}

/// The format requested by the mutually exclusive format flags.
pub open spec fn resolved_format(format: Option<ApiFormat>, json: bool, markdown: bool) -> Option<&'static str> {
    if json {
        Some("json")
    } else if markdown {
        Some("markdown")
    } else {
        match format {
            Some(f) => Some(f.api_value()),
            None => None,
        }
    }
}

/// The characters of an optional static string.
pub open spec fn opt_static(o: Option<&'static str>) -> Option<Seq<char>> {
    match o {
        Some(s) => Some(s@),
        None => None,
    }
}

/// Integers widened.
pub open spec fn opt_u16(o: Option<u16>) -> Option<u64> {
    match o {
        Some(v) => Some(v as u64),
        None => None,
    }
}

/// Integers widened.
pub open spec fn opt_u8(o: Option<u8>) -> Option<u64> {
    match o {
        Some(v) => Some(v as u64),
        None => None,
    }
}

/// The lens object before its JSON argument is merged.
pub open spec fn lens_fields(a: SearchArgs) -> Map<Seq<char>, Json> {
    let m = Map::<Seq<char>, Json>::empty();
    let m = with_texts(m, "sites_included"@, a.sites_included.deep_view());
    let m = with_texts(m, "sites_excluded"@, a.sites_excluded.deep_view());
    let m = with_texts(m, "keywords_included"@, a.keywords_included.deep_view());
    let m = with_texts(m, "keywords_excluded"@, a.keywords_excluded.deep_view());
    let m = with_text(m, "file_type"@, opt_chars(a.file_type));
    let m = with_text(m, "time_after"@, opt_chars(a.time_after));
    let m = with_text(m, "time_before"@, opt_chars(a.time_before));
    let m = with_text(m, "time_relative"@, opt_api(a.time_relative, |t: TimeRelative| t.api_value()));
    with_text(m, "search_region"@, opt_chars(a.search_region))
}

/// The inline lens: present when it has any member.
pub open spec fn lens_outcome(a: SearchArgs) -> Result<Option<Map<Seq<char>, Json>>, RequestErrorView> {
    match merged_arg(lens_fields(a), "lens-json", opt_chars(a.lens_json)) {
        Err(e) => Err(e),
        Ok(m) => Ok(if m == Map::<Seq<char>, Json>::empty() { None } else { Some(m) }),
    }
}

/// The search filters: present when any is given.
pub open spec fn filters_fields(a: SearchArgs) -> Map<Seq<char>, Json> {
    let m = Map::<Seq<char>, Json>::empty();
    let m = with_text(m, "region"@, opt_chars(a.region));
    let m = with_text(m, "after"@, opt_chars(a.after));
    with_text(m, "before"@, opt_chars(a.before))
}

/// The extraction options of a search: present when any is given.
pub open spec fn extract_fields(a: SearchArgs) -> Map<Seq<char>, Json> {
    let m = Map::<Seq<char>, Json>::empty();
    let m = with_integer(m, "count"@, opt_u8(a.extract_count));
    with_number(m, "timeout"@, opt_chars(a.extract_timeout))
}

/// The two sides of a `key=value` argument: before and after its first `=`.
pub open spec fn assignment(s: Seq<char>) -> Option<(Seq<char>, Seq<char>)> {
    if exists|i: int| 0 <= i < s.len() && s[i] == '=' {
        let i = choose|i: int|
            0 <= i < s.len() && s[i] == '=' && forall|j: int| 0 <= j < i ==> s[j] != '=';
        Some((s.take(i), s.skip(i + 1)))
    } else {
        None
    }
}

/// An object of two named strings.
pub open spec fn pair_object(k1: Seq<char>, k2: Seq<char>, p: (Seq<char>, Seq<char>)) -> Json {
    Json::Object(Map::<Seq<char>, Json>::empty().insert(k1, Json::Text(p.0)).insert(k2, Json::Text(p.1)))
}

/// The objects of a list of assignments.
pub open spec fn pair_objects(k1: Seq<char>, k2: Seq<char>, xs: Seq<Seq<char>>) -> Json {
    Json::Array(Seq::new(xs.len(), |i: int| pair_object(k1, k2, assignment(xs[i]).unwrap())))
}

/// Some assignment in `xs` lacks `=`.
pub open spec fn some_unassigned(xs: Seq<Seq<char>>) -> bool {
    exists|i: int| 0 <= i < xs.len() && assignment(#[trigger] xs[i]) is None
}

/// The personalizations: domain kinds, then rewrites, then the JSON argument.
pub open spec fn personalizations_outcome(a: SearchArgs) -> Result<Option<Map<Seq<char>, Json>>, RequestErrorView> {
    let ds = a.domains.deep_view();
    let rs = a.regexes.deep_view();
    if some_unassigned(ds) {
        Err(RequestErrorView::InvalidAssignment { name: "domain", usage: "domain=kind" })
    } else if some_unassigned(rs) {
        Err(RequestErrorView::InvalidAssignment { name: "rewrite", usage: "regex=replacement" })
    } else {
        let m = Map::<Seq<char>, Json>::empty();
        let m = if ds.len() > 0 {
            m.insert("domains"@, pair_objects("domain"@, "kind"@, ds))
        } else {
            m
        };
        let m = if rs.len() > 0 {
            m.insert("regexes"@, pair_objects("regex"@, "replacement"@, rs))
        } else {
            m
        };
        match merged_arg(m, "personalizations-json", opt_chars(a.personalizations_json)) {
            Err(e) => Err(e),
            Ok(m) => Ok(if m == Map::<Seq<char>, Json>::empty() { None } else { Some(m) }),
        }
    }
}

/// `m` with `key` set to an object when there is one.
pub open spec fn with_object(m: Map<Seq<char>, Json>, key: Seq<char>, o: Option<Map<Seq<char>, Json>>) -> Map<Seq<char>, Json> {
    match o {
        Some(v) => m.insert(key, Json::Object(v)),
        None => m,
    }
}

/// The search body fields that never fail.
pub open spec fn search_head(a: SearchArgs) -> Map<Seq<char>, Json> {
    let m = Map::<Seq<char>, Json>::empty().insert("query"@, Json::Text(join(a.query.deep_view(), " "@)));
    let m = with_text(m, "workflow"@, opt_api(a.workflow, |w: Workflow| w.api_value()));
    let m = with_text(m, "format"@, opt_static(resolved_format(a.format, a.json, a.markdown)));
    let m = with_text(m, "lens_id"@, opt_chars(a.lens_id));
    let m = with_number(m, "timeout"@, opt_chars(a.timeout));
    let m = with_integer(m, "page"@, opt_u16(a.page));
    with_integer(m, "limit"@, opt_u16(a.limit))
}

/// The body of `POST /search`: the flags in order, the lens before the filters,
/// extraction and safe-search settings, then personalizations, and finally the
/// raw request JSON, whose members replace any set by flags.
pub open spec fn search_outcome(a: SearchArgs) -> Result<Json, RequestErrorView> {
    match lens_outcome(a) {
        Err(e) => Err(e),
        Ok(lens) => match personalizations_outcome(a) {
            Err(e) => Err(e),
            Ok(pers) => {
                let m = with_object(search_head(a), "lens"@, lens);
                let f = filters_fields(a);
                let m = with_object(m, "filters"@, if f == Map::<Seq<char>, Json>::empty() { None } else { Some(f) });
                let x = extract_fields(a);
                let m = with_object(m, "extract"@, if x == Map::<Seq<char>, Json>::empty() { None } else { Some(x) });
                let m = if a.safe_search { m.insert("safe_search"@, Json::Bool(true)) } else { m };
                let m = if a.no_safe_search { m.insert("safe_search"@, Json::Bool(false)) } else { m };
                let m = with_object(m, "personalizations"@, pers);
                match merged_arg(m, "request-json", opt_chars(a.request_json)) {
                    Err(e) => Err(e),
                    Ok(m) => Ok(Json::Object(m)),
                }
            },
        },
    }
}

/// The body of `POST /extract`: one `{"url": ..}` page per URL, the format and
/// timeout when given, then the raw request JSON.
pub open spec fn extract_outcome(a: ExtractArgs) -> Result<Json, RequestErrorView> {
    let us = a.urls.deep_view();
    let pages = Json::Array(Seq::new(us.len(), |i: int| Json::Object(Map::<Seq<char>, Json>::empty().insert("url"@, Json::Text(us[i])))));
    let m = Map::<Seq<char>, Json>::empty().insert("pages"@, pages);
    let m = with_text(m, "format"@, opt_static(resolved_format(a.format, a.json, a.markdown)));
    let m = with_number(m, "timeout"@, opt_chars(a.timeout));
    match merged_arg(m, "request-json", opt_chars(a.request_json)) {
        Err(e) => Err(e),
        Ok(m) => Ok(Json::Object(m)),
    }
}

/// An owned copy of a string slice.
fn owned(s: &str) -> (r: String)
    ensures
        r@ == s@,
{
    s.to_owned()
}

/// The slice of an optional string.
fn opt_as_str(o: &Option<String>) -> (r: Option<&str>)
    ensures
        opt_str(r) == opt_chars(*o),
{
    match o {
        Some(s) => Some(s.as_str()),
        None => None,
    }
}

/// The members of an optional object.
pub open spec fn opt_members(o: Option<JsonObject>) -> Option<Map<Seq<char>, Json>> {
    match o {
        Some(v) => Some(v@),
        None => None,
    }
}

/// Inserts a string field when a value exists.
fn insert_string(body: &mut JsonObject, key: &str, value: Option<&str>)
    ensures
        final(body)@ == with_text(old(body)@, key@, opt_str(value)),
{
    if let Some(v) = value {
        body.insert(owned(key), JsonValue::Text(owned(v)));
    }
}

/// Inserts a string array field when values exist.
fn insert_string_array(body: &mut JsonObject, key: &str, values: &Vec<String>)
    ensures
        final(body)@ == with_texts(old(body)@, key@, values.deep_view()),
{
    if values.len() > 0 {
        let mut items: Vec<JsonValue> = Vec::new();
        let mut i: usize = 0;
        while i < values.len()
            invariant
                i <= values@.len(),
                items@.len() == i,
                forall|j: int| 0 <= j < i ==> (#[trigger] items@[j])@ == Json::Text(values@[j]@),
            decreases values@.len() - i,
        {
            items.push(JsonValue::Text(values[i].clone()));
            i += 1;
        }
        let ghost n = values@.len();
        let ghost iv = items@;
        let arr = json_array(items);
        assert(Seq::new(n, |k: int| iv[k]@) =~= Seq::new(
            n,
            |k: int| Json::Text(values.deep_view()[k]),
        ));
        body.insert(owned(key), arr);
    }
}

/// Inserts an unsigned integer field when a value exists.
fn insert_integer(body: &mut JsonObject, key: &str, value: Option<u64>)
    ensures
        final(body)@ == with_integer(old(body)@, key@, value),
{
    if let Some(v) = value {
        body.insert(owned(key), JsonValue::Integer(v));
    }
}

/// Inserts a number field, given as JSON number text, when a value exists.
fn insert_number(body: &mut JsonObject, key: &str, value: Option<&str>)
    ensures
        final(body)@ == with_number(old(body)@, key@, opt_str(value)),
{
    if let Some(v) = value {
        body.insert(owned(key), JsonValue::Encoded(owned(v)));
    }
}

/// Inserts a format field when a format value exists.
fn insert_format(body: &mut JsonObject, format: Option<&'static str>)
    ensures
        final(body)@ == with_text(old(body)@, "format"@, opt_static(format)),
{
    let f: Option<&str> = match format {
        Some(v) => Some(v),
        None => None,
    };
    insert_string(body, "format", f);
}

/// Inserts an object field when there is one.
fn insert_object(body: &mut JsonObject, key: &str, value: Option<JsonObject>)
    ensures
        final(body)@ == with_object(old(body)@, key@, opt_members(value)),
{
    if let Some(o) = value {
        body.insert(owned(key), JsonValue::Object(o));
    }
}

/// The object, when it has any member.
fn non_empty(o: JsonObject) -> (r: Option<JsonObject>)
    ensures
        opt_members(r) == if o@ == Map::<Seq<char>, Json>::empty() {
            None
        } else {
            Some(o@)
        },
{
    if o.is_empty() {
        None
    } else {
        Some(o)
    }
}

/// Merges a JSON object argument into an existing object.
fn merge_json_arg(target: &mut JsonObject, name: &'static str, value: Option<&str>) -> (r: Result<
    (),
    RequestError,
>)
    ensures
        match merged_arg(old(target)@, name, opt_str(value)) {
            Ok(m) => r is Ok && final(target)@ == m,
            Err(e) => r matches Err(x) && x@ == e && *final(target) == *old(target),
        },
{
    let text = match value {
        Some(t) => t,
        None => {
            return Ok(());
        },
    };
    let pairs = match parse_json_members(text) {
        Err(source) => {
            return Err(RequestError::InvalidJson { name: name, source: source });
        },
        Ok(None) => {
            return Err(RequestError::JsonNotObject { name: name });
        },
        Ok(Some(pairs)) => pairs,
    };
    let ghost ps = pair_views(pairs@);
    let mut parsed = JsonObject::new();
    let mut i: usize = 0;
    while i < pairs.len()
        invariant
            i <= pairs@.len(),
            ps == pair_views(pairs@),
            parsed@ == encoded_members(ps.take(i as int)),
        decreases pairs@.len() - i,
    {
        assert(ps.take(i + 1).drop_last() =~= ps.take(i as int));
        parsed.insert(pairs[i].0.clone(), JsonValue::Encoded(pairs[i].1.clone()));
        i += 1;
    }
    assert(ps.take(ps.len() as int) =~= ps);
    target.extend(parsed);
    Ok(())
}

/// Splits a `key=value` argument into both parts.
pub fn split_assignment<'a>(name: &'static str, usage: &'static str, value: &'a str) -> (r: Result<
    (&'a str, &'a str),
    RequestError,
>)
    ensures
        match assignment(value@) {
            Some(p) => r matches Ok(q) && q.0@ == p.0 && q.1@ == p.1,
            None => r matches Err(e) && e@ == (RequestErrorView::InvalidAssignment {
                name: name,
                usage: usage,
            }),
        },
{
    let n = value.unicode_len();
    let mut i: usize = 0;
    while i < n
        invariant
            i <= n,
            n == value@.len(),
            forall|j: int| 0 <= j < i ==> value@[j] != '=',
        decreases n - i,
    {
        if value.get_char(i) == '=' {
            let before = value.substring_char(0, i);
            let after = value.substring_char(i + 1, n);
            proof {
                let k = choose|k: int|
                    0 <= k < value@.len() && value@[k] == '=' && forall|j: int|
                        0 <= j < k ==> value@[j] != '=';
                assert(k == i);
                assert(before@ =~= value@.take(i as int));
                assert(after@ =~= value@.skip(i + 1));
            }
            return Ok((before, after));
        }
        i += 1;
    }
    Err(RequestError::InvalidAssignment { name: name, usage: usage })
}

/// Resolves mutually exclusive format flags to an API value.
pub fn resolve_format(format: Option<&ApiFormat>, json: bool, markdown: bool) -> (r: Option<&'static str>)
    ensures
        r == resolved_format(
            match format {
                Some(f) => Some(*f),
                None => None,
            },
            json,
            markdown,
        ),
{
    if json {
        return Some("json");
    }
    if markdown {
        return Some("markdown");
    }
    match format {
        Some(f) => Some(f.as_api_value()),
        None => None,
    }
}

/// Builds the inline lens object when lens options are present.
fn lens_body(args: &SearchArgs) -> (r: Result<Option<JsonObject>, RequestError>)
    ensures
        match lens_outcome(*args) {
            Ok(o) => r matches Ok(x) && opt_members(x) == o,
            Err(e) => r matches Err(x) && x@ == e,
        },
{
    let mut lens = JsonObject::new();
    insert_string_array(&mut lens, "sites_included", &args.sites_included);
    insert_string_array(&mut lens, "sites_excluded", &args.sites_excluded);
    insert_string_array(&mut lens, "keywords_included", &args.keywords_included);
    insert_string_array(&mut lens, "keywords_excluded", &args.keywords_excluded);
    insert_string(&mut lens, "file_type", opt_as_str(&args.file_type));
    insert_string(&mut lens, "time_after", opt_as_str(&args.time_after));
    insert_string(&mut lens, "time_before", opt_as_str(&args.time_before));
    let relative: Option<&str> = match &args.time_relative {
        Some(t) => Some(t.as_api_value()),
        None => None,
    };
    insert_string(&mut lens, "time_relative", relative);
    insert_string(&mut lens, "search_region", opt_as_str(&args.search_region));
    assert(lens@ == lens_fields(*args));
    merge_json_arg(&mut lens, "lens-json", opt_as_str(&args.lens_json))?;
    Ok(non_empty(lens))
}

/// Builds the search filters object when filter options are present.
fn filters_body(args: &SearchArgs) -> (r: Option<JsonObject>)
    ensures
        opt_members(r) == if filters_fields(*args) == Map::<Seq<char>, Json>::empty() {
            None
        } else {
            Some(filters_fields(*args))
        },
{
    let mut filters = JsonObject::new();
    insert_string(&mut filters, "region", opt_as_str(&args.region));
    insert_string(&mut filters, "after", opt_as_str(&args.after));
    insert_string(&mut filters, "before", opt_as_str(&args.before));
    non_empty(filters)
}

/// Builds the search result extraction object when extraction options are present.
fn search_extract_body(args: &SearchArgs) -> (r: Option<JsonObject>)
    ensures
        opt_members(r) == if extract_fields(*args) == Map::<Seq<char>, Json>::empty() {
            None
        } else {
            Some(extract_fields(*args))
        },
{
    let mut extract = JsonObject::new();
    let count: Option<u64> = match args.extract_count {
        Some(c) => Some(c as u64),
        None => None,
    };
    insert_integer(&mut extract, "count", count);
    insert_number(&mut extract, "timeout", opt_as_str(&args.extract_timeout));
    non_empty(extract)
}

/// The objects of a list of assignments, or the error for the first one without `=`.
fn assignment_objects(
    items: &Vec<String>,
    name: &'static str,
    usage: &'static str,
    k1: &str,
    k2: &str,
) -> (r: Result<JsonValue, RequestError>)
    ensures
        some_unassigned(items.deep_view()) ==> (r matches Err(e) && e@
            == RequestErrorView::InvalidAssignment { name: name, usage: usage }),
        !some_unassigned(items.deep_view()) ==> (r matches Ok(v) && v@ == pair_objects(
            k1@,
            k2@,
            items.deep_view(),
        )),
{
    let ghost xs = items.deep_view();
    let mut objects: Vec<JsonValue> = Vec::new();
    let mut i: usize = 0;
    while i < items.len()
        invariant
            i <= items@.len(),
            xs == items.deep_view(),
            objects@.len() == i,
            forall|j: int| 0 <= j < i ==> assignment(#[trigger] xs[j]) is Some,
            forall|j: int|
                0 <= j < i ==> (#[trigger] objects@[j])@ == pair_object(
                    k1@,
                    k2@,
                    assignment(xs[j]).unwrap(),
                ),
        decreases items@.len() - i,
    {
        assert(xs[i as int] == items@[i as int]@);
        let (a, b) = match split_assignment(name, usage, items[i].as_str()) {
            Ok(p) => p,
            Err(e) => {
                return Err(e);
            },
        };
        let mut o = JsonObject::new();
        o.insert(owned(k1), JsonValue::Text(owned(a)));
        o.insert(owned(k2), JsonValue::Text(owned(b)));
        objects.push(JsonValue::Object(o));
        i += 1;
    }
    let ghost n = xs.len();
    let ghost ov = objects@;
    let arr = json_array(objects);
    assert(Seq::new(n, |k: int| ov[k]@) =~= Seq::new(
        n,
        |k: int| pair_object(k1@, k2@, assignment(xs[k]).unwrap()),
    ));
    Ok(arr)
}

/// Builds personalizations when personalization options are present.
fn personalizations_body(args: &SearchArgs) -> (r: Result<Option<JsonObject>, RequestError>)
    ensures
        match personalizations_outcome(*args) {
            Ok(o) => r matches Ok(x) && opt_members(x) == o,
            Err(e) => r matches Err(x) && x@ == e,
        },
{
    let domains = assignment_objects(&args.domains, "domain", "domain=kind", "domain", "kind");
    let domains = match domains {
        Ok(d) => d,
        Err(e) => {
            return Err(e);
        },
    };
    let regexes = assignment_objects(&args.regexes, "rewrite", "regex=replacement", "regex", "replacement");
    let regexes = match regexes {
        Ok(r) => r,
        Err(e) => {
            return Err(e);
        },
    };
    let mut personalizations = JsonObject::new();
    if args.domains.len() > 0 {
        personalizations.insert(owned("domains"), domains);
    }
    if args.regexes.len() > 0 {
        personalizations.insert(owned("regexes"), regexes);
    }
    merge_json_arg(
        &mut personalizations,
        "personalizations-json",
        opt_as_str(&args.personalizations_json),
    )?;
    Ok(non_empty(personalizations))
}

/// Builds the request body for `POST /search`.
pub fn search_body(args: &SearchArgs) -> (r: Result<JsonValue, RequestError>)
    ensures
        match search_outcome(*args) {
            Ok(j) => r matches Ok(v) && v@ == j,
            Err(e) => r matches Err(x) && x@ == e,
        },
{
    let mut body = JsonObject::new();
    body.insert(owned("query"), JsonValue::Text(join_strings(&args.query, " ")));
    let workflow: Option<&str> = match &args.workflow {
        Some(w) => Some(w.as_api_value()),
        None => None,
    };
    insert_string(&mut body, "workflow", workflow);
    insert_format(&mut body, resolve_format(args.format.as_ref(), args.json, args.markdown));
    insert_string(&mut body, "lens_id", opt_as_str(&args.lens_id));
    insert_number(&mut body, "timeout", opt_as_str(&args.timeout));
    let page: Option<u64> = match args.page {
        Some(p) => Some(p as u64),
        None => None,
    };
    insert_integer(&mut body, "page", page);
    let limit: Option<u64> = match args.limit {
        Some(l) => Some(l as u64),
        None => None,
    };
    insert_integer(&mut body, "limit", limit);
    assert(body@ == search_head(*args));
    let lens = lens_body(args)?;
    insert_object(&mut body, "lens", lens);
    insert_object(&mut body, "filters", filters_body(args));
    insert_object(&mut body, "extract", search_extract_body(args));
    if args.safe_search {
        body.insert(owned("safe_search"), JsonValue::Bool(true));
    }
    if args.no_safe_search {
        body.insert(owned("safe_search"), JsonValue::Bool(false));
    }
    let personalizations = personalizations_body(args)?;
    insert_object(&mut body, "personalizations", personalizations);
    merge_json_arg(&mut body, "request-json", opt_as_str(&args.request_json))?;
    Ok(JsonValue::Object(body))
}

/// Builds the request body for `POST /extract`.
pub fn extract_body(args: &ExtractArgs) -> (r: Result<JsonValue, RequestError>)
    ensures
        match extract_outcome(*args) {
            Ok(j) => r matches Ok(v) && v@ == j,
            Err(e) => r matches Err(x) && x@ == e,
        },
{
    let ghost us = args.urls.deep_view();
    let mut pages: Vec<JsonValue> = Vec::new();
    let mut i: usize = 0;
    while i < args.urls.len()
        invariant
            i <= args.urls@.len(),
            us == args.urls.deep_view(),
            pages@.len() == i,
            forall|j: int|
                0 <= j < i ==> (#[trigger] pages@[j])@ == Json::Object(
                    Map::<Seq<char>, Json>::empty().insert("url"@, Json::Text(us[j])),
                ),
        decreases args.urls@.len() - i,
    {
        let mut page = JsonObject::new();
        page.insert(owned("url"), JsonValue::Text(args.urls[i].clone()));
        pages.push(JsonValue::Object(page));
        i += 1;
    }
    let ghost pv = pages@;
    let arr = json_array(pages);
    assert(Seq::new(pv.len(), |k: int| pv[k]@) =~= Seq::new(
        us.len(),
        |k: int| Json::Object(Map::<Seq<char>, Json>::empty().insert("url"@, Json::Text(us[k]))),
    ));
    let mut body = JsonObject::new();
    body.insert(owned("pages"), arr);
    insert_format(&mut body, resolve_format(args.format.as_ref(), args.json, args.markdown));
    insert_number(&mut body, "timeout", opt_as_str(&args.timeout));
    merge_json_arg(&mut body, "request-json", opt_as_str(&args.request_json))?;
    Ok(JsonValue::Object(body))
}

/// The raw request JSON is merged last: each of its members is in the search
/// body with its own value, whatever the flags set.
pub proof fn law_request_json_wins(a: SearchArgs, ps: Seq<(Seq<char>, Seq<char>)>)
    requires
        search_outcome(a) is Ok,
        opt_chars(a.request_json) matches Some(t) && json_members(t) == Some(Some(ps)),
    ensures
        search_outcome(a)->Ok_0 matches Json::Object(m) && forall|k: Seq<char>|
            #[trigger] encoded_members(ps).contains_key(k) ==> m.contains_key(k) && m[k]
                == encoded_members(ps)[k],
{
}

/// Without a raw request JSON that sets it, the query sent is the query words
/// joined by single spaces.
pub proof fn law_query_is_joined_words(a: SearchArgs)
    requires
        search_outcome(a) is Ok,
        !(opt_chars(a.request_json) matches Some(t) && json_members(t) matches Some(Some(ps))
            && encoded_members(ps).contains_key("query"@)),
    ensures
        search_outcome(a)->Ok_0 matches Json::Object(m) && m.contains_key("query"@) && m["query"@]
            == Json::Text(join(a.query.deep_view(), " "@)),
{
    let q = "query"@;
    let want = Json::Text(join(a.query.deep_view(), " "@));
    reveal_strlit("query");
    reveal_strlit("workflow");
    reveal_strlit("format");
    reveal_strlit("lens_id");
    reveal_strlit("timeout");
    reveal_strlit("page");
    reveal_strlit("limit");
    reveal_strlit("lens");
    reveal_strlit("filters");
    reveal_strlit("extract");
    reveal_strlit("safe_search");
    reveal_strlit("personalizations");
    assert(q.len() == 5);
    assert("workflow"@.len() == 8);
    assert(q != "workflow"@);
    assert("format"@.len() == 6);
    assert(q != "format"@);
    assert(q != "lens_id"@);
    assert(q != "timeout"@);
    assert(q != "page"@);
    assert(q[0] == 'q' && "limit"@[0] == 'l');
    assert(q != "limit"@);
    assert(q != "lens"@);
    assert(q != "filters"@);
    assert(q != "extract"@);
    assert(q != "safe_search"@);
    assert(q != "personalizations"@);
    let h = search_head(a);
    assert(h.contains_key(q) && h[q] == want);
}


/// Without a raw request JSON that sets `filters`, the region, lower and upper
/// date bounds given as flags are sent under `filters` as `region`, `after` and
/// `before`, each under its own key and only when given.
pub proof fn law_filter_flags_keep_their_keys(a: SearchArgs)
    requires
        search_outcome(a) is Ok,
        a.region is Some || a.after is Some || a.before is Some,
        !(opt_chars(a.request_json) matches Some(t) && json_members(t) matches Some(Some(ps))
            && encoded_members(ps).contains_key("filters"@)),
    ensures
        search_outcome(a)->Ok_0 is Object,
        search_outcome(a)->Ok_0->Object_0.contains_key("filters"@),
        search_outcome(a)->Ok_0->Object_0["filters"@] is Object,
        a.region matches Some(v) ==> search_outcome(a)->Ok_0->Object_0["filters"@]->Object_0.contains_key("region"@)
            && search_outcome(a)->Ok_0->Object_0["filters"@]->Object_0["region"@] == Json::Text(v@),
        a.after matches Some(v) ==> search_outcome(a)->Ok_0->Object_0["filters"@]->Object_0.contains_key("after"@)
            && search_outcome(a)->Ok_0->Object_0["filters"@]->Object_0["after"@] == Json::Text(v@),
        a.before matches Some(v) ==> search_outcome(a)->Ok_0->Object_0["filters"@]->Object_0.contains_key("before"@)
            && search_outcome(a)->Ok_0->Object_0["filters"@]->Object_0["before"@] == Json::Text(v@),
        a.region is None ==> !search_outcome(a)->Ok_0->Object_0["filters"@]->Object_0.contains_key("region"@),
        a.after is None ==> !search_outcome(a)->Ok_0->Object_0["filters"@]->Object_0.contains_key("after"@),
        a.before is None ==> !search_outcome(a)->Ok_0->Object_0["filters"@]->Object_0.contains_key("before"@),
{
    reveal_strlit("filters");
    reveal_strlit("extract");
    reveal_strlit("safe_search");
    reveal_strlit("personalizations");
    reveal_strlit("region");
    reveal_strlit("after");
    reveal_strlit("before");
    let k = "filters"@;
    assert(k[0] == 'f' && "extract"@[0] == 'e');
    assert(k != "extract"@);
    assert(k.len() != "safe_search"@.len());
    assert(k != "safe_search"@);
    assert(k.len() != "personalizations"@.len());
    assert(k != "personalizations"@);
    assert("region"@[0] == 'r' && "after"@[0] == 'a' && "before"@[0] == 'b');
    assert("region"@ != "after"@);
    assert("region"@ != "before"@);
    assert("after"@ != "before"@);
    let f = filters_fields(a);
    if a.region is Some {
        assert(f.contains_key("region"@));
    } else if a.after is Some {
        assert(f.contains_key("after"@));
    } else {
        assert(f.contains_key("before"@));
    }
    assert(f != Map::<Seq<char>, Json>::empty());
}

} // verus!
