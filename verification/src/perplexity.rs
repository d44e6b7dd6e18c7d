//! Translates the supported Perplexity search protocol to and from Kagi.

use vstd::prelude::*;

use crate::json::{json_array, Json, JsonObject, JsonValue};
use crate::text::{
    ascii_alnum, ascii_alpha, blank, chars_of, is_ascii_alnum, is_ascii_alpha, is_blank, lower,
    to_ascii_lower,
};

verus! {

/// The dot-separated labels of a host name, as `str::split('.')` yields them
/// (so the empty name has one empty label).
pub open spec fn labels(s: Seq<char>) -> Seq<Seq<char>>
    decreases s.len(),
{
    if s.len() == 0 {
        seq![Seq::<char>::empty()]
    } else {
        let prev = labels(s.drop_last());
        if s.last() == '.' {
            prev.push(Seq::<char>::empty())
        } else {
            prev.update(prev.len() - 1, prev.last().push(s.last()))
        }
    }
}

/// A host name label: 1 to 63 letters, digits or hyphens, not starting or ending with `-`.
pub open spec fn valid_label(l: Seq<char>) -> bool {
    &&& 0 < l.len() <= 63
    &&& l[0] != '-'
    &&& l.last() != '-'
    &&& forall|k: int| 0 <= k < l.len() ==> is_ascii_alnum(#[trigger] l[k]) || l[k] == '-'
}

/// A lens entry that names a host rather than a URL or search operator:
/// 1 to 253 characters whose labels are all valid. Such a name is ASCII, so its
/// lengths in characters and in bytes agree.
pub open spec fn is_valid_domain(d: Seq<char>) -> bool {
    &&& 0 < d.len() <= 253
    &&& forall|k: int| 0 <= k < labels(d).len() ==> valid_label(#[trigger] labels(d)[k])
}

pub proof fn lemma_labels_nonempty(s: Seq<char>)
    ensures
        labels(s).len() >= 1,
    decreases s.len(),
{
    if s.len() > 0 {
        lemma_labels_nonempty(s.drop_last());
    }
}

/// Labels already closed by a dot in a prefix stay the same in every longer prefix.
proof fn lemma_closed_labels_stable(s: Seq<char>, i: int, j: int, k: int)
    requires
        0 <= i <= j <= s.len(),
        0 <= k < labels(s.take(i)).len() - 1,
    ensures
        k < labels(s.take(j)).len() - 1,
        labels(s.take(j))[k] == labels(s.take(i))[k],
    decreases j - i,
{
    if j > i {
        lemma_closed_labels_stable(s, i, j - 1, k);
        assert(s.take(j).drop_last() =~= s.take(j - 1));
        lemma_labels_nonempty(s.take(j - 1));
    }
}

/// Decides whether `cs[start..end]` is a valid label.
fn label_ok(cs: &Vec<char>, start: usize, end: usize) -> (b: bool)
    requires
        start <= end <= cs@.len(),
    ensures
        b == valid_label(cs@.subrange(start as int, end as int)),
{
    let ghost l = cs@.subrange(start as int, end as int);
    if start == end || end - start > 63 || cs[start] == '-' || cs[end - 1] == '-' {
        return false;
    }
    let mut k = start;
    while k < end
        invariant
            start <= k <= end <= cs@.len(),
            l == cs@.subrange(start as int, end as int),
            forall|m: int| 0 <= m < k - start ==> is_ascii_alnum(#[trigger] l[m]) || l[m] == '-',
        decreases end - k,
    {
        let c = cs[k];
        if !(ascii_alnum(c) || c == '-') {
            assert(l[k - start] == c);
            return false;
        }
        k += 1;
    }
    true
}

/// Checks that a lens entry is a hostname rather than a URL or search operator.
pub fn valid_domain(domain: &str) -> (b: bool)
    ensures
        b == is_valid_domain(domain@),
{
    let cs = chars_of(domain);
    let n = cs.len();
    if n == 0 || n > 253 {
        return false;
    }
    let ghost d = cs@;
    let mut start: usize = 0;
    let mut i: usize = 0;
    proof {
        assert(d.take(0) =~= Seq::<char>::empty());
    }
    while i < n
        invariant
            0 <= start <= i <= n,
            n == d.len(),
            d == cs@,
            d == domain@,
            0 < n <= 253,
            labels(d.take(i as int)).len() >= 1,
            labels(d.take(i as int)).last() == d.subrange(start as int, i as int),
            forall|k: int|
                0 <= k < labels(d.take(i as int)).len() - 1 ==> valid_label(
                    #[trigger] labels(d.take(i as int))[k],
                ),
        decreases n - i,
    {
        let ghost prev = labels(d.take(i as int));
        assert(d.take(i + 1).drop_last() =~= d.take(i as int));
        if cs[i] == '.' {
            if !label_ok(&cs, start, i) {
                proof {
                    let k = prev.len() - 1;
                    assert(labels(d.take(i + 1)) == prev.push(Seq::<char>::empty()));
                    lemma_closed_labels_stable(d, i + 1, n as int, k);
                    assert(d.take(n as int) =~= d);
                    assert(!valid_label(labels(d)[k]));
                }
                return false;
            }
            start = i + 1;
            assert(labels(d.take(i + 1)).last() =~= d.subrange(start as int, i + 1));
        } else {
            assert(labels(d.take(i + 1)).last() =~= d.subrange(start as int, i + 1));
        }
        i += 1;
    }
    assert(d.take(n as int) =~= d);
    let ok = label_ok(&cs, start, n);
    proof {
        let ls = labels(d);
        if ok {
            assert forall|k: int| 0 <= k < ls.len() implies valid_label(#[trigger] ls[k]) by {
                if k < ls.len() - 1 {
                } else {
                    assert(ls[k] == d.subrange(start as int, n as int));
                }
            }
        } else {
            assert(!valid_label(ls[ls.len() - 1]));
        }
    }
    ok
}


/// Query text or a batch of related queries.
#[derive(Debug)]
pub enum Query {
    /// One search query.
    Single(String),
    /// Multiple related queries.
    Multiple(Vec<String>),
}

impl Query {
    /// The queries in order.
    pub open spec fn texts(&self) -> Seq<Seq<char>> {
        match self {
            Query::Single(q) => seq![q@],
            Query::Multiple(qs) => qs.deep_view(),
        }
    }
}

/// Search input accepted by LiteLLM's Perplexity provider.
#[derive(Debug)]
pub struct SearchRequest {
    /// Query text or a batch of related queries.
    pub query: Query,
    /// Maximum number of results across the response.
    pub max_results: Option<usize>,
    /// Included domains, or excluded domains prefixed with `-`.
    pub search_domain_filter: Option<Vec<String>>,
    /// Accepted for compatibility; Kagi snippets have no token budget control.
    pub max_tokens_per_page: Option<u32>,
    /// Country in which to localize results.
    pub country: Option<String>,
}

/// The contents of a `SearchRequest` as mathematical values.
pub struct SearchRequestView {
    pub queries: Seq<Seq<char>>,
    pub max_results: Option<usize>,
    pub domains: Option<Seq<Seq<char>>>,
    pub max_tokens_per_page: Option<u32>,
    pub country: Option<Seq<char>>,
}

/// The characters of an optional string.
pub open spec fn opt_chars(o: Option<String>) -> Option<Seq<char>> {
    match o {
        Some(s) => Some(s@),
        None => None,
    }
}

impl View for SearchRequest {
    type V = SearchRequestView;

    open spec fn view(&self) -> SearchRequestView {
        SearchRequestView {
            queries: self.query.texts(),
            max_results: self.max_results,
            domains: match self.search_domain_filter {
                Some(d) => Some(d.deep_view()),
                None => None,
            },
            max_tokens_per_page: self.max_tokens_per_page,
            country: opt_chars(self.country),
        }
    }
}

/// Invalid search parameters that cannot be forwarded to Kagi.
#[derive(Debug, PartialEq, Eq, Structural)]
pub enum ValidationError {
    /// No queries or too many queries were supplied.
    QueryCount,
    /// A query contained no text.
    EmptyQuery,
    /// The result limit was outside the web search range.
    ResultLimit,
    /// The domain list exceeded the protocol limit.
    DomainCount,
    /// A filter could not be represented as a Kagi domain lens.
    Domain,
    /// The country code was not in the expected format.
    Country,
    /// The page budget was outside the accepted protocol range.
    TokenLimit,
}

impl ValidationError {
    /// The explanation given to callers for this error.
    pub open spec fn message_text(&self) -> &'static str {
        match self {
            ValidationError::QueryCount => "query must contain between 1 and 5 queries",
            ValidationError::EmptyQuery => "query must not be empty or whitespace-only",
            ValidationError::ResultLimit => "max_results must be between 1 and 20",
            ValidationError::DomainCount => "search_domain_filter must contain at most 20 domains",
            ValidationError::Domain =>
                "search_domain_filter entries must be hostnames, optionally prefixed with '-'; URLs and paths are not supported",
            ValidationError::Country => "country must be a two-letter ISO 3166-1 alpha-2 code",
            ValidationError::TokenLimit => "max_tokens_per_page must be between 1 and 1000000",
        }
    }

    /// The explanation given to callers for this error.
    pub fn message(&self) -> (m: &'static str)
        ensures
            m == self.message_text(),
    {
        match self {
            ValidationError::QueryCount => "query must contain between 1 and 5 queries",
            ValidationError::EmptyQuery => "query must not be empty or whitespace-only",
            ValidationError::ResultLimit => "max_results must be between 1 and 20",
            ValidationError::DomainCount => "search_domain_filter must contain at most 20 domains",
            ValidationError::Domain =>
                "search_domain_filter entries must be hostnames, optionally prefixed with '-'; URLs and paths are not supported",
            ValidationError::Country => "country must be a two-letter ISO 3166-1 alpha-2 code",
            ValidationError::TokenLimit => "max_tokens_per_page must be between 1 and 1000000",
        }
    }
}

/// Domain constraints understood by Kagi.
#[derive(Debug)]
pub struct Lens {
    /// Domains to search exclusively.
    pub sites_included: Vec<String>,
    /// Domains to exclude.
    pub sites_excluded: Vec<String>,
}

/// The domains of a lens.
pub struct LensView {
    pub included: Seq<Seq<char>>,
    pub excluded: Seq<Seq<char>>,
}

impl View for Lens {
    type V = LensView;

    open spec fn view(&self) -> LensView {
        LensView { included: self.sites_included.deep_view(), excluded: self.sites_excluded.deep_view() }
    }
}

/// Regional constraints understood by Kagi.
#[derive(Debug)]
pub struct Filters {
    /// Lowercase country code required by the upstream API.
    pub region: String,
}

/// JSON search request sent to Kagi.
#[derive(Debug)]
pub struct KagiSearchRequest {
    /// Search text for this upstream request.
    pub query: String,
    /// Structured response format required by the adapter.
    pub format: &'static str,
    /// Web search workflow.
    pub workflow: &'static str,
    /// Maximum number of results to fetch.
    pub limit: usize,
    /// Domain constraints applied through an inline lens.
    pub lens: Option<Lens>,
    /// Regional search constraints.
    pub filters: Option<Filters>,
}

/// An upstream request as mathematical values; `region` is the filter's region.
pub struct KagiSearchRequestView {
    pub query: Seq<char>,
    pub format: &'static str,
    pub workflow: &'static str,
    pub limit: usize,
    pub lens: Option<LensView>,
    pub region: Option<Seq<char>>,
}

impl View for KagiSearchRequest {
    type V = KagiSearchRequestView;

    open spec fn view(&self) -> KagiSearchRequestView {
        KagiSearchRequestView {
            query: self.query@,
            format: self.format,
            workflow: self.workflow,
            limit: self.limit,
            lens: match self.lens {
                Some(l) => Some(l@),
                None => None,
            },
            region: match self.filters {
                Some(f) => Some(f.region@),
                None => None,
            },
        }
    }
}

/// A list of strings as a JSON array.
pub open spec fn text_array(items: Seq<Seq<char>>) -> Json {
    Json::Array(Seq::new(items.len(), |i: int| Json::Text(items[i])))
}

/// A lens as the JSON object Kagi reads: each list of sites only where it is
/// not empty.
pub open spec fn lens_json(l: LensView) -> Json {
    let inc = if l.included.len() == 0 {
        Map::<Seq<char>, Json>::empty()
    } else {
        Map::<Seq<char>, Json>::empty().insert("sites_included"@, text_array(l.included))
    };
    Json::Object(
        if l.excluded.len() == 0 {
            inc
        } else {
            inc.insert("sites_excluded"@, text_array(l.excluded))
        },
    )
}

/// An upstream request as the JSON body sent to Kagi: the query, format,
/// workflow and limit, then the lens and the region filter where there are any.
pub open spec fn upstream_json(v: KagiSearchRequestView) -> Json {
    let base = Map::<Seq<char>, Json>::empty().insert("query"@, Json::Text(v.query)).insert(
        "format"@,
        Json::Text(v.format@),
    ).insert("workflow"@, Json::Text(v.workflow@)).insert("limit"@, Json::Integer(v.limit as u64));
    let with_lens = match v.lens {
        Some(l) => base.insert("lens"@, lens_json(l)),
        None => base,
    };
    Json::Object(
        match v.region {
            Some(r) => with_lens.insert(
                "filters"@,
                Json::Object(Map::<Seq<char>, Json>::empty().insert("region"@, Json::Text(r))),
            ),
            None => with_lens,
        },
    )
}

/// A list of strings as a JSON array.
fn text_array_value(items: &Vec<String>) -> (v: JsonValue)
    ensures
        v@ == text_array(items@.map_values(|s: String| s@)),
{
    let mut values: Vec<JsonValue> = Vec::new();
    let mut i: usize = 0;
    while i < items.len()
        invariant
            i <= items@.len(),
            values@.len() == i,
            forall|j: int| 0 <= j < i ==> (#[trigger] values@[j])@ == Json::Text(items@[j]@),
        decreases items@.len() - i,
    {
        values.push(JsonValue::Text(items[i].clone()));
        i = i + 1;
    }
    let v = json_array(values);
    assert(Seq::new(values@.len(), |j: int| values@[j]@) =~= Seq::new(
        items@.map_values(|s: String| s@).len(),
        |j: int| Json::Text(items@.map_values(|s: String| s@)[j]),
    ));
    v
}

impl Lens {
    /// The lens as the JSON object Kagi reads.
    pub fn to_json(&self) -> (v: JsonValue)
        ensures
            v@ == lens_json(self@),
    {
        let mut o = JsonObject::new();
        if self.sites_included.len() > 0 {
            o.insert("sites_included".to_owned(), text_array_value(&self.sites_included));
        }
        if self.sites_excluded.len() > 0 {
            o.insert("sites_excluded".to_owned(), text_array_value(&self.sites_excluded));
        }
        proof {
            assert(self.sites_included.deep_view() =~= self.sites_included@.map_values(|s: String| s@));
            assert(self.sites_excluded.deep_view() =~= self.sites_excluded@.map_values(|s: String| s@));
        }
        JsonValue::Object(o)
    }
}

impl KagiSearchRequest {
    /// The JSON body sent to Kagi for this request.
    pub fn to_json(&self) -> (v: JsonValue)
        ensures
            v@ == upstream_json(self@),
    {
        let mut o = JsonObject::new();
        o.insert("query".to_owned(), JsonValue::Text(self.query.clone()));
        o.insert("format".to_owned(), JsonValue::Text(self.format.to_owned()));
        o.insert("workflow".to_owned(), JsonValue::Text(self.workflow.to_owned()));
        o.insert("limit".to_owned(), JsonValue::Integer(self.limit as u64));
        if let Some(lens) = &self.lens {
            o.insert("lens".to_owned(), lens.to_json());
        }
        if let Some(filters) = &self.filters {
            let mut f = JsonObject::new();
            f.insert("region".to_owned(), JsonValue::Text(filters.region.clone()));
            o.insert("filters".to_owned(), JsonValue::Object(f));
        }
        JsonValue::Object(o)
    }
}

/// Validated upstream searches and their aggregate result limit.
#[derive(Debug)]
pub struct SearchPlan {
    /// One billable Kagi request for each incoming query.
    pub requests: Vec<KagiSearchRequest>,
    /// Maximum number of unique results in the response.
    pub limit: usize,
}

/// A plan as mathematical values.
pub struct SearchPlanView {
    pub requests: Seq<KagiSearchRequestView>,
    pub limit: usize,
}

impl View for SearchPlan {
    type V = SearchPlanView;

    open spec fn view(&self) -> SearchPlanView {
        SearchPlanView { requests: self.requests@.map_values(|r: KagiSearchRequest| r@), limit: self.limit }
    }
}

/// A two-letter ASCII country code.
pub open spec fn is_valid_country(c: Seq<char>) -> bool {
    c.len() == 2 && is_ascii_alpha(c[0]) && is_ascii_alpha(c[1])
}

/// A domain filter entry that excludes its domain.
pub open spec fn is_exclusion(e: Seq<char>) -> bool {
    e.len() > 0 && e[0] == '-'
}

/// The domain named by a filter entry.
pub open spec fn entry_domain(e: Seq<char>) -> Seq<char> {
    if is_exclusion(e) {
        e.drop_first()
    } else {
        e
    }
}

/// Lower-cased domains of the including entries, in order.
pub open spec fn included_sites(es: Seq<Seq<char>>) -> Seq<Seq<char>>
    decreases es.len(),
{
    if es.len() == 0 {
        seq![]
    } else if is_exclusion(es.last()) {
        included_sites(es.drop_last())
    } else {
        included_sites(es.drop_last()).push(lower(es.last()))
    }
}

/// Lower-cased domains of the excluding entries, in order.
pub open spec fn excluded_sites(es: Seq<Seq<char>>) -> Seq<Seq<char>>
    decreases es.len(),
{
    if es.len() == 0 {
        seq![]
    } else if is_exclusion(es.last()) {
        excluded_sites(es.drop_last()).push(lower(entry_domain(es.last())))
    } else {
        excluded_sites(es.drop_last())
    }
}

/// The lens of a domain filter list, present when it names any domain.
pub open spec fn lens_of(es: Seq<Seq<char>>) -> Option<LensView> {
    if included_sites(es).len() > 0 || excluded_sites(es).len() > 0 {
        Some(LensView { included: included_sites(es), excluded: excluded_sites(es) })
    } else {
        None
    }
}

/// `parts` joined by `sep`.
pub open spec fn join(parts: Seq<Seq<char>>, sep: Seq<char>) -> Seq<char>
    decreases parts.len(),
{
    if parts.len() == 0 {
        seq![]
    } else if parts.len() == 1 {
        parts[0]
    } else {
        join(parts.drop_last(), sep) + sep + parts.last()
    }
}

/// `site:` operators for the included domains.
pub open spec fn site_terms(ds: Seq<Seq<char>>) -> Seq<Seq<char>> {
    ds.map_values(|d: Seq<char>| "site:"@ + d)
}

/// ` -site:` operators for the excluded domains, concatenated.
pub open spec fn exclusion_terms(ds: Seq<Seq<char>>) -> Seq<char>
    decreases ds.len(),
{
    if ds.len() == 0 {
        seq![]
    } else {
        exclusion_terms(ds.drop_last()) + " -site:"@ + ds.last()
    }
}

/// A query with the lens's domains added as search operators: one included
/// domain as ` site:d`, several as ` (site:a OR site:b)`, then ` -site:d` for
/// each excluded domain.
pub open spec fn scoped_query(l: LensView, q: Seq<char>) -> Seq<char> {
    let terms = site_terms(l.included);
    let head = if terms.len() == 0 {
        q
    } else if terms.len() == 1 {
        q + " "@ + terms[0]
    } else {
        q + " ("@ + join(terms, " OR "@) + ")"@
    };
    head + exclusion_terms(l.excluded)
}

/// The upstream request planned for one query.
pub open spec fn request_for(
    q: Seq<char>,
    lens: Option<LensView>,
    region: Option<Seq<char>>,
    limit: usize,
) -> KagiSearchRequestView {
    KagiSearchRequestView {
        query: match lens {
            Some(l) => scoped_query(l, q),
            None => q,
        },
        format: "json",
        workflow: "search",
        limit: limit,
        lens: lens,
        region: region,
    }
}

/// The result limit asked for, 10 when absent.
pub open spec fn requested_limit(v: SearchRequestView) -> usize {
    match v.max_results {
        Some(l) => l,
        None => 10,
    }
}

/// The domain filter entries, none when absent.
pub open spec fn domain_entries(v: SearchRequestView) -> Seq<Seq<char>> {
    match v.domains {
        Some(d) => d,
        None => seq![],
    }
}

/// The first validation rule, in checking order, that a request breaks.
pub open spec fn validation_error(v: SearchRequestView) -> Option<ValidationError> {
    let qs = v.queries;
    let limit = requested_limit(v);
    let es = domain_entries(v);
    if !(1 <= qs.len() <= 5) {
        Some(ValidationError::QueryCount)
    } else if exists|i: int| 0 <= i < qs.len() && is_blank(#[trigger] qs[i]) {
        Some(ValidationError::EmptyQuery)
    } else if !(1 <= limit <= 20) {
        Some(ValidationError::ResultLimit)
    } else if v.max_tokens_per_page matches Some(t) && !(1 <= t <= 1_000_000) {
        Some(ValidationError::TokenLimit)
    } else if v.country matches Some(c) && !is_valid_country(c) {
        Some(ValidationError::Country)
    } else if es.len() > 20 {
        Some(ValidationError::DomainCount)
    } else if exists|i: int| 0 <= i < es.len() && !is_valid_domain(entry_domain(#[trigger] es[i])) {
        Some(ValidationError::Domain)
    } else {
        None
    }
}

/// The plan for a request that breaks no rule: one request per query, in order,
/// sharing the limit, the lens and the lower-cased region.
pub open spec fn plan_of(v: SearchRequestView) -> SearchPlanView {
    let limit = requested_limit(v);
    let lens = lens_of(domain_entries(v));
    let region = match v.country {
        Some(c) => Some(lower(c)),
        None => None,
    };
    SearchPlanView {
        requests: v.queries.map_values(|q: Seq<char>| request_for(q, lens, region, limit)),
        limit: limit,
    }
}

/// Copies a list of strings.
fn clone_strings(v: &Vec<String>) -> (r: Vec<String>)
    ensures
        r.deep_view() == v.deep_view(),
{
    let mut r: Vec<String> = Vec::new();
    let mut i: usize = 0;
    while i < v.len()
        invariant
            i <= v@.len(),
            r@.len() == i,
            forall|j: int| 0 <= j < i ==> (#[trigger] r@[j])@ == v@[j]@,
        decreases v@.len() - i,
    {
        r.push(v[i].clone());
        i += 1;
    }
    assert(r.deep_view() =~= v.deep_view());
    r
}

impl Clone for Lens {
    fn clone(&self) -> (r: Self)
        ensures
            r@ == self@,
    {
        Lens {
            sites_included: clone_strings(&self.sites_included),
            sites_excluded: clone_strings(&self.sites_excluded),
        }
    }
}

impl Clone for Filters {
    fn clone(&self) -> (r: Self)
        ensures
            r.region@ == self.region@,
    {
        Filters { region: self.region.clone() }
    }
}

/// `parts` joined by `sep`.
pub(crate) fn join_strings(parts: &Vec<String>, sep: &str) -> (r: String)
    ensures
        r@ == join(parts.deep_view(), sep@),
{
    let mut r = String::new();
    let mut i: usize = 0;
    while i < parts.len()
        invariant
            i <= parts@.len(),
            r@ == join(parts.deep_view().take(i as int), sep@),
        decreases parts@.len() - i,
    {
        let ghost ps = parts.deep_view();
        assert(ps.take(i + 1).drop_last() =~= ps.take(i as int));
        if i > 0 {
            r.append(sep);
        }
        r.append(parts[i].as_str());
        i += 1;
    }
    assert(parts.deep_view().take(parts@.len() as int) =~= parts.deep_view());
    r
}

impl Lens {
    /// Adds domain operators because inline lenses are not reliably enforced.
    pub fn scope_query(&self, query: String) -> (r: String)
        ensures
            r@ == scoped_query(self@, query@),
    {
        let mut terms: Vec<String> = Vec::new();
        let mut i: usize = 0;
        while i < self.sites_included.len()
            invariant
                i <= self.sites_included@.len(),
                terms.deep_view() =~= site_terms(self@.included).take(i as int),
            decreases self.sites_included@.len() - i,
        {
            let mut t = String::new();
            t.append("site:");
            t.append(self.sites_included[i].as_str());
            let ghost before = terms.deep_view();
            let ghost tv = t@;
            terms.push(t);
            assert(terms.deep_view() =~= before.push(tv));
            assert(site_terms(self@.included).take(i + 1) =~= site_terms(self@.included).take(
                i as int,
            ).push(tv));
            i += 1;
        }
        assert(terms.deep_view() =~= site_terms(self@.included));
        let mut q = query;
        if terms.len() == 1 {
            q.append(" ");
            q.append(terms[0].as_str());
        } else if terms.len() > 1 {
            q.append(" (");
            let joined = join_strings(&terms, " OR ");
            q.append(joined.as_str());
            q.append(")");
        }
        let ghost head = q@;
        let mut k: usize = 0;
        while k < self.sites_excluded.len()
            invariant
                k <= self.sites_excluded@.len(),
                q@ == head + exclusion_terms(self@.excluded.take(k as int)),
            decreases self.sites_excluded@.len() - k,
        {
            assert(self@.excluded.take(k + 1).drop_last() =~= self@.excluded.take(k as int));
            q.append(" -site:");
            q.append(self.sites_excluded[k].as_str());
            k += 1;
        }
        assert(self@.excluded.take(self@.excluded.len() as int) =~= self@.excluded);
        q
    }
}

/// Decides `is_valid_country`.
fn valid_country(c: &str) -> (b: bool)
    ensures
        b == is_valid_country(c@),
{
    let cs = chars_of(c);
    cs.len() == 2 && ascii_alpha(cs[0]) && ascii_alpha(cs[1])
}

/// Splits a domain filter entry into its exclusion flag and its domain.
fn split_entry(entry: &str) -> (r: (bool, &str))
    ensures
        r.0 == is_exclusion(entry@),
        r.1@ == entry_domain(entry@),
{
    let n = entry.unicode_len();
    if n > 0 && entry.get_char(0) == '-' {
        let d = entry.substring_char(1, n);
        assert(d@ =~= entry@.drop_first());
        (true, d)
    } else {
        (false, entry)
    }
}

impl SearchRequest {
    /// Validates all parameters before constructing any billable requests.
    #[verifier::loop_isolation(false)]
    pub fn into_plan(self) -> (r: Result<SearchPlan, ValidationError>)
        ensures
            r matches Ok(p) ==> validation_error(self@) is None && p@ == plan_of(self@),
            r matches Err(e) ==> validation_error(self@) == Some(e),
    {
        let ghost v = self@;
        let SearchRequest { query, max_results, search_domain_filter, max_tokens_per_page, country } =
            self;
        let queries: Vec<String> = match query {
            Query::Single(q) => {
                let mut qs: Vec<String> = Vec::new();
                qs.push(q);
                assert(qs.deep_view() =~= v.queries);
                qs
            },
            Query::Multiple(qs) => qs,
        };
        assert(queries.deep_view() == v.queries);
        if queries.len() < 1 || queries.len() > 5 {
            return Err(ValidationError::QueryCount);
        }
        let mut i: usize = 0;
        while i < queries.len()
            invariant
                i <= queries@.len(),
                queries.deep_view() == v.queries,
                forall|j: int| 0 <= j < i ==> !is_blank(#[trigger] v.queries[j]),
            decreases queries@.len() - i,
        {
            if blank(queries[i].as_str()) {
                assert(v.queries[i as int] == queries@[i as int]@);
                assert(is_blank(v.queries[i as int]));
                return Err(ValidationError::EmptyQuery);
            }
            i += 1;
        }
        let limit: usize = match max_results {
            Some(l) => l,
            None => 10,
        };
        if limit < 1 || limit > 20 {
            return Err(ValidationError::ResultLimit);
        }
        if let Some(t) = max_tokens_per_page {
            if t < 1 || t > 1_000_000 {
                return Err(ValidationError::TokenLimit);
            }
        }
        let filters: Option<Filters> = match country {
            Some(c) => {
                if !valid_country(c.as_str()) {
                    return Err(ValidationError::Country);
                }
                Some(Filters { region: to_ascii_lower(c.as_str()) })
            },
            None => None,
        };
        let domains: Vec<String> = match search_domain_filter {
            Some(d) => d,
            None => Vec::new(),
        };
        let ghost es = domain_entries(v);
        assert(domains.deep_view() =~= es);
        if domains.len() > 20 {
            return Err(ValidationError::DomainCount);
        }
        let mut included: Vec<String> = Vec::new();
        let mut excluded: Vec<String> = Vec::new();
        let mut k: usize = 0;
        while k < domains.len()
            invariant
                k <= domains@.len(),
                domains.deep_view() == es,
                included.deep_view() =~= included_sites(es.take(k as int)),
                excluded.deep_view() =~= excluded_sites(es.take(k as int)),
                forall|j: int| 0 <= j < k ==> is_valid_domain(entry_domain(#[trigger] es[j])),
            decreases domains@.len() - k,
        {
            assert(es.take(k + 1).drop_last() =~= es.take(k as int));
            assert(es.take(k + 1).last() == es[k as int]);
            assert(es[k as int] == domains@[k as int]@);
            let (exclude, domain) = split_entry(domains[k].as_str());
            if !valid_domain(domain) {
                assert(!is_valid_domain(entry_domain(es[k as int])));
                return Err(ValidationError::Domain);
            }
            let site = to_ascii_lower(domain);
            if exclude {
                let ghost before = excluded.deep_view();
                let ghost sv = site@;
                excluded.push(site);
                assert(excluded.deep_view() =~= before.push(sv));
            } else {
                let ghost before = included.deep_view();
                let ghost sv = site@;
                included.push(site);
                assert(included.deep_view() =~= before.push(sv));
            }
            k += 1;
        }
        assert(es.take(es.len() as int) =~= es);
        assert(validation_error(v) is None);
        let lens: Option<Lens> = if included.len() > 0 || excluded.len() > 0 {
            Some(Lens { sites_included: included, sites_excluded: excluded })
        } else {
            None
        };
        let ghost lv = lens_of(es);
        let ghost region = match v.country {
            Some(c) => Some(lower(c)),
            None => None,
        };
        assert(match lens {
            Some(l) => lv == Some(l@),
            None => lv is None,
        });
        let mut requests: Vec<KagiSearchRequest> = Vec::new();
        let mut m: usize = 0;
        while m < queries.len()
            invariant
                m <= queries@.len(),
                queries.deep_view() == v.queries,
                requests@.len() == m,
                1 <= limit <= 20,
                limit == requested_limit(v),
                match lens {
                    Some(l) => lv == Some(l@),
                    None => lv is None,
                },
                match filters {
                    Some(f) => region == Some(f.region@),
                    None => region is None,
                },
                forall|j: int|
                    0 <= j < m ==> (#[trigger] requests@[j])@ == request_for(
                        v.queries[j],
                        lv,
                        region,
                        limit,
                    ),
            decreases queries@.len() - m,
        {
            let q = queries[m].clone();
            let scoped = match &lens {
                Some(l) => l.scope_query(q),
                None => q,
            };
            let req = KagiSearchRequest {
                query: scoped,
                format: "json",
                workflow: "search",
                limit: limit,
                lens: match &lens {
                    Some(l) => Some(l.clone()),
                    None => None,
                },
                filters: match &filters {
                    Some(f) => Some(f.clone()),
                    None => None,
                },
            };
            assert(req@ == request_for(v.queries[m as int], lv, region, limit));
            requests.push(req);
            m += 1;
        }
        let plan = SearchPlan { requests: requests, limit: limit };
        assert(plan@.requests =~= plan_of(v).requests);
        Ok(plan)
    }
}

/// The scheme and host that `reqwest::Url::parse` finds in a string, or none
/// where it refuses the string as a URL.
pub uninterp spec fn url_parts(input: Seq<char>) -> Option<(Seq<char>, Option<Seq<char>>)>;

/// The characters of parsed URL parts.
pub open spec fn parts_view(p: Option<(String, Option<String>)>) -> Option<(Seq<char>, Option<Seq<char>>)> {
    match p {
        Some((scheme, host)) => Some((scheme@, opt_chars(host))),
        None => None,
    }
}

/// Parses a URL with `reqwest::Url::parse` and reads its `scheme()` and
/// `host_str()`; the claim is only that the result is `url_parts` of the input,
/// a function of the input alone. How the URL is parsed is not stated.
#[verifier::external_body]
fn parse_url_parts(input: &str) -> (r: Option<(String, Option<String>)>)
    ensures
        parts_view(r) == url_parts(input@),
{
    match reqwest::Url::parse(input) {
        Ok(url) => Some((url.scheme().to_string(), url.host_str().map(|h| h.to_string()))),
        Err(_) => None,
    }
}

/// `h` without its trailing dots.
pub open spec fn trim_trailing_dots(h: Seq<char>) -> Seq<char>
    decreases h.len(),
{
    if h.len() > 0 && h.last() == '.' {
        trim_trailing_dots(h.drop_last())
    } else {
        h
    }
}

/// `host` is `domain` or one of its subdomains.
pub open spec fn host_matches(host: Seq<char>, domain: Seq<char>) -> bool {
    ||| host == domain
    ||| domain.len() < host.len() && host.subrange(host.len() - domain.len(), host.len() as int)
        == domain && host[host.len() - domain.len() - 1] == '.'
}

/// `host` matches one of `domains`.
pub open spec fn matches_any(host: Seq<char>, domains: Seq<Seq<char>>) -> bool {
    exists|i: int| 0 <= i < domains.len() && host_matches(host, #[trigger] domains[i])
}

/// `http` or `https`.
pub open spec fn is_web_scheme(s: Seq<char>) -> bool {
    s == seq!['h', 't', 't', 'p'] || s == seq!['h', 't', 't', 'p', 's']
}

/// A lens admits a URL whose parts are `parts`: a web URL with a host that,
/// without trailing dots, matches an included domain (if any are given) and no
/// excluded domain.
pub open spec fn lens_allows(l: LensView, parts: Option<(Seq<char>, Option<Seq<char>>)>) -> bool {
    match parts {
        Some((scheme, Some(host))) => {
            let h = trim_trailing_dots(host);
            &&& is_web_scheme(scheme)
            &&& (l.included.len() == 0 || matches_any(h, l.included))
            &&& !matches_any(h, l.excluded)
        },
        _ => false,
    }
}

/// Decides `host_matches`.
fn host_matches_exec(host: &Vec<char>, hlen: usize, domain: &str) -> (b: bool)
    requires
        hlen <= host@.len(),
    ensures
        b == host_matches(host@.take(hlen as int), domain@),
{
    let ghost h = host@.take(hlen as int);
    let d = chars_of(domain);
    let dl = d.len();
    if dl > hlen {
        return false;
    }
    let off = hlen - dl;
    let mut i: usize = 0;
    while i < dl
        invariant
            dl <= hlen <= host@.len(),
            off == hlen - dl,
            d@ == domain@,
            dl == d@.len(),
            h == host@.take(hlen as int),
            i <= dl,
            forall|j: int| 0 <= j < i ==> host@[off + j] == d@[j],
        decreases dl - i,
    {
        if host[off + i] != d[i] {
            proof {
                assert(h.subrange(off as int, hlen as int)[i as int] != d@[i as int]);
                assert(h.subrange(off as int, hlen as int) != d@);
                assert(dl == hlen ==> h.subrange(off as int, hlen as int) =~= h);
            }
            return false;
        }
        i += 1;
    }
    assert(h.subrange(off as int, hlen as int) =~= d@);
    if dl == hlen {
        assert(h =~= d@);
        true
    } else {
        host[off - 1] == '.'
    }
}

/// Decides `matches_any`.
fn matches_any_exec(host: &Vec<char>, hlen: usize, domains: &Vec<String>) -> (b: bool)
    requires
        hlen <= host@.len(),
    ensures
        b == matches_any(host@.take(hlen as int), domains.deep_view()),
{
    let mut i: usize = 0;
    while i < domains.len()
        invariant
            hlen <= host@.len(),
            i <= domains@.len(),
            forall|j: int|
                0 <= j < i ==> !host_matches(host@.take(hlen as int), #[trigger] domains.deep_view()[j]),
        decreases domains@.len() - i,
    {
        if host_matches_exec(host, hlen, domains[i].as_str()) {
            assert(host_matches(host@.take(hlen as int), domains.deep_view()[i as int]));
            return true;
        }
        i += 1;
    }
    false
}

/// `http` or `https`, decided.
fn web_scheme(scheme: &str) -> (b: bool)
    ensures
        b == is_web_scheme(scheme@),
{
    let cs = chars_of(scheme);
    let http = cs.len() >= 4 && cs[0] == 'h' && cs[1] == 't' && cs[2] == 't' && cs[3] == 'p';
    let b = http && (cs.len() == 4 || (cs.len() == 5 && cs[4] == 's'));
    proof {
        if b {
            if cs.len() == 4 {
                assert(cs@ =~= seq!['h', 't', 't', 'p']);
            } else {
                assert(cs@ =~= seq!['h', 't', 't', 'p', 's']);
            }
        }
    }
    b
}

impl Lens {
    /// Enforces hostname boundaries on a URL already split by the URL parser.
    pub fn allows_parts(&self, parts: &Option<(String, Option<String>)>) -> (b: bool)
        ensures
            b == lens_allows(self@, parts_view(*parts)),
    {
        match parts {
            Some((scheme, Some(host))) => {
                let cs = chars_of(host.as_str());
                let mut end = cs.len();
                assert(cs@.take(end as int) =~= cs@);
                while end > 0 && cs[end - 1] == '.'
                    invariant
                        end <= cs@.len(),
                        trim_trailing_dots(cs@.take(end as int)) == trim_trailing_dots(cs@),
                    decreases end,
                {
                    assert(cs@.take(end - 1) =~= cs@.take(end as int).drop_last());
                    end -= 1;
                }
                assert(cs@.take(cs@.len() as int) =~= cs@);
                assert(trim_trailing_dots(cs@.take(end as int)) == cs@.take(end as int));
                web_scheme(scheme.as_str()) && (self.sites_included.len() == 0 || matches_any_exec(
                    &cs,
                    end,
                    &self.sites_included,
                )) && !matches_any_exec(&cs, end, &self.sites_excluded)
            },
            _ => false,
        }
    }

    /// Enforces hostname boundaries even if upstream filtering is incomplete.
    pub fn allows_url(&self, url: &str) -> (b: bool)
        ensures
            b == lens_allows(self@, url_parts(url@)),
    {
        let parts = parse_url_parts(url);
        self.allows_parts(&parts)
    }
}

/// Fields needed from a Kagi web result.
#[derive(Debug)]
pub struct KagiResult {
    /// Display title.
    pub title: String,
    /// Destination URL.
    pub url: String,
    /// Available result excerpt.
    pub snippet: Option<String>,
    /// Creation or update timestamp reported by Kagi.
    pub time: Option<String>,
}

/// A Kagi result as mathematical values.
pub struct KagiResultView {
    pub title: Seq<char>,
    pub url: Seq<char>,
    pub snippet: Option<Seq<char>>,
    pub time: Option<Seq<char>>,
}

impl View for KagiResult {
    type V = KagiResultView;

    open spec fn view(&self) -> KagiResultView {
        KagiResultView {
            title: self.title@,
            url: self.url@,
            snippet: opt_chars(self.snippet),
            time: opt_chars(self.time),
        }
    }
}

/// The views of a list of results.
pub open spec fn result_views(rs: Seq<KagiResult>) -> Seq<KagiResultView> {
    rs.map_values(|r: KagiResult| r@)
}

/// Whether a request's lens (if any) admits a URL.
pub open spec fn request_admits(lens: Option<LensView>, url: Seq<char>) -> bool {
    match lens {
        Some(l) => lens_allows(l, url_parts(url)),
        None => true,
    }
}

/// The results a request keeps, in their order.
pub open spec fn kept_results(lens: Option<LensView>, rs: Seq<KagiResultView>) -> Seq<KagiResultView>
    decreases rs.len(),
{
    if rs.len() == 0 {
        seq![]
    } else if request_admits(lens, rs.last().url) {
        kept_results(lens, rs.drop_last()).push(rs.last())
    } else {
        kept_results(lens, rs.drop_last())
    }
}

impl KagiSearchRequest {
    /// Removes results outside the requested domains before merging rankings.
    pub fn filter_results(&self, results: Vec<KagiResult>) -> (r: Vec<KagiResult>)
        ensures
            result_views(r@) == kept_results(self@.lens, result_views(results@)),
    {
        let ghost all = result_views(results@);
        let mut out: Vec<KagiResult> = Vec::new();
        for item in it: results
            invariant
                it.seq() == results@,
                all == result_views(results@),
                result_views(out@) == kept_results(self@.lens, all.take(it.index() as int)),
        {
            let ghost i = it.index() as int;
            assert(i < it.seq().len());
            assert(item == it.seq()[i]);
            assert(item@ == all[i]);
            assert(all.take(i + 1).drop_last() =~= all.take(i));
            let keep = match &self.lens {
                Some(l) => l.allows_url(item.url.as_str()),
                None => true,
            };
            if keep {
                let ghost before = result_views(out@);
                out.push(item);
                assert(result_views(out@) =~= before.push(all[i]));
            }
        }
        assert(all.take(all.len() as int) =~= all);
        out
    }
}

/// Kagi's web result collection.
#[derive(Debug)]
pub struct KagiData {
    /// Web results; other result categories are not part of this adapter.
    pub search: Vec<KagiResult>,
}

/// Perplexity-compatible response envelope.
#[derive(Debug)]
pub struct SearchResponse {
    /// Unique request identifier.
    pub id: String,
    /// Ranked web results.
    pub results: Vec<SearchResult>,
}

/// A web result in Perplexity's response schema.
#[derive(Debug)]
pub struct SearchResult {
    /// Display title.
    pub title: String,
    /// Destination URL.
    pub url: String,
    /// Kagi's excerpt, without additional page extraction.
    pub snippet: String,
    /// Creation or update timestamp; Kagi does not distinguish the two.
    pub date: Option<String>,
    /// Separate update date, unavailable from Kagi.
    pub last_updated: Option<String>,
}

/// A Perplexity result as mathematical values.
pub struct SearchResultView {
    pub title: Seq<char>,
    pub url: Seq<char>,
    pub snippet: Seq<char>,
    pub date: Option<Seq<char>>,
    pub last_updated: Option<Seq<char>>,
}

impl View for SearchResult {
    type V = SearchResultView;

    open spec fn view(&self) -> SearchResultView {
        SearchResultView {
            title: self.title@,
            url: self.url@,
            snippet: self.snippet@,
            date: opt_chars(self.date),
            last_updated: opt_chars(self.last_updated),
        }
    }
}

/// The Perplexity form of a Kagi result: a missing snippet becomes empty, the
/// time becomes the date, and no update date is invented.
pub open spec fn to_search_result(r: KagiResultView) -> SearchResultView {
    SearchResultView {
        title: r.title,
        url: r.url,
        snippet: match r.snippet {
            Some(s) => s,
            None => seq![],
        },
        date: r.time,
        last_updated: None,
    }
}

/// The results ranked `rank` in the first `k` batches, in batch order.
pub open spec fn rank_items(batches: Seq<Seq<KagiResultView>>, rank: int, k: int) -> Seq<KagiResultView>
    decreases k,
{
    if k <= 0 {
        seq![]
    } else if rank < batches[k - 1].len() {
        rank_items(batches, rank, k - 1).push(batches[k - 1][rank])
    } else {
        rank_items(batches, rank, k - 1)
    }
}

/// The batches interleaved rank by rank, over the first `rounds` ranks.
pub open spec fn interleaved(batches: Seq<Seq<KagiResultView>>, rounds: nat) -> Seq<KagiResultView>
    decreases rounds,
{
    if rounds == 0 {
        seq![]
    } else {
        interleaved(batches, (rounds - 1) as nat) + rank_items(
            batches,
            rounds - 1,
            batches.len() as int,
        )
    }
}

/// Some result in `s` has URL `url`.
pub open spec fn has_url(s: Seq<KagiResultView>, url: Seq<char>) -> bool {
    exists|i: int| 0 <= i < s.len() && (#[trigger] s[i]).url == url
}

/// The first result for each URL, in order.
pub open spec fn first_by_url(s: Seq<KagiResultView>) -> Seq<KagiResultView>
    decreases s.len(),
{
    if s.len() == 0 {
        seq![]
    } else if has_url(first_by_url(s.drop_last()), s.last().url) {
        first_by_url(s.drop_last())
    } else {
        first_by_url(s.drop_last()).push(s.last())
    }
}

/// The merged response: the first `limit` distinct-URL results of the batches
/// interleaved over `limit` ranks, in Perplexity form.
pub open spec fn merged(batches: Seq<Seq<KagiResultView>>, limit: nat) -> Seq<SearchResultView> {
    let d = first_by_url(interleaved(batches, limit));
    let n = if d.len() < limit {
        d.len()
    } else {
        limit
    };
    d.take(n as int).map_values(|r: KagiResultView| to_search_result(r))
}

/// The views of the batches.
pub open spec fn batch_views(batches: Seq<Vec<KagiResult>>) -> Seq<Seq<KagiResultView>> {
    batches.map_values(|b: Vec<KagiResult>| result_views(b@))
}

/// `a` is a prefix of `b`.
pub open spec fn is_prefix<A>(a: Seq<A>, b: Seq<A>) -> bool {
    a.len() <= b.len() && b.take(a.len() as int) == a
}

pub(crate) proof fn lemma_first_by_url_prefix(s: Seq<KagiResultView>, t: Seq<KagiResultView>)
    ensures
        is_prefix(first_by_url(s), first_by_url(s + t)),
    decreases t.len(),
{
    if t.len() == 0 {
        assert(s + t =~= s);
        assert(first_by_url(s).take(first_by_url(s).len() as int) =~= first_by_url(s));
    } else {
        lemma_first_by_url_prefix(s, t.drop_last());
        assert((s + t).drop_last() =~= s + t.drop_last());
        let a = first_by_url(s);
        let b = first_by_url(s + t.drop_last());
        let c = first_by_url(s + t);
        assert(c.take(a.len() as int) =~= b.take(a.len() as int));
    }
}

proof fn lemma_rank_items_prefix(batches: Seq<Seq<KagiResultView>>, rank: int, k: int, m: int)
    requires
        0 <= k <= m,
    ensures
        is_prefix(rank_items(batches, rank, k), rank_items(batches, rank, m)),
    decreases m - k,
{
    if k == m {
        assert(rank_items(batches, rank, k).take(rank_items(batches, rank, k).len() as int)
            =~= rank_items(batches, rank, k));
    } else {
        lemma_rank_items_prefix(batches, rank, k, m - 1);
        let a = rank_items(batches, rank, k);
        let b = rank_items(batches, rank, m - 1);
        let c = rank_items(batches, rank, m);
        assert(c.take(a.len() as int) =~= b.take(a.len() as int));
    }
}

pub(crate) proof fn lemma_interleaved_prefix(batches: Seq<Seq<KagiResultView>>, r: nat, m: nat)
    requires
        r <= m,
    ensures
        is_prefix(interleaved(batches, r), interleaved(batches, m)),
    decreases m - r,
{
    if r == m {
        assert(interleaved(batches, r).take(interleaved(batches, r).len() as int) =~= interleaved(
            batches,
            r,
        ));
    } else {
        lemma_interleaved_prefix(batches, r, (m - 1) as nat);
        let a = interleaved(batches, r);
        let b = interleaved(batches, (m - 1) as nat);
        let c = interleaved(batches, m);
        assert(c.take(a.len() as int) =~= b.take(a.len() as int));
    }
}

proof fn lemma_prefix_trans<A>(a: Seq<A>, b: Seq<A>, c: Seq<A>)
    requires
        is_prefix(a, b),
        is_prefix(b, c),
    ensures
        is_prefix(a, c),
{
    assert(c.take(a.len() as int) =~= b.take(a.len() as int));
}

/// Where the merge stands after `k` batches of rank `r`: a prefix of the interleaving.
proof fn lemma_progress_prefix(batches: Seq<Seq<KagiResultView>>, r: nat, k: int, limit: nat)
    requires
        r < limit,
        0 <= k <= batches.len(),
    ensures
        is_prefix(
            first_by_url(interleaved(batches, r) + rank_items(batches, r as int, k)),
            first_by_url(interleaved(batches, limit)),
        ),
{
    let full_rank = rank_items(batches, r as int, batches.len() as int);
    let part = rank_items(batches, r as int, k);
    lemma_rank_items_prefix(batches, r as int, k, batches.len() as int);
    let rest = full_rank.skip(part.len() as int);
    assert(part + rest =~= full_rank);
    let p = interleaved(batches, r) + part;
    assert(p + rest =~= interleaved(batches, r + 1));
    lemma_first_by_url_prefix(p, rest);
    lemma_interleaved_prefix(batches, r + 1, limit);
    let q = interleaved(batches, limit);
    let restq = q.skip(interleaved(batches, r + 1).len() as int);
    assert(interleaved(batches, r + 1) + restq =~= q);
    lemma_first_by_url_prefix(interleaved(batches, r + 1), restq);
    lemma_prefix_trans(first_by_url(p), first_by_url(interleaved(batches, r + 1)), first_by_url(q));
}

/// Copies an optional string.
fn clone_opt(o: &Option<String>) -> (r: Option<String>)
    ensures
        opt_chars(r) == opt_chars(*o),
{
    match o {
        Some(s) => Some(s.clone()),
        None => None,
    }
}

/// Whether one of the results has URL `url`.
fn contains_url(results: &Vec<SearchResult>, url: &String) -> (b: bool)
    ensures
        b == exists|i: int| 0 <= i < results@.len() && (#[trigger] results@[i])@.url == url@,
{
    let mut i: usize = 0;
    while i < results.len()
        invariant
            i <= results@.len(),
            forall|j: int| 0 <= j < i ==> (#[trigger] results@[j])@.url != url@,
        decreases results@.len() - i,
    {
        if results[i].url == *url {
            return true;
        }
        i += 1;
    }
    false
}

/// Interleaves query rankings, removes duplicate URLs, and caps the total.
#[verifier::loop_isolation(false)]
pub fn merge_results(batches: Vec<Vec<KagiResult>>, limit: usize) -> (r: Vec<SearchResult>)
    ensures
        r@.map_values(|x: SearchResult| x@) == merged(batch_views(batches@), limit as nat),
{
    let ghost bs = batch_views(batches@);
    let mut results: Vec<SearchResult> = Vec::new();
    let mut rank: usize = 0;
    assert(results@.map_values(|x: SearchResult| x@) =~= first_by_url(interleaved(bs, 0)).map_values(
        |x: KagiResultView| to_search_result(x),
    ));
    while rank < limit
        invariant
            rank <= limit,
            limit == 0 || results@.len() < limit,
            results@.map_values(|x: SearchResult| x@) == first_by_url(
                interleaved(bs, rank as nat),
            ).map_values(|x: KagiResultView| to_search_result(x)),
        decreases limit - rank,
    {
        let mut k: usize = 0;
        assert(interleaved(bs, rank as nat) + rank_items(bs, rank as int, 0) =~= interleaved(
            bs,
            rank as nat,
        ));
        while k < batches.len()
            invariant
                rank < limit,
                k <= batches@.len(),
                results@.len() < limit,
                results@.map_values(|x: SearchResult| x@) == first_by_url(
                    interleaved(bs, rank as nat) + rank_items(bs, rank as int, k as int),
                ).map_values(|x: KagiResultView| to_search_result(x)),
            decreases batches@.len() - k,
        {
            let ghost pre = interleaved(bs, rank as nat) + rank_items(bs, rank as int, k as int);
            let ghost post = interleaved(bs, rank as nat) + rank_items(bs, rank as int, k + 1);
            if rank < batches[k].len() {
                let item = &batches[k][rank];
                assert(bs[k as int][rank as int] == item@);
                assert(post =~= pre.push(item@));
                assert(post.drop_last() =~= pre);
                let seen = contains_url(&results, &item.url);
                let ghost d = first_by_url(pre);
                assert(d.map_values(|x: KagiResultView| to_search_result(x)).len() == d.len());
                if seen {
                    proof {
                        let j = choose|j: int|
                            0 <= j < results@.len() && (#[trigger] results@[j])@.url == item@.url;
                        assert(results@.map_values(|x: SearchResult| x@)[j] == to_search_result(d[j]));
                        assert(has_url(d, item@.url));
                    }
                } else {
                    assert(!has_url(d, item@.url)) by {
                        if has_url(d, item@.url) {
                            let j = choose|j: int| 0 <= j < d.len() && (#[trigger] d[j]).url == item@.url;
                            assert(results@.map_values(|x: SearchResult| x@)[j] == to_search_result(d[j]));
                        }
                    }
                    let converted = SearchResult {
                        title: item.title.clone(),
                        url: item.url.clone(),
                        snippet: match &item.snippet {
                            Some(s) => s.clone(),
                            None => String::new(),
                        },
                        date: clone_opt(&item.time),
                        last_updated: None,
                    };
                    assert(converted@ == to_search_result(item@));
                    let ghost before = results@.map_values(|x: SearchResult| x@);
                    results.push(converted);
                    assert(results@.map_values(|x: SearchResult| x@) =~= before.push(
                        to_search_result(item@),
                    ));
                    assert(first_by_url(post) == d.push(item@));
                    assert(results@.map_values(|x: SearchResult| x@) =~= first_by_url(
                        post,
                    ).map_values(|x: KagiResultView| to_search_result(x)));
                    if results.len() == limit {
                        proof {
                            lemma_progress_prefix(bs, rank as nat, k + 1, limit as nat);
                            let full = first_by_url(interleaved(bs, limit as nat));
                            assert(full.take(limit as int) =~= first_by_url(post));
                        }
                        return results;
                    }
                }
            } else {
                assert(post =~= pre);
            }
            k += 1;
        }
        assert(interleaved(bs, rank as nat + 1) =~= interleaved(bs, rank as nat) + rank_items(
            bs,
            rank as int,
            batches@.len() as int,
        ));
        rank += 1;
    }
    proof {
        let full = first_by_url(interleaved(bs, limit as nat));
        assert(full.take(full.len() as int) =~= full);
    }
    results
}

} // verus!
