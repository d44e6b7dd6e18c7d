//! Decisions of the Perplexity-compatible search endpoint: what each failure
//! tells the caller and how one upstream answer is accepted.

use vstd::prelude::*;

use crate::client::ClientError;
use crate::perplexity::{
    batch_views, kept_results, merge_results, merged, result_views, KagiData, KagiResult,
    KagiResultView, KagiSearchRequest, SearchResult, ValidationError,
};
use crate::response::KagiResponse;

verus! {

/// Maximum simultaneous searches, including multi-query batches.
pub const MAX_CONCURRENT_SEARCHES: usize = 16;

/// Deadline in seconds for an entire search batch, including upstream response bodies.
pub const SEARCH_TIMEOUT_SECS: u64 = 60;

/// Largest accepted request body, in bytes.
pub const MAX_BODY_BYTES: usize = 65536;

/// JSON error exposed to callers without upstream credentials or bodies.
#[derive(Debug)]
pub struct ApiError {
    /// HTTP failure category.
    pub status: u16,
    /// Safe explanation of the failure.
    pub message: String,
}

/// The status and message of an error.
pub open spec fn api_error_is(e: ApiError, status: u16, message: Seq<char>) -> bool {
    e.status == status && e.message@ == message
}

/// The status and message given for an upstream failure: Kagi's rate limit is
/// passed on, rejected parameters are the caller's fault, and everything else
/// (other statuses, transport failures) is a bad gateway; Kagi's body is never
/// passed on.
pub open spec fn upstream_reply(error: ClientError) -> (u16, Seq<char>) {
    match error {
        ClientError::Status { status, .. } => if status == 429 {
            (429, "Kagi rate limit exceeded"@)
        } else if status == 400 || status == 422 {
            (400, "Kagi rejected the search parameters"@)
        } else {
            (502, "Kagi upstream request failed"@)
        },
        _ => (502, "Kagi upstream request failed"@),
    }
}

impl ApiError {
    /// Creates a sanitized HTTP failure.
    pub fn new(status: u16, message: &str) -> (e: ApiError)
        ensures
            e.status == status,
            e.message@ == message@,
    {
        ApiError { status: status, message: message.to_owned() }
    }

    /// Maps upstream failures without exposing Kagi's response body.
    pub fn upstream(error: ClientError) -> (e: ApiError)
        ensures
            (e.status, e.message@) == upstream_reply(error),
    {
        match error {
            ClientError::Status { status, .. } => {
                if status == 429 {
                    ApiError::new(429, "Kagi rate limit exceeded")
                } else if status == 400 || status == 422 {
                    ApiError::new(400, "Kagi rejected the search parameters")
                } else {
                    ApiError::new(502, "Kagi upstream request failed")
                }
            },
            _ => ApiError::new(502, "Kagi upstream request failed"),
        }
    }

    /// Rejects parameters that cannot be forwarded, with the validation message.
    pub fn invalid_parameters(error: &ValidationError) -> (e: ApiError)
        ensures
            e.status == 422,
            e.message@ == error.message_text()@,
    {
        ApiError::new(422, error.message())
    }

    /// Rejects a search while every search slot is taken.
    pub fn capacity_exhausted() -> (e: ApiError)
        ensures
            api_error_is(e, 503, "Search capacity exhausted"@),
    {
        ApiError::new(503, "Search capacity exhausted")
    }

    /// Reports a search batch that missed its deadline.
    pub fn timed_out() -> (e: ApiError)
        ensures
            api_error_is(e, 504, "Kagi search timed out"@),
    {
        ApiError::new(504, "Kagi search timed out")
    }

    /// Reports an upstream body that is not a Kagi search response.
    pub fn invalid_response() -> (e: ApiError)
        ensures
            api_error_is(e, 502, "Invalid Kagi response"@),
    {
        ApiError::new(502, "Invalid Kagi response")
    }
}

/// What one decoded upstream answer gives: a failure if Kagi reported errors or
/// sent no data, else the web results the request's lens admits, in order.
pub open spec fn accepted(request: KagiSearchRequest, response: KagiResponse<KagiData>) -> Result<Seq<KagiResultView>, (u16, Seq<char>)> {
    if response.error_list().len() > 0 {
        Err((502, "Kagi search failed"@))
    } else {
        match response.data {
            None => Err((502, "Kagi response is missing search data"@)),
            Some(data) => Ok(kept_results(request@.lens, result_views(data.search@))),
        }
    }
}

/// Checks one decoded upstream answer and keeps the results inside the request's domains.
pub fn accept_search_response(request: &KagiSearchRequest, response: KagiResponse<KagiData>) -> (r:
    Result<Vec<KagiResult>, ApiError>)
    ensures
        match accepted(*request, response) {
            Ok(rs) => r matches Ok(v) && result_views(v@) == rs,
            Err((status, message)) => r matches Err(e) && api_error_is(e, status, message),
        },
{
    if let Some(errors) = &response.errors {
        if errors.len() > 0 {
            return Err(ApiError::new(502, "Kagi search failed"));
        }
    }
    match response.data {
        None => Err(ApiError::new(502, "Kagi response is missing search data")),
        Some(data) => Ok(request.filter_results(data.search)),
    }
}

/// What the search endpoint does next while it runs a plan's requests in order.
#[derive(Debug)]
pub enum SearchAction {
    /// Send the plan's request at index `batches.len()`, keeping the batches
    /// accepted so far.
    Send(Vec<Vec<KagiResult>>),
    /// Answer with this error; no later request is sent.
    Fail(ApiError),
    /// Answer with these merged results.
    Respond(Vec<SearchResult>),
}

/// The first action for a plan of `requests` upstream requests: send the first
/// one, or, where there is none, answer with the empty merge.
pub fn start_search(requests: usize, limit: usize) -> (a: SearchAction)
    ensures
        requests == 0 ==> (a matches SearchAction::Respond(r) && r@.map_values(
            |x: SearchResult| x@,
        ) == merged(Seq::empty(), limit as nat)),
        requests > 0 ==> (a matches SearchAction::Send(b) && b@.len() == 0),
{
    let batches: Vec<Vec<KagiResult>> = Vec::new();
    if requests == 0 {
        let r = merge_results(batches, limit);
        assert(batch_views(Seq::<Vec<KagiResult>>::empty()) =~= Seq::empty());
        SearchAction::Respond(r)
    } else {
        SearchAction::Send(batches)
    }
}

/// The next action once the request at index `batches.len()` has an outcome:
/// the first failure is the answer; an accepted batch is kept, and once every
/// request has one, the batches are merged under the plan's limit.
pub fn search_step(
    requests: usize,
    limit: usize,
    batches: Vec<Vec<KagiResult>>,
    outcome: Result<Vec<KagiResult>, ApiError>,
) -> (a: SearchAction)
    ensures
        outcome matches Err(e) ==> a == SearchAction::Fail(e),
        outcome matches Ok(b) ==> (batches@.len() + 1 < requests ==> (a matches SearchAction::Send(
            n,
        ) && n@ == batches@.push(b))),
        outcome matches Ok(b) ==> (batches@.len() + 1 >= requests ==> (a matches SearchAction::Respond(
            r,
        ) && r@.map_values(|x: SearchResult| x@) == merged(
            batch_views(batches@.push(b)),
            limit as nat,
        ))),
{
    match outcome {
        Err(e) => SearchAction::Fail(e),
        Ok(b) => {
            let mut batches = batches;
            batches.push(b);
            if batches.len() < requests {
                SearchAction::Send(batches)
            } else {
                SearchAction::Respond(merge_results(batches, limit))
            }
        },
    }
}

/// Callers never see Kagi's response body: the reply to an upstream status
/// depends on the status alone, and is 429, 400 or 502.
pub proof fn law_upstream_reply_hides_body(status: u16, b1: String, b2: String)
    ensures
        upstream_reply(ClientError::Status { status: status, body: b1 }) == upstream_reply(
            ClientError::Status { status: status, body: b2 },
        ),
        upstream_reply(ClientError::Status { status: status, body: b1 }).0 == 429
            || upstream_reply(ClientError::Status { status: status, body: b1 }).0 == 400
            || upstream_reply(ClientError::Status { status: status, body: b1 }).0 == 502,
{
}

/// Kagi's rate limit reaches the caller as 429; every failure other than a
/// rejected or rate-limited request is a bad gateway.
pub proof fn law_upstream_statuses(error: ClientError)
    ensures
        (error matches ClientError::Status { status, .. } && status == 429) ==> upstream_reply(error).0 == 429,
        !(error matches ClientError::Status { status, .. } && (status == 429 || status == 400 || status == 422))
            ==> upstream_reply(error).0 == 502,
{
}

} // verus!
