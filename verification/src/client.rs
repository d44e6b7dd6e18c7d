//! Decisions of the Kagi HTTP client: endpoint URLs, status handling and output.

use vstd::prelude::*;

use crate::assistant::AssistantError;
use crate::cli::ApiFormat;
use crate::json::{json_array, Json, JsonObject, JsonValue};
use crate::cli::SearchArgs;
use crate::request::RequestError;
use crate::source::SourceError;
use crate::text::{
    blank, chars_of, is_blank, string_of, trim_end, trim_line_ends, trimmed_end,
    trimmed_line_ends,
};

verus! {

/// An operating-system I/O failure, as std reports it.
#[verifier::external_type_specification]
#[verifier::external_body]
pub struct ExIoError(std::io::Error);

/// A failure of the HTTP client, as `reqwest` reports it.
#[verifier::external_type_specification]
#[verifier::external_body]
pub struct ExReqwestError(reqwest::Error);

/// A file system path, as std holds it.
#[verifier::external_type_specification]
#[verifier::external_body]
pub struct ExPathBuf(std::path::PathBuf);

/// Errors raised while executing API requests.
#[derive(Debug)]
#[allow(inconsistent_fields)]
pub enum ClientError {
    /// The Kagi API key was not provided.
    MissingApiKey,
    /// The configured API key file could not be read.
    ApiKeyFile {
        /// Path that was read for the API key.
        path: std::path::PathBuf,
        /// Underlying file read error.
        source: std::io::Error,
    },
    /// Request body construction failed.
    Request {
        /// Underlying request construction error.
        source: RequestError,
    },
    /// HTTP request execution failed.
    Http {
        /// Underlying HTTP client error.
        source: reqwest::Error,
    },
    /// The extracted markdown could not be saved.
    SaveSource {
        /// Path that was written to.
        path: std::path::PathBuf,
        /// Underlying file write error.
        source: std::io::Error,
    },
    /// The assistant failed to answer the question.
    Assistant {
        /// Underlying assistant failure.
        source: AssistantError,
    },
    /// The extracted pages could not be used as answer sources.
    Sources {
        /// Underlying extraction validation error.
        source: SourceError,
    },
    /// Kagi returned a non-success status code.
    Status {
        /// HTTP status code returned by Kagi.
        status: u16,
        /// Response body returned by Kagi.
        body: String,
    },
}

impl From<RequestError> for ClientError {
    /// Converts request construction errors into client errors.
    fn from(source: RequestError) -> (r: Self) {
        ClientError::Request { source: source }
    }
}

impl vstd::std_specs::convert::FromSpecImpl<RequestError> for ClientError {
    open spec fn obeys_from_spec() -> bool {
        true
    }

    open spec fn from_spec(source: RequestError) -> Self {
        ClientError::Request { source: source }
    }
}

/// The status and body of an error that Kagi answered with an empty 404.
pub open spec fn is_empty_not_found(error: ClientError) -> bool {
    error matches ClientError::Status { status, body } && status == 404 && is_blank(body@)
}

/// A markdown search (the default format) that Kagi answered with an empty 404.
pub open spec fn is_empty_markdown_not_found(format: Option<ApiFormat>, error: ClientError) -> bool {
    (format is None || format == Some(ApiFormat::Markdown)) && is_empty_not_found(error)
}

/// Detects an empty markdown search response reported as missing.
pub fn is_empty_markdown_search_not_found(args: &SearchArgs, error: &ClientError) -> (b: bool)
    ensures
        b == is_empty_markdown_not_found(args.format, *error),
{
    let markdown = match args.format {
        None => true,
        Some(ApiFormat::Markdown) => true,
        Some(ApiFormat::Json) => false,
    };
    markdown && match error {
        ClientError::Status { status, body } => *status == 404 && blank(body.as_str()),
        _ => false,
    }
}

/// The outcome of a search: an empty markdown 404 means there were no results.
pub fn search_outcome(args: &SearchArgs, result: Result<String, ClientError>) -> (r: Result<
    String,
    ClientError,
>)
    ensures
        result matches Err(e) && is_empty_markdown_not_found(args.format, e) ==> (r matches Ok(s)
            && s@ == "No results."@),
        !(result matches Err(e) && is_empty_markdown_not_found(args.format, e)) ==> r == result,
{
    match result {
        Ok(body) => Ok(body),
        Err(error) => {
            if is_empty_markdown_search_not_found(args, &error) {
                Ok("No results.".to_owned())
            } else {
                Err(error)
            }
        },
    }
}

/// A successful HTTP status: 200 to 299.
pub open spec fn is_success(status: u16) -> bool {
    200 <= status <= 299
}

/// Accepts a response body only with a successful status.
pub fn check_status(status: u16, body: String) -> (r: Result<String, ClientError>)
    ensures
        is_success(status) ==> r == Ok::<String, ClientError>(body),
        !is_success(status) ==> r == Err::<String, ClientError>(
            ClientError::Status { status: status, body: body },
        ),
{
    if 200 <= status && status <= 299 {
        Ok(body)
    } else {
        Err(ClientError::Status { status: status, body: body })
    }
}

/// `s` without trailing slashes.
pub open spec fn trim_slashes(s: Seq<char>) -> Seq<char>
    decreases s.len(),
{
    if s.len() > 0 && s.last() == '/' {
        trim_slashes(s.drop_last())
    } else {
        s
    }
}

/// Builds an endpoint URL from the base URL and path.
pub fn endpoint(base_url: &str, path: &str) -> (r: String)
    ensures
        r@ == trim_slashes(base_url@) + path@,
{
    let cs = chars_of(base_url);
    let mut end = cs.len();
    assert(cs@.take(end as int) =~= cs@);
    while end > 0 && cs[end - 1] == '/'
        invariant
            end <= cs@.len(),
            trim_slashes(cs@) == trim_slashes(cs@.take(end as int)),
        decreases end,
    {
        assert(cs@.take(end - 1) =~= cs@.take(end as int).drop_last());
        end -= 1;
    }
    let mut r = string_of(vstd::slice::slice_subrange(cs.as_slice(), 0, end));
    r.append(path);
    r
}

/// The answer followed by its numbered sources.
pub fn compose_answer(answer: &str, references: &str) -> (r: String)
    ensures
        r@ == trim_end(answer@) + "\n\nSources:\n"@ + references@,
{
    let mut r = trimmed_end(answer);
    r.append("\n\nSources:\n");
    r.append(references);
    r
}

/// The API key stored in a configuration file: its text without trailing line
/// breaks, which must not be empty.
pub fn key_from_file(contents: &str) -> (r: Result<String, ClientError>)
    ensures
        trim_line_ends(contents@).len() == 0 ==> r matches Err(ClientError::MissingApiKey),
        trim_line_ends(contents@).len() > 0 ==> (r matches Ok(k) && k@ == trim_line_ends(
            contents@,
        )),
{
    let key = trimmed_line_ends(contents);
    if key.as_str().unicode_len() == 0 {
        return Err(ClientError::MissingApiKey);
    }
    Ok(key)
}

/// What became of reading the default key file.
#[derive(Debug)]
pub enum KeyFile {
    /// The file's text.
    Text(String),
    /// There is no configuration directory, or no file in it.
    NotFound,
    /// The file could not be read.
    Failed(ClientError),
}

/// Where the API key is looked up next.
#[derive(Debug, PartialEq, Eq, Structural)]
pub enum KeySource {
    /// The `--api-key` literal.
    Literal,
    /// The environment variable.
    Environment,
    /// The key file the user selected.
    SelectedFile,
    /// The default key file in the user configuration directory.
    DefaultFile,
}

/// Which source gives the key, given which sources are present: the literal,
/// then the environment variable, then the selected file, then the default file.
pub open spec fn key_source(literal: bool, env: bool, selected: bool) -> KeySource {
    if literal {
        KeySource::Literal
    } else if env {
        KeySource::Environment
    } else if selected {
        KeySource::SelectedFile
    } else {
        KeySource::DefaultFile
    }
}

/// Says which key source must be read, so that files are read only when no
/// earlier source gives the key.
pub fn next_key_source(literal_present: bool, env_present: bool, selected_present: bool) -> (s:
    KeySource)
    ensures
        s == key_source(literal_present, env_present, selected_present),
{
    if literal_present {
        KeySource::Literal
    } else if env_present {
        KeySource::Environment
    } else if selected_present {
        KeySource::SelectedFile
    } else {
        KeySource::DefaultFile
    }
}

/// What a key file's text gives: the key without trailing line breaks, which
/// must not be empty.
pub open spec fn key_file_outcome(t: Seq<char>, r: Result<String, ClientError>) -> bool {
    &&& (trim_line_ends(t).len() == 0 ==> (r matches Err(ClientError::MissingApiKey)))
    &&& (trim_line_ends(t).len() > 0 ==> (r matches Ok(k) && k@ == trim_line_ends(t)))
}

/// Resolves the API key: the literal, then the environment variable, then the
/// selected key file, then the default key file. A selected file that cannot
/// be read or holds no key is an error, never a reason to try the default file;
/// a missing default file means there is no key.
pub fn resolve_api_key(
    literal: Option<String>,
    env: Option<String>,
    selected: Option<Result<String, ClientError>>,
    default_file: KeyFile,
) -> (r: Result<String, ClientError>)
    ensures
        literal matches Some(k) ==> r == Ok::<String, ClientError>(k),
        literal is None ==> (env matches Some(k) ==> r == Ok::<String, ClientError>(k)),
        literal is None && env is None ==> (selected matches Some(Err(e)) ==> r == Err::<
            String,
            ClientError,
        >(e)),
        literal is None && env is None ==> (selected matches Some(Ok(t)) ==> key_file_outcome(
            t@,
            r,
        )),
        literal is None && env is None && selected is None ==> match default_file {
            KeyFile::NotFound => r matches Err(ClientError::MissingApiKey),
            KeyFile::Failed(e) => r == Err::<String, ClientError>(e),
            KeyFile::Text(t) => key_file_outcome(t@, r),
        },
{
    if let Some(k) = literal {
        return Ok(k);
    }
    if let Some(k) = env {
        return Ok(k);
    }
    match selected {
        Some(Err(e)) => {
            return Err(e);
        },
        Some(Ok(t)) => {
            return key_from_file(t.as_str());
        },
        None => {},
    }
    match default_file {
        KeyFile::NotFound => Err(ClientError::MissingApiKey),
        KeyFile::Failed(e) => Err(e),
        KeyFile::Text(t) => key_from_file(t.as_str()),
    }
}

/// A response body as printed: without trailing line breaks.
pub fn printable(body: &str) -> (r: String)
    ensures
        r@ == trim_line_ends(body@),
{
    trimmed_line_ends(body)
}

/// The extraction request for answering from pages: every page, as JSON.
#[verifier::loop_isolation(false)]
pub fn ask_extract_body(page: &str, extra_urls: &Vec<String>) -> (v: JsonValue)
    ensures
        v@ == Json::Object(
            Map::<Seq<char>, Json>::empty().insert(
                "pages"@,
                Json::Array(
                    Seq::new(
                        extra_urls@.len() + 1,
                        |i: int|
                            Json::Object(
                                Map::<Seq<char>, Json>::empty().insert(
                                    "url"@,
                                    Json::Text(if i == 0 { page@ } else { extra_urls@[i - 1]@ }),
                                ),
                            ),
                    ),
                ),
            ).insert("format"@, Json::Text("json"@)),
        ),
{
    let ghost want = Seq::new(
        extra_urls@.len() + 1,
        |i: int|
            Json::Object(
                Map::<Seq<char>, Json>::empty().insert(
                    "url"@,
                    Json::Text(if i == 0 { page@ } else { extra_urls@[i - 1]@ }),
                ),
            ),
    );
    let mut pages: Vec<JsonValue> = Vec::new();
    let mut first = JsonObject::new();
    first.insert("url".to_owned(), JsonValue::Text(page.to_owned()));
    pages.push(JsonValue::Object(first));
    let mut i: usize = 0;
    while i < extra_urls.len()
        invariant
            i <= extra_urls@.len(),
            pages@.len() == i + 1,
            forall|j: int| 0 <= j <= i ==> (#[trigger] pages@[j])@ == want[j],
        decreases extra_urls@.len() - i,
    {
        let mut p = JsonObject::new();
        p.insert("url".to_owned(), JsonValue::Text(extra_urls[i].clone()));
        pages.push(JsonValue::Object(p));
        i += 1;
    }
    let ghost pv = pages@;
    let arr = json_array(pages);
    assert(Seq::new(pv.len(), |k: int| pv[k]@) =~= want);
    let mut body = JsonObject::new();
    body.insert("pages".to_owned(), arr);
    body.insert("format".to_owned(), JsonValue::Text("json".to_owned()));
    JsonValue::Object(body)
}

} // verus!
