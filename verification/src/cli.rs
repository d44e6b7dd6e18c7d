//! Command-line arguments as the library reads them, and the API spellings of their values.

use vstd::prelude::*;

verus! {

/// Search endpoint arguments.
pub struct SearchArgs {
    /// Search query words.
    pub query: Vec<String>,
    /// Search workflow to request.
    pub workflow: Option<Workflow>,
    /// API response format.
    pub format: Option<ApiFormat>,
    /// Request JSON output.
    pub json: bool,
    /// Request markdown output.
    pub markdown: bool,
    /// Lens identifier or share URL.
    pub lens_id: Option<String>,
    /// Raw inline lens JSON object.
    pub lens_json: Option<String>,
    /// Domains to include in the inline lens.
    pub sites_included: Vec<String>,
    /// Domains to exclude in the inline lens.
    pub sites_excluded: Vec<String>,
    /// Keywords to include in the inline lens.
    pub keywords_included: Vec<String>,
    /// Keywords to exclude in the inline lens.
    pub keywords_excluded: Vec<String>,
    /// File type to request in the inline lens.
    pub file_type: Option<String>,
    /// Lens lower publication or update date bound.
    pub time_after: Option<String>,
    /// Lens upper publication or update date bound.
    pub time_before: Option<String>,
    /// Lens relative time bound.
    pub time_relative: Option<TimeRelative>,
    /// Lens search region.
    pub search_region: Option<String>,
    /// Search timeout in seconds, as JSON number text.
    pub timeout: Option<String>,
    /// Search results page number.
    pub page: Option<u16>,
    /// Maximum number of results to return.
    pub limit: Option<u16>,
    /// Result filter region.
    pub region: Option<String>,
    /// Result filter lower date bound.
    pub after: Option<String>,
    /// Result filter upper date bound.
    pub before: Option<String>,
    /// Number of top search results to extract.
    pub extract_count: Option<u8>,
    /// Per-page extraction timeout for search results, as JSON number text.
    pub extract_timeout: Option<String>,
    /// Enables safe search.
    pub safe_search: bool,
    /// Disables safe search.
    pub no_safe_search: bool,
    /// Domain personalizations as `domain=kind`.
    pub domains: Vec<String>,
    /// Regex personalizations as `regex=replacement`.
    pub regexes: Vec<String>,
    /// Raw personalizations JSON object.
    pub personalizations_json: Option<String>,
    /// Raw request JSON object merged after flags.
    pub request_json: Option<String>,
}

/// Extract endpoint arguments.
pub struct ExtractArgs {
    /// HTTPS URLs to extract.
    pub urls: Vec<String>,
    /// API response format.
    pub format: Option<ApiFormat>,
    /// Request JSON output.
    pub json: bool,
    /// Request markdown output.
    pub markdown: bool,
    /// Extraction timeout in seconds, as JSON number text.
    pub timeout: Option<String>,
    /// Raw request JSON object merged after flags.
    pub request_json: Option<String>,
}

/// Search workflow values supported by Kagi.
#[derive(Clone, Copy, Debug, PartialEq, Eq, Structural)]
pub enum Workflow {
    /// Regular web search.
    Search,
    /// Image search.
    Images,
    /// Video search.
    Videos,
    /// News search.
    News,
    /// Podcast search.
    Podcasts,
}

/// API response formats supported by Kagi.
#[derive(Clone, Copy, Debug, PartialEq, Eq, Structural)]
pub enum ApiFormat {
    /// JSON response format.
    Json,
    /// Markdown response format.
    Markdown,
}

/// Relative time filters supported by Kagi lenses.
#[derive(Clone, Copy, Debug, PartialEq, Eq, Structural)]
pub enum TimeRelative {
    /// Updated or published in the last day.
    Day,
    /// Updated or published in the last week.
    Week,
    /// Updated or published in the last month.
    Month,
}

impl Workflow {
    /// The API string of a workflow.
    pub open spec fn api_value(self) -> &'static str {
        match self {
            Workflow::Search => "search",
            Workflow::Images => "images",
            Workflow::Videos => "videos",
            Workflow::News => "news",
            Workflow::Podcasts => "podcasts",
        }
    }

    /// Returns the API string for the workflow.
    pub fn as_api_value(&self) -> (s: &'static str)
        ensures
            s == self.api_value(),
    {
        match self {
            Workflow::Search => "search",
            Workflow::Images => "images",
            Workflow::Videos => "videos",
            Workflow::News => "news",
            Workflow::Podcasts => "podcasts",
        }
    }
}

impl ApiFormat {
    /// The API string of a response format.
    pub open spec fn api_value(self) -> &'static str {
        match self {
            ApiFormat::Json => "json",
            ApiFormat::Markdown => "markdown",
        }
    }

    /// Returns the API string for the response format.
    pub fn as_api_value(&self) -> (s: &'static str)
        ensures
            s == self.api_value(),
    {
        match self {
            ApiFormat::Json => "json",
            ApiFormat::Markdown => "markdown",
        }
    }
}

impl TimeRelative {
    /// The API string of a relative time filter.
    pub open spec fn api_value(self) -> &'static str {
        match self {
            TimeRelative::Day => "day",
            TimeRelative::Week => "week",
            TimeRelative::Month => "month",
        }
    }

    /// Returns the API string for the relative time filter.
    pub fn as_api_value(&self) -> (s: &'static str)
        ensures
            s == self.api_value(),
    {
        match self {
            TimeRelative::Day => "day",
            TimeRelative::Week => "week",
            TimeRelative::Month => "month",
        }
    }
}

} // verus!
