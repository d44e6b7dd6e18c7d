//! Validation and labeling of extracted pages used as answer sources.

use vstd::prelude::*;

use crate::perplexity::{join, join_strings, opt_chars};
use crate::response::KagiResponse;
use crate::text::{blank, is_blank, string_of};

verus! {

/// The failure of a JSON decoder, as `serde_json` reports it.
#[verifier::external_type_specification]
#[verifier::external_body]
pub struct ExSerdeJsonError(serde_json::Error);

/// Errors that prevent answering from a complete set of sources.
#[derive(Debug)]
pub enum SourceError {
    /// The extraction response could not be decoded.
    InvalidJson {
        /// Underlying decode failure.
        source: serde_json::Error,
    },
    /// The endpoint reported an extraction error.
    Extraction {
        /// Kagi's namespaced error code.
        code: String,
        /// Provider explanation, when available.
        message: String,
    },
    /// The endpoint did not return every requested page.
    MissingPages {
        /// Number of requested pages.
        expected: usize,
        /// Number of returned pages.
        received: usize,
    },
    /// A page failed extraction or contained no usable content.
    Page {
        /// URL of the failed source.
        url: String,
        /// Extraction failure or validation diagnostic.
        message: String,
    },
}

/// A source error as mathematical values.
pub enum SourceErrorView {
    InvalidJson,
    Extraction { code: Seq<char>, message: Seq<char> },
    MissingPages { expected: usize, received: usize },
    Page { url: Seq<char>, message: Seq<char> },
}

impl View for SourceError {
    type V = SourceErrorView;

    open spec fn view(&self) -> SourceErrorView {
        match self {
            SourceError::InvalidJson { .. } => SourceErrorView::InvalidJson,
            SourceError::Extraction { code, message } => SourceErrorView::Extraction {
                code: code@,
                message: message@,
            },
            SourceError::MissingPages { expected, received } => SourceErrorView::MissingPages {
                expected: *expected,
                received: *received,
            },
            SourceError::Page { url, message } => SourceErrorView::Page {
                url: url@,
                message: message@,
            },
        }
    }
}

/// Content or failure returned for an individual source.
pub struct Page {
    /// URL associated with the extracted content.
    pub url: String,
    /// Extracted page text.
    pub markdown: Option<String>,
    /// Explanation of an extraction failure.
    pub error: Option<String>,
}

/// A page as mathematical values.
pub struct PageView {
    pub url: Seq<char>,
    pub markdown: Option<Seq<char>>,
    pub error: Option<Seq<char>>,
}

impl View for Page {
    type V = PageView;

    open spec fn view(&self) -> PageView {
        PageView { url: self.url@, markdown: opt_chars(self.markdown), error: opt_chars(self.error) }
    }
}

/// Labeled source text and its matching citation references.
pub struct Sources {
    /// Markdown shared by the prompt and saved source file.
    pub markdown: String,
    /// Numbered URLs derived from extraction metadata.
    pub references: String,
}

/// The decimal digits of `n`.
pub open spec fn decimal(n: nat) -> Seq<char>
    decreases n,
{
    if n < 10 {
        seq![digit(n)]
    } else {
        decimal(n / 10).push(digit(n % 10))
    }
}

/// The character of a decimal digit.
pub open spec fn digit(d: nat) -> char {
    ((d + 48) as u8) as char
}

/// The decimal representation of `n`.
pub fn decimal_string(n: usize) -> (s: String)
    ensures
        s@ == decimal(n as nat),
    decreases n,
{
    let d = ((n % 10) as u8 + 48u8) as char;
    let mut one: Vec<char> = Vec::new();
    one.push(d);
    let last = string_of(one.as_slice());
    if n < 10 {
        assert(one@ =~= seq![digit(n as nat)]);
        last
    } else {
        let mut s = decimal_string(n / 10);
        s.append(last.as_str());
        assert(s@ =~= decimal((n / 10) as nat).push(digit((n % 10) as nat)));
        s
    }
}

/// Whether a page cannot serve as a source: it reports an error, or has no
/// text besides white space.
pub open spec fn page_fails(p: PageView) -> bool {
    p.error is Some || match p.markdown {
        Some(m) => is_blank(m),
        None => true,
    }
}

/// The text of a usable page.
pub open spec fn page_content(p: PageView) -> Seq<char> {
    match p.markdown {
        Some(m) => m,
        None => seq![],
    }
}

/// The error for a failing page: its own report, or a note that it has no content.
pub open spec fn page_error(p: PageView) -> SourceErrorView {
    match p.error {
        Some(message) => SourceErrorView::Page { url: p.url, message: message },
        None => SourceErrorView::Page { url: p.url, message: "no extracted content"@ },
    }
}

/// The reference line of the `i`-th page (counted from 0).
pub open spec fn reference_line(i: nat, url: Seq<char>) -> Seq<char> {
    "["@ + decimal(i + 1) + "] "@ + url
}

/// The labeled block of the `i`-th page (counted from 0).
pub open spec fn source_block(i: nat, url: Seq<char>, content: Seq<char>) -> Seq<char> {
    "# Source ["@ + decimal(i + 1) + "]\n\nURL: "@ + url + "\n\n"@ + content
}

/// The reference lines of all pages.
pub open spec fn reference_lines(pages: Seq<PageView>) -> Seq<Seq<char>> {
    Seq::new(pages.len(), |i: int| reference_line(i as nat, pages[i].url))
}

/// The labeled blocks of all pages.
pub open spec fn source_blocks(pages: Seq<PageView>) -> Seq<Seq<char>> {
    Seq::new(pages.len(), |i: int| source_block(i as nat, pages[i].url, page_content(pages[i])))
}

/// The pages of a response, none when absent.
pub open spec fn pages_of(r: KagiResponse<Vec<Page>>) -> Seq<PageView> {
    match r.data {
        Some(p) => p@.map_values(|x: Page| x@),
        None => seq![],
    }
}

/// What the preparation of a decoded response must give: the first reported
/// error, else a page count mismatch, else the first unusable page, else the
/// labeled sources and references, numbered in extraction order.
pub open spec fn prepared(r: KagiResponse<Vec<Page>>, expected: usize) -> Result<(Seq<char>, Seq<char>), SourceErrorView> {
    let errors = r.error_list();
    let pages = pages_of(r);
    if errors.len() > 0 {
        Err(SourceErrorView::Extraction {
            code: errors[0].code@,
            message: match errors[0].message {
                Some(m) => m@,
                None => seq![],
            },
        })
    } else if pages.len() != expected {
        Err(SourceErrorView::MissingPages { expected: expected, received: pages.len() as usize })
    } else if exists|i: int| 0 <= i < pages.len() && page_fails(#[trigger] pages[i]) {
        let i = choose|i: int| 0 <= i < pages.len() && page_fails(#[trigger] pages[i]) && forall|j: int| 0 <= j < i ==> !page_fails(#[trigger] pages[j]);
        Err(page_error(pages[i]))
    } else {
        Ok((join(source_blocks(pages), "\n\n"@), join(reference_lines(pages), "\n"@)))
    }
}

/// Copies an optional string, empty when absent.
fn text_or_empty(o: &Option<String>) -> (s: String)
    ensures
        s@ == match opt_chars(*o) {
            Some(t) => t,
            None => Seq::<char>::empty(),
        },
{
    match o {
        Some(t) => t.clone(),
        None => String::new(),
    }
}

/// Validates the outcome of decoding an extraction response: a body that could
/// not be decoded is invalid JSON; a decoded one is prepared as by `prepare`.
pub fn prepare_decoded(
    decoded: Result<KagiResponse<Vec<Page>>, serde_json::Error>,
    expected: usize,
) -> (r: Result<Sources, SourceError>)
    ensures
        decoded is Err ==> (r matches Err(e) && e@ == SourceErrorView::InvalidJson),
        decoded matches Ok(response) ==> match r {
            Ok(s) => prepared(response, expected) == Ok::<(Seq<char>, Seq<char>), SourceErrorView>(
                (s.markdown@, s.references@),
            ),
            Err(e) => prepared(response, expected) == Err::<(Seq<char>, Seq<char>), SourceErrorView>(
                e@,
            ),
        },
{
    match decoded {
        Err(source) => Err(SourceError::InvalidJson { source }),
        Ok(response) => prepare(response, expected),
    }
}

/// Validates decoded pages and labels their content and URLs with matching identifiers.
#[verifier::loop_isolation(false)]
pub fn prepare(response: KagiResponse<Vec<Page>>, expected: usize) -> (r: Result<Sources, SourceError>)
    ensures
        match r {
            Ok(s) => prepared(response, expected) == Ok::<(Seq<char>, Seq<char>), SourceErrorView>(
                (s.markdown@, s.references@),
            ),
            Err(e) => prepared(response, expected) == Err::<(Seq<char>, Seq<char>), SourceErrorView>(
                e@,
            ),
        },
{
    let ghost pv = pages_of(response);
    match &response.errors {
        Some(errors) => {
            if errors.len() > 0 {
                return Err(
                    SourceError::Extraction {
                        code: errors[0].code.clone(),
                        message: text_or_empty(&errors[0].message),
                    },
                );
            }
        },
        None => {},
    }
    let empty: Vec<Page> = Vec::new();
    let pages: &Vec<Page> = match &response.data {
        Some(p) => p,
        None => &empty,
    };
    assert(pages@.map_values(|x: Page| x@) =~= pv);
    if pages.len() != expected {
        return Err(SourceError::MissingPages { expected: expected, received: pages.len() });
    }
    let mut blocks: Vec<String> = Vec::new();
    let mut refs: Vec<String> = Vec::new();
    let mut i: usize = 0;
    while i < pages.len()
        invariant
            i <= pages@.len(),
            pv.len() == pages@.len(),
            forall|j: int| 0 <= j < pv.len() ==> #[trigger] pv[j] == pages@[j]@,
            forall|j: int| 0 <= j < i ==> !page_fails(#[trigger] pv[j]),
            blocks.deep_view() =~= source_blocks(pv).take(i as int),
            refs.deep_view() =~= reference_lines(pv).take(i as int),
        decreases pages@.len() - i,
    {
        let page = &pages[i];
        assert(pv[i as int] == page@);
        match &page.error {
            Some(message) => {
                proof {
                    assert(page_fails(pv[i as int]));
                    let k = choose|k: int|
                        0 <= k < pv.len() && page_fails(#[trigger] pv[k]) && forall|j: int|
                            0 <= j < k ==> !page_fails(#[trigger] pv[j]);
                    assert(k == i);
                }
                return Err(SourceError::Page { url: page.url.clone(), message: message.clone() });
            },
            None => {},
        }
        let usable = match &page.markdown {
            Some(m) => !blank(m.as_str()),
            None => false,
        };
        if !usable {
            proof {
                assert(page_fails(pv[i as int]));
                let k = choose|k: int|
                    0 <= k < pv.len() && page_fails(#[trigger] pv[k]) && forall|j: int|
                        0 <= j < k ==> !page_fails(#[trigger] pv[j]);
                assert(k == i);
            }
            let mut message = String::new();
            message.append("no extracted content");
            return Err(SourceError::Page { url: page.url.clone(), message: message });
        }
        let number = decimal_string(i + 1);
        let mut line = String::new();
        line.append("[");
        line.append(number.as_str());
        line.append("] ");
        line.append(page.url.as_str());
        assert(line@ =~= reference_line(i as nat, pv[i as int].url));
        let mut block = String::new();
        block.append("# Source [");
        block.append(number.as_str());
        block.append("]\n\nURL: ");
        block.append(page.url.as_str());
        block.append("\n\n");
        let content = text_or_empty(&page.markdown);
        block.append(content.as_str());
        assert(block@ =~= source_block(i as nat, pv[i as int].url, page_content(pv[i as int])));
        let ghost rb = refs.deep_view();
        let ghost bb = blocks.deep_view();
        let ghost lv = line@;
        let ghost bv = block@;
        refs.push(line);
        blocks.push(block);
        assert(refs.deep_view() =~= rb.push(lv));
        assert(blocks.deep_view() =~= bb.push(bv));
        assert(reference_lines(pv).take(i + 1) =~= reference_lines(pv).take(i as int).push(lv));
        assert(source_blocks(pv).take(i + 1) =~= source_blocks(pv).take(i as int).push(bv));
        i += 1;
    }
    assert(reference_lines(pv).take(pv.len() as int) =~= reference_lines(pv));
    assert(source_blocks(pv).take(pv.len() as int) =~= source_blocks(pv));
    Ok(Sources { markdown: join_strings(&blocks, "\n\n"), references: join_strings(&refs, "\n") })
}

/// Answers are only prepared from complete, usable extractions: no reported
/// error, exactly the expected number of pages, and text on every page.
pub proof fn law_sources_complete(r: KagiResponse<Vec<Page>>, expected: usize)
    requires
        prepared(r, expected) is Ok,
    ensures
        r.error_list().len() == 0,
        pages_of(r).len() == expected,
        forall|i: int|
            0 <= i < pages_of(r).len() ==> ((#[trigger] pages_of(r)[i]).error is None
                && (pages_of(r)[i].markdown matches Some(m) && !is_blank(m))),
{
    assert forall|i: int| 0 <= i < pages_of(r).len() implies ((#[trigger] pages_of(r)[i]).error is None
        && (pages_of(r)[i].markdown matches Some(m) && !is_blank(m))) by {
        assert(!page_fails(pages_of(r)[i]));
    }
}

/// Source identifiers come from extraction order and URLs alone: two responses
/// whose pages have the same URLs, in the same order, get the same references,
/// whatever the pages contain.
pub proof fn law_references_from_urls_only(
    r1: KagiResponse<Vec<Page>>,
    r2: KagiResponse<Vec<Page>>,
    expected: usize,
)
    requires
        prepared(r1, expected) is Ok,
        prepared(r2, expected) is Ok,
        pages_of(r1).len() == pages_of(r2).len(),
        forall|i: int| 0 <= i < pages_of(r1).len() ==> (#[trigger] pages_of(r1)[i]).url == pages_of(r2)[i].url,
    ensures
        prepared(r1, expected)->Ok_0.1 == prepared(r2, expected)->Ok_0.1,
{
    assert(reference_lines(pages_of(r1)) =~= reference_lines(pages_of(r2)));
}

/// The `i`-th reference line names the `i`-th extracted page, numbered from 1.
pub proof fn law_reference_lines_numbered(pages: Seq<PageView>, i: int)
    requires
        0 <= i < pages.len(),
    ensures
        reference_lines(pages)[i] == "["@ + decimal((i + 1) as nat) + "] "@ + pages[i].url,
        source_blocks(pages)[i] == "# Source ["@ + decimal((i + 1) as nat) + "]\n\nURL: "@ + pages[i].url
            + "\n\n"@ + page_content(pages[i]),
{
}

} // verus!
