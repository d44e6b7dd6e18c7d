//! The question-answering assistant: prompts, the chat request sent to an
//! OpenAI-compatible Chat Completions API, and which replies count as answers.

use vstd::prelude::*;

use crate::client::{endpoint, is_success, trim_slashes};
use crate::json::{json_array, Json, JsonObject, JsonValue};
use crate::text::{
    blank, is_blank, is_white_space, lemma_trim_bounds, lemma_trim_keeps_non_blank, trim, trim_end, trimmed,
};

verus! {

/// Largest combined size, in bytes of UTF-8 text, of the sources and the question.
pub const MAX_INPUT_BYTES: usize = 1048576;

/// Completion budget of a chat request, reasoning included.
pub const MAX_COMPLETION_TOKENS: u64 = 8192;

/// Deadline in seconds of a chat request.
pub const CHAT_TIMEOUT_SECS: u64 = 120;

/// Chat API base URL used when none is configured.
pub const DEFAULT_CHAT_BASE_URL: &'static str = "https://api.openai.com/v1";

/// Instructions sent as the system message of every chat request.
pub const SYSTEM_PROMPT: &'static str = "Answer the question using only the numbered sources. Cite the source identifiers, such as [1], that support each statement, and include supporting quotes. Reproduce figures, quotes and code exactly as they appear. If the sources do not contain the answer, say so plainly instead of guessing or using prior knowledge.";

/// Errors raised while asking the assistant.
#[derive(Debug)]
#[allow(inconsistent_fields)]
pub enum AssistantError {
    /// No chat model is configured.
    MissingModel,
    /// The sources and the question together exceed the input limit.
    TooLarge {
        /// Largest accepted size in bytes.
        limit: usize,
    },
    /// The chat request could not be sent or its reply not received.
    Http {
        /// Underlying HTTP client error.
        source: reqwest::Error,
    },
    /// The chat API answered with a non-success status.
    Status {
        /// HTTP status code.
        status: u16,
        /// Response body.
        body: String,
    },
    /// The reply was not a chat completion.
    InvalidResponse {
        /// Underlying decode failure.
        source: serde_json::Error,
    },
    /// The reply held no choice.
    NoChoice,
    /// The model asked to call a tool instead of answering.
    ToolCall,
    /// The model refused to answer.
    Refused {
        /// The model's explanation, when it gave one.
        refusal: String,
    },
    /// The answer stopped before it was complete.
    Incomplete {
        /// Why the model stopped, when it said.
        finish_reason: String,
    },
    /// The answer had no text.
    EmptyAnswer,
}

/// Where to send chat requests, and as whom.
pub struct ChatConfig {
    /// URL of the chat completions endpoint.
    pub endpoint: String,
    /// Model to ask.
    pub model: String,
    /// Bearer token, for providers that require one.
    pub api_key: Option<String>,
}

/// The configuration for a base URL, a model and an optional key: the base URL
/// defaults to the OpenAI API, and a model must be named.
pub fn chat_config(base_url: Option<String>, model: Option<String>, api_key: Option<String>) -> (r:
    Result<ChatConfig, AssistantError>)
    ensures
        (model matches Some(m) && !is_blank(m@)) ==> (r matches Ok(c) && c.model@ == model->0@
            && c.api_key == api_key && c.endpoint@ == trim_slashes(
            match base_url {
                Some(b) => b@,
                None => DEFAULT_CHAT_BASE_URL@,
            },
        ) + "/chat/completions"@),
        !(model matches Some(m) && !is_blank(m@)) ==> (r matches Err(AssistantError::MissingModel)),
{
    let model = match model {
        Some(m) => m,
        None => {
            return Err(AssistantError::MissingModel);
        },
    };
    if blank(model.as_str()) {
        return Err(AssistantError::MissingModel);
    }
    let url = match &base_url {
        Some(b) => endpoint(b.as_str(), "/chat/completions"),
        None => endpoint(DEFAULT_CHAT_BASE_URL, "/chat/completions"),
    };
    Ok(ChatConfig { endpoint: url, model: model, api_key: api_key })
}

/// The size in bytes of the UTF-8 text of a question and its sources.
pub open spec fn input_bytes(question: &str, sources: &str) -> int {
    question.len() + sources.len()
}

/// The user message: the question, then the sources.
pub open spec fn user_content(question: Seq<char>, sources: Seq<char>) -> Seq<char> {
    "Question:\n"@ + question + "\n\nSources:\n"@ + sources
}

/// A chat message.
pub open spec fn message(role: Seq<char>, content: Seq<char>) -> Json {
    Json::Object(
        Map::<Seq<char>, Json>::empty().insert("role"@, Json::Text(role)).insert(
            "content"@,
            Json::Text(content),
        ),
    )
}

/// The chat request for a question: the model, no streaming, the completion
/// budget, no tools, and two messages, the fixed instructions and then the
/// question with its sources.
pub open spec fn chat_request_json(model: Seq<char>, question: Seq<char>, sources: Seq<char>) -> Json {
    Json::Object(
        Map::<Seq<char>, Json>::empty().insert("model"@, Json::Text(model)).insert(
            "stream"@,
            Json::Bool(false),
        ).insert("max_completion_tokens"@, Json::Integer(MAX_COMPLETION_TOKENS)).insert(
            "messages"@,
            Json::Array(
                seq![message("system"@, SYSTEM_PROMPT@), message("user"@, user_content(question, sources))],
            ),
        ),
    )
}

/// A chat message as a value.
fn message_value(role: &str, content: String) -> (v: JsonValue)
    ensures
        v@ == message(role@, content@),
{
    let mut o = JsonObject::new();
    o.insert(role_key(), JsonValue::Text(role.to_owned()));
    o.insert("content".to_owned(), JsonValue::Text(content));
    JsonValue::Object(o)
}

/// The key of a message's role.
fn role_key() -> (k: String)
    ensures
        k@ == "role"@,
{
    "role".to_owned()
}

/// Builds the chat request for a question about sources, refusing input larger
/// than the limit before anything is sent; nothing is truncated.
pub fn chat_request(model: &str, question: &str, sources: &str) -> (r: Result<JsonValue, AssistantError>)
    ensures
        input_bytes(question, sources) > MAX_INPUT_BYTES ==> (r matches Err(
            AssistantError::TooLarge { limit },
        ) && limit == MAX_INPUT_BYTES),
        input_bytes(question, sources) <= MAX_INPUT_BYTES ==> (r matches Ok(v) && v@
            == chat_request_json(model@, question@, sources@)),
{
    let sources_len = sources.len();
    let question_len = question.len();
    if sources_len > MAX_INPUT_BYTES || question_len > MAX_INPUT_BYTES - sources_len {
        return Err(AssistantError::TooLarge { limit: MAX_INPUT_BYTES });
    }
    let mut user = "Question:\n".to_owned();
    user.append(question);
    user.append("\n\nSources:\n");
    user.append(sources);
    assert(user@ =~= user_content(question@, sources@));
    let mut messages: Vec<JsonValue> = Vec::new();
    messages.push(message_value("system", SYSTEM_PROMPT.to_owned()));
    messages.push(message_value("user", user));
    let ghost mv = messages@;
    let arr = json_array(messages);
    assert(Seq::new(mv.len(), |i: int| mv[i]@) =~= seq![
        message("system"@, SYSTEM_PROMPT@),
        message("user"@, user_content(question@, sources@)),
    ]);
    let mut body = JsonObject::new();
    body.insert("model".to_owned(), JsonValue::Text(model.to_owned()));
    body.insert("stream".to_owned(), JsonValue::Bool(false));
    body.insert("max_completion_tokens".to_owned(), JsonValue::Integer(MAX_COMPLETION_TOKENS));
    body.insert("messages".to_owned(), arr);
    Ok(JsonValue::Object(body))
}

/// Accepts a chat reply body only with a successful status.
pub fn check_chat_status(status: u16, body: String) -> (r: Result<String, AssistantError>)
    ensures
        is_success(status) ==> r == Ok::<String, AssistantError>(body),
        !is_success(status) ==> r == Err::<String, AssistantError>(
            AssistantError::Status { status: status, body: body },
        ),
{
    if 200 <= status && status <= 299 {
        Ok(body)
    } else {
        Err(AssistantError::Status { status: status, body: body })
    }
}

/// A decoded chat completion, as far as answering reads it.
pub struct ChatReply {
    /// The completion choices, of which the first is the answer.
    pub choices: Vec<ChatChoice>,
}

/// One completion choice.
pub struct ChatChoice {
    /// Why the model stopped.
    pub finish_reason: Option<String>,
    /// The text of the message.
    pub content: Option<String>,
    /// The model's refusal, when it refused.
    pub refusal: Option<String>,
    /// How many tool calls the message asks for.
    pub tool_calls: usize,
}

/// Why a reply is not an answer.
pub enum ReplyFault {
    NoChoice,
    ToolCall,
    Refused(Seq<char>),
    Incomplete(Seq<char>),
    EmptyAnswer,
}

/// The characters of an optional string, empty when absent.
pub open spec fn text_or_empty(o: Option<String>) -> Seq<char> {
    match o {
        Some(s) => s@,
        None => seq![],
    }
}

/// Whether an optional string holds exactly `s`.
pub open spec fn is_text(o: Option<String>, s: Seq<char>) -> bool {
    o matches Some(t) && t@ == s
}

/// What a reply gives: the first choice's trimmed text, unless the reply has no
/// choice, asks for a tool, refuses (by a refusal or a content filter), stopped
/// for any reason other than finishing, or has no text besides white space.
pub open spec fn reply_outcome(reply: ChatReply) -> Result<Seq<char>, ReplyFault> {
    if reply.choices@.len() == 0 {
        Err(ReplyFault::NoChoice)
    } else {
        let c = reply.choices@[0];
        if c.tool_calls > 0 || is_text(c.finish_reason, "tool_calls"@) {
            Err(ReplyFault::ToolCall)
        } else if (c.refusal matches Some(r) && !is_blank(r@)) || is_text(
            c.finish_reason,
            "content_filter"@,
        ) {
            Err(ReplyFault::Refused(text_or_empty(c.refusal)))
        } else if !is_text(c.finish_reason, "stop"@) {
            Err(ReplyFault::Incomplete(text_or_empty(c.finish_reason)))
        } else if !(c.content matches Some(t) && !is_blank(t@)) {
            Err(ReplyFault::EmptyAnswer)
        } else {
            Ok(trim(text_or_empty(c.content)))
        }
    }
}

/// The fault an error reports about a reply, if it is one.
pub open spec fn fault_of(e: AssistantError) -> Option<ReplyFault> {
    match e {
        AssistantError::NoChoice => Some(ReplyFault::NoChoice),
        AssistantError::ToolCall => Some(ReplyFault::ToolCall),
        AssistantError::Refused { refusal } => Some(ReplyFault::Refused(refusal@)),
        AssistantError::Incomplete { finish_reason } => Some(ReplyFault::Incomplete(finish_reason@)),
        AssistantError::EmptyAnswer => Some(ReplyFault::EmptyAnswer),
        _ => None,
    }
}

/// Whether an optional string holds exactly the text `s`.
fn holds(o: &Option<String>, s: &str) -> (b: bool)
    ensures
        b == is_text(*o, s@),
{
    match o {
        Some(t) => *t == s.to_owned(),
        None => false,
    }
}

/// Copies an optional string, empty when absent.
fn copy_or_empty(o: &Option<String>) -> (s: String)
    ensures
        s@ == text_or_empty(*o),
{
    match o {
        Some(t) => t.clone(),
        None => String::new(),
    }
}

/// Accepts a decoded chat reply as an answer, or says why it is not one.
pub fn accept_reply(reply: &ChatReply) -> (r: Result<String, AssistantError>)
    ensures
        match reply_outcome(*reply) {
            Ok(answer) => r matches Ok(a) && a@ == answer,
            Err(fault) => r matches Err(e) && fault_of(e) == Some(fault),
        },
{
    if reply.choices.len() == 0 {
        return Err(AssistantError::NoChoice);
    }
    let c = &reply.choices[0];
    if c.tool_calls > 0 || holds(&c.finish_reason, "tool_calls") {
        return Err(AssistantError::ToolCall);
    }
    let refused = match &c.refusal {
        Some(r) => !blank(r.as_str()),
        None => false,
    };
    if refused || holds(&c.finish_reason, "content_filter") {
        return Err(AssistantError::Refused { refusal: copy_or_empty(&c.refusal) });
    }
    if !holds(&c.finish_reason, "stop") {
        return Err(AssistantError::Incomplete { finish_reason: copy_or_empty(&c.finish_reason) });
    }
    match &c.content {
        Some(t) => {
            if blank(t.as_str()) {
                Err(AssistantError::EmptyAnswer)
            } else {
                Ok(trimmed(t.as_str()))
            }
        },
        None => Err(AssistantError::EmptyAnswer),
    }
}

/// The prompt for a document and a question: the document and the question in
/// their own tags, between fixed instructions to answer from the document alone.
pub open spec fn prompt_text(document: Seq<char>, question: Seq<char>) -> Seq<char> {
    "Below is the content of one or more web pages, extracted and converted to Markdown.\n\n<document>\n"@
        + document
        + "\n</document>\n\nAnswer this question about the document:\n\n<question>\n"@
        + question
        + "\n</question>\n\nBase the answer only on the document. Reproduce figures, quotes and code exactly as they appear rather than paraphrasing them. If the document does not contain the answer, say so plainly instead of guessing or falling back on prior knowledge.\n"@
}

/// Builds the prompt instructing the assistant to stay within the document.
pub fn prompt(document: &str, question: &str) -> (p: String)
    ensures
        p@ == prompt_text(document@, question@),
{
    let mut p = String::new();
    p.append(
        "Below is the content of one or more web pages, extracted and converted to Markdown.\n\n<document>\n",
    );
    p.append(document);
    p.append("\n</document>\n\nAnswer this question about the document:\n\n<question>\n");
    p.append(question);
    p.append(
        "\n</question>\n\nBase the answer only on the document. Reproduce figures, quotes and code exactly as they appear rather than paraphrasing them. If the document does not contain the answer, say so plainly instead of guessing or falling back on prior knowledge.\n",
    );
    assert(p@ =~= prompt_text(document@, question@));
    p
}

/// Only complete, non-refused, tool-free replies with text are answers, and
/// an answer is never empty.
pub proof fn law_answers_are_complete_text(reply: ChatReply)
    requires
        reply_outcome(reply) is Ok,
    ensures
        reply.choices@.len() > 0,
        reply.choices@[0].tool_calls == 0,
        is_text(reply.choices@[0].finish_reason, "stop"@),
        !is_text(reply.choices@[0].finish_reason, "content_filter"@),
        reply.choices@[0].content matches Some(t) && !is_blank(t@),
        reply_outcome(reply)->Ok_0.len() > 0,
{
    let t = reply.choices@[0].content->0@;
    lemma_trim_keeps_non_blank(t);
}


/// An accepted answer is the whole text of the first choice less its leading
/// and trailing white space: only white space stands before and after it in
/// that text, and it neither begins nor ends with white space.
pub proof fn law_answer_is_trimmed_content(reply: ChatReply)
    requires
        reply_outcome(reply) is Ok,
    ensures
        reply.choices@.len() > 0,
        reply.choices@[0].content is Some,
        exists|i: int, j: int|
            0 <= i <= j <= reply.choices@[0].content->0@.len() && #[trigger] reply.choices@[0].content->0@.subrange(
                i,
                j,
            ) == reply_outcome(reply)->Ok_0 && is_blank(reply.choices@[0].content->0@.take(i))
                && is_blank(reply.choices@[0].content->0@.skip(j)),
        reply_outcome(reply)->Ok_0.len() > 0,
        !is_white_space(reply_outcome(reply)->Ok_0[0]),
        !is_white_space(reply_outcome(reply)->Ok_0.last()),
{
    let t = reply.choices@[0].content->0@;
    lemma_trim_bounds(t);
    let j = trim_end(t).len() as int;
    let i = j - trim(t).len();
    assert(t.subrange(i, j) == reply_outcome(reply)->Ok_0);
}

/// A reply whose first choice finished, asks for no tool, refuses nothing and
/// holds text besides white space is accepted.
pub proof fn law_finished_replies_are_accepted(reply: ChatReply)
    requires
        reply.choices@.len() > 0,
        reply.choices@[0].tool_calls == 0,
        is_text(reply.choices@[0].finish_reason, "stop"@),
        reply.choices@[0].refusal is None,
        reply.choices@[0].content matches Some(t) && !is_blank(t@),
    ensures
        reply_outcome(reply) is Ok,
{
    reveal_strlit("stop");
    reveal_strlit("tool_calls");
    reveal_strlit("content_filter");
    assert("stop"@.len() != "tool_calls"@.len());
    assert("stop"@.len() != "content_filter"@.len());
}

} // verus!
