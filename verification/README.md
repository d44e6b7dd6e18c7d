# kagi

A client for the Kagi Search and Extract APIs, with a Perplexity-compatible
search server, whose request building, validation, result filtering and
merging, and source labeling are verified with Verus.

- `src/` is the verified library:
  - `perplexity.rs` validates Perplexity search requests into Kagi search plans,
    scopes queries to domain lenses, filters results by host name and merges
    result batches; `search_laws.rs` proves properties of all three.
  - `request.rs` builds the bodies of `POST /search` and `POST /extract` from
    command-line options, as values of the JSON model in `json.rs`.
  - `source.rs` checks extracted pages and labels them as numbered sources.
  - `assistant.rs` builds chat requests for questions about pages, refuses
    input over 1 MiB, and accepts only complete, non-refused, tool-free,
    non-empty replies as answers.
  - `client.rs` and `server.rs` hold the decisions of the HTTP client (among
    them the order in which the API key is looked up) and of the search
    endpoint (which upstream request runs next, and when a failure ends the
    search).
  - `text.rs` holds character-level helpers.
- `app/` is the program around it: command-line parsing, HTTP (Kagi and the
  chat API), the server, and JSON encoding and decoding.
- `tests/` runs the library on concrete values.
